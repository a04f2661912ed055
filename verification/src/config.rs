//! The overlay's settings: panel position, palette, visible panels and the
//! optional mail and calendar sources, with the live copy that the running
//! overlay reads.

use vstd::prelude::*;

use crate::text::{trim, trim_seq, str_equals, is_digit, chars_of, all_digits, digits_value, lemma_digits_value_grows};

verus! {

/// Where the panel sits on the screen.
#[derive(Clone, Copy, Debug, PartialEq, Eq, Structural)]
pub enum Position {
    Left,
    Right,
    Top,
    Bottom,
    Center,
}

impl Position {
    /// Top and bottom panels are laid out horizontally.
    pub fn is_horizontal(self) -> (r: bool)
        ensures
            r == (self == Position::Top || self == Position::Bottom),
    {
        match self {
            Position::Top | Position::Bottom => true,
            _ => false,
        }
    }
}

/// The colour palette of the overlay.
#[derive(Clone, Copy, Debug, PartialEq, Eq, Structural)]
pub enum PaletteKind {
    Matrix,
    Turquoise,
    Blue,
    Pink,
    Yellow,
}

/// The title shown for a palette.
pub open spec fn palette_title(kind: PaletteKind) -> Seq<char> {
    match kind {
        PaletteKind::Matrix => "Matrix green"@,
        PaletteKind::Turquoise => "Turquoise"@,
        PaletteKind::Blue => "Blue"@,
        PaletteKind::Pink => "Pink"@,
        PaletteKind::Yellow => "Yellow"@,
    }
}

/// The lower-case name of a palette, as menus and the settings file spell it.
pub open spec fn palette_name(kind: PaletteKind) -> Seq<char> {
    match kind {
        PaletteKind::Matrix => "matrix"@,
        PaletteKind::Turquoise => "turquoise"@,
        PaletteKind::Blue => "blue"@,
        PaletteKind::Pink => "pink"@,
        PaletteKind::Yellow => "yellow"@,
    }
}

/// The palette a menu action names; anything unknown falls back to Matrix.
pub open spec fn palette_for_name(name: Seq<char>) -> PaletteKind {
    if name == "turquoise"@ {
        PaletteKind::Turquoise
    } else if name == "blue"@ {
        PaletteKind::Blue
    } else if name == "pink"@ {
        PaletteKind::Pink
    } else if name == "yellow"@ {
        PaletteKind::Yellow
    } else {
        PaletteKind::Matrix
    }
}

impl PaletteKind {
    /// The human-readable title of the palette.
    pub fn title(self) -> (r: &'static str)
        ensures
            r@ == palette_title(self),
    {
        match self {
            PaletteKind::Matrix => "Matrix green",
            PaletteKind::Turquoise => "Turquoise",
            PaletteKind::Blue => "Blue",
            PaletteKind::Pink => "Pink",
            PaletteKind::Yellow => "Yellow",
        }
    }

    /// The lower-case name used as the target of the palette menu actions.
    pub fn action_name(self) -> (r: &'static str)
        ensures
            r@ == palette_name(self),
    {
        match self {
            PaletteKind::Matrix => "matrix",
            PaletteKind::Turquoise => "turquoise",
            PaletteKind::Blue => "blue",
            PaletteKind::Pink => "pink",
            PaletteKind::Yellow => "yellow",
        }
    }
}

/// The palette chosen by a palette menu action's target.
pub fn palette_from_name(name: &str) -> (r: PaletteKind)
    ensures
        r == palette_for_name(name@),
{
    if str_equals(name, "turquoise") {
        PaletteKind::Turquoise
    } else if str_equals(name, "blue") {
        PaletteKind::Blue
    } else if str_equals(name, "pink") {
        PaletteKind::Pink
    } else if str_equals(name, "yellow") {
        PaletteKind::Yellow
    } else {
        PaletteKind::Matrix
    }
}

/// Naming a palette in a menu action and reading the action back gives the same palette.
pub proof fn lemma_palette_name_round_trip(kind: PaletteKind)
    ensures
        palette_for_name(palette_name(kind)) == kind,
{
    reveal_strlit("matrix");
    reveal_strlit("turquoise");
    reveal_strlit("blue");
    reveal_strlit("pink");
    reveal_strlit("yellow");
    assert("matrix"@.len() != "turquoise"@.len());
    assert("matrix"@[0] != "blue"@[0]);
    assert("matrix"@[0] != "pink"@[0]);
    assert("matrix"@[0] != "yellow"@[0]);
    assert("blue"@.len() != "turquoise"@.len());
    assert("pink"@.len() != "turquoise"@.len());
    assert("pink"@[0] != "blue"@[0]);
    assert("yellow"@.len() != "turquoise"@.len());
    assert("yellow"@[0] != "blue"@[0]);
    assert("yellow"@[0] != "pink"@[0]);
}

/// What an entry of the dock menu does.
#[derive(Clone, Copy, Debug, PartialEq, Eq, Structural)]
pub enum DockChoice {
    Settings,
    Palette(PaletteKind),
}

/// The tag a dock menu entry carries.
pub open spec fn dock_tag_of(choice: DockChoice) -> int {
    match choice {
        DockChoice::Settings => 0,
        DockChoice::Palette(PaletteKind::Matrix) => 1,
        DockChoice::Palette(PaletteKind::Turquoise) => 2,
        DockChoice::Palette(PaletteKind::Blue) => 3,
        DockChoice::Palette(PaletteKind::Pink) => 4,
        DockChoice::Palette(PaletteKind::Yellow) => 5,
    }
}

/// What a dock menu tag asks for: 0 opens the settings, 2 to 5 pick
/// turquoise, blue, pink and yellow, and anything else picks Matrix.
pub open spec fn dock_choice_of(tag: int) -> DockChoice {
    if tag == 0 {
        DockChoice::Settings
    } else if tag == 2 {
        DockChoice::Palette(PaletteKind::Turquoise)
    } else if tag == 3 {
        DockChoice::Palette(PaletteKind::Blue)
    } else if tag == 4 {
        DockChoice::Palette(PaletteKind::Pink)
    } else if tag == 5 {
        DockChoice::Palette(PaletteKind::Yellow)
    } else {
        DockChoice::Palette(PaletteKind::Matrix)
    }
}

/// The tag for a dock menu entry.
pub fn dock_tag(choice: DockChoice) -> (r: isize)
    ensures
        r == dock_tag_of(choice),
{
    match choice {
        DockChoice::Settings => 0,
        DockChoice::Palette(PaletteKind::Matrix) => 1,
        DockChoice::Palette(PaletteKind::Turquoise) => 2,
        DockChoice::Palette(PaletteKind::Blue) => 3,
        DockChoice::Palette(PaletteKind::Pink) => 4,
        DockChoice::Palette(PaletteKind::Yellow) => 5,
    }
}

/// Reads the tag of a picked dock menu entry.
pub fn dock_choice(tag: isize) -> (r: DockChoice)
    ensures
        r == dock_choice_of(tag as int),
{
    match tag {
        0 => DockChoice::Settings,
        2 => DockChoice::Palette(PaletteKind::Turquoise),
        3 => DockChoice::Palette(PaletteKind::Blue),
        4 => DockChoice::Palette(PaletteKind::Pink),
        5 => DockChoice::Palette(PaletteKind::Yellow),
        _ => DockChoice::Palette(PaletteKind::Matrix),
    }
}

/// Every dock menu entry is read back as the entry it is.
pub proof fn lemma_dock_tag_round_trip(choice: DockChoice)
    ensures
        dock_choice_of(dock_tag_of(choice)) == choice,
{
}

/// Which panels the overlay draws.
#[derive(Clone, Copy, Debug, PartialEq, Eq, Structural)]
pub struct Panels {
    pub cpu: bool,
    pub ram: bool,
    pub disk: bool,
    pub network: bool,
    pub mail: bool,
    pub calendar: bool,
    pub weather: bool,
}

/// Every panel is shown.
pub open spec fn all_panels() -> Panels {
    Panels { cpu: true, ram: true, disk: true, network: true, mail: true, calendar: true, weather: true }
}

impl Default for Panels {
    fn default() -> (r: Self)
        ensures
            r == all_panels(),
    {
        Panels { cpu: true, ram: true, disk: true, network: true, mail: true, calendar: true, weather: true }
    }
}

/// A missing panel flag in the settings file means "shown".
pub fn default_true() -> (r: bool)
    ensures
        r,
{
    true
}

/// The IMAP port used when none is given: IMAP over TLS.
pub fn default_imap_port() -> (r: u16)
    ensures
        r == 993,
{
    993
}

/// The inbox mailbox used when none is given.
pub fn default_inbox() -> (r: String)
    ensures
        r@ == "INBOX"@,
{
    "INBOX".to_owned()
}

/// The sent mailbox used when none is given.
pub fn default_sent() -> (r: String)
    ensures
        r@ == "Sent"@,
{
    "Sent".to_owned()
}

/// The overlay's settings.
#[derive(Debug)]
pub struct Config {
    pub position: Position,
    pub palette: PaletteKind,
    pub panels: Panels,
    pub imap_host: String,
    pub imap_port: u16,
    pub imap_user: String,
    pub imap_password: String,
    pub imap_inbox: String,
    pub imap_sent: String,
    pub calendar_ics: String,
}

/// The settings as plain values.
pub struct ConfigView {
    pub position: Position,
    pub palette: PaletteKind,
    pub panels: Panels,
    pub imap_host: Seq<char>,
    pub imap_port: u16,
    pub imap_user: Seq<char>,
    pub imap_password: Seq<char>,
    pub imap_inbox: Seq<char>,
    pub imap_sent: Seq<char>,
    pub calendar_ics: Seq<char>,
}

impl View for Config {
    type V = ConfigView;

    open spec fn view(&self) -> ConfigView {
        ConfigView {
            position: self.position,
            palette: self.palette,
            panels: self.panels,
            imap_host: self.imap_host@,
            imap_port: self.imap_port,
            imap_user: self.imap_user@,
            imap_password: self.imap_password@,
            imap_inbox: self.imap_inbox@,
            imap_sent: self.imap_sent@,
            calendar_ics: self.calendar_ics@,
        }
    }
}

/// The settings used before any are saved: right edge, Matrix palette, every
/// panel, no mail host, port 993, mailboxes `INBOX` and `Sent`, no calendar.
pub open spec fn default_config() -> ConfigView {
    ConfigView {
        position: Position::Right,
        palette: PaletteKind::Matrix,
        panels: all_panels(),
        imap_host: Seq::empty(),
        imap_port: 993,
        imap_user: Seq::empty(),
        imap_password: Seq::empty(),
        imap_inbox: "INBOX"@,
        imap_sent: "Sent"@,
        calendar_ics: Seq::empty(),
    }
}

impl Default for Config {
    fn default() -> (r: Self)
        ensures
            r@ == default_config(),
    {
        Config {
            position: Position::Right,
            palette: PaletteKind::Matrix,
            panels: Panels::default(),
            imap_host: String::new(),
            imap_port: default_imap_port(),
            imap_user: String::new(),
            imap_password: String::new(),
            imap_inbox: default_inbox(),
            imap_sent: default_sent(),
            calendar_ics: String::new(),
        }
    }
}

impl Clone for Config {
    fn clone(&self) -> (r: Self)
        ensures
            r@ == self@,
    {
        Config {
            position: self.position,
            palette: self.palette,
            panels: self.panels,
            imap_host: self.imap_host.clone(),
            imap_port: self.imap_port,
            imap_user: self.imap_user.clone(),
            imap_password: self.imap_password.clone(),
            imap_inbox: self.imap_inbox.clone(),
            imap_sent: self.imap_sent.clone(),
            calendar_ics: self.calendar_ics.clone(),
        }
    }
}

/// Mail is fetched over IMAP only when both a host and a user are given.
pub open spec fn mail_configured(c: ConfigView) -> bool {
    trim_seq(c.imap_host).len() > 0 && trim_seq(c.imap_user).len() > 0
}

impl Config {
    /// Both the IMAP host and user hold more than whitespace.
    pub fn mail_ready(&self) -> (r: bool)
        ensures
            r == mail_configured(self@),
    {
        !trim(self.imap_host.as_str()).is_empty() && !trim(self.imap_user.as_str()).is_empty()
    }
}

/// The settings that the running overlay reads; settings windows and menus write it.
pub struct LiveSlot {
    config: Config,
}

impl View for LiveSlot {
    type V = ConfigView;

    closed spec fn view(&self) -> ConfigView {
        self.config@
    }
}

/// The live settings, starting from the saved ones or, when none could be
/// loaded, from the defaults.
pub fn live_slot(loaded: Option<Config>) -> (slot: LiveSlot)
    ensures
        slot@ == (match loaded {
            Some(c) => c@,
            None => default_config(),
        }),
{
    match loaded {
        Some(config) => LiveSlot { config },
        None => LiveSlot { config: Config::default() },
    }
}

/// Replaces the live settings; a later `current_config` gives them back.
pub fn store_live(slot: &mut LiveSlot, config: &Config)
    ensures
        final(slot)@ == config@,
{
    slot.config = config.clone();
}

/// A copy of the live settings.
pub fn current_config(slot: &LiveSlot) -> (c: Config)
    ensures
        c@ == slot@,
{
    slot.config.clone()
}

/// The position picked in the settings window: the first checked choice, else right.
pub open spec fn chosen_position(left: bool, right: bool, top: bool, bottom: bool, center: bool) -> Position {
    if left {
        Position::Left
    } else if right {
        Position::Right
    } else if top {
        Position::Top
    } else if bottom {
        Position::Bottom
    } else if center {
        Position::Center
    } else {
        Position::Right
    }
}

/// Whenever any position box is checked, the position read is one whose box
/// is checked (so a single checked box gives its own position); with none
/// checked the panel goes right.
pub proof fn lemma_chosen_position_is_checked(left: bool, right: bool, top: bool, bottom: bool, center: bool)
    ensures
        (left || right || top || bottom || center) ==> match chosen_position(left, right, top, bottom, center) {
            Position::Left => left,
            Position::Right => right,
            Position::Top => top,
            Position::Bottom => bottom,
            Position::Center => center,
        },
        !(left || right || top || bottom || center) ==> chosen_position(left, right, top, bottom, center)
            == Position::Right,
{
}

/// Reads the position radio buttons of the settings window.
pub fn position_from_choices(left: bool, right: bool, top: bool, bottom: bool, center: bool) -> (r: Position)
    ensures
        r == chosen_position(left, right, top, bottom, center),
{
    if left {
        Position::Left
    } else if right {
        Position::Right
    } else if top {
        Position::Top
    } else if bottom {
        Position::Bottom
    } else if center {
        Position::Center
    } else {
        Position::Right
    }
}

/// The palette picked in the settings window: the first checked choice, else Matrix.
pub open spec fn chosen_palette(matrix: bool, turquoise: bool, blue: bool, pink: bool, yellow: bool) -> PaletteKind {
    if matrix {
        PaletteKind::Matrix
    } else if turquoise {
        PaletteKind::Turquoise
    } else if blue {
        PaletteKind::Blue
    } else if pink {
        PaletteKind::Pink
    } else if yellow {
        PaletteKind::Yellow
    } else {
        PaletteKind::Matrix
    }
}

/// Whenever any palette box is checked, the palette read is one whose box is
/// checked (so a single checked box gives its own palette); with none checked
/// the palette is Matrix.
pub proof fn lemma_chosen_palette_is_checked(matrix: bool, turquoise: bool, blue: bool, pink: bool, yellow: bool)
    ensures
        (matrix || turquoise || blue || pink || yellow) ==> match chosen_palette(matrix, turquoise, blue, pink, yellow) {
            PaletteKind::Matrix => matrix,
            PaletteKind::Turquoise => turquoise,
            PaletteKind::Blue => blue,
            PaletteKind::Pink => pink,
            PaletteKind::Yellow => yellow,
        },
        !(matrix || turquoise || blue || pink || yellow) ==> chosen_palette(matrix, turquoise, blue, pink, yellow)
            == PaletteKind::Matrix,
{
}

/// Reads the palette radio buttons of the settings window.
pub fn palette_from_choices(matrix: bool, turquoise: bool, blue: bool, pink: bool, yellow: bool) -> (r: PaletteKind)
    ensures
        r == chosen_palette(matrix, turquoise, blue, pink, yellow),
{
    if matrix {
        PaletteKind::Matrix
    } else if turquoise {
        PaletteKind::Turquoise
    } else if blue {
        PaletteKind::Blue
    } else if pink {
        PaletteKind::Pink
    } else if yellow {
        PaletteKind::Yellow
    } else {
        PaletteKind::Matrix
    }
}

/// What `u16::from_str` accepts: an optional `+`, then at least one digit,
/// nothing else, and a value that fits.
pub open spec fn parsed_u16(s: Seq<char>) -> Option<u16> {
    let body = if s.len() > 0 && s[0] == '+' { s.drop_first() } else { s };
    if body.len() > 0 && all_digits(body) && digits_value(body) <= u16::MAX {
        Some(digits_value(body) as u16)
    } else {
        None
    }
}

/// The IMAP port typed in the settings window; anything `u16` does not accept gives 993.
pub fn parse_port(text: &str) -> (r: u16)
    ensures
        r == (match parsed_u16(text@) {
            Some(p) => p,
            None => 993u16,
        }),
{
    let v = chars_of(text);
    let n = v.len();
    let start: usize = if n > 0 && v[0] == '+' { 1 } else { 0 };
    let ghost body = if text@.len() > 0 && text@[0] == '+' { text@.drop_first() } else { text@ };
    assert(body =~= text@.skip(start as int));
    if start == n {
        return 993;
    }
    let mut value: u64 = 0;
    let mut i: usize = start;
    while i < n
        invariant
            v@ == text@,
            n == v@.len(),
            start <= i <= n,
            body == text@.skip(start as int),
            body == (if text@.len() > 0 && text@[0] == '+' { text@.drop_first() } else { text@ }),
            all_digits(body.take(i - start)),
            value == digits_value(body.take(i - start)),
            value <= u16::MAX,
        decreases n - i,
    {
        let c = v[i];
        if !('0' <= c && c <= '9') {
            assert(!is_digit(body[i - start]));
            assert(!all_digits(body));
            assert(parsed_u16(text@) is None);
            return 993;
        }
        let d = (c as u64) - ('0' as u64);
        assert(body.take(i + 1 - start).drop_last() =~= body.take(i - start));
        assert(body.take(i + 1 - start).last() == c);
        value = value * 10 + d;
        i = i + 1;
        if value > 65535 {
            proof {
                lemma_digits_value_grows(body, i - start);
            }
            assert(digits_value(body) > u16::MAX);
            assert(parsed_u16(text@) is None);
            return 993;
        }
    }
    assert(body.take(n - start) =~= body);
    value as u16
}


/// The decimal form of a number is all digits and reads back as that number.
pub proof fn lemma_decimal_digits(n: nat)
    ensures
        crate::text::decimal(n).len() > 0,
        all_digits(crate::text::decimal(n)),
        digits_value(crate::text::decimal(n)) == n,
    decreases n,
{
    let d = crate::text::decimal(n);
    crate::text::lemma_digit_char(n % 10);
    if n < 10 {
        assert(d.drop_last() =~= Seq::<char>::empty());
        assert(d.last() == crate::text::digit_char(n));
        assert(digits_value(d) == digits_value(d.drop_last()) * 10 + crate::text::digit_value(d.last()));
    } else {
        lemma_decimal_digits(n / 10);
        assert(d.drop_last() =~= crate::text::decimal(n / 10));
        assert(d.last() == crate::text::digit_char(n % 10));
        assert(digits_value(d) == digits_value(d.drop_last()) * 10 + crate::text::digit_value(d.last()));
        assert forall|i: int| 0 <= i < d.len() implies is_digit(#[trigger] d[i]) by {
            if i < d.len() - 1 {
                assert(d[i] == crate::text::decimal(n / 10)[i]);
            }
        }
    }
}

/// A port written out in decimal, as the settings window fills in the saved
/// port, reads back as the same port.
pub proof fn lemma_port_round_trip(port: u16)
    ensures
        parsed_u16(crate::text::decimal(port as nat)) == Some(port),
{
    lemma_decimal_digits(port as nat);
    let d = crate::text::decimal(port as nat);
    assert(is_digit(d[0]));
}

} // verus!

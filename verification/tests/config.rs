use desk_monitoring::config::{dock_choice, dock_tag, DockChoice};
use desk_monitoring::config::{
    current_config, default_imap_port, default_inbox, default_sent, default_true, live_slot,
    palette_from_choices, palette_from_name, parse_port, position_from_choices, store_live,
    Config, PaletteKind, Panels, Position,
};

#[test]
fn position_is_horizontal_only_top_and_bottom() {
    assert!(Position::Top.is_horizontal());
    assert!(Position::Bottom.is_horizontal());
    assert!(!Position::Left.is_horizontal());
    assert!(!Position::Right.is_horizontal());
    assert!(!Position::Center.is_horizontal());
}

#[test]
fn palette_titles() {
    assert_eq!(PaletteKind::Matrix.title(), "Matrix green");
    assert_eq!(PaletteKind::Turquoise.title(), "Turquoise");
    assert_eq!(PaletteKind::Blue.title(), "Blue");
    assert_eq!(PaletteKind::Pink.title(), "Pink");
    assert_eq!(PaletteKind::Yellow.title(), "Yellow");
}

#[test]
fn palette_names_round_trip() {
    for kind in [
        PaletteKind::Matrix,
        PaletteKind::Turquoise,
        PaletteKind::Blue,
        PaletteKind::Pink,
        PaletteKind::Yellow,
    ] {
        assert_eq!(palette_from_name(kind.action_name()), kind);
    }
    assert_eq!(PaletteKind::Pink.action_name(), "pink");
}

#[test]
fn unknown_palette_name_is_matrix() {
    assert_eq!(palette_from_name("purple"), PaletteKind::Matrix);
    assert_eq!(palette_from_name("Blue"), PaletteKind::Matrix);
    assert_eq!(palette_from_name(""), PaletteKind::Matrix);
}

#[test]
fn defaults() {
    assert!(default_true());
    assert_eq!(default_imap_port(), 993);
    assert_eq!(default_inbox(), "INBOX");
    assert_eq!(default_sent(), "Sent");
    let p = Panels::default();
    assert!(p.cpu && p.ram && p.disk && p.network && p.mail && p.calendar && p.weather);
    let c = Config::default();
    assert_eq!(c.position, Position::Right);
    assert_eq!(c.palette, PaletteKind::Matrix);
    assert_eq!(c.imap_host, "");
    assert_eq!(c.imap_port, 993);
    assert_eq!(c.imap_user, "");
    assert_eq!(c.imap_password, "");
    assert_eq!(c.imap_inbox, "INBOX");
    assert_eq!(c.imap_sent, "Sent");
    assert_eq!(c.calendar_ics, "");
}

#[test]
fn mail_ready_needs_host_and_user() {
    let mut c = Config::default();
    assert!(!c.mail_ready());
    c.imap_host = "imap.example.com".to_string();
    assert!(!c.mail_ready());
    c.imap_user = "  \t ".to_string();
    assert!(!c.mail_ready());
    c.imap_user = " me@example.com ".to_string();
    assert!(c.mail_ready());
    c.imap_host = "\u{3000}\u{a0}\n".to_string();
    assert!(!c.mail_ready());
}

#[test]
fn live_slot_reads_back_what_was_stored() {
    let mut slot = live_slot(None);
    let c = current_config(&slot);
    assert_eq!(c.position, Position::Right);
    assert_eq!(c.imap_inbox, "INBOX");
    let mut next = Config::default();
    next.palette = PaletteKind::Yellow;
    next.position = Position::Top;
    next.imap_host = "mail.example.org".to_string();
    store_live(&mut slot, &next);
    let back = current_config(&slot);
    assert_eq!(back.palette, PaletteKind::Yellow);
    assert_eq!(back.position, Position::Top);
    assert_eq!(back.imap_host, "mail.example.org");
}

#[test]
fn live_slot_starts_from_loaded_config() {
    let mut loaded = Config::default();
    loaded.palette = PaletteKind::Blue;
    loaded.calendar_ics = "/tmp/cal.ics".to_string();
    let slot = live_slot(Some(loaded));
    let c = current_config(&slot);
    assert_eq!(c.palette, PaletteKind::Blue);
    assert_eq!(c.calendar_ics, "/tmp/cal.ics");
}

#[test]
fn config_clone_keeps_fields() {
    let mut c = Config::default();
    c.imap_password = "s3cr\"t".to_string();
    c.imap_port = 143;
    let d = c.clone();
    assert_eq!(d.imap_password, c.imap_password);
    assert_eq!(d.imap_port, 143);
}

#[test]
fn choices_pick_first_checked() {
    assert_eq!(position_from_choices(false, false, true, true, false), Position::Top);
    assert_eq!(position_from_choices(false, false, false, false, false), Position::Right);
    assert_eq!(position_from_choices(true, true, true, true, true), Position::Left);
    assert_eq!(position_from_choices(false, false, false, false, true), Position::Center);
    assert_eq!(palette_from_choices(false, false, false, false, false), PaletteKind::Matrix);
    assert_eq!(palette_from_choices(false, false, false, true, true), PaletteKind::Pink);
    assert_eq!(palette_from_choices(false, true, false, false, false), PaletteKind::Turquoise);
}

#[test]
fn parse_port_like_u16() {
    assert_eq!(parse_port("993"), 993);
    assert_eq!(parse_port("143"), 143);
    assert_eq!(parse_port("+143"), 143);
    assert_eq!(parse_port("00143"), 143);
    assert_eq!(parse_port("65535"), 65535);
    assert_eq!(parse_port("65536"), 993);
    assert_eq!(parse_port("99999999999999999999"), 993);
    assert_eq!(parse_port(""), 993);
    assert_eq!(parse_port("+"), 993);
    assert_eq!(parse_port("-1"), 993);
    assert_eq!(parse_port(" 143"), 993);
    assert_eq!(parse_port("14a"), 993);
    assert_eq!(parse_port("0"), 0);
}

#[test]
fn parse_port_agrees_with_std() {
    for text in ["1", "+0", "++1", "65535", "65536", "0065535", "", "+", "12 ", "٣"] {
        assert_eq!(parse_port(text), text.parse::<u16>().unwrap_or(993), "text = {text:?}");
    }
}

#[test]
fn port_round_trips_through_its_text() {
    for port in [0u16, 1, 9, 10, 99, 100, 143, 993, 8080, 65535] {
        assert_eq!(parse_port(&port.to_string()), port);
    }
}

#[test]
fn dock_tags_round_trip() {
    let all = [
        DockChoice::Settings,
        DockChoice::Palette(PaletteKind::Matrix),
        DockChoice::Palette(PaletteKind::Turquoise),
        DockChoice::Palette(PaletteKind::Blue),
        DockChoice::Palette(PaletteKind::Pink),
        DockChoice::Palette(PaletteKind::Yellow),
    ];
    for c in all {
        assert_eq!(dock_choice(dock_tag(c)), c);
    }
    assert_eq!(dock_tag(DockChoice::Palette(PaletteKind::Pink)), 4);
    assert_eq!(dock_choice(99), DockChoice::Palette(PaletteKind::Matrix));
    assert_eq!(dock_choice(-1), DockChoice::Palette(PaletteKind::Matrix));
}

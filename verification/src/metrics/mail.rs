//! Mail counts: the IMAP exchange that asks for them, the parsing of the
//! server's `STATUS` replies, and the Maildir fallback.

use vstd::prelude::*;

use crate::config::{Config, ConfigView};
use crate::text::{
    trim, trim_seq, trim_start, trim_start_seq, chars_of, find, find_from, has_prefix,
    starts_with, push_char, is_digit, digit_value, digits_value,
    digit_run, lemma_digit_run, lemma_digits_value_grows, to_uppercase, uppercase,
};

verus! {

/// The mailbox name to ask for: `value` trimmed, or `fallback` when that is empty.
pub open spec fn mailbox_or(value: Seq<char>, fallback: Seq<char>) -> Seq<char> {
    if trim_seq(value).len() == 0 {
        fallback
    } else {
        trim_seq(value)
    }
}

/// A configured mailbox name, falling back when it holds only whitespace.
pub fn nonempty_mailbox(value: &str, fallback: &str) -> (r: String)
    ensures
        r@ == mailbox_or(value@, fallback@),
{
    let trimmed = trim(value);
    if trimmed.is_empty() {
        fallback.to_owned()
    } else {
        trimmed.to_owned()
    }
}

/// How one character is written inside an IMAP quoted string.
pub open spec fn quoted_char(c: char) -> Seq<char> {
    if c == '\\' {
        seq!['\\', '\\']
    } else if c == '"' {
        seq!['\\', '"']
    } else {
        seq![c]
    }
}

/// `s` with backslashes and double quotes escaped by a backslash.
pub open spec fn escaped(s: Seq<char>) -> Seq<char>
    decreases s.len(),
{
    if s.len() == 0 {
        Seq::empty()
    } else {
        escaped(s.drop_last()) + quoted_char(s.last())
    }
}

/// `s` as an IMAP quoted string.
pub open spec fn quoted(s: Seq<char>) -> Seq<char> {
    seq!['"'] + escaped(s) + seq!['"']
}

/// How an IMAP server reads the inside of a quoted string: a backslash
/// takes the next character literally.
pub open spec fn unescaped(t: Seq<char>) -> Seq<char>
    decreases t.len(),
{
    if t.len() == 0 {
        Seq::empty()
    } else if t[0] == '\\' && t.len() >= 2 {
        seq![t[1]] + unescaped(t.skip(2))
    } else {
        seq![t[0]] + unescaped(t.skip(1))
    }
}

proof fn lemma_escaped_concat(a: Seq<char>, b: Seq<char>)
    ensures
        escaped(a + b) == escaped(a) + escaped(b),
    decreases b.len(),
{
    if b.len() == 0 {
        assert(a + b =~= a);
        assert(escaped(a) + escaped(b) =~= escaped(a));
    } else {
        lemma_escaped_concat(a, b.drop_last());
        assert((a + b).drop_last() =~= a + b.drop_last());
        assert((a + b).last() == b.last());
        assert(escaped(a + b) =~= escaped(a) + escaped(b));
    }
}

/// A value quoted for IMAP reads back as the same value.
pub proof fn lemma_quote_reads_back(s: Seq<char>)
    ensures
        unescaped(escaped(s)) == s,
        quoted(s) == seq!['"'] + escaped(s) + seq!['"'],
    decreases s.len(),
{
    if s.len() > 0 {
        let c = s[0];
        let rest = s.drop_first();
        lemma_escaped_concat(seq![c], rest);
        assert(seq![c] + rest =~= s);
        assert(seq![c].drop_last() =~= Seq::<char>::empty());
        assert(escaped(Seq::<char>::empty()) =~= Seq::<char>::empty());
        assert(seq![c].last() == c);
        assert(escaped(seq![c]) == escaped(seq![c].drop_last()) + quoted_char(seq![c].last()));
        assert(escaped(seq![c]) =~= quoted_char(c));
        lemma_quote_reads_back(rest);
        let t = escaped(s);
        assert(t =~= quoted_char(c) + escaped(rest));
        if c == '\\' || c == '"' {
            assert(t.skip(2) =~= escaped(rest));
        } else {
            assert(t.skip(1) =~= escaped(rest));
        }
        assert(unescaped(t) =~= s);
    }
}

/// Writes `value` as an IMAP quoted string.
pub fn imap_quote(value: &str) -> (r: String)
    ensures
        r@ == quoted(value@),
{
    let v = chars_of(value);
    let mut r = String::new();
    push_char(&mut r, '"');
    let mut i: usize = 0;
    while i < v.len()
        invariant
            v@ == value@,
            i <= v@.len(),
            r@ == seq!['"'] + escaped(v@.take(i as int)),
        decreases v.len() - i,
    {
        let c = v[i];
        if c == '\\' {
            push_char(&mut r, '\\');
            push_char(&mut r, '\\');
        } else if c == '"' {
            push_char(&mut r, '\\');
            push_char(&mut r, '"');
        } else {
            push_char(&mut r, c);
        }
        assert(v@.take(i + 1).drop_last() =~= v@.take(i as int));
        i = i + 1;
        assert(r@ =~= seq!['"'] + escaped(v@.take(i as int)));
    }
    push_char(&mut r, '"');
    assert(v@.take(v@.len() as int) =~= v@);
    assert(r@ =~= quoted(value@));
    r
}

/// What the IMAP exchange needs from the settings.
pub struct ImapRequest {
    pub host: String,
    pub port: u16,
    pub user: String,
    pub password: String,
    pub inbox: String,
    pub sent: String,
}

/// Host and user trimmed, the password as given, the mailboxes with their defaults.
pub open spec fn request_matches(r: ImapRequest, c: ConfigView) -> bool {
    &&& r.host@ == trim_seq(c.imap_host)
    &&& r.port == c.imap_port
    &&& r.user@ == trim_seq(c.imap_user)
    &&& r.password@ == c.imap_password
    &&& r.inbox@ == mailbox_or(c.imap_inbox, "INBOX"@)
    &&& r.sent@ == mailbox_or(c.imap_sent, "Sent"@)
}

/// The connection parameters and mailboxes for the IMAP exchange.
pub fn imap_request(config: &Config) -> (r: ImapRequest)
    ensures
        request_matches(r, config@),
{
    ImapRequest {
        host: trim(config.imap_host.as_str()).to_owned(),
        port: config.imap_port,
        user: trim(config.imap_user.as_str()).to_owned(),
        password: config.imap_password.clone(),
        inbox: nonempty_mailbox(config.imap_inbox.as_str(), "INBOX"),
        sent: nonempty_mailbox(config.imap_sent.as_str(), "Sent"),
    }
}

/// How a server line answers the command tagged `tag`: `None` when it does
/// not start with the tag, else whether the text after the tag starts with `OK`.
pub open spec fn tagged_outcome(line: Seq<char>, tag: Seq<char>) -> Option<bool> {
    if has_prefix(line, tag) {
        Some(has_prefix(trim_start_seq(line.skip(tag.len() as int)), "OK"@))
    } else {
        None
    }
}

/// Reads a server line as the completion of the command tagged `tag`.
pub fn tagged_reply(line: &str, tag: &str) -> (r: Option<bool>)
    ensures
        r == tagged_outcome(line@, tag@),
{
    let lv = chars_of(line);
    let tv = chars_of(tag);
    if !starts_with(&lv, &tv) {
        return None;
    }
    let rest = trim_start(line.substring_char(tv.len(), lv.len()));
    assert(line@.subrange(tag@.len() as int, line@.len() as int) =~= line@.skip(tag@.len() as int));
    let rv = chars_of(rest);
    let ok = chars_of("OK");
    Some(starts_with(&rv, &ok))
}

/// The number after the first occurrence of `key` in `blob`, past any
/// whitespace, when it fits in a `u32`.
pub open spec fn captured_number(blob: Seq<char>, key: Seq<char>) -> Option<u32> {
    match find_from(blob, key, 0) {
        None => None,
        Some(i) => {
            let rest = trim_start_seq(blob.skip(i + key.len()));
            let digits = rest.take(digit_run(rest) as int);
            if digits.len() > 0 && digits_value(digits) <= u32::MAX {
                Some(digits_value(digits) as u32)
            } else {
                None
            }
        },
    }
}

/// The count that follows `key` in a `STATUS` reply.
pub fn capture_number(blob: &str, key: &str) -> (r: Option<u32>)
    ensures
        r == captured_number(blob@, key@),
{
    let bv = chars_of(blob);
    let kv = chars_of(key);
    let idx = match find(&bv, &kv) {
        Some(i) => i,
        None => return None,
    };
    proof {
        lemma_find_from_in_bounds(bv@, kv@, 0);
    }
    assert(idx + kv@.len() <= bv@.len());
    let n = bv.len();
    let tail = blob.substring_char(idx + kv.len(), n);
    assert(tail@ =~= blob@.skip(idx + key@.len()));
    let rest_str = trim_start(tail);
    let rest = chars_of(rest_str);
    proof {
        lemma_digit_run(rest@);
    }
    let ghost run = digit_run(rest@);
    let ghost digits = rest@.take(run as int);
    let mut value: u64 = 0;
    let mut i: usize = 0;
    while i < rest.len() && '0' <= rest[i] && rest[i] <= '9'
        invariant
            i <= run,
            run == digit_run(rest@),
            run <= rest@.len(),
            digits == rest@.take(run as int),
            forall|t: int| 0 <= t < run ==> is_digit(#[trigger] rest@[t]),
            run < rest@.len() ==> !is_digit(rest@[run as int]),
            value == digits_value(rest@.take(i as int)),
            value <= u32::MAX,
            rest@ == trim_start_seq(blob@.skip(idx + key@.len())),
            find_from(blob@, key@, 0) == Some(idx as int),
        decreases rest.len() - i,
    {
        let c = rest[i];
        assert(i < run);
        assert(rest@.take(i + 1).drop_last() =~= rest@.take(i as int));
        assert(digits_value(rest@.take(i + 1)) == digits_value(rest@.take(i as int)) * 10 + digit_value(c));
        value = value * 10 + ((c as u64) - ('0' as u64));
        i = i + 1;
        assert(value == digits_value(rest@.take(i as int)));
        if value > 4294967295 {
            assert(digits.take(i as int) =~= rest@.take(i as int));
            proof {
                lemma_digits_value_grows(digits, i as int);
            }
            assert(digits_value(digits) > u32::MAX);
            return None;
        }
    }
    assert(i == run);
    if i == 0 {
        return None;
    }
    Some(value as u32)
}

proof fn lemma_find_from_in_bounds(s: Seq<char>, key: Seq<char>, i: int)
    requires
        find_from(s, key, i) is Some,
    ensures
        0 <= find_from(s, key, i)->0,
        find_from(s, key, i)->0 + key.len() <= s.len(),
    decreases s.len() + 1 - i,
{
    if i < 0 || i + key.len() > s.len() {
    } else if crate::text::occurs_at(s, key, i) {
    } else {
        lemma_find_from_in_bounds(s, key, i + 1);
    }
}

/// Index just past the closing quote of a quoted string whose text starts at
/// `i`, a backslash escaping the character after it; the end of `s` when the
/// quote is never closed.
pub open spec fn quoted_end(s: Seq<char>, i: int) -> int
    decreases s.len() + 1 - i,
{
    if i >= s.len() {
        s.len() as int
    } else if s[i] == '"' {
        i + 1
    } else if s[i] == '\\' {
        quoted_end(s, i + 2)
    } else {
        quoted_end(s, i + 1)
    }
}

/// Index of the first space or `(` at or after `i`, or the end of `s`.
pub open spec fn atom_end(s: Seq<char>, i: int) -> int
    decreases s.len() - i,
{
    if i >= s.len() || s[i] == ' ' || s[i] == '(' {
        i
    } else {
        atom_end(s, i + 1)
    }
}

/// Length of the mailbox name that starts `t`: a quoted string up to its
/// closing quote, or an atom up to the next space or `(`.
pub open spec fn mailbox_len(t: Seq<char>) -> int {
    if t.len() > 0 && t[0] == '"' {
        quoted_end(t, 1)
    } else {
        atom_end(t, 0)
    }
}

/// The parenthesised item list of the first `* STATUS` response in `s`: the
/// text after the first `(` that follows the mailbox name, up to the next `)`
/// (or the end of `s`).  `None` without such a response or `(`.
pub open spec fn status_items(s: Seq<char>) -> Option<Seq<char>> {
    match find_from(s, "* STATUS "@, 0) {
        None => None,
        Some(p) => {
            let after = s.skip(p + "* STATUS "@.len());
            let tail = after.skip(mailbox_len(after));
            match find_from(tail, "("@, 0) {
                None => None,
                Some(o) => {
                    let list = tail.skip(o + "("@.len());
                    match find_from(list, ")"@, 0) {
                        Some(c) => Some(list.take(c)),
                        None => Some(list),
                    }
                },
            }
        },
    }
}

/// Message and unseen counts of a `STATUS` reply, matched case-insensitively
/// inside the response's item list, so that a mailbox name never reads as a
/// key; a count that is missing reads as 0.
pub open spec fn status_counts(blob: Seq<char>) -> (u32, u32) {
    match status_items(uppercase(blob)) {
        None => (0, 0),
        Some(items) => (
            match captured_number(items, "MESSAGES"@) { Some(n) => n, None => 0 },
            match captured_number(items, "UNSEEN"@) { Some(n) => n, None => 0 },
        ),
    }
}

/// Length of the mailbox name at the start of `t`.
fn mailbox_length(t: &Vec<char>) -> (r: usize)
    ensures
        r == mailbox_len(t@),
        r <= t@.len(),
{
    let n = t.len();
    if n > 0 && t[0] == '"' {
        assert(mailbox_len(t@) == quoted_end(t@, 1));
        let mut i: usize = 1;
        while i < n
            invariant
                n == t@.len(),
                1 <= i <= n,
                quoted_end(t@, i as int) == quoted_end(t@, 1),
                mailbox_len(t@) == quoted_end(t@, 1),
            decreases n - i,
        {
            if t[i] == '"' {
                assert(quoted_end(t@, i as int) == i + 1);
                return i + 1;
            }
            if t[i] == '\\' && i + 1 < n {
                i = i + 2;
            } else if t[i] == '\\' {
                assert(quoted_end(t@, i + 2) == n);
                i = n;
            } else {
                i = i + 1;
            }
        }
        n
    } else {
        let mut i: usize = 0;
        while i < n && t[i] != ' ' && t[i] != '('
            invariant
                n == t@.len(),
                i <= n,
                atom_end(t@, i as int) == atom_end(t@, 0),
            decreases n - i,
        {
            i = i + 1;
        }
        i
    }
}

/// The item list of the first `STATUS` response in `s`, as `status_items` says.
fn status_item_list(s: &str) -> (r: Option<&str>)
    ensures
        match status_items(s@) {
            None => r is None,
            Some(items) => r is Some && r->0@ == items,
        },
{
    let sv = chars_of(s);
    let n = sv.len();
    let head = chars_of("* STATUS ");
    let p = match find(&sv, &head) {
        Some(p) => p,
        None => return None,
    };
    proof {
        lemma_find_from_in_bounds(sv@, head@, 0);
    }
    assert(p + head@.len() <= sv@.len());
    let after = s.substring_char(p + head.len(), n);
    assert(after@ =~= s@.skip(p + "* STATUS "@.len()));
    let av = chars_of(after);
    let m = mailbox_length(&av);
    let tail = after.substring_char(m, av.len());
    assert(tail@ =~= after@.skip(m as int));
    let tv = chars_of(tail);
    let tn = tv.len();
    let open = chars_of("(");
    let o = match find(&tv, &open) {
        Some(o) => o,
        None => return None,
    };
    proof {
        lemma_find_from_in_bounds(tv@, open@, 0);
    }
    assert(o + open@.len() <= tv@.len());
    let list = tail.substring_char(o + open.len(), tn);
    assert(list@ =~= tail@.skip(o + "("@.len()));
    let lv = chars_of(list);
    let close = chars_of(")");
    match find(&lv, &close) {
        Some(c) => {
            proof {
                lemma_find_from_in_bounds(lv@, close@, 0);
            }
            assert(c + close@.len() <= lv@.len());
            let items = list.substring_char(0, c);
            assert(items@ =~= list@.take(c as int));
            Some(items)
        },
        None => Some(list),
    }
}

/// Reads the `MESSAGES` and `UNSEEN` counts out of the lines of a `STATUS` reply.
pub fn parse_status(blob: &str) -> (r: (u32, u32))
    ensures
        r == status_counts(blob@),
{
    let upper = to_uppercase(blob);
    let items = match status_item_list(upper.as_str()) {
        Some(items) => items,
        None => return (0, 0),
    };
    let messages = match capture_number(items, "MESSAGES") {
        Some(n) => n,
        None => 0,
    };
    let unseen = match capture_number(items, "UNSEEN") {
        Some(n) => n,
        None => 0,
    };
    (messages, unseen)
}

/// `A1 LOGIN "<user>" "<password>"`.
pub open spec fn login_text(user: Seq<char>, password: Seq<char>) -> Seq<char> {
    "A1 LOGIN "@ + quoted(user) + " "@ + quoted(password) + "\r\n"@
}

/// `<tag> STATUS "<mailbox>" (<items>)`.
pub open spec fn status_text(tag: Seq<char>, mailbox: Seq<char>, items: Seq<char>) -> Seq<char> {
    tag + " STATUS "@ + quoted(mailbox) + " ("@ + items + ")\r\n"@
}

/// The command that logs in.
pub fn login_command(user: &str, password: &str) -> (r: String)
    ensures
        r@ == login_text(user@, password@),
{
    let mut r = "A1 LOGIN ".to_owned();
    let u = imap_quote(user);
    r.append(u.as_str());
    r.append(" ");
    let p = imap_quote(password);
    r.append(p.as_str());
    r.append("\r\n");
    assert(r@ =~= login_text(user@, password@));
    r
}

/// A `STATUS` command for one mailbox.
pub fn status_command(tag: &str, mailbox: &str, items: &str) -> (r: String)
    ensures
        r@ == status_text(tag@, mailbox@, items@),
{
    let mut r = tag.to_owned();
    r.append(" STATUS ");
    let m = imap_quote(mailbox);
    r.append(m.as_str());
    r.append(" (");
    r.append(items);
    r.append(")\r\n");
    assert(r@ =~= status_text(tag@, mailbox@, items@));
    r
}

/// Where an IMAP exchange stands.
#[derive(Clone, Copy, Debug, PartialEq, Eq, Structural)]
pub enum ImapStage {
    /// Waiting for the server's greeting.
    Greeting,
    /// `A1 LOGIN` sent; waiting for its tagged reply.
    Login,
    /// `A2 STATUS` of the inbox sent; collecting its reply.
    Inbox,
    /// `A3 STATUS` of the sent mailbox sent; collecting its reply.
    Sent,
    /// Counts delivered or the exchange failed.
    Finished,
}

/// What the connection should do after a server line.
pub enum ImapAction {
    /// Write this command, then read the next line.
    Send(String),
    /// Read the next line.
    Read,
    /// Write the logout command (its outcome does not matter) and report the counts.
    Finish { logout: String, incoming: u32, outgoing: u32, unread: u32 },
    /// Give up with this message.
    Fail(String),
}

/// The plain form of an `ImapAction`.
#[verifier::ext_equal]
pub enum ImapActionView {
    Send(Seq<char>),
    Read,
    Finish { logout: Seq<char>, incoming: u32, outgoing: u32, unread: u32 },
    Fail(Seq<char>),
}

impl View for ImapAction {
    type V = ImapActionView;

    open spec fn view(&self) -> ImapActionView {
        match self {
            ImapAction::Send(c) => ImapActionView::Send(c@),
            ImapAction::Read => ImapActionView::Read,
            ImapAction::Finish { logout, incoming, outgoing, unread } => ImapActionView::Finish {
                logout: logout@,
                incoming: *incoming,
                outgoing: *outgoing,
                unread: *unread,
            },
            ImapAction::Fail(m) => ImapActionView::Fail(m@),
        }
    }
}

/// The IMAP exchange that asks for the inbox and sent counts, one server line at a time.
pub struct ImapSession {
    request: ImapRequest,
    stage: ImapStage,
    blob: String,
    incoming: u32,
    unread: u32,
}

/// The plain state of an `ImapSession`.
#[verifier::ext_equal]
pub struct ImapSessionView {
    pub host: Seq<char>,
    pub port: u16,
    pub user: Seq<char>,
    pub password: Seq<char>,
    pub inbox: Seq<char>,
    pub sent: Seq<char>,
    pub stage: ImapStage,
    pub blob: Seq<char>,
    pub incoming: u32,
    pub unread: u32,
}

impl View for ImapSession {
    type V = ImapSessionView;

    closed spec fn view(&self) -> ImapSessionView {
        ImapSessionView {
            host: self.request.host@,
            port: self.request.port,
            user: self.request.user@,
            password: self.request.password@,
            inbox: self.request.inbox@,
            sent: self.request.sent@,
            stage: self.stage,
            blob: self.blob@,
            incoming: self.incoming,
            unread: self.unread,
        }
    }
}

/// `s` moved to `stage` with an empty reply buffer.
pub open spec fn at_stage(s: ImapSessionView, stage: ImapStage) -> ImapSessionView {
    ImapSessionView { stage, blob: Seq::empty(), ..s }
}

/// One step of the exchange: the state after the server line `line` and
/// what to do next.  The greeting is answered with the login; a tagged `OK`
/// to the login sends the inbox `STATUS`; the inbox reply (every line up to
/// its tagged `OK`) gives the incoming and unseen counts and sends the sent
/// `STATUS`; that reply gives the outgoing count and ends the exchange.  A
/// tagged reply without `OK` ends it with that line as the error; other
/// lines are collected (or, while logging in, skipped).
pub open spec fn imap_step(s: ImapSessionView, line: Seq<char>) -> (ImapSessionView, ImapActionView) {
    match s.stage {
        ImapStage::Greeting => (
            at_stage(s, ImapStage::Login),
            ImapActionView::Send(login_text(s.user, s.password)),
        ),
        ImapStage::Login => match tagged_outcome(line, "A1"@) {
            None => (s, ImapActionView::Read),
            Some(true) => (
                at_stage(s, ImapStage::Inbox),
                ImapActionView::Send(status_text("A2"@, s.inbox, "MESSAGES UNSEEN"@)),
            ),
            Some(false) => (at_stage(s, ImapStage::Finished), ImapActionView::Fail(line)),
        },
        ImapStage::Inbox => {
            let blob = s.blob + line + seq!['\n'];
            match tagged_outcome(line, "A2"@) {
                None => (ImapSessionView { blob, ..s }, ImapActionView::Read),
                Some(true) => {
                    let counts = status_counts(blob);
                    (
                        ImapSessionView {
                            stage: ImapStage::Sent,
                            blob: Seq::empty(),
                            incoming: counts.0,
                            unread: counts.1,
                            ..s
                        },
                        ImapActionView::Send(status_text("A3"@, s.sent, "MESSAGES"@)),
                    )
                },
                Some(false) => (at_stage(s, ImapStage::Finished), ImapActionView::Fail(line)),
            }
        },
        ImapStage::Sent => {
            let blob = s.blob + line + seq!['\n'];
            match tagged_outcome(line, "A3"@) {
                None => (ImapSessionView { blob, ..s }, ImapActionView::Read),
                Some(true) => (
                    at_stage(s, ImapStage::Finished),
                    ImapActionView::Finish {
                        logout: "A4 LOGOUT\r\n"@,
                        incoming: s.incoming,
                        outgoing: status_counts(blob).0,
                        unread: s.unread,
                    },
                ),
                Some(false) => (at_stage(s, ImapStage::Finished), ImapActionView::Fail(line)),
            }
        },
        ImapStage::Finished => (s, ImapActionView::Read),
    }
}

impl ImapSession {
    /// A session about to read the server's greeting.
    pub fn new(request: ImapRequest) -> (r: Self)
        ensures
            r@ == (ImapSessionView {
                host: request.host@,
                port: request.port,
                user: request.user@,
                password: request.password@,
                inbox: request.inbox@,
                sent: request.sent@,
                stage: ImapStage::Greeting,
                blob: Seq::empty(),
                incoming: 0,
                unread: 0,
            }),
    {
        ImapSession { request, stage: ImapStage::Greeting, blob: String::new(), incoming: 0, unread: 0 }
    }

    /// Where the exchange stands.
    pub fn stage(&self) -> (r: ImapStage)
        ensures
            r == self@.stage,
    {
        self.stage
    }

    /// Host, port, user and mailboxes of the exchange.
    pub fn request(&self) -> (r: &ImapRequest)
        ensures
            r.host@ == self@.host,
            r.port == self@.port,
            r.user@ == self@.user,
            r.password@ == self@.password,
            r.inbox@ == self@.inbox,
            r.sent@ == self@.sent,
    {
        &self.request
    }

    /// Takes the next server line (without its line ending) and says what to do.
    pub fn on_line(&mut self, line: &str) -> (r: ImapAction)
        requires
            old(self)@.stage != ImapStage::Finished,
        ensures
            (final(self)@, r@) == imap_step(old(self)@, line@),
    {
        match self.stage {
            ImapStage::Greeting => {
                self.stage = ImapStage::Login;
                self.blob = String::new();
                ImapAction::Send(login_command(self.request.user.as_str(), self.request.password.as_str()))
            },
            ImapStage::Login => match tagged_reply(line, "A1") {
                None => ImapAction::Read,
                Some(true) => {
                    self.stage = ImapStage::Inbox;
                    self.blob = String::new();
                    ImapAction::Send(status_command("A2", self.request.inbox.as_str(), "MESSAGES UNSEEN"))
                },
                Some(false) => {
                    self.stage = ImapStage::Finished;
                    self.blob = String::new();
                    ImapAction::Fail(line.to_owned())
                },
            },
            ImapStage::Inbox => {
                self.blob.append(line);
                push_char(&mut self.blob, '\n');
                assert(self.blob@ =~= old(self)@.blob + line@ + seq!['\n']);
                match tagged_reply(line, "A2") {
                    None => ImapAction::Read,
                    Some(true) => {
                        let (messages, unseen) = parse_status(self.blob.as_str());
                        self.incoming = messages;
                        self.unread = unseen;
                        self.stage = ImapStage::Sent;
                        self.blob = String::new();
                        ImapAction::Send(status_command("A3", self.request.sent.as_str(), "MESSAGES"))
                    },
                    Some(false) => {
                        self.stage = ImapStage::Finished;
                        self.blob = String::new();
                        ImapAction::Fail(line.to_owned())
                    },
                }
            },
            ImapStage::Sent => {
                self.blob.append(line);
                push_char(&mut self.blob, '\n');
                assert(self.blob@ =~= old(self)@.blob + line@ + seq!['\n']);
                match tagged_reply(line, "A3") {
                    None => ImapAction::Read,
                    Some(true) => {
                        let (messages, _) = parse_status(self.blob.as_str());
                        self.stage = ImapStage::Finished;
                        self.blob = String::new();
                        ImapAction::Finish {
                            logout: "A4 LOGOUT\r\n".to_owned(),
                            incoming: self.incoming,
                            outgoing: messages,
                            unread: self.unread,
                        }
                    },
                    Some(false) => {
                        self.stage = ImapStage::Finished;
                        self.blob = String::new();
                        ImapAction::Fail(line.to_owned())
                    },
                }
            },
            ImapStage::Finished => ImapAction::Read,
        }
    }
}

/// The four mail numbers the overlay shows.
#[derive(Clone, Copy, Debug, PartialEq, Eq, Structural)]
pub struct MailCounts {
    pub incoming: u32,
    pub outgoing: u32,
    pub total: u32,
    pub unread: u32,
}

/// `a + b`, capped at `u32::MAX`.
pub open spec fn sat_add_u32(a: u32, b: u32) -> u32 {
    if a + b > u32::MAX { u32::MAX } else { (a + b) as u32 }
}

/// The counts with their total: incoming plus outgoing, capped at `u32::MAX`.
pub fn mail_counts(incoming: u32, outgoing: u32, unread: u32) -> (r: MailCounts)
    ensures
        r == (MailCounts { incoming, outgoing, total: sat_add_u32(incoming, outgoing), unread }),
{
    MailCounts { incoming, outgoing, total: incoming.saturating_add(outgoing), unread }
}

/// The counts shown: the IMAP ones when the exchange gave them, else the
/// Maildir ones when a Maildir was found, else zeros.
pub fn choose_mail_counts(imap: Option<(u32, u32, u32)>, maildir: Option<(u32, u32, u32)>) -> (r: MailCounts)
    ensures
        r == (match imap {
            Some((i, o, u)) => MailCounts { incoming: i, outgoing: o, total: sat_add_u32(i, o), unread: u },
            None => match maildir {
                Some((i, o, u)) => MailCounts { incoming: i, outgoing: o, total: sat_add_u32(i, o), unread: u },
                None => MailCounts { incoming: 0, outgoing: 0, total: 0, unread: 0 },
            },
        }),
{
    match imap {
        Some((i, o, u)) => mail_counts(i, o, u),
        None => match maildir {
            Some((i, o, u)) => mail_counts(i, o, u),
            None => mail_counts(0, 0, 0),
        },
    }
}

/// A Maildir file name without the seen flag `S` is an unread message.
pub fn is_unread_name(name: &str) -> (r: bool)
    ensures
        r == !name@.contains('S'),
{
    let v = chars_of(name);
    let mut i: usize = 0;
    while i < v.len()
        invariant
            v@ == name@,
            i <= v@.len(),
            forall|j: int| 0 <= j < i ==> v@[j] != 'S',
        decreases v.len() - i,
    {
        if v[i] == 'S' {
            assert(name@[i as int] == 'S');
            return false;
        }
        i = i + 1;
    }
    true
}

/// Sum of the message counts of the sent folders (`cur` plus `new` of each).
pub open spec fn sent_sum(folders: Seq<(u32, u32)>) -> int
    decreases folders.len(),
{
    if folders.len() == 0 {
        0
    } else {
        sent_sum(folders.drop_last()) + folders.last().0 + folders.last().1
    }
}

proof fn lemma_sent_sum_prefix(folders: Seq<(u32, u32)>, i: int)
    requires
        0 <= i <= folders.len(),
    ensures
        sent_sum(folders.take(i)) <= sent_sum(folders),
    decreases folders.len() - i,
{
    if i < folders.len() {
        lemma_sent_sum_prefix(folders, i + 1);
        assert(folders.take(i + 1).drop_last() =~= folders.take(i));
    } else {
        assert(folders.take(i) =~= folders);
    }
}

/// Messages in the sent folders of a Maildir.
pub fn count_sent(folders: &Vec<(u32, u32)>) -> (r: u32)
    requires
        sent_sum(folders@) <= u32::MAX,
    ensures
        r == sent_sum(folders@),
{
    let mut total: u32 = 0;
    let mut i: usize = 0;
    while i < folders.len()
        invariant
            i <= folders@.len(),
            total == sent_sum(folders@.take(i as int)),
            sent_sum(folders@) <= u32::MAX,
        decreases folders.len() - i,
    {
        proof {
            lemma_sent_sum_prefix(folders@, i + 1);
        }
        assert(folders@.take(i + 1).drop_last() =~= folders@.take(i as int));
        let (cur, new) = folders[i];
        total = total + cur + new;
        i = i + 1;
    }
    assert(folders@.take(folders@.len() as int) =~= folders@);
    total
}

/// Incoming, outgoing and unread counts of a Maildir: everything in `cur`
/// and `new`, the sent folders, and the unseen files of `cur` plus all of `new`.
pub fn maildir_counts(cur: u32, new: u32, unread_cur: u32, sent: u32) -> (r: (u32, u32, u32))
    requires
        cur + new <= u32::MAX,
        unread_cur + new <= u32::MAX,
    ensures
        r == ((cur + new) as u32, sent, (unread_cur + new) as u32),
{
    (cur + new, sent, unread_cur + new)
}

} // verus!

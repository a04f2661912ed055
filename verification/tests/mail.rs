use desk_monitoring::config::Config;
use desk_monitoring::metrics::mail::{
    capture_number, choose_mail_counts, count_sent, imap_quote, imap_request, is_unread_name,
    login_command, mail_counts, maildir_counts, nonempty_mailbox, parse_status, status_command,
    tagged_reply, ImapAction, ImapSession, ImapStage, MailCounts,
};

#[test]
fn quotes_for_imap() {
    assert_eq!(imap_quote("me"), "\"me\"");
    assert_eq!(imap_quote("a\"b"), "\"a\\\"b\"");
    assert_eq!(imap_quote("c\\d"), "\"c\\\\d\"");
    assert_eq!(imap_quote(""), "\"\"");
    let s = "x\\\"y";
    let expected = format!("\"{}\"", s.replace('\\', "\\\\").replace('"', "\\\""));
    assert_eq!(imap_quote(s), expected);
}

#[test]
fn mailbox_fallbacks() {
    assert_eq!(nonempty_mailbox("  Archive ", "INBOX"), "Archive");
    assert_eq!(nonempty_mailbox("   ", "INBOX"), "INBOX");
    assert_eq!(nonempty_mailbox("", "Sent"), "Sent");
}

#[test]
fn request_from_settings() {
    let mut c = Config::default();
    c.imap_host = " imap.example.com ".to_string();
    c.imap_user = " me ".to_string();
    c.imap_password = " pw ".to_string();
    c.imap_inbox = " ".to_string();
    c.imap_sent = "Sent Items".to_string();
    c.imap_port = 143;
    let r = imap_request(&c);
    assert_eq!(r.host, "imap.example.com");
    assert_eq!(r.user, "me");
    assert_eq!(r.password, " pw ");
    assert_eq!(r.inbox, "INBOX");
    assert_eq!(r.sent, "Sent Items");
    assert_eq!(r.port, 143);
}

#[test]
fn commands() {
    assert_eq!(login_command("me", "p\"w"), "A1 LOGIN \"me\" \"p\\\"w\"\r\n");
    assert_eq!(
        status_command("A2", "INBOX", "MESSAGES UNSEEN"),
        "A2 STATUS \"INBOX\" (MESSAGES UNSEEN)\r\n"
    );
}

#[test]
fn tagged_replies() {
    assert_eq!(tagged_reply("A1 OK LOGIN completed", "A1"), Some(true));
    assert_eq!(tagged_reply("A1    OK", "A1"), Some(true));
    assert_eq!(tagged_reply("A1 NO bad password", "A1"), Some(false));
    assert_eq!(tagged_reply("* OK IMAP ready", "A1"), None);
    assert_eq!(tagged_reply("A1", "A1"), Some(false));
    assert_eq!(tagged_reply("A10 OK", "A1"), Some(false));
}

#[test]
fn capture_numbers() {
    assert_eq!(capture_number("* STATUS INBOX (MESSAGES 231 UNSEEN 5)", "MESSAGES"), Some(231));
    assert_eq!(capture_number("* STATUS INBOX (MESSAGES 231 UNSEEN 5)", "UNSEEN"), Some(5));
    assert_eq!(capture_number("MESSAGES    0042)", "MESSAGES"), Some(42));
    assert_eq!(capture_number("MESSAGES x", "MESSAGES"), None);
    assert_eq!(capture_number("nothing", "MESSAGES"), None);
    assert_eq!(capture_number("MESSAGES 4294967295", "MESSAGES"), Some(4294967295));
    assert_eq!(capture_number("MESSAGES 4294967296", "MESSAGES"), None);
    assert_eq!(capture_number("MESSAGES 1 MESSAGES 2", "MESSAGES"), Some(1));
}

#[test]
fn parses_status_case_insensitively() {
    assert_eq!(parse_status("* status inbox (messages 12 unseen 3)\nA2 OK\n"), (12, 3));
    assert_eq!(parse_status("* STATUS Sent (MESSAGES 7)\nA3 OK\n"), (7, 0));
    assert_eq!(parse_status("A2 OK\n"), (0, 0));
}

#[test]
fn mailbox_named_like_a_key_keeps_its_count() {
    assert_eq!(parse_status("* STATUS \"Sent Messages\" (MESSAGES 9)\n"), (9, 0));
    assert_eq!(
        parse_status("* STATUS \"Sent Messages\" (MESSAGES 5)\nA3 OK STATUS completed\n"),
        (5, 0)
    );
    assert_eq!(parse_status("* STATUS Unseen-Archive (MESSAGES 4 UNSEEN 1)\n"), (4, 1));
}

#[test]
fn quoted_mailbox_with_brackets_and_escapes() {
    assert_eq!(parse_status("* STATUS \"a (MESSAGES 1) \\\" b\" (UNSEEN 2 MESSAGES 8)\n"), (8, 2));
    assert_eq!(parse_status("* STATUS INBOX (MESSAGES 3\n"), (3, 0));
    assert_eq!(parse_status("* STATUS INBOX (UNSEEN 6) MESSAGES 9\n"), (0, 6));
    assert_eq!(parse_status("* STATUS INBOX\nA2 OK\n"), (0, 0));
    assert_eq!(parse_status("MESSAGES 7 UNSEEN 2\n"), (0, 0));
    assert_eq!(parse_status("* OK ready\r\n* STATUS Sent (MESSAGES 11)\r\n"), (11, 0));
}

fn expect_send(a: ImapAction) -> String {
    match a {
        ImapAction::Send(c) => c,
        _ => panic!("expected a command"),
    }
}

fn request() -> desk_monitoring::metrics::mail::ImapRequest {
    let mut c = Config::default();
    c.imap_host = "imap.example.com".to_string();
    c.imap_user = "me".to_string();
    c.imap_password = "pw".to_string();
    imap_request(&c)
}

#[test]
fn imap_exchange_reports_counts() {
    let mut s = ImapSession::new(request());
    assert_eq!(s.stage(), ImapStage::Greeting);
    assert_eq!(expect_send(s.on_line("* OK IMAP4rev1 ready")), "A1 LOGIN \"me\" \"pw\"\r\n");
    assert!(matches!(s.on_line("* CAPABILITY IMAP4rev1"), ImapAction::Read));
    assert_eq!(
        expect_send(s.on_line("A1 OK LOGIN completed")),
        "A2 STATUS \"INBOX\" (MESSAGES UNSEEN)\r\n"
    );
    assert!(matches!(s.on_line("* STATUS INBOX (MESSAGES 231 UNSEEN 5)"), ImapAction::Read));
    assert_eq!(
        expect_send(s.on_line("A2 OK STATUS completed")),
        "A3 STATUS \"Sent\" (MESSAGES)\r\n"
    );
    assert!(matches!(s.on_line("* STATUS Sent (MESSAGES 40)"), ImapAction::Read));
    match s.on_line("A3 OK done") {
        ImapAction::Finish { logout, incoming, outgoing, unread } => {
            assert_eq!(logout, "A4 LOGOUT\r\n");
            assert_eq!((incoming, outgoing, unread), (231, 40, 5));
        }
        _ => panic!("expected the counts"),
    }
    assert_eq!(s.stage(), ImapStage::Finished);
}

#[test]
fn imap_exchange_fails_on_rejected_login() {
    let mut s = ImapSession::new(request());
    let _ = s.on_line("* OK ready");
    match s.on_line("A1 NO [AUTHENTICATIONFAILED] Invalid credentials") {
        ImapAction::Fail(m) => assert_eq!(m, "A1 NO [AUTHENTICATIONFAILED] Invalid credentials"),
        _ => panic!("expected a failure"),
    }
    assert_eq!(s.stage(), ImapStage::Finished);
}

#[test]
fn imap_exchange_fails_on_bad_status() {
    let mut s = ImapSession::new(request());
    let _ = s.on_line("* OK ready");
    let _ = s.on_line("A1 OK");
    match s.on_line("A2 BAD no such mailbox") {
        ImapAction::Fail(m) => assert_eq!(m, "A2 BAD no such mailbox"),
        _ => panic!("expected a failure"),
    }
}

#[test]
fn mail_totals_saturate() {
    assert_eq!(mail_counts(3, 4, 1), MailCounts { incoming: 3, outgoing: 4, total: 7, unread: 1 });
    assert_eq!(mail_counts(u32::MAX, 4, 0).total, u32::MAX);
}

#[test]
fn mail_source_order() {
    let imap = Some((1, 2, 3));
    let dir = Some((10, 20, 30));
    assert_eq!(choose_mail_counts(imap, dir), mail_counts(1, 2, 3));
    assert_eq!(choose_mail_counts(None, dir), mail_counts(10, 20, 30));
    assert_eq!(choose_mail_counts(None, None), mail_counts(0, 0, 0));
}

#[test]
fn maildir_helpers() {
    assert!(is_unread_name("1700000000.M1P2.host:2,"));
    assert!(!is_unread_name("1700000000.M1P2.host:2,RS"));
    assert_eq!(count_sent(&vec![(1, 2), (0, 0), (5, 1), (0, 3)]), 12);
    assert_eq!(count_sent(&vec![]), 0);
    assert_eq!(maildir_counts(4, 2, 1, 7), (6, 7, 3));
}

fn read_quoted(q: &str) -> String {
    let inner: Vec<char> = q.chars().collect();
    assert_eq!(inner.first(), Some(&'"'));
    assert_eq!(inner.last(), Some(&'"'));
    let body = &inner[1..inner.len() - 1];
    let mut out = String::new();
    let mut i = 0;
    while i < body.len() {
        if body[i] == '\\' && i + 1 < body.len() {
            out.push(body[i + 1]);
            i += 2;
        } else {
            out.push(body[i]);
            i += 1;
        }
    }
    out
}

#[test]
fn quoted_values_read_back() {
    for v in ["plain", "", "\\", "\"", "a\\\"b\\\\c\"", "pässwörd \\ \" end"] {
        assert_eq!(read_quoted(&imap_quote(v)), v);
    }
}

use io_maildir::entry::body::{can_be_parsed, can_be_read};
use io_maildir::entry::types::MaildirFullEntry;
use io_maildir::path::FsPath;

fn entry(body: &[u8]) -> MaildirFullEntry {
    MaildirFullEntry::from((FsPath::from("box/new/x"), body.to_vec()))
}

#[test]
fn ordinary_bodies_are_parsed() {
    let raw = b"From: a@example.com\r\nSubject: Hi\r\n\r\nGlobal digest, and/or more.\r\n-- \r\nme\r\n";
    let entry = entry(raw);
    let message = entry.try_parsed().unwrap().unwrap();
    assert_eq!(message.subject(), Some("Hi"));
    assert!(message.body_text(0).unwrap().starts_with("Global digest"));
    let message = entry.try_headers().unwrap().unwrap();
    assert_eq!(message.subject(), Some("Hi"));
}

#[test]
fn empty_bodies_are_let_through() {
    let entry = entry(b"");
    assert!(matches!(entry.try_parsed(), Some(None)));
    assert!(matches!(entry.try_headers(), Some(None)));
}

#[test]
fn soft_breaks_need_something_before_them() {
    let start = "Content-Type: multipart/mixed; boundary=b\n\n--b\n\
        Content-Transfer-Encoding: quoted-printable\n\n";
    for (text, expected) in [
        ("=\n--b--\n", false),
        ("=\r\n--b--\n", false),
        ("= \t\r\n--b--\n", false),
        ("ab=\n--b--\n", false),
        ("=41=\n--b--\n", false),
        ("abc=\n--b--\n", true),
        ("</html>=\r\n--b--\n", true),
        ("=\n-b--\n", true),
        ("=x\n--b--\n", true),
        ("abc\n--b--\n", true),
    ] {
        let raw = format!("{start}{text}");
        assert_eq!(can_be_read(raw.as_bytes()), expected, "{text:?}");
        assert_eq!(can_be_parsed(raw.as_bytes()), expected, "{text:?}");
        let entry = entry(raw.as_bytes());
        assert_eq!(entry.try_parsed().is_some(), expected, "{text:?}");
        assert_eq!(entry.try_headers().is_some(), expected, "{text:?}");
    }
}

#[test]
fn the_least_number_is_left_out_where_dates_are_read() {
    let raw = b"Received: ; 1 2 3 4 5 6 -9223372036854775808\nSubject: x\n\nhi\n";
    let left_out = entry(raw);
    assert!(left_out.try_parsed().is_none());
    assert!(left_out.try_headers().is_some());
    let raw = b"Received: ; 1 2 3 4 5 6 -9223372036854775807\nSubject: x\n\nhi\n";
    let entry = entry(raw);
    assert!(entry.try_parsed().is_some());
}

#[test]
fn encoded_messages_are_left_out() {
    let part = "Content-Type: MESSAGE/ RFC822\n\nSubject: in\n\nhi\n";
    assert!(can_be_read(part.as_bytes()));
    for encoding in ["base64", "Quoted-Printable", "=?utf-8?b?YmFzZTY0?="] {
        let raw = format!("Content-Transfer-Encoding: {encoding}\n{part}");
        assert!(!can_be_read(raw.as_bytes()), "{encoding}");
        let entry = entry(raw.as_bytes());
        assert!(entry.try_parsed().is_none());
        assert!(entry.try_headers().is_none());
    }
    assert!(can_be_read(b"Content-Transfer-Encoding: base64\nContent-Type: text/plain\n\naGk=\n"));
}

#[test]
fn one_plain_message_is_let_through() {
    let raw = "Content-Type: multipart/mixed; boundary=A\n\n--A\n\
        Content-Type: message/rfc822\n\nSubject: inner\n\nhi\n--A--\n";
    let outer = entry(raw.as_bytes());
    let message = outer.try_parsed().unwrap().unwrap();
    assert_eq!(message.attachment_count(), 1);

    let nested = "Content-Type: multipart/mixed; boundary=A\n\n--A\n\
        Content-Type: message/rfc822\n\nContent-Type: message/(c) \"global\"\n\n\
        Subject: inner\n\nhi\n--A--\n";
    let nested = entry(nested.as_bytes());
    assert!(nested.try_parsed().is_none());
    assert!(nested.try_headers().is_none());
}

use std::collections::hash_map::DefaultHasher;
use std::hash::{Hash, Hasher};

use io_maildir::entry::types::{
    build_relocated_path, build_target_path, hash_text, mint_id, MaildirEntry, MaildirFullEntry, MaildirIdCounter,
    INFORMATIONAL_SUFFIX_SEPARATOR,
};
use io_maildir::flag::types::{MaildirFlag, MaildirFlags};
use io_maildir::maildir::types::{Maildir, MaildirSubdir};
use io_maildir::path::FsPath;

fn full(path: &str, contents: &[u8]) -> MaildirFullEntry {
    MaildirFullEntry::from((FsPath::from(path), contents.to_vec()))
}

fn hash_of(value: &impl Hash) -> u64 {
    let mut hasher = DefaultHasher::new();
    value.hash(&mut hasher);
    hasher.finish()
}

#[test]
fn ids_hold_time_counter_process_and_host() {
    let mut ids = MaildirIdCounter::new();
    assert_eq!(mint_id(&mut ids, 1, 2, 3, "host"), "1.#0M2P3.host");
    assert_eq!(mint_id(&mut ids, 0, 0, 0, ""), "0.#1M0P0.");
    for n in 2..255 {
        assert_eq!(ids.draw(), n);
    }
    assert_eq!(
        mint_id(&mut ids, u64::MAX, u32::MAX, u32::MAX, "a.b"),
        "18446744073709551615.#ffM4294967295P4294967295.a.b"
    );
}

#[test]
fn target_paths_carry_flags_in_cur_only() {
    let target = Maildir::from_path("dst/");
    let mut flags = MaildirFlags::default();
    for flag in [
        MaildirFlag::Flagged,
        MaildirFlag::Draft,
        MaildirFlag::Trashed,
        MaildirFlag::Seen,
        MaildirFlag::Replied,
        MaildirFlag::Passed,
    ] {
        flags.insert(flag);
    }
    let path = |subdir: MaildirSubdir| build_target_path(&target, &subdir, "x", &flags);
    assert_eq!(path(MaildirSubdir::Cur).as_str(), "dst/cur/x:2,PRSTDF");
    assert_eq!(path(MaildirSubdir::New).as_str(), "dst/new/x");
    assert_eq!(path(MaildirSubdir::Tmp).as_str(), "dst/tmp/x");
    assert_eq!(MaildirFlags::from(&path(MaildirSubdir::Cur)), flags);
    assert_eq!(
        MaildirFlags::from(&path(MaildirSubdir::New)),
        MaildirFlags::default()
    );
}

#[test]
fn relocated_paths_carry_flags_everywhere() {
    let target = Maildir::from_path("dst");
    let mut flags = MaildirFlags::default();
    let path = |subdir: MaildirSubdir, flags: &MaildirFlags| {
        build_relocated_path(&target, &subdir, "x", flags)
    };
    assert!(flags.is_empty());
    assert_eq!(path(MaildirSubdir::Cur, &flags).as_str(), "dst/cur/x:2,");
    assert_eq!(path(MaildirSubdir::New, &flags).as_str(), "dst/new/x");
    assert_eq!(path(MaildirSubdir::Tmp, &flags).as_str(), "dst/tmp/x");
    flags.insert(MaildirFlag::Draft);
    flags.insert(MaildirFlag::Replied);
    assert!(!flags.is_empty());
    for subdir in [MaildirSubdir::Cur, MaildirSubdir::New, MaildirSubdir::Tmp] {
        let entry = MaildirEntry::from(path(subdir, &flags));
        assert_eq!(entry.flags(), flags);
        assert_eq!(entry.id(), Some("x"));
    }
    assert_eq!(path(MaildirSubdir::New, &flags).as_str(), "dst/new/x:2,RD");
}

#[test]
fn separators_in_host_names_reach_the_path() {
    let target = Maildir::from_path("dst");
    let mut ids = MaildirIdCounter::new();
    let mut flags = MaildirFlags::default();
    flags.insert(MaildirFlag::Seen);
    let id = mint_id(&mut ids, 1, 2, 3, "a:b");
    let in_cur = MaildirEntry::from(build_target_path(&target, &MaildirSubdir::Cur, &id, &flags));
    assert_eq!(in_cur.id(), Some("1.#0M2P3.a:b"));
    assert_eq!(in_cur.flags(), flags);
    let in_new = MaildirEntry::from(build_target_path(&target, &MaildirSubdir::New, &id, &flags));
    assert_eq!(in_new.id(), Some("1.#0M2P3.a"));
    let id = mint_id(&mut ids, 1, 2, 3, "a/b");
    let in_cur = MaildirEntry::from(build_target_path(&target, &MaildirSubdir::Cur, &id, &flags));
    assert_eq!(in_cur.id(), Some("b"));
    assert_eq!(in_cur.flags(), flags);
}

#[test]
fn entry_id_is_the_name_before_the_info_section() {
    assert_eq!(INFORMATIONAL_SUFFIX_SEPARATOR, ':');
    for (path, id) in [
        ("a/cur/x:2,S", Some("x")),
        ("a/new/x", Some("x")),
        ("x", Some("x")),
        ("a/cur/x:y:2,S", Some("x:y")),
        ("root/cur/a:2,S:b", Some("a")),
        ("a/cur/x:2,S:2,F", Some("x:2,S")),
        ("a/cur/x:1,S", Some("x")),
        ("a/cur/x:2", Some("x")),
        ("a/cur/:2,S", Some("")),
        ("a/cur/", None),
        ("", None),
    ] {
        assert_eq!(MaildirEntry::from_path(path).id(), id, "{path}");
        assert_eq!(full(path, b"").id(), id, "{path}");
    }
}

#[test]
fn entry_flags_are_read_from_the_name() {
    let flags = |path: &str| MaildirEntry::from_path(path).flags().to_string();
    assert_eq!(flags("a/cur/x:2,FS"), "SF");
    assert_eq!(flags("a/cur/x:2,"), "");
    assert_eq!(flags("a/cur/x:2,SSa"), "S");
    assert_eq!(flags("a/cur/x:1,S"), "");
    assert_eq!(flags("a/cur/x:2S"), "");
    assert_eq!(flags("a/cur/x:2,S:b"), "S");
    assert_eq!(flags("a/cur/x:2,S:2,F"), "F");
    assert_eq!(flags("a/cur/x"), "");
    assert_eq!(flags("a/cur:2,S/x"), "");
}

#[test]
fn entries_convert_to_and_from_paths() {
    let path = FsPath::from("a/cur/x:2,S");
    let entry = MaildirEntry::from(path.clone());
    assert_eq!(entry, MaildirEntry::from_path(path.clone()));
    assert_eq!(entry, MaildirEntry::from_path(String::from("a/cur/x:2,S")));
    assert_eq!(entry.path(), &path);
    assert_eq!(FsPath::from(entry), path);
}

#[test]
fn full_entries_hold_path_and_contents() {
    let entry = full("a/new/x", b"body");
    assert_eq!(entry.path().as_str(), "a/new/x");
    assert_eq!(entry.contents(), b"body");
    assert_eq!(Vec::<u8>::from(entry), b"body".to_vec());
}

#[test]
fn full_entries_hash_by_path() {
    assert_eq!(hash_of(&full("a", b"1")), hash_of(&full("a", b"2")));
    assert_ne!(hash_of(&full("a", b"1")), hash_of(&full("b", b"1")));
    assert_eq!(hash_of(&full("a", b"1")), hash_of(&FsPath::from("a")));
    let mut hasher = DefaultHasher::new();
    hash_text("a", &mut hasher);
    assert_eq!(hash_of(&full("a", b"1")), hasher.finish());
}

#[test]
fn bodies_are_parsed_as_messages() {
    let raw = b"From: alice@example.com\r\nSubject: Hello\r\nX-Extra: yes\r\n\r\nHi there\r\n";
    let entry = full("a/new/x", raw);
    let message = entry.parsed().unwrap();
    assert_eq!(message.subject(), Some("Hello"));
    assert_eq!(message.body_text(0).as_deref(), Some("Hi there\r\n"));
    assert_eq!(message.header_raw("X-Extra").map(str::trim), Some("yes"));
}

#[test]
fn headers_beyond_the_minimal_set_stay_raw() {
    let raw = b"From: alice@example.com\r\nSender: bob@example.com\r\nSubject: Hello\r\n\r\nHi\r\n";
    let entry = full("a/new/x", raw);
    let message = entry.headers().unwrap();
    assert_eq!(message.subject(), Some("Hello"));
    let from = message.from().and_then(|from| from.first());
    assert_eq!(
        from.and_then(|addr| addr.address()),
        Some("alice@example.com")
    );
    assert!(message.sender().is_none());
    let message = entry.parsed().unwrap();
    let sender = message.sender().and_then(|sender| sender.first());
    assert_eq!(
        sender.and_then(|addr| addr.address()),
        Some("bob@example.com")
    );
}

#[test]
fn empty_bodies_are_no_messages() {
    let entry = full("a/new/x", b"");
    assert!(entry.parsed().is_none());
    assert!(entry.headers().is_none());
}

use io_maildir::coroutine::{
    MaildirCoroutine, MaildirCoroutineState, MaildirReply, MaildirYield,
};
use io_maildir::entry::locate::MaildirEntryLocateError;
use io_maildir::entry::move_entry::{MaildirEntryMove, MaildirEntryMoveError};
use io_maildir::entry::types::MaildirIdCounter;
use io_maildir::maildir::types::{Maildir, MaildirSubdir};
use io_maildir::path::FsPath;
use io_maildir::paths::{PathMap, PathSet};

fn source() -> Maildir {
    Maildir::from_path("root/src")
}

fn target() -> Maildir {
    Maildir::from_path("root/dst")
}

#[test]
fn move_unexpected_reply_returns_error() {
    let mut ids = MaildirIdCounter::new();
    let mut cor = MaildirEntryMove::new(String::from("abc"), source(), target(), None);
    let _ = expect_wants_file_exists(&mut cor, &mut ids);

    let err = expect_complete_err(&mut cor, &mut ids, Some(MaildirReply::DirCreate));
    assert!(matches!(err, MaildirEntryMoveError::Locate(_)));
}

#[test]
fn cur_move_mints_fresh_id_and_preserves_flags() {
    let mut ids = MaildirIdCounter::new();
    // Source carries mbsync's `,U=999` infix and `FS` flags.
    let mut cor = MaildirEntryMove::new(
        String::from("1700000000.abc.host,U=999"),
        source(),
        target(),
        None,
    );

    // Locate: probe new/tmp, miss, scan cur, find the entry.
    let _ = expect_wants_file_exists(&mut cor, &mut ids);
    let mut probe = PathMap::new();
    probe.insert(FsPath::from("root/src/new/1700000000.abc.host,U=999"), false);
    probe.insert(FsPath::from("root/src/tmp/1700000000.abc.host,U=999"), false);
    match cor.resume(Some(MaildirReply::FileExists(probe)), &mut ids) {
        MaildirCoroutineState::Yielded(MaildirYield::WantsDirRead(_)) => {}
        state => panic!("expected WantsDirRead, got {state:?}"),
    }
    let mut entries = PathMap::new();
    let mut set = PathSet::new();
    set.insert(FsPath::from("root/src/cur/1700000000.abc.host,U=999:2,FS"));
    entries.insert(FsPath::from("root/src/cur"), set);
    // Locate completes, and the first delivery step asks for time.
    match cor.resume(Some(MaildirReply::DirRead(entries)), &mut ids) {
        MaildirCoroutineState::Yielded(MaildirYield::WantsTime) => {}
        state => panic!("expected WantsTime, got {state:?}"),
    }
    match cor.resume(Some(MaildirReply::Time { secs: 1, nanos: 2 }), &mut ids) {
        MaildirCoroutineState::Yielded(MaildirYield::WantsPid) => {}
        state => panic!("expected WantsPid, got {state:?}"),
    }
    match cor.resume(Some(MaildirReply::Pid(3)), &mut ids) {
        MaildirCoroutineState::Yielded(MaildirYield::WantsHostname) => {}
        state => panic!("expected WantsHostname, got {state:?}"),
    }
    match cor.resume(Some(MaildirReply::Hostname(String::from("host"))), &mut ids) {
        MaildirCoroutineState::Yielded(MaildirYield::WantsRename(pairs)) => {
            let (from, to) = &pairs[0];
            assert_eq!(
                from,
                &FsPath::from("root/src/cur/1700000000.abc.host,U=999:2,FS")
            );
            let to = to.as_str();
            // Fresh id under target/cur, no `,U=999`, flags preserved.
            assert!(to.starts_with("root/dst/cur/1."), "got {to}");
            assert!(!to.contains(",U=999"), "carried foreign UID: {to}");
            // Flags preserved; rendered in canonical (sorted) order.
            assert!(to.ends_with(":2,SF"), "flags not preserved: {to}");
        }
        state => panic!("expected WantsRename, got {state:?}"),
    }
    match cor.resume(Some(MaildirReply::Rename), &mut ids) {
        MaildirCoroutineState::Complete(Ok(())) => {}
        state => panic!("expected Complete(Ok), got {state:?}"),
    }
}

// Resumes a move whose source stands in `new` up to the delivery, and hands back its paths.
fn deliver_from_new(cor: &mut MaildirEntryMove, ids: &mut MaildirIdCounter) -> (String, String) {
    expect_wants_file_exists(cor, ids);
    let mut probe = PathMap::new();
    probe.insert(FsPath::from("root/src/new/abc"), true);
    match cor.resume(Some(MaildirReply::FileExists(probe)), ids) {
        MaildirCoroutineState::Yielded(MaildirYield::WantsTime) => {}
        state => panic!("expected WantsTime, got {state:?}"),
    }
    match cor.resume(Some(MaildirReply::Time { secs: 10, nanos: 20 }), ids) {
        MaildirCoroutineState::Yielded(MaildirYield::WantsPid) => {}
        state => panic!("expected WantsPid, got {state:?}"),
    }
    match cor.resume(Some(MaildirReply::Pid(30)), ids) {
        MaildirCoroutineState::Yielded(MaildirYield::WantsHostname) => {}
        state => panic!("expected WantsHostname, got {state:?}"),
    }
    match cor.resume(Some(MaildirReply::Hostname(String::from("box"))), ids) {
        MaildirCoroutineState::Yielded(MaildirYield::WantsRename(pairs)) => {
            assert_eq!(pairs.len(), 1);
            (
                pairs[0].0.as_str().to_owned(),
                pairs[0].1.as_str().to_owned(),
            )
        }
        state => panic!("expected WantsRename, got {state:?}"),
    }
}

#[test]
fn move_keeps_the_source_subdir_by_default() {
    let mut ids = MaildirIdCounter::new();
    let mut cor = MaildirEntryMove::new(String::from("abc"), source(), target(), None);
    let (from, to) = deliver_from_new(&mut cor, &mut ids);
    assert_eq!(from, "root/src/new/abc");
    assert_eq!(to, "root/dst/new/10.#0M20P30.box");
}

#[test]
fn move_goes_to_the_subdir_asked_for() {
    let mut ids = MaildirIdCounter::new();
    let mut cor = MaildirEntryMove::new(
        String::from("abc"),
        source(),
        target(),
        Some(MaildirSubdir::Cur),
    );
    let (_, to) = deliver_from_new(&mut cor, &mut ids);
    assert_eq!(to, "root/dst/cur/10.#0M20P30.box:2,");

    // The second delivery within the same clock tick differs from the first.
    let mut cor = MaildirEntryMove::new(
        String::from("abc"),
        source(),
        target(),
        Some(MaildirSubdir::Tmp),
    );
    let (_, to) = deliver_from_new(&mut cor, &mut ids);
    assert_eq!(to, "root/dst/tmp/10.#1M20P30.box");
}

#[test]
fn move_preserves_flags_in_every_subdir() {
    for (subdir, expected) in [
        (MaildirSubdir::Cur, "root/dst/cur/1.#0M2P3.host:2,SF"),
        (MaildirSubdir::New, "root/dst/new/1.#0M2P3.host:2,SF"),
        (MaildirSubdir::Tmp, "root/dst/tmp/1.#0M2P3.host:2,SF"),
    ] {
        let mut ids = MaildirIdCounter::new();
        let mut cor =
            MaildirEntryMove::new(String::from("x"), source(), target(), Some(subdir));
        expect_wants_file_exists(&mut cor, &mut ids);
        cor.resume(Some(MaildirReply::FileExists(PathMap::new())), &mut ids);
        let mut set = PathSet::new();
        set.insert(FsPath::from("root/src/cur/x:2,FS"));
        let mut listings = PathMap::new();
        listings.insert(FsPath::from("root/src/cur"), set);
        cor.resume(Some(MaildirReply::DirRead(listings)), &mut ids);
        cor.resume(Some(MaildirReply::Time { secs: 1, nanos: 2 }), &mut ids);
        cor.resume(Some(MaildirReply::Pid(3)), &mut ids);
        match cor.resume(Some(MaildirReply::Hostname(String::from("host"))), &mut ids) {
            MaildirCoroutineState::Yielded(MaildirYield::WantsRename(pairs)) => {
                assert_eq!(pairs[0].0.as_str(), "root/src/cur/x:2,FS");
                assert_eq!(pairs[0].1.as_str(), expected);
            }
            state => panic!("expected WantsRename, got {state:?}"),
        }
    }
}

#[test]
fn move_of_a_missing_entry_fails() {
    let mut ids = MaildirIdCounter::new();
    let mut cor = MaildirEntryMove::new(String::from("abc"), source(), target(), None);
    expect_wants_file_exists(&mut cor, &mut ids);
    match cor.resume(Some(MaildirReply::FileExists(PathMap::new())), &mut ids) {
        MaildirCoroutineState::Yielded(MaildirYield::WantsDirRead(dirs)) => {
            for dir in ["root/src/cur", "root/src/new", "root/src/tmp"] {
                assert!(dirs.contains(&FsPath::from(dir)));
            }
        }
        state => panic!("expected WantsDirRead, got {state:?}"),
    }
    let err = expect_complete_err(
        &mut cor,
        &mut ids,
        Some(MaildirReply::DirRead(PathMap::new())),
    );
    match err {
        MaildirEntryMoveError::Locate(MaildirEntryLocateError::NotFound(id)) => {
            assert_eq!(id, "abc");
        }
        err => panic!("expected NotFound, got {err:?}"),
    }
    assert_eq!(ids.draw(), 0);
}

#[test]
fn move_hands_an_unexpected_reply_back_and_stands_still() {
    let mut ids = MaildirIdCounter::new();
    let mut cor = MaildirEntryMove::new(String::from("abc"), source(), target(), None);
    deliver_from_new(&mut cor, &mut ids);
    let err = expect_complete_err(&mut cor, &mut ids, Some(MaildirReply::Copy));
    assert!(matches!(
        err,
        MaildirEntryMoveError::UnexpectedArg(Some(MaildirReply::Copy))
    ));
    let err = expect_complete_err(&mut cor, &mut ids, None);
    assert!(matches!(err, MaildirEntryMoveError::UnexpectedArg(None)));
    match cor.resume(Some(MaildirReply::Rename), &mut ids) {
        MaildirCoroutineState::Complete(Ok(())) => {}
        state => panic!("expected Complete(Ok), got {state:?}"),
    }
    assert_eq!(ids.draw(), 1);
}

#[test]
fn move_names_its_states() {
    let mut ids = MaildirIdCounter::new();
    let mut cor = MaildirEntryMove::new(String::from("abc"), source(), target(), None);
    assert_eq!(cor.state_name(), "locate source");
    expect_wants_file_exists(&mut cor, &mut ids);
    let mut probe = PathMap::new();
    probe.insert(FsPath::from("root/src/tmp/abc"), true);
    cor.resume(Some(MaildirReply::FileExists(probe)), &mut ids);
    assert_eq!(cor.state_name(), "await time reply");
    cor.resume(Some(MaildirReply::Time { secs: 1, nanos: 2 }), &mut ids);
    assert_eq!(cor.state_name(), "await pid reply");
    cor.resume(Some(MaildirReply::Pid(3)), &mut ids);
    assert_eq!(cor.state_name(), "await hostname reply");
    cor.resume(Some(MaildirReply::Hostname(String::from("host"))), &mut ids);
    assert_eq!(cor.state_name(), "await rename reply");
}

#[test]
fn move_errors_wrap_locate_errors() {
    let err = MaildirEntryMoveError::from(MaildirEntryLocateError::NotFound(String::from("x")));
    assert!(matches!(
        err,
        MaildirEntryMoveError::Locate(MaildirEntryLocateError::NotFound(_))
    ));
}

fn expect_wants_file_exists(cor: &mut MaildirEntryMove, ids: &mut MaildirIdCounter) {
    match cor.resume(None, ids) {
        MaildirCoroutineState::Yielded(MaildirYield::WantsFileExists(_)) => {}
        state => panic!("expected WantsFileExists, got {state:?}"),
    }
}

fn expect_complete_err(
    cor: &mut MaildirEntryMove,
    ids: &mut MaildirIdCounter,
    arg: Option<MaildirReply>,
) -> MaildirEntryMoveError {
    match cor.resume(arg, ids) {
        MaildirCoroutineState::Complete(Err(err)) => err,
        state => panic!("expected Complete(Err), got {state:?}"),
    }
}

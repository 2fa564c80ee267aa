use io_maildir::coroutine::{
    MaildirCoroutine, MaildirCoroutineState, MaildirReply, MaildirYield,
};
use io_maildir::entry::store::{
    MaildirEntryStore, MaildirEntryStoreError, MaildirEntryStoreOutput,
};
use io_maildir::entry::types::{MaildirEntry, MaildirIdCounter};
use io_maildir::flag::types::{MaildirFlag, MaildirFlags};
use io_maildir::maildir::types::{Maildir, MaildirSubdir};
use io_maildir::path::FsPath;

fn maildir() -> Maildir {
    Maildir::from_path("root")
}

#[test]
fn full_flow_returns_ok() {
    let mut ids = MaildirIdCounter::new();
    let mut cor = MaildirEntryStore::new(
        maildir(),
        MaildirSubdir::New,
        MaildirFlags::default(),
        b"hello".to_vec(),
    );

    match cor.resume(None, &mut ids) {
        MaildirCoroutineState::Yielded(MaildirYield::WantsTime) => {}
        state => panic!("expected WantsTime, got {state:?}"),
    }
    match cor.resume(Some(MaildirReply::Time { secs: 1, nanos: 2 }), &mut ids) {
        MaildirCoroutineState::Yielded(MaildirYield::WantsPid) => {}
        state => panic!("expected WantsPid, got {state:?}"),
    }
    match cor.resume(Some(MaildirReply::Pid(3)), &mut ids) {
        MaildirCoroutineState::Yielded(MaildirYield::WantsHostname) => {}
        state => panic!("expected WantsHostname, got {state:?}"),
    }
    match cor.resume(Some(MaildirReply::Hostname(String::from("host"))), &mut ids) {
        MaildirCoroutineState::Yielded(MaildirYield::WantsFileCreate(_)) => {}
        state => panic!("expected WantsFileCreate, got {state:?}"),
    }
    match cor.resume(Some(MaildirReply::FileCreate), &mut ids) {
        MaildirCoroutineState::Yielded(MaildirYield::WantsRename(_)) => {}
        state => panic!("expected WantsRename, got {state:?}"),
    }
    match cor.resume(Some(MaildirReply::Rename), &mut ids) {
        MaildirCoroutineState::Complete(Ok(out)) => {
            assert!(out.id.starts_with("1."));
            assert!(out.path.as_str().contains("/new/"));
        }
        state => panic!("expected Complete(Ok), got {state:?}"),
    }
}

#[test]
fn store_unexpected_reply_returns_error() {
    let mut ids = MaildirIdCounter::new();
    let mut cor = MaildirEntryStore::new(
        maildir(),
        MaildirSubdir::New,
        MaildirFlags::default(),
        b"hello".to_vec(),
    );

    match cor.resume(None, &mut ids) {
        MaildirCoroutineState::Yielded(MaildirYield::WantsTime) => {}
        state => panic!("expected WantsTime, got {state:?}"),
    }
    match cor.resume(Some(MaildirReply::DirCreate), &mut ids) {
        MaildirCoroutineState::Complete(Err(MaildirEntryStoreError::UnexpectedArg(_))) => {}
        state => panic!("expected Complete(Err), got {state:?}"),
    }
}

// Runs a whole store, and checks that the one file it writes to `tmp` is the one it moves.
fn store(
    ids: &mut MaildirIdCounter,
    subdir: MaildirSubdir,
    flags: MaildirFlags,
    contents: &[u8],
) -> MaildirEntryStoreOutput {
    let mut cor = MaildirEntryStore::new(maildir(), subdir, flags, contents.to_vec());
    assert_eq!(cor.state_name(), "start");
    cor.resume(None, ids);
    assert_eq!(cor.state_name(), "await time reply");
    cor.resume(Some(MaildirReply::Time { secs: 1700000000, nanos: 5 }), ids);
    assert_eq!(cor.state_name(), "await pid reply");
    cor.resume(Some(MaildirReply::Pid(77)), ids);
    assert_eq!(cor.state_name(), "await hostname reply");
    let created = match cor.resume(Some(MaildirReply::Hostname(String::from("mx"))), ids) {
        MaildirCoroutineState::Yielded(MaildirYield::WantsFileCreate(files)) => files,
        state => panic!("expected WantsFileCreate, got {state:?}"),
    };
    assert_eq!(cor.state_name(), "await tmp create reply");
    assert_eq!(created.entries().len(), 1);
    assert_eq!(created.entries()[0].1, contents.to_vec());
    let pairs = match cor.resume(Some(MaildirReply::FileCreate), ids) {
        MaildirCoroutineState::Yielded(MaildirYield::WantsRename(pairs)) => pairs,
        state => panic!("expected WantsRename, got {state:?}"),
    };
    assert_eq!(cor.state_name(), "await rename reply");
    assert_eq!(pairs.len(), 1);
    assert_eq!(pairs[0].0, created.entries()[0].0);
    let out = match cor.resume(Some(MaildirReply::Rename), ids) {
        MaildirCoroutineState::Complete(Ok(out)) => out,
        state => panic!("expected Complete(Ok), got {state:?}"),
    };
    assert_eq!(pairs[0].1, out.path);
    assert_eq!(pairs[0].0, FsPath::from(format!("root/tmp/{}", out.id)));
    out
}

#[test]
fn store_in_cur_writes_the_flags_behind_the_id() {
    let mut ids = MaildirIdCounter::new();
    let mut flags = MaildirFlags::default();
    flags.insert(MaildirFlag::Flagged);
    flags.insert(MaildirFlag::Passed);
    let out = store(&mut ids, MaildirSubdir::Cur, flags, b"body");
    assert_eq!(out.id, "1700000000.#0M5P77.mx");
    assert_eq!(out.path.as_str(), "root/cur/1700000000.#0M5P77.mx:2,PF");
    let entry = MaildirEntry::from_path(out.path);
    assert_eq!(entry.id(), Some("1700000000.#0M5P77.mx"));
    assert_eq!(entry.flags(), flags);
}

#[test]
fn store_outside_cur_writes_no_flags() {
    let mut ids = MaildirIdCounter::new();
    let mut flags = MaildirFlags::default();
    flags.insert(MaildirFlag::Seen);
    let out = store(&mut ids, MaildirSubdir::New, flags, b"");
    assert_eq!(out.path.as_str(), "root/new/1700000000.#0M5P77.mx");
    let out = store(&mut ids, MaildirSubdir::Tmp, flags, b"");
    assert_eq!(out.path.as_str(), "root/tmp/1700000000.#1M5P77.mx");
}

#[test]
fn stores_within_one_tick_do_not_collide() {
    let mut ids = MaildirIdCounter::new();
    let flags = MaildirFlags::default();
    let mut seen: Vec<String> = Vec::new();
    for _ in 0..20 {
        let out = store(&mut ids, MaildirSubdir::New, flags, b"same");
        assert!(!seen.contains(&out.id));
        seen.push(out.id);
    }
    // The counter is written in lower case hexadecimal.
    assert_eq!(seen[10], "1700000000.#aM5P77.mx");
    assert_eq!(seen[16], "1700000000.#10M5P77.mx");
}

#[test]
fn store_stands_still_on_an_unexpected_reply() {
    let mut ids = MaildirIdCounter::new();
    let mut cor = MaildirEntryStore::new(
        maildir(),
        MaildirSubdir::New,
        MaildirFlags::default(),
        b"hello".to_vec(),
    );
    match cor.resume(Some(MaildirReply::Pid(1)), &mut ids) {
        MaildirCoroutineState::Complete(Err(MaildirEntryStoreError::UnexpectedArg(Some(
            MaildirReply::Pid(1),
        )))) => {}
        state => panic!("expected Complete(Err), got {state:?}"),
    }
    assert_eq!(cor.state_name(), "start");
    cor.resume(None, &mut ids);
    match cor.resume(None, &mut ids) {
        MaildirCoroutineState::Complete(Err(MaildirEntryStoreError::UnexpectedArg(None))) => {}
        state => panic!("expected Complete(Err), got {state:?}"),
    }
    assert_eq!(cor.state_name(), "await time reply");
    assert_eq!(ids.draw(), 0);
}

#[test]
fn store_gives_its_output_away_once() {
    let mut ids = MaildirIdCounter::new();
    let mut cor = MaildirEntryStore::new(
        maildir(),
        MaildirSubdir::New,
        MaildirFlags::default(),
        b"hello".to_vec(),
    );
    cor.resume(None, &mut ids);
    cor.resume(Some(MaildirReply::Time { secs: 1, nanos: 2 }), &mut ids);
    cor.resume(Some(MaildirReply::Pid(3)), &mut ids);
    cor.resume(Some(MaildirReply::Hostname(String::from("host"))), &mut ids);
    cor.resume(Some(MaildirReply::FileCreate), &mut ids);
    cor.resume(Some(MaildirReply::Rename), &mut ids);
    match cor.resume(Some(MaildirReply::Rename), &mut ids) {
        MaildirCoroutineState::Complete(Ok(out)) => {
            assert_eq!(out.id, "");
            assert_eq!(out.path, FsPath::default());
        }
        state => panic!("expected Complete(Ok), got {state:?}"),
    }
}

use io_maildir::coroutine::{
    MaildirCoroutine, MaildirCoroutineState, MaildirReply, MaildirYield,
};
use io_maildir::entry::locate::{
    MaildirEntryLocate, MaildirEntryLocateError, MaildirEntryLocateOutput,
};
use io_maildir::entry::types::MaildirIdCounter;
use io_maildir::flag::types::{MaildirFlag, MaildirFlags};
use io_maildir::maildir::types::{Maildir, MaildirSubdir};
use io_maildir::path::FsPath;
use io_maildir::paths::{PathMap, PathSet};

fn search(
    id: &str,
    found: &[&str],
    listed: &[&str],
) -> Result<MaildirEntryLocateOutput, MaildirEntryLocateError> {
    let mut ids = MaildirIdCounter::new();
    let mut cor = MaildirEntryLocate::new(Maildir::from_path("box"), id.to_owned());
    let asked = match cor.resume(None, &mut ids) {
        MaildirCoroutineState::Yielded(MaildirYield::WantsFileExists(paths)) => paths,
        state => panic!("expected WantsFileExists, got {state:?}"),
    };
    assert_eq!(asked.paths().len(), 2);
    assert!(asked.contains(&FsPath::from(format!("box/new/{id}"))));
    assert!(asked.contains(&FsPath::from(format!("box/tmp/{id}"))));
    let mut probe = PathMap::new();
    for (path, _) in asked.paths() {
        probe.insert(path.clone(), found.contains(&path.as_str()));
    }
    let dirs = match cor.resume(Some(MaildirReply::FileExists(probe)), &mut ids) {
        MaildirCoroutineState::Complete(result) => return result,
        MaildirCoroutineState::Yielded(MaildirYield::WantsDirRead(dirs)) => dirs,
        state => panic!("expected WantsDirRead, got {state:?}"),
    };
    assert_eq!(dirs.paths().len(), 3);
    let mut listings = PathMap::new();
    for (dir, _) in dirs.paths() {
        let mut set = PathSet::new();
        for path in listed {
            if path.starts_with(dir.as_str()) {
                set.insert(FsPath::from(*path));
            }
        }
        listings.insert(dir.clone(), set);
    }
    match cor.resume(Some(MaildirReply::DirRead(listings)), &mut ids) {
        MaildirCoroutineState::Complete(result) => result,
        state => panic!("expected Complete, got {state:?}"),
    }
}

#[test]
fn locate_prefers_new() {
    let out = search("a", &["box/tmp/a", "box/new/a"], &[]).unwrap();
    assert_eq!(out.path.as_str(), "box/new/a");
    assert_eq!(out.subdir, MaildirSubdir::New);
    assert_eq!(out.flags, MaildirFlags::default());
}

#[test]
fn locate_falls_back_to_tmp() {
    let out = search("a", &["box/tmp/a"], &["box/cur/a:2,S"]).unwrap();
    assert_eq!(out.path.as_str(), "box/tmp/a");
    assert_eq!(out.subdir, MaildirSubdir::Tmp);
}

#[test]
fn locate_searches_cur_by_id() {
    let out = search("b", &[], &["box/cur/a:2,S", "box/cur/b:2,RS", "box/cur/bb:2,"]).unwrap();
    assert_eq!(out.path.as_str(), "box/cur/b:2,RS");
    assert_eq!(out.subdir, MaildirSubdir::Cur);
    assert!(out.flags.contains(MaildirFlag::Replied));
    assert!(out.flags.contains(MaildirFlag::Seen));
    assert!(!out.flags.contains(MaildirFlag::Flagged));
}

#[test]
fn locate_finds_flagged_names_outside_cur() {
    let out = search("b", &[], &["box/new/b:2,S", "box/tmp/b:2,F"]).unwrap();
    assert_eq!(out.path.as_str(), "box/new/b:2,S");
    assert_eq!(out.subdir, MaildirSubdir::New);
    assert_eq!(out.flags.to_string(), "S");
    let out = search("b", &[], &["box/tmp/b:2,F"]).unwrap();
    assert_eq!(out.path.as_str(), "box/tmp/b:2,F");
    assert_eq!(out.subdir, MaildirSubdir::Tmp);
    let out = search("b", &[], &["box/new/b:2,S", "box/cur/b:2,F"]).unwrap();
    assert_eq!(out.subdir, MaildirSubdir::Cur);
}

#[test]
fn locate_takes_the_first_of_several() {
    let out = search("b", &[], &["box/cur/b:2,S", "box/cur/b:2,F", "box/cur/b"]).unwrap();
    assert_eq!(out.path.as_str(), "box/cur/b");
}

#[test]
fn locate_fails_without_a_match() {
    match search("c", &[], &["box/cur/a:2,S", "box/cur/cc:2,S"]) {
        Err(MaildirEntryLocateError::NotFound(id)) => assert_eq!(id, "c"),
        result => panic!("expected NotFound, got {result:?}"),
    }
}

#[test]
fn locate_hands_an_unexpected_reply_back() {
    let mut ids = MaildirIdCounter::new();
    let mut cor = MaildirEntryLocate::new(Maildir::from_path("box"), String::from("a"));
    match cor.resume(Some(MaildirReply::Rename), &mut ids) {
        MaildirCoroutineState::Complete(Err(MaildirEntryLocateError::UnexpectedArg(Some(
            MaildirReply::Rename,
        )))) => {}
        state => panic!("expected Complete(Err), got {state:?}"),
    }
    match cor.resume(None, &mut ids) {
        MaildirCoroutineState::Yielded(MaildirYield::WantsFileExists(_)) => {}
        state => panic!("expected WantsFileExists, got {state:?}"),
    }
    assert_eq!(ids.draw(), 0);
}

use io_maildir::flag::types::{MaildirFlag, MaildirFlags};
use io_maildir::maildir::types::{Maildir, MaildirSubdir};
use io_maildir::path::FsPath;
use io_maildir::paths::{PathMap, PathSet};
use io_maildir::text;

#[test]
fn joining_adds_one_separator() {
    assert_eq!(FsPath::from("a").join("b").as_str(), "a/b");
    assert_eq!(FsPath::from("a/").join("b").as_str(), "a/b");
    assert_eq!(FsPath::from("").join("b").as_str(), "b");
    assert_eq!(FsPath::from("/").join("b").as_str(), "/b");
}

#[test]
fn file_names_stand_behind_the_last_separator() {
    assert_eq!(FsPath::from("a/b").file_name(), Some("b"));
    assert_eq!(FsPath::from("b").file_name(), Some("b"));
    assert_eq!(FsPath::from("a/").file_name(), None);
    assert_eq!(FsPath::from("").file_name(), None);
    assert_eq!(FsPath::from("a").join("b").file_name(), Some("b"));
}

#[test]
fn taking_a_path_leaves_the_empty_one() {
    let mut path = FsPath::from("a/b");
    assert_eq!(path.take().as_str(), "a/b");
    assert_eq!(path, FsPath::default());
}

#[test]
fn maildirs_have_three_subdirs() {
    let maildir = Maildir::from_path("box");
    assert_eq!(maildir.path().as_str(), "box");
    assert_eq!(maildir.cur().as_str(), "box/cur");
    assert_eq!(maildir.new().as_str(), "box/new");
    assert_eq!(maildir.tmp().as_str(), "box/tmp");
    assert_eq!(maildir.subdir(&MaildirSubdir::Cur), maildir.cur());
    assert_eq!(maildir.subdir(&MaildirSubdir::New), maildir.new());
    assert_eq!(maildir.subdir(&MaildirSubdir::Tmp), maildir.tmp());
}

#[test]
fn path_maps_keep_path_order() {
    let mut map = PathMap::new();
    assert_eq!(map.insert(FsPath::from("b"), 1), None);
    assert_eq!(map.insert(FsPath::from("a"), 2), None);
    assert_eq!(map.insert(FsPath::from("ab"), 3), None);
    assert_eq!(map.insert(FsPath::from("b"), 4), Some(1));
    let keys: Vec<&str> = map.entries().iter().map(|entry| entry.0.as_str()).collect();
    assert_eq!(keys, ["a", "ab", "b"]);
    assert_eq!(map.get(&FsPath::from("b")), Some(&4));
    assert_eq!(map.get(&FsPath::from("c")), None);
    assert_eq!(map.clone().get(&FsPath::from("ab")), Some(&3));
}

#[test]
fn path_sets_hold_each_path_once() {
    let mut set = PathSet::new();
    assert!(set.insert(FsPath::from("b")));
    assert!(set.insert(FsPath::from("a")));
    assert!(!set.insert(FsPath::from("b")));
    assert!(set.contains(&FsPath::from("a")));
    assert!(!set.contains(&FsPath::from("c")));
    assert_eq!(set.paths().len(), 2);
    assert_eq!(set.paths()[0].0.as_str(), "a");
}

#[test]
fn flags_render_in_canonical_order() {
    let mut flags = MaildirFlags::default();
    assert_eq!(flags.to_string(), "");
    flags.insert(MaildirFlag::Flagged);
    flags.insert(MaildirFlag::Seen);
    flags.insert(MaildirFlag::Seen);
    assert_eq!(flags.to_string(), "SF");
    assert!(flags.contains(MaildirFlag::Seen));
    assert!(!flags.contains(MaildirFlag::Draft));
}

#[test]
fn text_is_split_at_the_last_separator() {
    assert_eq!(text::rsplit_once("a:b:c", ':'), Some(("a:b", "c")));
    assert_eq!(text::rsplit_once(":", ':'), Some(("", "")));
    assert_eq!(text::rsplit_once("abc", ':'), None);
    assert!(text::precedes("a", "ab"));
    assert!(text::precedes("ab", "b"));
    assert!(!text::precedes("b", "b"));
    assert!(text::same("b", "b"));
    assert!(!text::same("b", "bb"));
}

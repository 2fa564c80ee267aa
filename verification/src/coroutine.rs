//! The protocol between coroutines and the runtime that performs I/O for them.
//!
//! A coroutine is resumed with the reply to its last request, the first time with none. It
//! either yields its next request or completes.

use vstd::prelude::*;

use crate::entry::types::MaildirIdCounter;
use crate::path::FsPath;
use crate::paths::{PathMap, PathSet};

verus! {

/// A request of a coroutine to its runtime.
#[derive(Clone, Debug)]
pub enum MaildirYield {
    /// The time since the Unix epoch.
    WantsTime,
    /// The id of the process.
    WantsPid,
    /// The name of the host.
    WantsHostname,
    /// Whether there are files at the given paths.
    WantsFileExists(PathSet),
    /// What the given directories hold.
    WantsDirRead(PathSet),
    /// New files with the given contents.
    WantsFileCreate(PathMap<Vec<u8>>),
    /// Files moved from the first path of each pair to the second.
    WantsRename(Vec<(FsPath, FsPath)>),
    /// Files copied from the first path of each pair to the second.
    WantsCopy(Vec<(FsPath, FsPath)>),
}

/// The answer of the runtime to a request.
#[derive(Clone, Debug)]
pub enum MaildirReply {
    /// Seconds since the Unix epoch and nanoseconds into the current one.
    Time { secs: u64, nanos: u32 },
    /// The id of the process.
    Pid(u32),
    /// The name of the host.
    Hostname(String),
    /// For each path asked about, whether there is a file.
    FileExists(PathMap<bool>),
    /// For each directory asked about, the paths of what it holds.
    DirRead(PathMap<PathSet>),
    /// The directories have been created.
    DirCreate,
    /// The files have been created.
    FileCreate,
    /// The files have been moved.
    Rename,
    /// The files have been copied.
    Copy,
}

/// Where a coroutine stands after it has been resumed.
#[derive(Clone, Debug)]
pub enum MaildirCoroutineState<Y, R> {
    /// It waits for the reply to a request.
    Yielded(Y),
    /// It is done.
    Complete(R),
}

/// A [`MaildirYield`] without its representation.
pub enum YieldView {
    WantsTime,
    WantsPid,
    WantsHostname,
    WantsFileExists(Set<Seq<char>>),
    WantsDirRead(Set<Seq<char>>),
    WantsFileCreate(Map<Seq<char>, Seq<u8>>),
    WantsRename(Seq<(Seq<char>, Seq<char>)>),
    WantsCopy(Seq<(Seq<char>, Seq<char>)>),
}

/// A [`MaildirReply`] without its representation.
pub enum ReplyView {
    Time { secs: u64, nanos: u32 },
    Pid(u32),
    Hostname(Seq<char>),
    FileExists(Map<Seq<char>, bool>),
    DirRead(Map<Seq<char>, Set<Seq<char>>>),
    DirCreate,
    FileCreate,
    Rename,
    Copy,
}

/// The paths of each pair.
pub open spec fn path_pairs(pairs: Seq<(FsPath, FsPath)>) -> Seq<(Seq<char>, Seq<char>)> {
    pairs.map_values(|pair: (FsPath, FsPath)| (pair.0@, pair.1@))
}

/// The one pair of `from` and `to`.
pub(crate) fn single_pair(from: FsPath, to: FsPath) -> (pairs: Vec<(FsPath, FsPath)>)
    ensures
        path_pairs(pairs@) == seq![(from@, to@)],
{
    let pairs = vec![(from, to)];
    assert(path_pairs(pairs@) =~= seq![(from@, to@)]);
    pairs
}

impl View for MaildirYield {
    type V = YieldView;

    open spec fn view(&self) -> YieldView {
        match self {
            MaildirYield::WantsTime => YieldView::WantsTime,
            MaildirYield::WantsPid => YieldView::WantsPid,
            MaildirYield::WantsHostname => YieldView::WantsHostname,
            MaildirYield::WantsFileExists(paths) => YieldView::WantsFileExists(paths@),
            MaildirYield::WantsDirRead(paths) => YieldView::WantsDirRead(paths@),
            MaildirYield::WantsFileCreate(files) => YieldView::WantsFileCreate(
                files@.map_values(|contents: Vec<u8>| contents@),
            ),
            MaildirYield::WantsRename(pairs) => YieldView::WantsRename(path_pairs(pairs@)),
            MaildirYield::WantsCopy(pairs) => YieldView::WantsCopy(path_pairs(pairs@)),
        }
    }
}

impl View for MaildirReply {
    type V = ReplyView;

    open spec fn view(&self) -> ReplyView {
        match self {
            MaildirReply::Time { secs, nanos } => ReplyView::Time { secs: *secs, nanos: *nanos },
            MaildirReply::Pid(pid) => ReplyView::Pid(*pid),
            MaildirReply::Hostname(hostname) => ReplyView::Hostname(hostname@),
            MaildirReply::FileExists(found) => ReplyView::FileExists(found@),
            MaildirReply::DirRead(listings) => ReplyView::DirRead(
                listings@.map_values(|listing: PathSet| listing@),
            ),
            MaildirReply::DirCreate => ReplyView::DirCreate,
            MaildirReply::FileCreate => ReplyView::FileCreate,
            MaildirReply::Rename => ReplyView::Rename,
            MaildirReply::Copy => ReplyView::Copy,
        }
    }
}

/// The reply a coroutine is resumed with, if any, without its representation.
pub open spec fn reply_view(arg: Option<MaildirReply>) -> Option<ReplyView> {
    match arg {
        Some(reply) => Some(reply@),
        None => None,
    }
}

/// A computation that leaves all I/O to its runtime.
pub trait MaildirCoroutine {
    /// What the coroutine asks for.
    type Yield;

    /// What the coroutine comes to.
    type Return;

    /// Runs the coroutine up to its next request or to its end. `arg` is the reply to the last
    /// request; unique names are minted with `ids`.
    fn resume(&mut self, arg: Option<MaildirReply>, ids: &mut MaildirIdCounter) -> (state:
        MaildirCoroutineState<Self::Yield, Self::Return>);
}

// --------------------------------------------------------------------- laws

/// The view of a request tells the same request with the same paths and contents.
pub proof fn law_yield_view(request: MaildirYield)
    ensures
        match request {
            MaildirYield::WantsTime => request@ == YieldView::WantsTime,
            MaildirYield::WantsPid => request@ == YieldView::WantsPid,
            MaildirYield::WantsHostname => request@ == YieldView::WantsHostname,
            MaildirYield::WantsFileExists(paths) => request@ == YieldView::WantsFileExists(paths@),
            MaildirYield::WantsDirRead(paths) => request@ == YieldView::WantsDirRead(paths@),
            MaildirYield::WantsFileCreate(files) => request@ matches YieldView::WantsFileCreate(view)
                && view.dom() == files@.dom() && forall|path: Seq<char>| #[trigger]
                files@.contains_key(path) ==> view[path] == files@[path]@,
            MaildirYield::WantsRename(pairs) => request@ matches YieldView::WantsRename(view)
                && view.len() == pairs@.len() && forall|i: int|
                0 <= i < pairs@.len() ==> #[trigger] view[i] == (pairs@[i].0@, pairs@[i].1@),
            MaildirYield::WantsCopy(pairs) => request@ matches YieldView::WantsCopy(view)
                && view.len() == pairs@.len() && forall|i: int|
                0 <= i < pairs@.len() ==> #[trigger] view[i] == (pairs@[i].0@, pairs@[i].1@),
        },
{
}

/// The view of a reply tells the same reply with the same numbers, names and paths.
pub proof fn law_reply_view(reply: MaildirReply)
    ensures
        reply_view(None) is None,
        reply_view(Some(reply)) == Some(reply@),
        match reply {
            MaildirReply::Time { secs, nanos } => reply@ == (ReplyView::Time { secs, nanos }),
            MaildirReply::Pid(pid) => reply@ == ReplyView::Pid(pid),
            MaildirReply::Hostname(hostname) => reply@ == ReplyView::Hostname(hostname@),
            MaildirReply::FileExists(found) => reply@ == ReplyView::FileExists(found@),
            MaildirReply::DirRead(listings) => reply@ matches ReplyView::DirRead(view)
                && view.dom() == listings@.dom() && forall|dir: Seq<char>| #[trigger]
                listings@.contains_key(dir) ==> view[dir] == listings@[dir]@,
            MaildirReply::DirCreate => reply@ == ReplyView::DirCreate,
            MaildirReply::FileCreate => reply@ == ReplyView::FileCreate,
            MaildirReply::Rename => reply@ == ReplyView::Rename,
            MaildirReply::Copy => reply@ == ReplyView::Copy,
        },
{
}

} // verus!

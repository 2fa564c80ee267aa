//! I/O-free coroutine locating a Maildir entry by its id.
//!
//! In `new` and `tmp` the id mostly is the file name, so those paths are probed first. In `cur` the
//! flags are written behind the id, and so are those of entries that were relocated with their
//! flags, so after that the directories are searched.

use vstd::prelude::*;

use crate::coroutine::{
    self, MaildirCoroutine, MaildirCoroutineState, MaildirReply, MaildirYield, ReplyView, YieldView,
};
use crate::entry::types::{self, MaildirEntry, MaildirIdCounter};
use crate::flag::types::{self as flag, MaildirFlags};
use crate::maildir::types::{self as maildir, Maildir, MaildirSubdir};
use crate::path::FsPath;
use crate::paths::{self, PathMap, PathSet};
use crate::text;

verus! {

/// Failure causes during a [`MaildirEntryLocate`] step.
#[derive(Clone, Debug)]
pub enum MaildirEntryLocateError {
    /// The reply is not one to the last request.
    UnexpectedArg(Option<MaildirReply>),
    /// The Maildir holds no entry of this id.
    NotFound(String),
}

/// Successful output of [`MaildirEntryLocate`].
#[derive(Clone, Debug)]
pub struct MaildirEntryLocateOutput {
    /// Where the entry stands.
    pub path: FsPath,
    /// The subdirectory it stands in.
    pub subdir: MaildirSubdir,
    /// The flags written in its file name.
    pub flags: MaildirFlags,
}

/// What a [`MaildirEntryLocate`] waits for.
#[derive(Clone, Copy, Debug, PartialEq, Eq, Structural)]
pub enum LocateStep {
    Start,
    AwaitFileExists,
    AwaitDirRead,
}

/// Locates a Maildir entry by its id.
#[derive(Debug)]
pub struct MaildirEntryLocate {
    maildir: Maildir,
    id: String,
    step: LocateStep,
}

// -------------------------------------------------------------------- model

/// A [`MaildirEntryLocateError`] without its representation.
pub enum LocateErrorView {
    UnexpectedArg(Option<ReplyView>),
    NotFound(Seq<char>),
}

impl View for MaildirEntryLocateError {
    type V = LocateErrorView;

    open spec fn view(&self) -> LocateErrorView {
        match self {
            MaildirEntryLocateError::UnexpectedArg(arg) => LocateErrorView::UnexpectedArg(
                coroutine::reply_view(*arg),
            ),
            MaildirEntryLocateError::NotFound(id) => LocateErrorView::NotFound(id@),
        }
    }
}

/// A located entry.
pub struct LocatedView {
    pub path: Seq<char>,
    pub subdir: MaildirSubdir,
    pub flags: Set<flag::MaildirFlag>,
}

impl View for MaildirEntryLocateOutput {
    type V = LocatedView;

    open spec fn view(&self) -> LocatedView {
        LocatedView { path: self.path@, subdir: self.subdir, flags: self.flags@ }
    }
}

/// The entry at `path`, with the flags that its file name carries.
pub open spec fn located(path: Seq<char>, subdir: MaildirSubdir) -> LocatedView {
    LocatedView { path, subdir, flags: flag::flags_of_path(path) }
}

/// Where a search stands: the Maildir, the id looked for, and the reply waited for.
pub struct LocateView {
    pub maildir: Seq<char>,
    pub id: Seq<char>,
    pub step: LocateStep,
}

impl View for MaildirEntryLocate {
    type V = LocateView;

    closed spec fn view(&self) -> LocateView {
        LocateView { maildir: self.maildir@, id: self.id@, step: self.step }
    }
}

/// What a search yields or comes to.
pub type LocateOutcome = MaildirCoroutineState<YieldView, Result<LocatedView, LocateErrorView>>;

/// The outcome of a step without its representation.
pub open spec fn outcome_view(
    state: MaildirCoroutineState<
        MaildirYield,
        Result<MaildirEntryLocateOutput, MaildirEntryLocateError>,
    >,
) -> LocateOutcome {
    match state {
        MaildirCoroutineState::Yielded(request) => MaildirCoroutineState::Yielded(request@),
        MaildirCoroutineState::Complete(Ok(out)) => MaildirCoroutineState::Complete(Ok(out@)),
        MaildirCoroutineState::Complete(Err(err)) => MaildirCoroutineState::Complete(Err(err@)),
    }
}

/// Whether `path` belongs to `paths` and is that of the entry `id`.
pub open spec fn is_match(paths: Set<Seq<char>>, id: Seq<char>, path: Seq<char>) -> bool {
    paths.contains(path) && types::id_of_path(path) == Some(id)
}

/// Whether `path` is the match that precedes all others.
pub open spec fn is_first_match(paths: Set<Seq<char>>, id: Seq<char>, path: Seq<char>) -> bool {
    &&& is_match(paths, id, path)
    &&& forall|other: Seq<char>| #[trigger]
        is_match(paths, id, other) ==> other == path || text::less(path, other)
}

/// The path of the entry `id` among `paths`, the first one in path order if there are several.
pub open spec fn first_match(paths: Set<Seq<char>>, id: Seq<char>) -> Option<Seq<char>> {
    if exists|path: Seq<char>| is_first_match(paths, id, path) {
        Some(choose|path: Seq<char>| is_first_match(paths, id, path))
    } else {
        None
    }
}

/// No other path than the first match is the first match.
pub proof fn lemma_first_match(paths: Set<Seq<char>>, id: Seq<char>, path: Seq<char>)
    requires
        is_first_match(paths, id, path),
    ensures
        first_match(paths, id) == Some(path),
{
    let chosen = choose|p: Seq<char>| is_first_match(paths, id, p);
    if chosen != path {
        assert(is_match(paths, id, chosen) && is_match(paths, id, path));
        text::lemma_less_transitive(path, chosen, path);
        text::lemma_less_irreflexive(path);
    }
}

/// Whether the runtime has found a file at `path`.
pub open spec fn is_found(found: Map<Seq<char>, bool>, path: Seq<char>) -> bool {
    found.contains_key(path) && found[path]
}

/// What a directory holds according to the runtime; nothing where it was not listed.
pub open spec fn listing(listings: Map<Seq<char>, Set<Seq<char>>>, dir: Seq<char>) -> Set<
    Seq<char>,
> {
    if listings.contains_key(dir) {
        listings[dir]
    } else {
        Set::empty()
    }
}

/// The entry `id` among the listed files: one in `cur` goes before one in `new`, and that before one
/// in `tmp`.
pub open spec fn listed_entry(
    root: Seq<char>,
    id: Seq<char>,
    listings: Map<Seq<char>, Set<Seq<char>>>,
) -> Option<LocatedView> {
    let in_cur = listing(listings, maildir::subdir_path(root, MaildirSubdir::Cur));
    let in_new = listing(listings, maildir::subdir_path(root, MaildirSubdir::New));
    let in_tmp = listing(listings, maildir::subdir_path(root, MaildirSubdir::Tmp));
    if let Some(path) = first_match(in_cur, id) {
        Some(located(path, MaildirSubdir::Cur))
    } else if let Some(path) = first_match(in_new, id) {
        Some(located(path, MaildirSubdir::New))
    } else if let Some(path) = first_match(in_tmp, id) {
        Some(located(path, MaildirSubdir::Tmp))
    } else {
        None
    }
}

/// One step of a search.
pub open spec fn locate_step(state: LocateView, reply: Option<ReplyView>) -> (
    LocateView,
    LocateOutcome,
) {
    let in_new = maildir::file_path(state.maildir, MaildirSubdir::New, state.id);
    let in_tmp = maildir::file_path(state.maildir, MaildirSubdir::Tmp, state.id);
    let cur = maildir::subdir_path(state.maildir, MaildirSubdir::Cur);
    let new = maildir::subdir_path(state.maildir, MaildirSubdir::New);
    let tmp = maildir::subdir_path(state.maildir, MaildirSubdir::Tmp);
    match (state.step, reply) {
        (LocateStep::Start, None) => (
            LocateView { step: LocateStep::AwaitFileExists, ..state },
            MaildirCoroutineState::Yielded(YieldView::WantsFileExists(set![in_new, in_tmp])),
        ),
        (LocateStep::AwaitFileExists, Some(ReplyView::FileExists(found))) => {
            if is_found(found, in_new) {
                (state, MaildirCoroutineState::Complete(Ok(located(in_new, MaildirSubdir::New))))
            } else if is_found(found, in_tmp) {
                (state, MaildirCoroutineState::Complete(Ok(located(in_tmp, MaildirSubdir::Tmp))))
            } else {
                (
                    LocateView { step: LocateStep::AwaitDirRead, ..state },
                    MaildirCoroutineState::Yielded(YieldView::WantsDirRead(set![cur, new, tmp])),
                )
            }
        },
        (LocateStep::AwaitDirRead, Some(ReplyView::DirRead(listings))) => {
            match listed_entry(state.maildir, state.id, listings) {
                Some(found) => (state, MaildirCoroutineState::Complete(Ok(found))),
                None => (
                    state,
                    MaildirCoroutineState::Complete(Err(LocateErrorView::NotFound(state.id))),
                ),
            }
        },
        (_, reply) => (
            state,
            MaildirCoroutineState::Complete(Err(LocateErrorView::UnexpectedArg(reply))),
        ),
    }
}

// ---------------------------------------------------------------- coroutine

/// Finds the entry `id` among `set`.
fn find_entry(set: &PathSet, id: &str) -> (found: Option<FsPath>)
    ensures
        match found {
            Some(path) => first_match(set@, id@) == Some(path@),
            None => first_match(set@, id@) is None,
        },
{
    let paths = set.paths();
    for i in 0..paths.len()
        invariant
            paths::lists(paths@, set@),
            forall|j: int|
                #![trigger paths@[j]]
                0 <= j < i ==> types::id_of_path(paths@[j].0@) != Some(id@),
    {
        let path = &paths[i].0;
        let entry = MaildirEntry::from_path(path.clone());
        let is_it = match entry.id() {
            Some(entry_id) => text::same(entry_id, id),
            None => false,
        };
        if is_it {
            proof {
                assert(is_match(set@, id@, path@));
                assert forall|other: Seq<char>| #[trigger] is_match(set@, id@, other) implies other
                    == path@ || text::less(path@, other) by {
                    let k = choose|k: int| paths::key_at(paths@, other, k);
                    assert(paths@[k].0@ == other);
                    if k > i {
                        assert(text::less(paths@[i as int].0@, paths@[k].0@));
                    }
                }
                lemma_first_match(set@, id@, path@);
            }
            return Some(path.clone());
        }
    }
    proof {
        assert forall|path: Seq<char>| !is_first_match(set@, id@, path) by {
            if is_match(set@, id@, path) {
                let k = choose|k: int| paths::key_at(paths@, path, k);
                assert(paths@[k].0@ == path);
            }
        }
    }
    None
}

/// Finds the entry `id` among the files listed in a subdirectory of `maildir`.
fn find_in_subdir(
    maildir: &Maildir,
    subdir: MaildirSubdir,
    listings: &PathMap<PathSet>,
    id: &str,
) -> (found: Option<MaildirEntryLocateOutput>)
    ensures
        ({
            let views = listings@.map_values(|listing: PathSet| listing@);
            let paths = listing(views, maildir::subdir_path(maildir@, subdir));
            match found {
                Some(out) => first_match(paths, id@) matches Some(path) && out@ == located(
                    path,
                    subdir,
                ),
                None => first_match(paths, id@) is None,
            }
        }),
{
    let path = match listings.get(&maildir.subdir(&subdir)) {
        Some(listing) => find_entry(listing, id),
        None => {
            proof {
                assert forall|path: Seq<char>| !is_first_match(Set::empty(), id@, path) by {
                    assert(!is_match(Set::empty(), id@, path));
                }
            }
            None
        },
    };
    match path {
        Some(path) => {
            let flags = MaildirFlags::from(&path);
            Some(MaildirEntryLocateOutput { path, subdir, flags })
        },
        None => None,
    }
}

impl MaildirEntryLocate {
    /// A search for the entry `id` in `maildir`.
    pub fn new(maildir: Maildir, id: String) -> (locate: MaildirEntryLocate)
        ensures
            locate@ == (LocateView { maildir: maildir@, id: id@, step: LocateStep::Start }),
    {
        MaildirEntryLocate { maildir, id, step: LocateStep::Start }
    }
}

impl MaildirCoroutine for MaildirEntryLocate {
    type Yield = MaildirYield;

    type Return = Result<MaildirEntryLocateOutput, MaildirEntryLocateError>;

    fn resume(&mut self, arg: Option<MaildirReply>, ids: &mut MaildirIdCounter) -> (state:
        MaildirCoroutineState<MaildirYield, Result<MaildirEntryLocateOutput, MaildirEntryLocateError>>)
        ensures
            (final(self)@, outcome_view(state)) == locate_step(
                old(self)@,
                coroutine::reply_view(arg),
            ),
            final(ids)@ == old(ids)@,
    {
        match (self.step, arg) {
            (LocateStep::Start, None) => {
                let mut paths = PathSet::new();
                paths.insert(self.maildir.new().join(self.id.as_str()));
                paths.insert(self.maildir.tmp().join(self.id.as_str()));
                self.step = LocateStep::AwaitFileExists;
                MaildirCoroutineState::Yielded(MaildirYield::WantsFileExists(paths))
            },
            (LocateStep::AwaitFileExists, Some(MaildirReply::FileExists(found))) => {
                let in_new = self.maildir.new().join(self.id.as_str());
                if let Some(true) = found.get(&in_new) {
                    let flags = MaildirFlags::from(&in_new);
                    return MaildirCoroutineState::Complete(
                        Ok(
                            MaildirEntryLocateOutput {
                                path: in_new,
                                subdir: MaildirSubdir::New,
                                flags,
                            },
                        ),
                    );
                }
                let in_tmp = self.maildir.tmp().join(self.id.as_str());
                if let Some(true) = found.get(&in_tmp) {
                    let flags = MaildirFlags::from(&in_tmp);
                    return MaildirCoroutineState::Complete(
                        Ok(
                            MaildirEntryLocateOutput {
                                path: in_tmp,
                                subdir: MaildirSubdir::Tmp,
                                flags,
                            },
                        ),
                    );
                }
                let mut paths = PathSet::new();
                paths.insert(self.maildir.cur());
                paths.insert(self.maildir.new());
                paths.insert(self.maildir.tmp());
                self.step = LocateStep::AwaitDirRead;
                MaildirCoroutineState::Yielded(MaildirYield::WantsDirRead(paths))
            },
            (LocateStep::AwaitDirRead, Some(MaildirReply::DirRead(listings))) => {
                let id = self.id.as_str();
                if let Some(out) = find_in_subdir(
                    &self.maildir,
                    MaildirSubdir::Cur,
                    &listings,
                    id,
                ) {
                    return MaildirCoroutineState::Complete(Ok(out));
                }
                if let Some(out) = find_in_subdir(
                    &self.maildir,
                    MaildirSubdir::New,
                    &listings,
                    id,
                ) {
                    return MaildirCoroutineState::Complete(Ok(out));
                }
                if let Some(out) = find_in_subdir(
                    &self.maildir,
                    MaildirSubdir::Tmp,
                    &listings,
                    id,
                ) {
                    return MaildirCoroutineState::Complete(Ok(out));
                }
                MaildirCoroutineState::Complete(
                    Err(MaildirEntryLocateError::NotFound(self.id.clone())),
                )
            },
            (_, arg) => MaildirCoroutineState::Complete(
                Err(MaildirEntryLocateError::UnexpectedArg(arg)),
            ),
        }
    }
}

// --------------------------------------------------------------------- laws

/// The view of an outcome tells the same request, or the same entry, or the same failure.
pub proof fn law_outcome_view(
    request: MaildirYield,
    out: MaildirEntryLocateOutput,
    arg: Option<MaildirReply>,
    id: String,
)
    ensures
        outcome_view(MaildirCoroutineState::Yielded(request)) == LocateOutcome::Yielded(request@),
        outcome_view(MaildirCoroutineState::Complete(Ok(out))) == LocateOutcome::Complete(
            Ok(LocatedView { path: out.path@, subdir: out.subdir, flags: out.flags@ }),
        ),
        outcome_view(
            MaildirCoroutineState::Complete(Err(MaildirEntryLocateError::UnexpectedArg(arg))),
        ) == LocateOutcome::Complete(
            Err(LocateErrorView::UnexpectedArg(coroutine::reply_view(arg))),
        ),
        outcome_view(MaildirCoroutineState::Complete(Err(MaildirEntryLocateError::NotFound(id))))
            == LocateOutcome::Complete(Err(LocateErrorView::NotFound(id@))),
{
}

} // verus!

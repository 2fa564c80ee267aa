//! I/O-free coroutine storing an entry in a Maildir per the delivery protocol (write to `/tmp`,
//! atomic rename into target).

use vstd::prelude::*;

use crate::coroutine::{
    self, MaildirCoroutine, MaildirCoroutineState, MaildirReply, MaildirYield, ReplyView, YieldView,
};
use crate::entry::types::{self, MaildirIdCounter};
use crate::flag::types::{self as flag, MaildirFlags};
use crate::maildir::types::{self as maildir, Maildir, MaildirSubdir};
use crate::path::FsPath;
use crate::paths::PathMap;
use crate::text;

verus! {

/// Failure causes during a [`MaildirEntryStore`] step.
#[derive(Clone, Debug)]
pub enum MaildirEntryStoreError {
    /// The reply is not one to the last request.
    UnexpectedArg(Option<MaildirReply>),
}

/// Successful output of [`MaildirEntryStore`].
#[derive(Clone, Debug)]
pub struct MaildirEntryStoreOutput {
    /// The id that was minted for the entry.
    pub id: String,
    /// Where the entry has been delivered.
    pub path: FsPath,
}

/// What a store waits for, with what it has gathered so far.
#[derive(Debug)]
enum State {
    Start,
    AwaitTime,
    AwaitPid { secs: u64, nanos: u32 },
    AwaitHostname { secs: u64, nanos: u32, pid: u32 },
    AwaitCreateTmp { tmp_path: FsPath, final_path: FsPath, id: String },
    AwaitRename { final_path: FsPath, id: String },
}

/// Stores a new entry in a Maildir via the tmp → cur/new rename dance.
#[derive(Debug)]
pub struct MaildirEntryStore {
    maildir: Maildir,
    subdir: MaildirSubdir,
    flags: MaildirFlags,
    contents: Vec<u8>,
    state: State,
}

// -------------------------------------------------------------------- model

/// Failure of a store.
pub enum StoreErrorView {
    UnexpectedArg(Option<ReplyView>),
}

impl View for MaildirEntryStoreError {
    type V = StoreErrorView;

    open spec fn view(&self) -> StoreErrorView {
        match self {
            MaildirEntryStoreError::UnexpectedArg(arg) => StoreErrorView::UnexpectedArg(
                coroutine::reply_view(*arg),
            ),
        }
    }
}

/// A stored entry.
pub struct StoredView {
    pub id: Seq<char>,
    pub path: Seq<char>,
}

impl View for MaildirEntryStoreOutput {
    type V = StoredView;

    open spec fn view(&self) -> StoredView {
        StoredView { id: self.id@, path: self.path@ }
    }
}

/// What a store waits for, with what it has gathered so far.
pub enum StoreStateView {
    Start,
    AwaitTime,
    AwaitPid { secs: u64, nanos: u32 },
    AwaitHostname { secs: u64, nanos: u32, pid: u32 },
    AwaitCreateTmp { tmp_path: Seq<char>, final_path: Seq<char>, id: Seq<char> },
    AwaitRename { final_path: Seq<char>, id: Seq<char> },
}

impl View for State {
    type V = StoreStateView;

    closed spec fn view(&self) -> StoreStateView {
        match self {
            State::Start => StoreStateView::Start,
            State::AwaitTime => StoreStateView::AwaitTime,
            State::AwaitPid { secs, nanos } => StoreStateView::AwaitPid {
                secs: *secs,
                nanos: *nanos,
            },
            State::AwaitHostname { secs, nanos, pid } => StoreStateView::AwaitHostname {
                secs: *secs,
                nanos: *nanos,
                pid: *pid,
            },
            State::AwaitCreateTmp { tmp_path, final_path, id } => StoreStateView::AwaitCreateTmp {
                tmp_path: tmp_path@,
                final_path: final_path@,
                id: id@,
            },
            State::AwaitRename { final_path, id } => StoreStateView::AwaitRename {
                final_path: final_path@,
                id: id@,
            },
        }
    }
}

/// Where a store stands: what is delivered where, and the reply waited for.
pub struct StoreView {
    pub maildir: Seq<char>,
    pub subdir: MaildirSubdir,
    pub flags: Set<flag::MaildirFlag>,
    pub contents: Seq<u8>,
    pub state: StoreStateView,
}

impl View for MaildirEntryStore {
    type V = StoreView;

    closed spec fn view(&self) -> StoreView {
        StoreView {
            maildir: self.maildir@,
            subdir: self.subdir,
            flags: self.flags@,
            contents: self.contents@,
            state: self.state@,
        }
    }
}

/// What a store yields or comes to.
pub type StoreOutcome = MaildirCoroutineState<YieldView, Result<StoredView, StoreErrorView>>;

/// The outcome of a step without its representation.
pub open spec fn outcome_view(
    state: MaildirCoroutineState<
        MaildirYield,
        Result<MaildirEntryStoreOutput, MaildirEntryStoreError>,
    >,
) -> StoreOutcome {
    match state {
        MaildirCoroutineState::Yielded(request) => MaildirCoroutineState::Yielded(request@),
        MaildirCoroutineState::Complete(Ok(out)) => MaildirCoroutineState::Complete(Ok(out@)),
        MaildirCoroutineState::Complete(Err(err)) => MaildirCoroutineState::Complete(Err(err@)),
    }
}

/// One step of a store that mints its name with `counter`: the state and the counter it leaves
/// behind, and what it yields or comes to.
pub open spec fn store_step(store: StoreView, counter: u32, reply: Option<ReplyView>) -> (
    StoreView,
    u32,
    StoreOutcome,
) {
    match (store.state, reply) {
        (StoreStateView::Start, None) => (
            StoreView { state: StoreStateView::AwaitTime, ..store },
            counter,
            MaildirCoroutineState::Yielded(YieldView::WantsTime),
        ),
        (StoreStateView::AwaitTime, Some(ReplyView::Time { secs, nanos })) => (
            StoreView { state: StoreStateView::AwaitPid { secs, nanos }, ..store },
            counter,
            MaildirCoroutineState::Yielded(YieldView::WantsPid),
        ),
        (StoreStateView::AwaitPid { secs, nanos }, Some(ReplyView::Pid(pid))) => (
            StoreView { state: StoreStateView::AwaitHostname { secs, nanos, pid }, ..store },
            counter,
            MaildirCoroutineState::Yielded(YieldView::WantsHostname),
        ),
        (
            StoreStateView::AwaitHostname { secs, nanos, pid },
            Some(ReplyView::Hostname(hostname)),
        ) => {
            let id = types::unique_name(secs, counter, nanos, pid, hostname);
            let tmp_path = maildir::file_path(store.maildir, MaildirSubdir::Tmp, id);
            let final_path = types::target_path(store.maildir, store.subdir, id, store.flags);
            (
                StoreView {
                    contents: seq![],
                    state: StoreStateView::AwaitCreateTmp { tmp_path, final_path, id },
                    ..store
                },
                types::next_count(counter),
                MaildirCoroutineState::Yielded(
                    YieldView::WantsFileCreate(map![tmp_path => store.contents]),
                ),
            )
        },
        (
            StoreStateView::AwaitCreateTmp { tmp_path, final_path, id },
            Some(ReplyView::FileCreate),
        ) => (
            StoreView { state: StoreStateView::AwaitRename { final_path, id }, ..store },
            counter,
            MaildirCoroutineState::Yielded(YieldView::WantsRename(seq![(tmp_path, final_path)])),
        ),
        (StoreStateView::AwaitRename { final_path, id }, Some(ReplyView::Rename)) => (
            StoreView {
                state: StoreStateView::AwaitRename { final_path: seq![], id: seq![] },
                ..store
            },
            counter,
            MaildirCoroutineState::Complete(Ok(StoredView { id, path: final_path })),
        ),
        (_, reply) => (
            store,
            counter,
            MaildirCoroutineState::Complete(Err(StoreErrorView::UnexpectedArg(reply))),
        ),
    }
}

/// What a store in `state` waits for, in words.
pub open spec fn state_name(state: StoreStateView) -> Seq<char> {
    match state {
        StoreStateView::Start => "start"@,
        StoreStateView::AwaitTime => "await time reply"@,
        StoreStateView::AwaitPid { .. } => "await pid reply"@,
        StoreStateView::AwaitHostname { .. } => "await hostname reply"@,
        StoreStateView::AwaitCreateTmp { .. } => "await tmp create reply"@,
        StoreStateView::AwaitRename { .. } => "await rename reply"@,
    }
}

// ---------------------------------------------------------------- coroutine

impl MaildirEntryStore {
    /// A store of `contents` in a subdirectory of `maildir`.
    pub fn new(
        maildir: Maildir,
        subdir: MaildirSubdir,
        flags: MaildirFlags,
        contents: Vec<u8>,
    ) -> (store: MaildirEntryStore)
        ensures
            store@ == (StoreView {
                maildir: maildir@,
                subdir,
                flags: flags@,
                contents: contents@,
                state: StoreStateView::Start,
            }),
    {
        MaildirEntryStore { maildir, subdir, flags, contents, state: State::Start }
    }

    /// What the coroutine waits for.
    pub fn state_name(&self) -> (name: &'static str)
        ensures
            name@ == state_name(self@.state),
    {
        match &self.state {
            State::Start => "start",
            State::AwaitTime => "await time reply",
            State::AwaitPid { .. } => "await pid reply",
            State::AwaitHostname { .. } => "await hostname reply",
            State::AwaitCreateTmp { .. } => "await tmp create reply",
            State::AwaitRename { .. } => "await rename reply",
        }
    }
}

impl MaildirCoroutine for MaildirEntryStore {
    type Yield = MaildirYield;

    type Return = Result<MaildirEntryStoreOutput, MaildirEntryStoreError>;

    fn resume(&mut self, arg: Option<MaildirReply>, ids: &mut MaildirIdCounter) -> (state:
        MaildirCoroutineState<
        MaildirYield,
        Result<MaildirEntryStoreOutput, MaildirEntryStoreError>,
    >)
        ensures
            (final(self)@, final(ids)@, outcome_view(state)) == store_step(
                old(self)@,
                old(ids)@,
                coroutine::reply_view(arg),
            ),
    {
        match (&mut self.state, arg) {
            (State::Start, None) => {
                self.state = State::AwaitTime;
                MaildirCoroutineState::Yielded(MaildirYield::WantsTime)
            },
            (State::AwaitTime, Some(MaildirReply::Time { secs, nanos })) => {
                self.state = State::AwaitPid { secs, nanos };
                MaildirCoroutineState::Yielded(MaildirYield::WantsPid)
            },
            (State::AwaitPid { secs, nanos }, Some(MaildirReply::Pid(pid))) => {
                let secs = *secs;
                let nanos = *nanos;
                self.state = State::AwaitHostname { secs, nanos, pid };
                MaildirCoroutineState::Yielded(MaildirYield::WantsHostname)
            },
            (
                State::AwaitHostname { secs, nanos, pid },
                Some(MaildirReply::Hostname(hostname)),
            ) => {
                let id = types::mint_id(ids, *secs, *nanos, *pid, hostname.as_str());
                let tmp_path = self.maildir.tmp().join(id.as_str());
                let final_path = types::build_target_path(
                    &self.maildir,
                    &self.subdir,
                    id.as_str(),
                    &self.flags,
                );
                let mut contents: Vec<u8> = Vec::new();
                core::mem::swap(&mut contents, &mut self.contents);
                let mut files = PathMap::new();
                files.insert(tmp_path.clone(), contents);
                proof {
                    assert(files@.map_values(|contents: Vec<u8>| contents@)
                        =~= map![tmp_path@ => contents@]);
                }
                self.state = State::AwaitCreateTmp { tmp_path, final_path, id };
                MaildirCoroutineState::Yielded(MaildirYield::WantsFileCreate(files))
            },
            (
                State::AwaitCreateTmp { tmp_path, final_path, id },
                Some(MaildirReply::FileCreate),
            ) => {
                let tmp_path = tmp_path.take();
                let final_path = final_path.take();
                let id = text::take(id);
                let pairs = coroutine::single_pair(tmp_path, final_path.clone());
                self.state = State::AwaitRename { final_path, id };
                MaildirCoroutineState::Yielded(MaildirYield::WantsRename(pairs))
            },
            (State::AwaitRename { final_path, id }, Some(MaildirReply::Rename)) => {
                let path = final_path.take();
                let id = text::take(id);
                MaildirCoroutineState::Complete(Ok(MaildirEntryStoreOutput { id, path }))
            },
            (_, arg) => MaildirCoroutineState::Complete(
                Err(MaildirEntryStoreError::UnexpectedArg(arg)),
            ),
        }
    }
}

// --------------------------------------------------------------------- laws

/// The view of an outcome tells the same request, or the same id and path, or the same reply.
pub proof fn law_outcome_view(
    request: MaildirYield,
    out: MaildirEntryStoreOutput,
    arg: Option<MaildirReply>,
)
    ensures
        outcome_view(MaildirCoroutineState::Yielded(request)) == StoreOutcome::Yielded(request@),
        outcome_view(MaildirCoroutineState::Complete(Ok(out))) == StoreOutcome::Complete(
            Ok(StoredView { id: out.id@, path: out.path@ }),
        ),
        outcome_view(
            MaildirCoroutineState::Complete(Err(MaildirEntryStoreError::UnexpectedArg(arg))),
        ) == StoreOutcome::Complete(Err(StoreErrorView::UnexpectedArg(coroutine::reply_view(arg)))),
{
}

/// The states of a store have the same names whatever it has gathered.
pub proof fn law_state_name(
    secs: u64,
    nanos: u32,
    pid: u32,
    tmp_path: Seq<char>,
    final_path: Seq<char>,
    id: Seq<char>,
)
    ensures
        state_name(StoreStateView::Start) == "start"@,
        state_name(StoreStateView::AwaitTime) == "await time reply"@,
        state_name(StoreStateView::AwaitPid { secs, nanos }) == "await pid reply"@,
        state_name(StoreStateView::AwaitHostname { secs, nanos, pid }) == "await hostname reply"@,
        state_name(StoreStateView::AwaitCreateTmp { tmp_path, final_path, id })
            == "await tmp create reply"@,
        state_name(StoreStateView::AwaitRename { final_path, id }) == "await rename reply"@,
{
}

} // verus!

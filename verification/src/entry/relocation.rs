//! What copying and moving an entry have in common.
//!
//! Both locate the source entry, gather what a fresh unique name takes, and deliver the entry
//! into the target Maildir under that name. They differ in the request that is made last.

use vstd::prelude::*;

use crate::coroutine::{MaildirCoroutineState, ReplyView, YieldView};
use crate::entry::locate::{self, LocateErrorView, LocateView, MaildirEntryLocate};
use crate::entry::types;
use crate::flag::types::{self as flag, MaildirFlags};
use crate::maildir::types::MaildirSubdir;
use crate::path::FsPath;

verus! {

/// What a relocation waits for, with what it has gathered so far.
#[derive(Debug)]
pub enum State {
    Locate(MaildirEntryLocate),
    AwaitTime { source: FsPath, subdir: MaildirSubdir, flags: MaildirFlags },
    AwaitPid { source: FsPath, subdir: MaildirSubdir, flags: MaildirFlags, secs: u64, nanos: u32 },
    AwaitHostname {
        source: FsPath,
        subdir: MaildirSubdir,
        flags: MaildirFlags,
        secs: u64,
        nanos: u32,
        pid: u32,
    },
    AwaitDelivery,
}

/// A [`State`] without its representation.
pub enum StateView {
    Locate(LocateView),
    AwaitTime { source: Seq<char>, subdir: MaildirSubdir, flags: Set<flag::MaildirFlag> },
    AwaitPid {
        source: Seq<char>,
        subdir: MaildirSubdir,
        flags: Set<flag::MaildirFlag>,
        secs: u64,
        nanos: u32,
    },
    AwaitHostname {
        source: Seq<char>,
        subdir: MaildirSubdir,
        flags: Set<flag::MaildirFlag>,
        secs: u64,
        nanos: u32,
        pid: u32,
    },
    AwaitDelivery,
}

impl View for State {
    type V = StateView;

    open spec fn view(&self) -> StateView {
        match self {
            State::Locate(locate) => StateView::Locate(locate@),
            State::AwaitTime { source, subdir, flags } => StateView::AwaitTime {
                source: source@,
                subdir: *subdir,
                flags: flags@,
            },
            State::AwaitPid { source, subdir, flags, secs, nanos } => StateView::AwaitPid {
                source: source@,
                subdir: *subdir,
                flags: flags@,
                secs: *secs,
                nanos: *nanos,
            },
            State::AwaitHostname { source, subdir, flags, secs, nanos, pid } => {
                StateView::AwaitHostname {
                    source: source@,
                    subdir: *subdir,
                    flags: flags@,
                    secs: *secs,
                    nanos: *nanos,
                    pid: *pid,
                }
            },
            State::AwaitDelivery => StateView::AwaitDelivery,
        }
    }
}

/// Whether the source entry stays in its place.
pub enum Relocation {
    Copy,
    Move,
}

impl Relocation {
    /// What a relocation in `state` waits for, in words.
    pub open spec fn state_name(self, state: StateView) -> Seq<char> {
        match (state, self) {
            (StateView::Locate(_), _) => "locate source"@,
            (StateView::AwaitTime { .. }, _) => "await time reply"@,
            (StateView::AwaitPid { .. }, _) => "await pid reply"@,
            (StateView::AwaitHostname { .. }, _) => "await hostname reply"@,
            (StateView::AwaitDelivery, Relocation::Copy) => "await copy reply"@,
            (StateView::AwaitDelivery, Relocation::Move) => "await rename reply"@,
        }
    }

    /// The request that puts the entry in its new place.
    pub open spec fn delivery(self, source: Seq<char>, target: Seq<char>) -> YieldView {
        match self {
            Relocation::Copy => YieldView::WantsCopy(seq![(source, target)]),
            Relocation::Move => YieldView::WantsRename(seq![(source, target)]),
        }
    }

    /// Whether `reply` confirms that request.
    pub open spec fn is_confirmed_by(self, reply: Option<ReplyView>) -> bool {
        match self {
            Relocation::Copy => reply == Some(ReplyView::Copy),
            Relocation::Move => reply == Some(ReplyView::Rename),
        }
    }
}

/// Where a relocation stands: the target Maildir, the subdirectory asked for, if any, and the
/// reply waited for.
pub struct RelocationView {
    pub target: Seq<char>,
    pub target_subdir: Option<MaildirSubdir>,
    pub state: StateView,
}

/// Failure of a relocation.
pub enum RelocationErrorView {
    UnexpectedArg(Option<ReplyView>),
    Locate(LocateErrorView),
}

/// What a relocation yields or comes to.
pub type RelocationOutcome = MaildirCoroutineState<YieldView, Result<(), RelocationErrorView>>;

/// One step of a relocation that mints its name with `counter`: the state and the counter it
/// leaves behind, and what it yields or comes to.
pub open spec fn relocation_step(
    kind: Relocation,
    relocation: RelocationView,
    counter: u32,
    reply: Option<ReplyView>,
) -> (RelocationView, u32, RelocationOutcome) {
    match (relocation.state, reply) {
        (StateView::Locate(search), reply) => {
            let (search, outcome) = locate::locate_step(search, reply);
            match outcome {
                MaildirCoroutineState::Yielded(request) => (
                    RelocationView { state: StateView::Locate(search), ..relocation },
                    counter,
                    MaildirCoroutineState::Yielded(request),
                ),
                MaildirCoroutineState::Complete(Ok(found)) => (
                    RelocationView {
                        state: StateView::AwaitTime {
                            source: found.path,
                            subdir: match relocation.target_subdir {
                                Some(subdir) => subdir,
                                None => found.subdir,
                            },
                            flags: found.flags,
                        },
                        ..relocation
                    },
                    counter,
                    MaildirCoroutineState::Yielded(YieldView::WantsTime),
                ),
                MaildirCoroutineState::Complete(Err(err)) => (
                    RelocationView { state: StateView::Locate(search), ..relocation },
                    counter,
                    MaildirCoroutineState::Complete(Err(RelocationErrorView::Locate(err))),
                ),
            }
        },
        (
            StateView::AwaitTime { source, subdir, flags },
            Some(ReplyView::Time { secs, nanos }),
        ) => (
            RelocationView {
                state: StateView::AwaitPid { source, subdir, flags, secs, nanos },
                ..relocation
            },
            counter,
            MaildirCoroutineState::Yielded(YieldView::WantsPid),
        ),
        (
            StateView::AwaitPid { source, subdir, flags, secs, nanos },
            Some(ReplyView::Pid(pid)),
        ) => (
            RelocationView {
                state: StateView::AwaitHostname { source, subdir, flags, secs, nanos, pid },
                ..relocation
            },
            counter,
            MaildirCoroutineState::Yielded(YieldView::WantsHostname),
        ),
        (
            StateView::AwaitHostname { source, subdir, flags, secs, nanos, pid },
            Some(ReplyView::Hostname(hostname)),
        ) => {
            let id = types::unique_name(secs, counter, nanos, pid, hostname);
            let target = types::relocated_path(relocation.target, subdir, id, flags);
            (
                RelocationView { state: StateView::AwaitDelivery, ..relocation },
                types::next_count(counter),
                MaildirCoroutineState::Yielded(kind.delivery(source, target)),
            )
        },
        (StateView::AwaitDelivery, reply) if kind.is_confirmed_by(reply) => (
            relocation,
            counter,
            MaildirCoroutineState::Complete(Ok(())),
        ),
        (_, reply) => (
            relocation,
            counter,
            MaildirCoroutineState::Complete(Err(RelocationErrorView::UnexpectedArg(reply))),
        ),
    }
}

// --------------------------------------------------------------------- laws

/// The states of a relocation have the same names whatever it has gathered; the last one is named
/// after the reply it waits for.
pub proof fn law_state_name(
    kind: Relocation,
    search: LocateView,
    source: Seq<char>,
    subdir: MaildirSubdir,
    flags: Set<flag::MaildirFlag>,
    secs: u64,
    nanos: u32,
    pid: u32,
)
    ensures
        kind.state_name(StateView::Locate(search)) == "locate source"@,
        kind.state_name(StateView::AwaitTime { source, subdir, flags }) == "await time reply"@,
        kind.state_name(StateView::AwaitPid { source, subdir, flags, secs, nanos })
            == "await pid reply"@,
        kind.state_name(StateView::AwaitHostname { source, subdir, flags, secs, nanos, pid })
            == "await hostname reply"@,
        Relocation::Copy.state_name(StateView::AwaitDelivery) == "await copy reply"@,
        Relocation::Move.state_name(StateView::AwaitDelivery) == "await rename reply"@,
{
}

/// A copy asks for one file to be copied and waits for the copy to be confirmed; a move asks for one
/// file to be renamed and waits for the rename to be confirmed. Both go from source to target.
pub proof fn law_delivery(source: Seq<char>, target: Seq<char>, reply: Option<ReplyView>)
    ensures
        Relocation::Copy.delivery(source, target) == YieldView::WantsCopy(seq![(source, target)]),
        Relocation::Move.delivery(source, target) == YieldView::WantsRename(seq![(source, target)]),
        Relocation::Copy.is_confirmed_by(reply) <==> reply == Some(ReplyView::Copy),
        Relocation::Move.is_confirmed_by(reply) <==> reply == Some(ReplyView::Rename),
{
}

} // verus!

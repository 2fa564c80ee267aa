//! I/O-free coroutine moving a Maildir entry to another Maildir.
//!
//! Moving relocates the entry into `target` under a freshly minted Maildir unique name (time / pid
//! / hostname, like [`MaildirEntryStore`]) instead of reusing the source basename. Reusing the
//! source name would carry folder-specific metadata baked into it by other tools, such as
//! mbsync's `,U=<uid>` infix, valid only in the source folder, into the destination, corrupting
//! its sync state and risking a silent overwrite of a same-named entry. The source flags are
//! preserved.
//!
//! [`MaildirEntryStore`]: crate::entry::store::MaildirEntryStore

use vstd::prelude::*;

use crate::coroutine::{
    self, MaildirCoroutine, MaildirCoroutineState, MaildirReply, MaildirYield,
};
use crate::entry::locate::{LocateStep, LocateView, MaildirEntryLocate, MaildirEntryLocateError};
use crate::entry::relocation::{
    self, Relocation, RelocationErrorView, RelocationOutcome, RelocationView, State, StateView,
};
use crate::entry::types::{self, MaildirIdCounter};
use crate::maildir::types::{Maildir, MaildirSubdir};

verus! {

/// Failure causes during a [`MaildirEntryMove`] step.
#[derive(Clone, Debug)]
pub enum MaildirEntryMoveError {
    /// The reply is not one to the last request.
    UnexpectedArg(Option<MaildirReply>),
    /// The source entry could not be located.
    Locate(MaildirEntryLocateError),
}

impl View for MaildirEntryMoveError {
    type V = RelocationErrorView;

    open spec fn view(&self) -> RelocationErrorView {
        match self {
            MaildirEntryMoveError::UnexpectedArg(arg) => RelocationErrorView::UnexpectedArg(
                coroutine::reply_view(*arg),
            ),
            MaildirEntryMoveError::Locate(err) => RelocationErrorView::Locate(err@),
        }
    }
}

impl From<MaildirEntryLocateError> for MaildirEntryMoveError {
    fn from(err: MaildirEntryLocateError) -> (wrapped: MaildirEntryMoveError)
        ensures
            wrapped == MaildirEntryMoveError::Locate(err),
    {
        MaildirEntryMoveError::Locate(err)
    }
}

impl vstd::std_specs::convert::FromSpecImpl<MaildirEntryLocateError> for MaildirEntryMoveError {
    open spec fn obeys_from_spec() -> bool {
        true
    }

    open spec fn from_spec(err: MaildirEntryLocateError) -> MaildirEntryMoveError {
        MaildirEntryMoveError::Locate(err)
    }
}

/// The outcome of a step without its representation.
pub open spec fn outcome_view(
    state: MaildirCoroutineState<MaildirYield, Result<(), MaildirEntryMoveError>>,
) -> RelocationOutcome {
    match state {
        MaildirCoroutineState::Yielded(request) => MaildirCoroutineState::Yielded(request@),
        MaildirCoroutineState::Complete(Ok(())) => MaildirCoroutineState::Complete(Ok(())),
        MaildirCoroutineState::Complete(Err(err)) => MaildirCoroutineState::Complete(Err(err@)),
    }
}

/// Moves a Maildir entry into `target`; `None` target_subdir keeps the source subdir.
#[derive(Debug)]
pub struct MaildirEntryMove {
    target: Maildir,
    target_subdir: Option<MaildirSubdir>,
    state: State,
}

impl View for MaildirEntryMove {
    type V = RelocationView;

    closed spec fn view(&self) -> RelocationView {
        RelocationView {
            target: self.target@,
            target_subdir: self.target_subdir,
            state: self.state@,
        }
    }
}

impl MaildirEntryMove {
    /// A move of the entry `id` of `source` into `target`.
    pub fn new(
        id: String,
        source: Maildir,
        target: Maildir,
        target_subdir: Option<MaildirSubdir>,
    ) -> (relocation: MaildirEntryMove)
        ensures
            relocation@ == (RelocationView {
                target: target@,
                target_subdir,
                state: StateView::Locate(
                    LocateView { maildir: source@, id: id@, step: LocateStep::Start },
                ),
            }),
    {
        MaildirEntryMove {
            state: State::Locate(MaildirEntryLocate::new(source, id)),
            target,
            target_subdir,
        }
    }

    /// What the coroutine waits for.
    pub fn state_name(&self) -> (name: &'static str)
        ensures
            name@ == Relocation::Move.state_name(self@.state),
    {
        match &self.state {
            State::Locate(_) => "locate source",
            State::AwaitTime { .. } => "await time reply",
            State::AwaitPid { .. } => "await pid reply",
            State::AwaitHostname { .. } => "await hostname reply",
            State::AwaitDelivery => "await rename reply",
        }
    }
}

impl MaildirCoroutine for MaildirEntryMove {
    type Yield = MaildirYield;

    type Return = Result<(), MaildirEntryMoveError>;

    fn resume(&mut self, arg: Option<MaildirReply>, ids: &mut MaildirIdCounter) -> (state:
        MaildirCoroutineState<MaildirYield, Result<(), MaildirEntryMoveError>>)
        ensures
            (final(self)@, final(ids)@, outcome_view(state)) == relocation::relocation_step(
                Relocation::Move,
                old(self)@,
                old(ids)@,
                coroutine::reply_view(arg),
            ),
    {
        match (&mut self.state, arg) {
            (State::Locate(search), arg) => {
                let out = match search.resume(arg, ids) {
                    MaildirCoroutineState::Yielded(request) => {
                        return MaildirCoroutineState::Yielded(request);
                    },
                    MaildirCoroutineState::Complete(Ok(out)) => out,
                    MaildirCoroutineState::Complete(Err(err)) => {
                        return MaildirCoroutineState::Complete(
                            Err(MaildirEntryMoveError::from(err)),
                        );
                    },
                };
                let subdir = match self.target_subdir {
                    Some(subdir) => subdir,
                    None => out.subdir,
                };
                self.state = State::AwaitTime { source: out.path, subdir, flags: out.flags };
                MaildirCoroutineState::Yielded(MaildirYield::WantsTime)
            },
            (
                State::AwaitTime { source, subdir, flags },
                Some(MaildirReply::Time { secs, nanos }),
            ) => {
                self.state = State::AwaitPid {
                    source: source.take(),
                    subdir: *subdir,
                    flags: *flags,
                    secs,
                    nanos,
                };
                MaildirCoroutineState::Yielded(MaildirYield::WantsPid)
            },
            (
                State::AwaitPid { source, subdir, flags, secs, nanos },
                Some(MaildirReply::Pid(pid)),
            ) => {
                self.state = State::AwaitHostname {
                    source: source.take(),
                    subdir: *subdir,
                    flags: *flags,
                    secs: *secs,
                    nanos: *nanos,
                    pid,
                };
                MaildirCoroutineState::Yielded(MaildirYield::WantsHostname)
            },
            (
                State::AwaitHostname { source, subdir, flags, secs, nanos, pid },
                Some(MaildirReply::Hostname(hostname)),
            ) => {
                let id = types::mint_id(ids, *secs, *nanos, *pid, hostname.as_str());
                let target = types::build_relocated_path(&self.target, subdir, id.as_str(), flags);
                let pairs = coroutine::single_pair(source.take(), target);
                self.state = State::AwaitDelivery;
                MaildirCoroutineState::Yielded(MaildirYield::WantsRename(pairs))
            },
            (State::AwaitDelivery, Some(MaildirReply::Rename)) => MaildirCoroutineState::Complete(
                Ok(()),
            ),
            (_, arg) => MaildirCoroutineState::Complete(
                Err(MaildirEntryMoveError::UnexpectedArg(arg)),
            ),
        }
    }
}

// --------------------------------------------------------------------- laws

/// The view of an outcome tells the same request, or success, or the same failure.
pub proof fn law_outcome_view(
    request: MaildirYield,
    arg: Option<MaildirReply>,
    err: MaildirEntryLocateError,
)
    ensures
        outcome_view(MaildirCoroutineState::Yielded(request)) == RelocationOutcome::Yielded(
            request@,
        ),
        outcome_view(MaildirCoroutineState::Complete(Ok(()))) == RelocationOutcome::Complete(
            Ok(()),
        ),
        outcome_view(
            MaildirCoroutineState::Complete(Err(MaildirEntryMoveError::UnexpectedArg(arg))),
        ) == RelocationOutcome::Complete(
            Err(RelocationErrorView::UnexpectedArg(coroutine::reply_view(arg))),
        ),
        outcome_view(MaildirCoroutineState::Complete(Err(MaildirEntryMoveError::Locate(err))))
            == RelocationOutcome::Complete(Err(RelocationErrorView::Locate(err@))),
{
}

} // verus!

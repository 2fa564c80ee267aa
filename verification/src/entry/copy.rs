//! I/O-free coroutine copying a Maildir entry to another Maildir.
//!
//! Copying is a fresh *delivery* into `target`: a brand-new Maildir unique name is minted (time /
//! pid / hostname, like [`MaildirEntryStore`]) instead of reusing the source basename. Reusing the
//! source name would carry folder-specific metadata baked into it by other tools, such as
//! mbsync's `,U=<uid>` infix, valid only in the source folder, into the destination, corrupting
//! its sync state and risking a silent overwrite of a same-named entry. The source flags are
//! preserved.
//!
//! [`MaildirEntryStore`]: crate::entry::store::MaildirEntryStore

use vstd::prelude::*;

use crate::coroutine::{
    self, MaildirCoroutine, MaildirCoroutineState, MaildirReply, MaildirYield,
};
use crate::entry::locate::{LocateStep, LocateView, MaildirEntryLocate, MaildirEntryLocateError};
use crate::entry::relocation::{
    self, Relocation, RelocationErrorView, RelocationOutcome, RelocationView, State, StateView,
};
use crate::entry::types::{self, MaildirIdCounter};
use crate::maildir::types::{Maildir, MaildirSubdir};

verus! {

/// Failure causes during a [`MaildirEntryCopy`] step.
#[derive(Clone, Debug)]
pub enum MaildirEntryCopyError {
    /// The reply is not one to the last request.
    UnexpectedArg(Option<MaildirReply>),
    /// The source entry could not be located.
    Locate(MaildirEntryLocateError),
}

impl View for MaildirEntryCopyError {
    type V = RelocationErrorView;

    open spec fn view(&self) -> RelocationErrorView {
        match self {
            MaildirEntryCopyError::UnexpectedArg(arg) => RelocationErrorView::UnexpectedArg(
                coroutine::reply_view(*arg),
            ),
            MaildirEntryCopyError::Locate(err) => RelocationErrorView::Locate(err@),
        }
    }
}

impl From<MaildirEntryLocateError> for MaildirEntryCopyError {
    fn from(err: MaildirEntryLocateError) -> (wrapped: MaildirEntryCopyError)
        ensures
            wrapped == MaildirEntryCopyError::Locate(err),
    {
        MaildirEntryCopyError::Locate(err)
    }
}

impl vstd::std_specs::convert::FromSpecImpl<MaildirEntryLocateError> for MaildirEntryCopyError {
    open spec fn obeys_from_spec() -> bool {
        true
    }

    open spec fn from_spec(err: MaildirEntryLocateError) -> MaildirEntryCopyError {
        MaildirEntryCopyError::Locate(err)
    }
}

/// The outcome of a step without its representation.
pub open spec fn outcome_view(
    state: MaildirCoroutineState<MaildirYield, Result<(), MaildirEntryCopyError>>,
) -> RelocationOutcome {
    match state {
        MaildirCoroutineState::Yielded(request) => MaildirCoroutineState::Yielded(request@),
        MaildirCoroutineState::Complete(Ok(())) => MaildirCoroutineState::Complete(Ok(())),
        MaildirCoroutineState::Complete(Err(err)) => MaildirCoroutineState::Complete(Err(err@)),
    }
}

/// Copies a Maildir entry into `target`; `None` target_subdir keeps the source subdir.
#[derive(Debug)]
pub struct MaildirEntryCopy {
    target: Maildir,
    target_subdir: Option<MaildirSubdir>,
    state: State,
}

impl View for MaildirEntryCopy {
    type V = RelocationView;

    closed spec fn view(&self) -> RelocationView {
        RelocationView {
            target: self.target@,
            target_subdir: self.target_subdir,
            state: self.state@,
        }
    }
}

impl MaildirEntryCopy {
    /// A copy of the entry `id` of `source` into `target`.
    pub fn new(
        id: String,
        source: Maildir,
        target: Maildir,
        target_subdir: Option<MaildirSubdir>,
    ) -> (copy: MaildirEntryCopy)
        ensures
            copy@ == (RelocationView {
                target: target@,
                target_subdir,
                state: StateView::Locate(
                    LocateView { maildir: source@, id: id@, step: LocateStep::Start },
                ),
            }),
    {
        MaildirEntryCopy {
            state: State::Locate(MaildirEntryLocate::new(source, id)),
            target,
            target_subdir,
        }
    }

    /// What the coroutine waits for.
    pub fn state_name(&self) -> (name: &'static str)
        ensures
            name@ == Relocation::Copy.state_name(self@.state),
    {
        match &self.state {
            State::Locate(_) => "locate source",
            State::AwaitTime { .. } => "await time reply",
            State::AwaitPid { .. } => "await pid reply",
            State::AwaitHostname { .. } => "await hostname reply",
            State::AwaitDelivery => "await copy reply",
        }
    }
}

impl MaildirCoroutine for MaildirEntryCopy {
    type Yield = MaildirYield;

    type Return = Result<(), MaildirEntryCopyError>;

    fn resume(&mut self, arg: Option<MaildirReply>, ids: &mut MaildirIdCounter) -> (state:
        MaildirCoroutineState<MaildirYield, Result<(), MaildirEntryCopyError>>)
        ensures
            (final(self)@, final(ids)@, outcome_view(state)) == relocation::relocation_step(
                Relocation::Copy,
                old(self)@,
                old(ids)@,
                coroutine::reply_view(arg),
            ),
    {
        match (&mut self.state, arg) {
            (State::Locate(search), arg) => {
                let out = match search.resume(arg, ids) {
                    MaildirCoroutineState::Yielded(request) => {
                        return MaildirCoroutineState::Yielded(request);
                    },
                    MaildirCoroutineState::Complete(Ok(out)) => out,
                    MaildirCoroutineState::Complete(Err(err)) => {
                        return MaildirCoroutineState::Complete(
                            Err(MaildirEntryCopyError::from(err)),
                        );
                    },
                };
                let subdir = match self.target_subdir {
                    Some(subdir) => subdir,
                    None => out.subdir,
                };
                self.state = State::AwaitTime { source: out.path, subdir, flags: out.flags };
                MaildirCoroutineState::Yielded(MaildirYield::WantsTime)
            },
            (
                State::AwaitTime { source, subdir, flags },
                Some(MaildirReply::Time { secs, nanos }),
            ) => {
                self.state = State::AwaitPid {
                    source: source.take(),
                    subdir: *subdir,
                    flags: *flags,
                    secs,
                    nanos,
                };
                MaildirCoroutineState::Yielded(MaildirYield::WantsPid)
            },
            (
                State::AwaitPid { source, subdir, flags, secs, nanos },
                Some(MaildirReply::Pid(pid)),
            ) => {
                self.state = State::AwaitHostname {
                    source: source.take(),
                    subdir: *subdir,
                    flags: *flags,
                    secs: *secs,
                    nanos: *nanos,
                    pid,
                };
                MaildirCoroutineState::Yielded(MaildirYield::WantsHostname)
            },
            (
                State::AwaitHostname { source, subdir, flags, secs, nanos, pid },
                Some(MaildirReply::Hostname(hostname)),
            ) => {
                let id = types::mint_id(ids, *secs, *nanos, *pid, hostname.as_str());
                let target = types::build_relocated_path(&self.target, subdir, id.as_str(), flags);
                let pairs = coroutine::single_pair(source.take(), target);
                self.state = State::AwaitDelivery;
                MaildirCoroutineState::Yielded(MaildirYield::WantsCopy(pairs))
            },
            (State::AwaitDelivery, Some(MaildirReply::Copy)) => MaildirCoroutineState::Complete(
                Ok(()),
            ),
            (_, arg) => MaildirCoroutineState::Complete(
                Err(MaildirEntryCopyError::UnexpectedArg(arg)),
            ),
        }
    }
}

// --------------------------------------------------------------------- laws

/// The view of an outcome tells the same request, or success, or the same failure.
pub proof fn law_outcome_view(
    request: MaildirYield,
    arg: Option<MaildirReply>,
    err: MaildirEntryLocateError,
)
    ensures
        outcome_view(MaildirCoroutineState::Yielded(request)) == RelocationOutcome::Yielded(
            request@,
        ),
        outcome_view(MaildirCoroutineState::Complete(Ok(()))) == RelocationOutcome::Complete(
            Ok(()),
        ),
        outcome_view(
            MaildirCoroutineState::Complete(Err(MaildirEntryCopyError::UnexpectedArg(arg))),
        ) == RelocationOutcome::Complete(
            Err(RelocationErrorView::UnexpectedArg(coroutine::reply_view(arg))),
        ),
        outcome_view(MaildirCoroutineState::Complete(Err(MaildirEntryCopyError::Locate(err))))
            == RelocationOutcome::Complete(Err(RelocationErrorView::Locate(err@))),
{
}

} // verus!

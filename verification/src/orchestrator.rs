//! The sync run's phase machine. A run moves through fetching the mirror,
//! applying the remote-origin pass, applying the local-origin pass, and
//! publishing the master record; any failed step moves it to the failed
//! terminal state, and the two terminal states absorb every further step.
//! The application shell performs each phase's effects and reports whether
//! they succeeded; the machine itself decides only what comes next.

use vstd::prelude::*;

verus! {

/// Where a sync run stands.
#[derive(PartialEq, Eq, Structural, Clone, Copy, Debug)]
pub enum Phase {
    Init,
    FetchMirror,
    ApplyRemoteOrigin,
    ApplyLocalOrigin,
    PublishMaster,
    Success,
    Failed,
}

/// The successor of a phase, given whether its step succeeded.
pub open spec fn spec_next_phase(p: Phase, ok: bool) -> Phase {
    match p {
        Phase::Init => if ok {
            Phase::FetchMirror
        } else {
            Phase::Failed
        },
        Phase::FetchMirror => if ok {
            Phase::ApplyRemoteOrigin
        } else {
            Phase::Failed
        },
        Phase::ApplyRemoteOrigin => if ok {
            Phase::ApplyLocalOrigin
        } else {
            Phase::Failed
        },
        Phase::ApplyLocalOrigin => if ok {
            Phase::PublishMaster
        } else {
            Phase::Failed
        },
        Phase::PublishMaster => if ok {
            Phase::Success
        } else {
            Phase::Failed
        },
        Phase::Success => Phase::Success,
        Phase::Failed => Phase::Failed,
    }
}

/// A run is over in exactly the two terminal phases.
pub open spec fn is_terminal(p: Phase) -> bool {
    p == Phase::Success || p == Phase::Failed
}

/// Advance the run by one step.
pub fn next_phase(p: Phase, ok: bool) -> (r: Phase)
    ensures
        r == spec_next_phase(p, ok),
{
    match p {
        Phase::Init => if ok {
            Phase::FetchMirror
        } else {
            Phase::Failed
        },
        Phase::FetchMirror => if ok {
            Phase::ApplyRemoteOrigin
        } else {
            Phase::Failed
        },
        Phase::ApplyRemoteOrigin => if ok {
            Phase::ApplyLocalOrigin
        } else {
            Phase::Failed
        },
        Phase::ApplyLocalOrigin => if ok {
            Phase::PublishMaster
        } else {
            Phase::Failed
        },
        Phase::PublishMaster => if ok {
            Phase::Success
        } else {
            Phase::Failed
        },
        Phase::Success => Phase::Success,
        Phase::Failed => Phase::Failed,
    }
}

/// The terminal phases absorb every further step: a finished run stays
/// finished.
pub proof fn lemma_terminal_absorbs(p: Phase, ok: bool)
    requires
        is_terminal(p),
    ensures
        spec_next_phase(p, ok) == p,
{
}

/// A failing step ends the run: from any phase that is not yet terminal, a
/// failure moves to the failed state, which is terminal.
pub proof fn lemma_failure_ends_run(p: Phase)
    requires
        !is_terminal(p),
    ensures
        spec_next_phase(p, false) == Phase::Failed,
        is_terminal(spec_next_phase(p, false)),
{
}

/// The happy path: five successful steps from the start reach success.
pub proof fn lemma_happy_path()
    ensures
        spec_next_phase(
            spec_next_phase(
                spec_next_phase(
                    spec_next_phase(spec_next_phase(Phase::Init, true), true),
                    true,
                ),
                true,
            ),
            true,
        ) == Phase::Success,
{
}

} // verus!

//! The phases of one import invocation.
//!
//! An invocation filters its candidates, opens a transactional scope if one
//! was asked for, imports, and then commits or aborts. A driver performs the
//! step that the current phase calls for, reports what happened as an event,
//! and moves on to the phase that `advance` gives.

use vstd::prelude::*;

verus! {

/// Where an invocation stands.
#[derive(Clone, Copy, Debug, PartialEq, Eq, Structural)]
pub enum Phase {
    Start,
    Filtering,
    NoWork,
    ScopeOpen,
    Importing,
    Committing,
    Aborting,
    Done,
    Failed,
}

/// What happened when the driver performed a step.
#[derive(Clone, Copy, Debug, PartialEq, Eq, Structural)]
pub enum Event {
    /// The invocation was started.
    Begun,
    /// The candidates were filtered and so many are left.
    Filtered(usize),
    /// The scope was opened.
    ScopeOpened,
    /// The store cannot open a scope.
    ScopeRefused,
    /// Every source was ingested.
    Imported,
    /// A source failed.
    ImportFailed,
    /// The scope was committed.
    Committed,
    /// The commit failed.
    CommitFailed,
    /// The scope was aborted, cleanly or not.
    Aborted,
    /// The caller gave up or a deadline passed.
    Cancelled,
}

/// What the driver has to do next.
#[derive(Clone, Copy, Debug, PartialEq, Eq, Structural)]
pub enum Step {
    Begin,
    Filter,
    OpenScope,
    Import,
    Commit,
    Abort,
    Stop,
}

/// The phase is one that an invocation ends in.
pub open spec fn terminal(phase: Phase) -> bool {
    phase == Phase::NoWork || phase == Phase::Done || phase == Phase::Failed
}

/// The phase occurs in transactional invocations only.
pub open spec fn scoped(phase: Phase) -> bool {
    phase == Phase::ScopeOpen || phase == Phase::Committing || phase == Phase::Aborting
}

/// A scope is open in the phase.
pub open spec fn holds_scope(phase: Phase, transactional: bool) -> bool {
    transactional && (phase == Phase::Importing || phase == Phase::Committing)
}

/// The phase that follows `phase` on `event`, in an invocation that is
/// transactional or not; `None` where the event cannot happen in the phase,
/// or the phase not in such an invocation.
///
/// Cancellation never commits: with a scope open it leads to `Aborting`, and
/// otherwise straight to `Failed`.
pub open spec fn successor(phase: Phase, transactional: bool, event: Event) -> Option<Phase> {
    if scoped(phase) && !transactional {
        None
    } else {
        follower(phase, transactional, event)
    }
}

/// The phase that follows `phase` on `event`, for a phase that the invocation
/// can be in.
pub open spec fn follower(phase: Phase, transactional: bool, event: Event) -> Option<Phase> {
    match (phase, event) {
        (Phase::Start, Event::Begun) => Some(Phase::Filtering),
        (Phase::Filtering, Event::Filtered(remaining)) => if remaining == 0 {
            Some(Phase::NoWork)
        } else if transactional {
            Some(Phase::ScopeOpen)
        } else {
            Some(Phase::Importing)
        },
        (Phase::ScopeOpen, Event::ScopeOpened) => Some(Phase::Importing),
        (Phase::ScopeOpen, Event::ScopeRefused) => Some(Phase::Failed),
        (Phase::Importing, Event::Imported) => if transactional {
            Some(Phase::Committing)
        } else {
            Some(Phase::Done)
        },
        (Phase::Importing, Event::ImportFailed) => if transactional {
            Some(Phase::Aborting)
        } else {
            Some(Phase::Failed)
        },
        (Phase::Committing, Event::Committed) => Some(Phase::Done),
        (Phase::Committing, Event::CommitFailed) => Some(Phase::Failed),
        (Phase::Aborting, Event::Aborted) => Some(Phase::Failed),
        (Phase::Aborting, Event::Cancelled) => Some(Phase::Aborting),
        (_, Event::Cancelled) => if terminal(phase) {
            None
        } else if holds_scope(phase, transactional) {
            Some(Phase::Aborting)
        } else {
            Some(Phase::Failed)
        },
        _ => None,
    }
}

/// The step that `phase` calls for.
pub open spec fn step_of(phase: Phase) -> Step {
    match phase {
        Phase::Start => Step::Begin,
        Phase::Filtering => Step::Filter,
        Phase::ScopeOpen => Step::OpenScope,
        Phase::Importing => Step::Import,
        Phase::Committing => Step::Commit,
        Phase::Aborting => Step::Abort,
        Phase::NoWork => Step::Stop,
        Phase::Done => Step::Stop,
        Phase::Failed => Step::Stop,
    }
}

/// How many steps an invocation in `phase` can still take at most.
pub open spec fn steps_left(phase: Phase) -> nat {
    match phase {
        Phase::Start => 6,
        Phase::Filtering => 5,
        Phase::ScopeOpen => 4,
        Phase::Importing => 3,
        Phase::Committing => 2,
        Phase::Aborting => 1,
        Phase::NoWork => 0,
        Phase::Done => 0,
        Phase::Failed => 0,
    }
}

impl Phase {
    /// Whether an invocation ends in this phase.
    pub fn is_terminal(self) -> (ended: bool)
        ensures
            ended == terminal(self),
    {
        match self {
            Phase::NoWork => true,
            Phase::Done => true,
            Phase::Failed => true,
            _ => false,
        }
    }

    /// The step that this phase calls for.
    pub fn step(self) -> (step: Step)
        ensures
            step == step_of(self),
    {
        match self {
            Phase::Start => Step::Begin,
            Phase::Filtering => Step::Filter,
            Phase::ScopeOpen => Step::OpenScope,
            Phase::Importing => Step::Import,
            Phase::Committing => Step::Commit,
            Phase::Aborting => Step::Abort,
            Phase::NoWork => Step::Stop,
            Phase::Done => Step::Stop,
            Phase::Failed => Step::Stop,
        }
    }

    /// The phase that follows this one on `event`; `None` where the event
    /// cannot happen in this phase.
    pub fn advance(self, transactional: bool, event: Event) -> (next: Option<Phase>)
        ensures
            next == successor(self, transactional, event),
    {
        if !transactional {
            match self {
                Phase::ScopeOpen => {
                    return None;
                },
                Phase::Committing => {
                    return None;
                },
                Phase::Aborting => {
                    return None;
                },
                _ => {},
            }
        }
        match event {
            Event::Cancelled => match self {
                Phase::NoWork => None,
                Phase::Done => None,
                Phase::Failed => None,
                Phase::Aborting => Some(Phase::Aborting),
                Phase::Importing => if transactional {
                    Some(Phase::Aborting)
                } else {
                    Some(Phase::Failed)
                },
                Phase::Committing => if transactional {
                    Some(Phase::Aborting)
                } else {
                    Some(Phase::Failed)
                },
                _ => Some(Phase::Failed),
            },
            Event::Begun => match self {
                Phase::Start => Some(Phase::Filtering),
                _ => None,
            },
            Event::Filtered(remaining) => match self {
                Phase::Filtering => if remaining == 0 {
                    Some(Phase::NoWork)
                } else if transactional {
                    Some(Phase::ScopeOpen)
                } else {
                    Some(Phase::Importing)
                },
                _ => None,
            },
            Event::ScopeOpened => match self {
                Phase::ScopeOpen => Some(Phase::Importing),
                _ => None,
            },
            Event::ScopeRefused => match self {
                Phase::ScopeOpen => Some(Phase::Failed),
                _ => None,
            },
            Event::Imported => match self {
                Phase::Importing => if transactional {
                    Some(Phase::Committing)
                } else {
                    Some(Phase::Done)
                },
                _ => None,
            },
            Event::ImportFailed => match self {
                Phase::Importing => if transactional {
                    Some(Phase::Aborting)
                } else {
                    Some(Phase::Failed)
                },
                _ => None,
            },
            Event::Committed => match self {
                Phase::Committing => Some(Phase::Done),
                _ => None,
            },
            Event::CommitFailed => match self {
                Phase::Committing => Some(Phase::Failed),
                _ => None,
            },
            Event::Aborted => match self {
                Phase::Aborting => Some(Phase::Failed),
                _ => None,
            },
        }
    }
}

/// An invocation that has ended takes no further event.
pub proof fn lemma_terminal_is_final(phase: Phase, transactional: bool, event: Event)
    requires
        terminal(phase),
    ensures
        successor(phase, transactional, event) is None,
{
}

/// Every event but a repeated cancellation brings the invocation closer to
/// its end, so an invocation ends after six steps at most.
pub proof fn lemma_progress(phase: Phase, transactional: bool, event: Event)
    requires
        successor(phase, transactional, event) is Some,
        !(phase == Phase::Aborting && event == Event::Cancelled),
    ensures
        steps_left(successor(phase, transactional, event).unwrap()) < steps_left(phase),
{
}

/// An invocation is done only after a commit, where it is transactional, and
/// only after every source was ingested, where it is not.
pub proof fn lemma_done_follows_success(phase: Phase, transactional: bool, event: Event)
    requires
        successor(phase, transactional, event) == Some(Phase::Done),
    ensures
        transactional ==> phase == Phase::Committing && event == Event::Committed,
        !transactional ==> phase == Phase::Importing && event == Event::Imported,
{
}

/// A commit is attempted only after every source was ingested: a failure or
/// a cancellation never leads to it.
pub proof fn lemma_commit_follows_import(phase: Phase, transactional: bool, event: Event)
    requires
        successor(phase, transactional, event) == Some(Phase::Committing),
    ensures
        transactional,
        phase == Phase::Importing,
        event == Event::Imported,
{
}

/// A cancellation while a scope is open leads to the abort of the scope.
pub proof fn lemma_cancel_aborts(phase: Phase, transactional: bool)
    requires
        holds_scope(phase, transactional),
    ensures
        successor(phase, transactional, Event::Cancelled) == Some(Phase::Aborting),
{
}

} // verus!

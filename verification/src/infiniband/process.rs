//! When a child process may be reaped, and when it may be signalled.

use vstd::prelude::*;

verus! {

/// Milliseconds between two looks at a child that is waited for.
pub const REAP_PAUSE: u64 = 10;

/// What to do next about a child.
#[derive(Clone, Copy, Debug, PartialEq, Eq, Structural)]
pub enum ReapStep {
    /// See whether it has exited, without reaping it.
    Probe,
    /// It is still running.
    Running,
    /// Kill its process group.
    KillGroup,
    /// Reap it.
    Reap,
}

/// What is known about a child.
#[derive(Clone, Copy, Debug, PartialEq, Eq, Structural)]
pub struct Child {
    /// It has not been reaped, so that its identity is still its own.
    pub has_id: bool,
    /// Whether it was seen running; `None` before it was looked at.
    pub running: Option<bool>,
    /// Its process group has been killed.
    pub group_killed: bool,
}

/// Pipe-holding descendants are killed while the zombie leader still pins the identity of the
/// process group. Only then is the leader reaped.
pub open spec fn reap_step(child: Child) -> ReapStep {
    if !child.has_id {
        ReapStep::Reap
    } else {
        match child.running {
            None => ReapStep::Probe,
            Some(true) => ReapStep::Running,
            Some(false) => if child.group_killed {
                ReapStep::Reap
            } else {
                ReapStep::KillGroup
            },
        }
    }
}

/// What to do next about a child that may have exited.
pub fn try_wait(child: Child) -> (r: ReapStep)
    ensures
        r == reap_step(child),
{
    if !child.has_id {
        return ReapStep::Reap;
    }
    match child.running {
        None => ReapStep::Probe,
        Some(running) => if running {
            ReapStep::Running
        } else if child.group_killed {
            ReapStep::Reap
        } else {
            ReapStep::KillGroup
        },
    }
}

/// How to make a child end.
#[derive(Clone, Copy, Debug, PartialEq, Eq, Structural)]
pub enum SignalStep {
    /// Kill its process group, and it.
    Kill,
    /// Leave it: it has been reaped, and its identity may by now be another's.
    Leave,
}

/// How to make a child end.
pub fn signal(child: Child) -> (r: SignalStep)
    ensures
        r == (if child.has_id {
            SignalStep::Kill
        } else {
            SignalStep::Leave
        }),
{
    if child.has_id {
        SignalStep::Kill
    } else {
        SignalStep::Leave
    }
}

/// A child that has its identity is reaped only once it has exited and its group was killed, and
/// its group is killed only while it has its identity.
pub proof fn law_group_killed_before_reaping(child: Child)
    ensures
        reap_step(child) == ReapStep::Reap && child.has_id ==> child.running == Some(false)
            && child.group_killed,
        reap_step(child) == ReapStep::KillGroup ==> child.has_id && child.running == Some(false),
{
}

/// What is done about a child: one that was reaped is asked for its status; one that has not been
/// looked at is; one that runs is left; and one that has exited loses its group, then is reaped.
pub proof fn law_course_of_a_child(child: Child)
    ensures
        reap_step(child) == ReapStep::Probe <==> child.has_id && child.running is None,
        reap_step(child) == ReapStep::Running <==> child.has_id && child.running == Some(true),
        reap_step(child) == ReapStep::KillGroup <==> child.has_id && child.running == Some(false)
            && !child.group_killed,
        reap_step(child) == ReapStep::Reap <==> !child.has_id || (child.running == Some(false)
            && child.group_killed),
{
}

} // verus!

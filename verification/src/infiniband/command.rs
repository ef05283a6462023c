//! A native tool from its start to its output.

use super::fault::{fault, FabricError, FabricFault, FaultView};
use vstd::prelude::*;

verus! {

/// What happened to a tool.
#[derive(Debug)]
pub enum CommandEvent {
    /// It was started.
    Spawned,
    /// It has exited within its deadline.
    Exited,
    /// It could not be waited for.
    WaitFailed(String),
    /// It was still running at its deadline.
    DeadlinePassed,
    /// It was killed and reaped, or could not be.
    Stopped { failure: Option<String> },
    /// The log of its standard output ended, or was found incomplete.
    OutFinished { failure: Option<String> },
    /// The log of its standard error ended, or was found incomplete.
    ErrFinished { failure: Option<String> },
}

/// What to do next about a tool.
pub enum CommandView {
    /// Wait until it exits or its deadline passes.
    Wait,
    /// Kill and reap it.
    Stop,
    /// Wait for the log of its standard output.
    FinishOut,
    /// Wait for the log of its standard error.
    FinishErr,
    /// Give its status and both logs.
    Collect,
    Refused(FaultView),
}

/// What to do next about a tool.
#[derive(Debug)]
pub enum CommandStep {
    /// Wait until it exits or its deadline passes.
    Wait,
    /// Kill and reap it.
    Stop,
    /// Wait for the log of its standard output.
    FinishOut,
    /// Wait for the log of its standard error.
    FinishErr,
    /// Give its status and both logs.
    Collect,
    Refused(FabricError),
}

impl View for CommandStep {
    type V = CommandView;

    open spec fn view(&self) -> CommandView {
        match self {
            CommandStep::Wait => CommandView::Wait,
            CommandStep::Stop => CommandView::Stop,
            CommandStep::FinishOut => CommandView::FinishOut,
            CommandStep::FinishErr => CommandView::FinishErr,
            CommandStep::Collect => CommandView::Collect,
            CommandStep::Refused(e) => CommandView::Refused(e@),
        }
    }
}

/// Goes on with `next`, unless the host reported a failure.
pub open spec fn unless_failed(failure: Option<String>, next: CommandView) -> CommandView {
    match failure {
        Some(m) => CommandView::Refused(FaultView { kind: FabricFault::Host, detail: m@ }),
        None => next,
    }
}

/// What to do next about a tool after an event.
pub open spec fn after_event(event: CommandEvent) -> CommandView {
    match event {
        CommandEvent::Spawned => CommandView::Wait,
        CommandEvent::Exited => CommandView::FinishOut,
        CommandEvent::WaitFailed(m) => CommandView::Refused(
            FaultView { kind: FabricFault::Host, detail: m@ },
        ),
        CommandEvent::DeadlinePassed => CommandView::Stop,
        CommandEvent::Stopped { failure } => unless_failed(
            failure,
            CommandView::Refused(fault(FabricFault::TimedOut)),
        ),
        CommandEvent::OutFinished { failure } => unless_failed(failure, CommandView::FinishErr),
        CommandEvent::ErrFinished { failure } => unless_failed(failure, CommandView::Collect),
    }
}

fn host_failure(detail: String) -> (r: CommandStep)
    ensures
        r@ == CommandView::Refused(FaultView { kind: FabricFault::Host, detail: detail@ }),
{
    CommandStep::Refused(FabricError { kind: FabricFault::Host, detail })
}

/// What to do next about a tool after an event.
pub fn command_step(event: CommandEvent) -> (r: CommandStep)
    ensures
        r@ == after_event(event),
{
    match event {
        CommandEvent::Spawned => CommandStep::Wait,
        CommandEvent::Exited => CommandStep::FinishOut,
        CommandEvent::WaitFailed(m) => host_failure(m),
        CommandEvent::DeadlinePassed => CommandStep::Stop,
        CommandEvent::Stopped { failure } => match failure {
            Some(m) => host_failure(m),
            None => CommandStep::Refused(FabricError::new(FabricFault::TimedOut)),
        },
        CommandEvent::OutFinished { failure } => match failure {
            Some(m) => host_failure(m),
            None => CommandStep::FinishErr,
        },
        CommandEvent::ErrFinished { failure } => match failure {
            Some(m) => host_failure(m),
            None => CommandStep::Collect,
        },
    }
}

/// The event is one that can follow the step.
pub open spec fn follows(step: CommandView, event: CommandEvent) -> bool {
    match step {
        CommandView::Wait => event is Exited || event is WaitFailed || event is DeadlinePassed,
        CommandView::Stop => event is Stopped,
        CommandView::FinishOut => event is OutFinished,
        CommandView::FinishErr => event is ErrFinished,
        CommandView::Collect => false,
        CommandView::Refused(_) => false,
    }
}

/// The events of a tool, each following from what was to be done after the one before.
pub open spec fn is_course(events: Seq<CommandEvent>) -> bool {
    &&& events.len() > 0
    &&& events[0] is Spawned
    &&& forall|i: int, j: int|
        0 <= i < events.len() && j == i + 1 && j < events.len() ==> follows(
            after_event(#[trigger] events[i]),
            #[trigger] events[j],
        )
}

/// Output is given only of a tool that exited within its deadline and whose logs are both whole.
pub proof fn law_output_is_whole(events: Seq<CommandEvent>)
    requires
        is_course(events),
        after_event(events.last()) == CommandView::Collect,
    ensures
        events.len() == 4,
        events[1] is Exited,
        events[2] matches CommandEvent::OutFinished { failure } && failure is None,
        events[3] matches CommandEvent::ErrFinished { failure } && failure is None,
{
    lemma_course(events);
}

/// A tool that is reported as timed out was still running at its deadline, and has been killed and
/// reaped.
pub proof fn law_timed_out_tool_is_stopped(events: Seq<CommandEvent>)
    requires
        is_course(events),
        after_event(events.last()) == CommandView::Refused(fault(FabricFault::TimedOut)),
    ensures
        events.len() == 3,
        events[1] is DeadlinePassed,
        events[2] matches CommandEvent::Stopped { failure } && failure is None,
{
    lemma_course(events);
}

/// A course has at most four events: after a start comes an end, and then what that end takes.
proof fn lemma_course(events: Seq<CommandEvent>)
    requires
        is_course(events),
    ensures
        events.len() <= 4,
        events.len() > 1 ==> follows(CommandView::Wait, events[1]),
        events.len() > 2 ==> follows(after_event(events[1]), events[2]),
        events.len() > 3 ==> follows(after_event(events[2]), events[3]),
{
    let n = events.len() as int;
    if n > 1 {
        assert(follows(after_event(events[0]), events[1]));
    }
    if n > 2 {
        assert(follows(after_event(events[1]), events[2]));
    }
    if n > 3 {
        assert(follows(after_event(events[2]), events[3]));
    }
    if n > 4 {
        assert(follows(after_event(events[3]), events[4]));
    }
}

/// A tool that exits has its logs waited for, one after the other, and then gives its output; one
/// that is still running at its deadline is stopped. Whatever the host reports as a failure is what
/// is reported.
pub proof fn law_course_of_a_tool(m: String)
    ensures
        after_event(CommandEvent::Spawned) == CommandView::Wait,
        after_event(CommandEvent::Exited) == CommandView::FinishOut,
        after_event(CommandEvent::OutFinished { failure: None }) == CommandView::FinishErr,
        after_event(CommandEvent::ErrFinished { failure: None }) == CommandView::Collect,
        after_event(CommandEvent::DeadlinePassed) == CommandView::Stop,
        after_event(CommandEvent::Stopped { failure: None }) == CommandView::Refused(
            fault(FabricFault::TimedOut),
        ),
        forall|event: CommandEvent|
            event == CommandEvent::WaitFailed(m) || event == (CommandEvent::Stopped {
                failure: Some(m),
            }) || event == (CommandEvent::OutFinished { failure: Some(m) }) || event == (
            CommandEvent::ErrFinished { failure: Some(m) }) ==> #[trigger] after_event(event)
                == CommandView::Refused(FaultView { kind: FabricFault::Host, detail: m@ }),
{
}

} // verus!

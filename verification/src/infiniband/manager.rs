//! A subnet manager, from the moment it is let through until its port is Active.

use super::fabric::{FabricStepView, FabricView, IbPortStatus, WaitView, MANAGER_DEADLINE};
use super::fault::{FabricError, FabricFault, FaultView};
use vstd::prelude::*;

verus! {

/// What happened to a subnet manager that was let through.
#[derive(Debug)]
pub enum ManagerEvent {
    /// Nothing yet.
    Granted,
    /// The directory for its cache was created, or could not be.
    CacheCreated { failure: Option<String> },
    /// The log of its standard output was opened, or could not be.
    OutOpened { failure: Option<String> },
    /// The log of its standard error was opened, or could not be.
    ErrOpened { failure: Option<String> },
    /// It was launched, or could not be.
    Launched { failure: Option<String> },
    /// Its port was waited for and seen Active.
    Active(IbPortStatus),
    /// The wait for its port ended otherwise; this is reported of it.
    WaitFailed(String),
}

/// What to do next about a subnet manager.
pub enum ManagerStepView {
    /// Create the directory for its cache. Fails if it exists.
    CreateCache,
    /// Open the log of its standard output.
    OpenOut,
    /// Open the log of its standard error.
    OpenErr,
    /// Launch it.
    Launch,
    /// Wait for its port to become Active, with this deadline in nanoseconds.
    WaitActive(u128),
    /// It runs, and its port was seen so.
    Started(IbPortStatus),
    Refused(FaultView),
}

/// What to do next about a subnet manager.
#[derive(Debug)]
pub enum ManagerStep {
    /// Create the directory for its cache. Fails if it exists.
    CreateCache,
    /// Open the log of its standard output.
    OpenOut,
    /// Open the log of its standard error.
    OpenErr,
    /// Launch it.
    Launch,
    /// Wait for its port to become Active, with this deadline in nanoseconds.
    WaitActive(u128),
    /// It runs, and its port was seen so.
    Started(IbPortStatus),
    Refused(FabricError),
}

impl View for ManagerStep {
    type V = ManagerStepView;

    open spec fn view(&self) -> ManagerStepView {
        match self {
            ManagerStep::CreateCache => ManagerStepView::CreateCache,
            ManagerStep::OpenOut => ManagerStepView::OpenOut,
            ManagerStep::OpenErr => ManagerStepView::OpenErr,
            ManagerStep::Launch => ManagerStepView::Launch,
            ManagerStep::WaitActive(deadline) => ManagerStepView::WaitActive(*deadline),
            ManagerStep::Started(port) => ManagerStepView::Started(*port),
            ManagerStep::Refused(e) => ManagerStepView::Refused(e@),
        }
    }
}

/// Goes on with `next`, unless the host reported a failure.
pub open spec fn manager_goes_on(failure: Option<String>, next: ManagerStepView) -> ManagerStepView {
    match failure {
        Some(m) => ManagerStepView::Refused(FaultView { kind: FabricFault::Host, detail: m@ }),
        None => next,
    }
}

/// What to do next about a subnet manager after an event.
pub open spec fn after_manager_event(event: ManagerEvent) -> ManagerStepView {
    match event {
        ManagerEvent::Granted => ManagerStepView::CreateCache,
        ManagerEvent::CacheCreated { failure } => manager_goes_on(
            failure,
            ManagerStepView::OpenOut,
        ),
        ManagerEvent::OutOpened { failure } => manager_goes_on(failure, ManagerStepView::OpenErr),
        ManagerEvent::ErrOpened { failure } => manager_goes_on(failure, ManagerStepView::Launch),
        ManagerEvent::Launched { failure } => manager_goes_on(
            failure,
            ManagerStepView::WaitActive(MANAGER_DEADLINE),
        ),
        ManagerEvent::Active(port) => ManagerStepView::Started(port),
        ManagerEvent::WaitFailed(m) => ManagerStepView::Refused(
            FaultView { kind: FabricFault::Host, detail: m@ },
        ),
    }
}

fn go_on(failure: Option<String>, next: ManagerStep) -> (r: ManagerStep)
    ensures
        r@ == manager_goes_on(failure, next@),
{
    match failure {
        Some(detail) => ManagerStep::Refused(FabricError { kind: FabricFault::Host, detail }),
        None => next,
    }
}

/// What to do next about a subnet manager after an event.
pub fn manager_step(event: ManagerEvent) -> (r: ManagerStep)
    ensures
        r@ == after_manager_event(event),
{
    match event {
        ManagerEvent::Granted => ManagerStep::CreateCache,
        ManagerEvent::CacheCreated { failure } => go_on(failure, ManagerStep::OpenOut),
        ManagerEvent::OutOpened { failure } => go_on(failure, ManagerStep::OpenErr),
        ManagerEvent::ErrOpened { failure } => go_on(failure, ManagerStep::Launch),
        ManagerEvent::Launched { failure } => go_on(
            failure,
            ManagerStep::WaitActive(MANAGER_DEADLINE),
        ),
        ManagerEvent::Active(port) => ManagerStep::Started(port),
        ManagerEvent::WaitFailed(detail) => ManagerStep::Refused(
            FabricError { kind: FabricFault::Host, detail },
        ),
    }
}

/// Waiting for the port of `node` with this deadline ended with `port`, some time after it began.
pub open spec fn wait_gave(f: FabricView, node: Seq<char>, deadline: u128, port: IbPortStatus) -> bool {
    exists|elapsed: u128| #[trigger]
        f.wait_active(node, deadline, seq![], Some((port, elapsed))) == FabricStepView::Go(
            WaitView::Active(port),
        )
}

/// The event is one that can follow the step, for a subnet manager at `node`.
pub open spec fn manager_follows(
    f: FabricView,
    node: Seq<char>,
    step: ManagerStepView,
    event: ManagerEvent,
) -> bool {
    match step {
        ManagerStepView::CreateCache => event is CacheCreated,
        ManagerStepView::OpenOut => event is OutOpened,
        ManagerStepView::OpenErr => event is ErrOpened,
        ManagerStepView::Launch => event is Launched,
        ManagerStepView::WaitActive(deadline) => match event {
            ManagerEvent::Active(port) => wait_gave(f, node, deadline, port),
            ManagerEvent::WaitFailed(_) => true,
            _ => false,
        },
        ManagerStepView::Started(_) => false,
        ManagerStepView::Refused(_) => false,
    }
}

/// The events of a subnet manager at `node`, each following from what was to be done after the one
/// before.
pub open spec fn is_manager_course(f: FabricView, node: Seq<char>, events: Seq<ManagerEvent>) -> bool {
    &&& events.len() > 0
    &&& events[0] is Granted
    &&& forall|i: int, j: int|
        0 <= i < events.len() && j == i + 1 && j < events.len() ==> manager_follows(
            f,
            node,
            after_manager_event(#[trigger] events[i]),
            #[trigger] events[j],
        )
}

/// A subnet manager is reported as started only once it was launched, with its cache and both
/// logs, and the wait for its port with the deadline for subnet managers found it Active with a
/// LID.
pub proof fn law_manager_starts_with_an_active_port(
    f: FabricView,
    node: Seq<char>,
    events: Seq<ManagerEvent>,
    port: IbPortStatus,
)
    requires
        is_manager_course(f, node, events),
        after_manager_event(events.last()) == ManagerStepView::Started(port),
    ensures
        events.len() == 6,
        events[1] matches ManagerEvent::CacheCreated { failure } && failure is None,
        events[2] matches ManagerEvent::OutOpened { failure } && failure is None,
        events[3] matches ManagerEvent::ErrOpened { failure } && failure is None,
        events[4] matches ManagerEvent::Launched { failure } && failure is None,
        events[5] == ManagerEvent::Active(port),
        wait_gave(f, node, MANAGER_DEADLINE, port),
        port.is_active(),
{
    let n = events.len() as int;
    if n > 1 {
        assert(manager_follows(f, node, after_manager_event(events[0]), events[1]));
    }
    if n > 2 {
        assert(manager_follows(f, node, after_manager_event(events[1]), events[2]));
    }
    if n > 3 {
        assert(manager_follows(f, node, after_manager_event(events[2]), events[3]));
    }
    if n > 4 {
        assert(manager_follows(f, node, after_manager_event(events[3]), events[4]));
    }
    if n > 5 {
        assert(manager_follows(f, node, after_manager_event(events[4]), events[5]));
    }
    if n > 6 {
        assert(manager_follows(f, node, after_manager_event(events[5]), events[6]));
    }
}

/// A subnet manager has its cache created, both logs opened, is launched, and has its port waited
/// for, for thirty seconds. Whatever the host reports as a failure is what is reported.
pub proof fn law_course_of_a_manager(m: String, port: IbPortStatus)
    ensures
        after_manager_event(ManagerEvent::Granted) == ManagerStepView::CreateCache,
        after_manager_event(ManagerEvent::CacheCreated { failure: None })
            == ManagerStepView::OpenOut,
        after_manager_event(ManagerEvent::OutOpened { failure: None }) == ManagerStepView::OpenErr,
        after_manager_event(ManagerEvent::ErrOpened { failure: None }) == ManagerStepView::Launch,
        after_manager_event(ManagerEvent::Launched { failure: None })
            == ManagerStepView::WaitActive(30_000_000_000),
        after_manager_event(ManagerEvent::Active(port)) == ManagerStepView::Started(port),
        forall|event: ManagerEvent|
            event == ManagerEvent::WaitFailed(m) || event == (ManagerEvent::CacheCreated {
                failure: Some(m),
            }) || event == (ManagerEvent::OutOpened { failure: Some(m) }) || event == (
            ManagerEvent::ErrOpened { failure: Some(m) }) || event == (ManagerEvent::Launched {
                failure: Some(m),
            }) ==> #[trigger] after_manager_event(event) == ManagerStepView::Refused(
                FaultView { kind: FabricFault::Host, detail: m@ },
            ),
{
}

/// A subnet manager is looked at from its launch on, and from nothing else.
pub proof fn law_launched_managers_are_looked_at(f: FabricView, event: ManagerEvent)
    ensures
        f.after_manager(event) == (FabricView {
            managed: f.managed || (event matches ManagerEvent::Launched { failure } && failure
                is None),
            ..f
        }),
{
}

} // verus!

//! A fabric in a namespace of its own: the numbers by which the fabrics of a process are told apart,
//! and the device that is added for each.

use super::fault::{fault, FabricError, FabricFault, FaultView};
use super::topology::{IbTopology, TopologyView};
use crate::reading::{after, law_decimals_are_read_back, lemma_divide, reads_as, until};
use crate::text::{decimal, push_decimal};
use vstd::prelude::*;
use vstd::string::*;

verus! {

/// How many numbers a counter has.
pub open spec fn serials() -> nat {
    u64::MAX as nat + 1
}

/// The counter after a number was taken from it. It starts again once all have been taken.
pub open spec fn following(counter: nat) -> nat {
    if counter + 1 < serials() {
        counter + 1
    } else {
        0
    }
}

/// Takes a number from a counter.
pub fn take_serial(counter: &mut u64) -> (r: u64)
    ensures
        r == *old(counter),
        *final(counter) == following(*old(counter) as nat),
        r < u64::MAX ==> *final(counter) > r,
{
    let number: u64 = *counter;
    if number < u64::MAX {
        *counter = number + 1;
    } else {
        *counter = 0;
    }
    number
}

/// The counter of a process after `n` numbers were taken; it begins at zero. So it is also the
/// number that is taken next.
pub open spec fn handed_out(n: nat) -> nat
    decreases n,
{
    if n == 0 {
        0
    } else {
        following(handed_out((n - 1) as nat))
    }
}

/// The name of the namespace of the `serial`-th fabric of a process.
pub open spec fn namespace(serial: nat) -> Seq<char> {
    "ibsim-"@ + decimal(serial)
}

/// The name of the namespace of the `serial`-th fabric of a process.
pub fn namespace_name(serial: u64) -> (r: String)
    ensures
        r@ == namespace(serial as nat),
{
    let mut out = "ibsim-".to_owned();
    push_decimal(&mut out, serial);
    out
}

/// Something to be done before a fabric is started.
pub enum LabActionView {
    /// Take a number from the counter of the process.
    TakeSerial,
    /// Add a device of that name, with one dummy interface and no other.
    AddDevice { name: Seq<char>, dummy: Seq<char> },
}

/// Something to be done before a fabric is started.
#[derive(Debug)]
pub enum LabAction {
    /// Take a number from the counter of the process.
    TakeSerial,
    /// Add a device of that name, with one dummy interface and no other.
    AddDevice { name: String, dummy: String },
}

impl View for LabAction {
    type V = LabActionView;

    open spec fn view(&self) -> LabActionView {
        match self {
            LabAction::TakeSerial => LabActionView::TakeSerial,
            LabAction::AddDevice { name, dummy } => LabActionView::AddDevice {
                name: name@,
                dummy: dummy@,
            },
        }
    }
}

/// How far the device of a fabric has come.
#[derive(Debug)]
pub enum LabEvent {
    /// Nothing was done yet.
    Begin,
    /// This number was taken.
    Taken(u64),
    /// The device was added, or could not be.
    Added { failure: Option<String> },
}

/// What to do next.
pub enum LabView {
    Ask(LabActionView),
    Refused(FaultView),
    /// Start the fabric in the device that was added.
    Start,
}

/// What to do next.
#[derive(Debug)]
pub enum LabStep {
    Ask(LabAction),
    Refused(FabricError),
    /// Start the fabric in the device that was added.
    Start,
}

impl View for LabStep {
    type V = LabView;

    open spec fn view(&self) -> LabView {
        match self {
            LabStep::Ask(action) => LabView::Ask(action@),
            LabStep::Refused(e) => LabView::Refused(e@),
            LabStep::Start => LabView::Start,
        }
    }
}

/// What to do after an event for a fabric of this graph, which has to be one that can be emitted.
pub open spec fn lab_step(graph: TopologyView, event: LabEvent) -> LabView {
    match graph.render_refusal() {
        Some(e) => LabView::Refused(fault(FabricFault::Graph(e))),
        None => match event {
            LabEvent::Begin => LabView::Ask(LabActionView::TakeSerial),
            LabEvent::Taken(serial) => LabView::Ask(
                LabActionView::AddDevice { name: namespace(serial as nat), dummy: "ibctl"@ },
            ),
            LabEvent::Added { failure } => match failure {
                Some(m) => LabView::Refused(FaultView { kind: FabricFault::Host, detail: m@ }),
                None => LabView::Start,
            },
        },
    }
}

/// Start a fabric in an isolated namespace without Ethernet uplinks: what to do after an event.
/// Nodes/ports refer to the IB graph; UMAD processes attach by node name.
pub fn start_infiniband(topology: &IbTopology, event: LabEvent) -> (r: LabStep)
    requires
        topology.wf(),
    ensures
        r@ == lab_step(topology@, event),
{
    if let Err(e) = topology.render() {
        return LabStep::Refused(FabricError::new(FabricFault::Graph(e)));
    }
    match event {
        LabEvent::Begin => LabStep::Ask(LabAction::TakeSerial),
        LabEvent::Taken(serial) => LabStep::Ask(
            LabAction::AddDevice { name: namespace_name(serial), dummy: "ibctl".to_owned() },
        ),
        LabEvent::Added { failure } => match failure {
            Some(detail) => LabStep::Refused(FabricError { kind: FabricFault::Host, detail }),
            None => LabStep::Start,
        },
    }
}

/// The number taken at the `n`-th time is `n`, for as long as the counter has not started again.
proof fn lemma_handed_out(n: nat)
    requires
        n < serials(),
    ensures
        handed_out(n) == n,
    decreases n,
{
    if n > 0 {
        lemma_handed_out((n - 1) as nat);
    }
}

/// No number is handed out twice before the counter has handed out all that it has.
pub proof fn law_serials_distinct(i: nat, j: nat)
    requires
        i < serials(),
        j < serials(),
        i != j,
    ensures
        handed_out(i) != handed_out(j),
{
    lemma_handed_out(i);
    lemma_handed_out(j);
}

/// The numbers of a process count up from zero.
pub proof fn law_serials_count_up(n: nat)
    requires
        n < serials(),
    ensures
        handed_out(n) == n,
{
    lemma_handed_out(n);
}

/// For a graph that can be emitted, a number is taken, then a device is added whose name tells that
/// number and which has the one dummy interface `ibctl`; once it was added, the fabric is started.
/// For any other graph, nothing is asked for.
pub proof fn law_course_of_a_device(graph: TopologyView, serial: u64, m: String)
    ensures
        graph.render_refusal() is None ==> {
            &&& lab_step(graph, LabEvent::Begin) == LabView::Ask(LabActionView::TakeSerial)
            &&& lab_step(graph, LabEvent::Taken(serial)) matches LabView::Ask(
                LabActionView::AddDevice { name, dummy },
            ) && dummy == "ibctl"@ && until(name, '-') == "ibsim"@ && reads_as(
                after(name, '-'),
                serial as nat,
            )
            &&& lab_step(graph, LabEvent::Added { failure: None }) == LabView::Start
            &&& lab_step(graph, LabEvent::Added { failure: Some(m) }) == LabView::Refused(
                FaultView { kind: FabricFault::Host, detail: m@ },
            )
        },
        graph.render_refusal() matches Some(e) ==> forall|event: LabEvent| #[trigger]
            lab_step(graph, event) == LabView::Refused(fault(FabricFault::Graph(e))),
{
    reveal_strlit("ibsim-");
    reveal_strlit("ibsim");
    let digits = decimal(serial as nat);
    law_decimals_are_read_back(serial as nat);
    assert(namespace(serial as nat) =~= "ibsim"@ + seq!['-'] + digits);
    lemma_divide("ibsim"@, '-', digits);
}

} // verus!

//! Explicit host-namespace cables for externally owned (for example Incus) veths.
//!
//! The caller must serialize all network mutations and retain authority over the
//! external endpoint lifecycle. Nothing here enters, kills or deletes a guest
//! namespace. No interface is adopted by name alone: ifindices and bridge aliases
//! are checked before every mutation.
//!
//! Each operation is a function of the answers that the host has given so far. It
//! says what to do next, or how the operation ended: perform the action, record
//! what came of it, and ask again.

pub mod answer_laws;
pub mod command_laws;
pub mod exchange;
pub mod laws;
pub mod stage;

use crate::text::{decimal, decimal_text, is_word, padded, push_padded, same_text, word};
use crate::text::lemma_word_bytes;
use self::exchange::{plain, words, Action, ActionView, AnswerView, CableError, Fault};
use self::exchange::{FaultKind, Transcript};
use self::stage::{advance, ifindex_at, no_addresses_at, Advance, Expect, Stage};
use self::stage::{lemma_progress, progress, shown_ifindex, shows_no_addresses, stages_of};
use self::stage::{Progress, StageView};
use vstd::prelude::*;
use vstd::string::*;

verus! {

/// A name that the kernel takes for an interface and that no tool takes for an option or a path.
pub open spec fn is_valid_name(name: Seq<char>) -> bool {
    1 <= name.len() <= 15 && word(name, false) && name[0] != '-'
}

/// Whether a name may be handed to `ip` and `tc`.
pub fn valid_name(name: &str) -> (r: bool)
    ensures
        r == is_valid_name(name@),
{
    if name.is_empty() || !is_word(name, false) {
        return false;
    }
    proof {
        lemma_word_bytes(name@, false);
    }
    let bytes = name.as_bytes();
    bytes.len() <= 15 && bytes[0] != 45
}

/// A name for a new bridge: valid, and with the prefix of cables.
pub open spec fn is_bridge_name(name: Seq<char>) -> bool {
    is_valid_name(name) && name.len() >= 2 && name[0] == 'p' && name[1] == 'c'
}

fn bridge_name(name: &str) -> (r: bool)
    ensures
        r == is_bridge_name(name@),
{
    if !valid_name(name) {
        return false;
    }
    proof {
        lemma_word_bytes(name@, false);
    }
    let bytes = name.as_bytes();
    bytes.len() >= 2 && bytes[0] == 112 && bytes[1] == 99
}

/// A marker by which a run knows its own bridges.
pub open spec fn is_owner_marker(owner: Seq<char>) -> bool {
    16 <= owner.len() <= 80 && word(owner, false)
}

fn owner_marker(owner: &str) -> (r: bool)
    ensures
        r == is_owner_marker(owner@),
{
    if !is_word(owner, false) {
        return false;
    }
    proof {
        lemma_word_bytes(owner@, false);
    }
    let n: usize = owner.as_bytes().len();
    n >= 16 && n <= 80
}

/// A host veth, by name and kernel identity.
pub struct EndpointView {
    pub name: Seq<char>,
    pub ifindex: u64,
}

/// A borrowed host veth identity, captured after the guest has started.
#[derive(Clone, Debug)]
pub struct Endpoint {
    /// Host-side veth name (not the guest interface name).
    pub name: String,
    /// Observed kernel interface identity; changes invalidate this attachment.
    pub ifindex: u64,
}

impl View for Endpoint {
    type V = EndpointView;

    open spec fn view(&self) -> EndpointView {
        EndpointView { name: self.name@, ifindex: self.ifindex }
    }
}

/// A cable between two host veths.
pub struct CableView {
    pub bridge: Seq<char>,
    pub ifindex: u64,
    pub owner: Seq<char>,
    pub ends: (EndpointView, EndpointView),
}

/// An explicitly owned Ethernet cable. Call `remove` before stopping guests.
#[derive(Clone, Debug)]
pub struct HostCable {
    /// Newly created bridge name.
    pub bridge: String,
    /// Bridge identity recorded at creation.
    pub ifindex: u64,
    /// Unique run ownership marker stored as the bridge's ifalias.
    pub owner: String,
    /// Exactly two borrowed endpoints.
    pub ends: [Endpoint; 2],
}

impl View for HostCable {
    type V = CableView;

    open spec fn view(&self) -> CableView {
        CableView {
            bridge: self.bridge@,
            ifindex: self.ifindex,
            owner: self.owner@,
            ends: (self.ends@[0]@, self.ends@[1]@),
        }
    }
}

/// Where an operation stands.
pub enum StepView<T> {
    /// This is to be done next.
    Ask(ActionView),
    /// The operation has succeeded.
    Done(T),
    /// The operation has ended without success.
    Refused(Fault),
}

/// Where an operation stands.
#[derive(Debug)]
pub enum Step<T> {
    /// This is to be done next.
    Ask(Action),
    /// The operation has succeeded.
    Done(T),
    /// The operation has ended without success.
    Refused(CableError),
}

impl<T: View> View for Step<T> {
    type V = StepView<T::V>;

    open spec fn view(&self) -> StepView<T::V> {
        match self {
            Step::Ask(action) => StepView::Ask(action@),
            Step::Done(value) => StepView::Done(value@),
            Step::Refused(e) => StepView::Refused(e@),
        }
    }
}

/// Where an operation stands that gives `value` once every stage has passed.
pub open spec fn step_with<T>(p: Progress, value: T) -> StepView<T> {
    match p {
        Progress::Ask(action) => StepView::Ask(action),
        Progress::Refused { fault, .. } => StepView::Refused(fault),
        Progress::Passed => StepView::Done(value),
    }
}

// The actions that operations are made of.

/// Shows one link.
pub open spec fn show_link(name: Seq<char>) -> ActionView {
    ActionView::Ip(seq!["-j"@, "-d"@, "link"@, "show"@, "dev"@, name])
}

/// Shows the addresses of an interface.
pub open spec fn show_addresses(name: Seq<char>) -> ActionView {
    ActionView::Ip(seq!["-j"@, "address"@, "show"@, "dev"@, name])
}

/// Shows the members of a bridge.
pub open spec fn show_members(bridge: Seq<char>) -> ActionView {
    ActionView::Ip(seq!["-j"@, "link"@, "show"@, "master"@, bridge])
}

/// Keeps automatic IPv6 addresses off an interface.
pub open spec fn disable_ipv6(name: Seq<char>) -> ActionView {
    ActionView::Write {
        path: "/proc/sys/net/ipv6/conf/"@ + name + "/disable_ipv6"@,
        text: "1\n"@,
    }
}

/// Creates a bridge; fails where the name is taken.
pub open spec fn add_bridge(bridge: Seq<char>) -> ActionView {
    ActionView::Ip(
        seq![
            "link"@,
            "add"@,
            "name"@,
            bridge,
            "type"@,
            "bridge"@,
            "stp_state"@,
            "0"@,
            "mcast_snooping"@,
            "0"@,
        ],
    )
}

/// Marks a bridge as the owner's.
pub open spec fn set_alias(bridge: Seq<char>, owner: Seq<char>) -> ActionView {
    ActionView::Ip(seq!["link"@, "set"@, "dev"@, bridge, "alias"@, owner])
}

/// Attaches an interface to a bridge.
pub open spec fn set_master(name: Seq<char>, bridge: Seq<char>) -> ActionView {
    ActionView::Ip(seq!["link"@, "set"@, "dev"@, name, "master"@, bridge])
}

/// Sets an interface up or down.
pub open spec fn set_state(name: Seq<char>, up: bool) -> ActionView {
    ActionView::Ip(
        seq![
            "link"@,
            "set"@,
            "dev"@,
            name,
            if up {
                "up"@
            } else {
                "down"@
            },
        ],
    )
}

/// Deletes a link.
pub open spec fn delete_link(name: Seq<char>) -> ActionView {
    ActionView::Ip(seq!["link"@, "delete"@, "dev"@, name])
}

/// A delay in microseconds with three decimals.
pub open spec fn microseconds(delay_ns: nat) -> Seq<char> {
    decimal(delay_ns / 1000) + "."@ + padded(delay_ns % 1000, 10, 3) + "us"@
}

/// Impairs what leaves an interface.
pub open spec fn impair(
    name: Seq<char>,
    delay_ns: u64,
    bandwidth_bps: u64,
    queue_packets: u32,
) -> ActionView {
    ActionView::Tc(
        seq![
            "qdisc"@,
            "replace"@,
            "dev"@,
            name,
            "root"@,
            "netem"@,
            "delay"@,
            microseconds(delay_ns as nat),
            "rate"@,
            decimal(bandwidth_bps as nat) + "bit"@,
            "limit"@,
            decimal(queue_packets as nat),
        ],
    )
}

// The operations, stage by stage.

pub open spec fn stage(action: ActionView, expect: Expect) -> StageView {
    StageView { guard: None, action, expect }
}

/// Shows one link, if its name is valid.
pub open spec fn inspect(name: Seq<char>, expect: Expect) -> StageView {
    StageView {
        guard: if is_valid_name(name) {
            None
        } else {
            Some(FaultKind::InvalidName)
        },
        action: show_link(name),
        expect,
    }
}

/// A free veth without addresses.
pub open spec fn observe_plan(name: Seq<char>, answers: Seq<AnswerView>) -> Seq<StageView> {
    seq![
        inspect(name, Expect::FreeVeth),
        stage(
            show_addresses(name),
            Expect::Bare { ifindex: shown_ifindex(answers, 0), earlier: None },
        ),
    ]
}

/// A free veth that may have lost its link-local addresses on the way, and is still the same.
pub open spec fn prepare_plan(name: Seq<char>, answers: Seq<AnswerView>) -> Seq<StageView> {
    let same = Expect::SameVeth { ifindex: shown_ifindex(answers, 0) };
    seq![
        inspect(name, Expect::OwnedVeth),
        stage(show_addresses(name), Expect::LinkLocal),
        inspect(name, same),
        stage(
            disable_ipv6(name),
            Expect::Written { or_absent: shows_no_addresses(answers, 1) },
        ),
        inspect(name, same),
        inspect(name, Expect::FreeVeth),
        stage(
            show_addresses(name),
            Expect::Bare {
                ifindex: shown_ifindex(answers, 5),
                earlier: shown_ifindex(answers, 0),
            },
        ),
    ]
}

pub open spec fn verify_end(end: EndpointView) -> StageView {
    inspect(end.name, Expect::SameVeth { ifindex: Some(end.ifindex) })
}

/// The owner's bridge of that generation, with exactly those two members, which are still the
/// same veths.
pub open spec fn bridge_plan(
    bridge: Seq<char>,
    ifindex: Option<u64>,
    ends: (EndpointView, EndpointView),
) -> Seq<StageView> {
    seq![
        inspect(bridge, Expect::OwnBridge { ifindex }),
        stage(
            show_members(bridge),
            Expect::Members { first: ends.0.ifindex, second: ends.1.ifindex },
        ),
        verify_end(ends.0),
        verify_end(ends.1),
    ]
}

pub open spec fn verify_plan(cable: CableView) -> Seq<StageView> {
    bridge_plan(cable.bridge, Some(cable.ifindex), cable.ends)
}

/// What is done to a cable once it has been verified.
pub open spec fn verified_plan(cable: CableView, last: StageView) -> Seq<StageView> {
    verify_plan(cable).push(last)
}

pub open spec fn set_up_plan(cable: CableView, up: bool) -> Seq<StageView> {
    verified_plan(cable, stage(set_state(cable.bridge, up), Expect::Quiet))
}

pub open spec fn remove_plan(cable: CableView) -> Seq<StageView> {
    verified_plan(cable, stage(delete_link(cable.bridge), Expect::Quiet))
}

pub open spec fn end_at(cable: CableView, destination: usize) -> EndpointView {
    if destination == 0 {
        cable.ends.0
    } else {
        cable.ends.1
    }
}

pub open spec fn shape_plan(
    cable: CableView,
    destination: usize,
    delay_ns: u64,
    bandwidth_bps: u64,
    queue_packets: u32,
) -> Seq<StageView> {
    verified_plan(
        cable,
        stage(
            impair(end_at(cable, destination).name, delay_ns, bandwidth_bps, queue_packets),
            Expect::Ran,
        ),
    )
}

/// What an impairment has to be within.
pub open spec fn is_impairment(
    destination: usize,
    delay_ns: u64,
    bandwidth_bps: u64,
    queue_packets: u32,
) -> bool {
    destination < 2 && delay_ns <= 60_000_000_000 && bandwidth_bps > 0 && queue_packets > 0
}

/// Why a cable is not even begun.
pub open spec fn connect_refusal(
    bridge: Seq<char>,
    owner: Seq<char>,
    ends: (EndpointView, EndpointView),
) -> Option<FaultKind> {
    if !is_bridge_name(bridge) {
        Some(FaultKind::BridgeName)
    } else if !is_owner_marker(owner) {
        Some(FaultKind::OwnerMarker)
    } else if ends.0.name == ends.1.name || ends.0.ifindex == ends.1.ifindex {
        Some(FaultKind::SameEnds)
    } else {
        None
    }
}

/// The stages before the bridge exists: both ends are the same free veths; then it is created.
pub open spec fn create_plan(bridge: Seq<char>, ends: (EndpointView, EndpointView)) -> Seq<
    StageView,
> {
    seq![
        inspect(ends.0.name, Expect::LooseVeth { ifindex: Some(ends.0.ifindex) }),
        inspect(ends.1.name, Expect::LooseVeth { ifindex: Some(ends.1.ifindex) }),
        stage(add_bridge(bridge), Expect::Quiet),
    ]
}

/// Where `connect` sees the new bridge's interface index.
pub open spec fn new_ifindex(answers: Seq<AnswerView>) -> Option<u64> {
    shown_ifindex(answers, 4)
}

/// The stages from the mark on the new bridge to the attached and verified cable.
pub open spec fn attach_plan(
    bridge: Seq<char>,
    owner: Seq<char>,
    ends: (EndpointView, EndpointView),
    ifindex: Option<u64>,
) -> Seq<StageView> {
    seq![
        stage(set_alias(bridge, owner), Expect::Quiet),
        inspect(bridge, Expect::Bridge),
        stage(disable_ipv6(bridge), Expect::Written { or_absent: false }),
        verify_end(ends.0),
        stage(set_master(ends.0.name, bridge), Expect::Quiet),
        stage(set_state(ends.0.name, true), Expect::Quiet),
        verify_end(ends.1),
        stage(set_master(ends.1.name, bridge), Expect::Quiet),
        stage(set_state(ends.1.name, true), Expect::Quiet),
        stage(set_state(bridge, true), Expect::Quiet),
    ] + bridge_plan(bridge, ifindex, ends)
}

pub open spec fn connect_plan(
    bridge: Seq<char>,
    owner: Seq<char>,
    ends: (EndpointView, EndpointView),
    answers: Seq<AnswerView>,
) -> Seq<StageView> {
    create_plan(bridge, ends) + attach_plan(bridge, owner, ends, new_ifindex(answers))
}

/// Where the making of a cable stands.
pub enum ConnectView {
    /// This is to be done next.
    Ask(ActionView),
    /// The cable is connected.
    Done(CableView),
    /// Nothing was created.
    Refused(Fault),
    /// The setup failed after the bridge was created; `cleanup` is what went wrong with its
    /// deletion, if anything did.
    RolledBack { cause: Fault, cleanup: Option<Fault> },
}

/// Where the making of a cable stands: a refusal after the bridge was created is followed by its
/// deletion.
pub open spec fn connecting(
    bridge: Seq<char>,
    owner: Seq<char>,
    ends: (EndpointView, EndpointView),
    answers: Seq<AnswerView>,
) -> ConnectView {
    match connect_refusal(bridge, owner, ends) {
        Some(kind) => ConnectView::Refused(plain(kind)),
        None => match progress(connect_plan(bridge, owner, ends, answers), owner, answers, 0) {
            Progress::Ask(action) => ConnectView::Ask(action),
            Progress::Passed => ConnectView::Done(
                CableView { bridge, ifindex: new_ifindex(answers)->0, owner, ends },
            ),
            Progress::Refused { fault, used } => if used <= 3 {
                ConnectView::Refused(fault)
            } else if answers.len() <= used {
                ConnectView::Ask(delete_link(bridge))
            } else {
                ConnectView::RolledBack {
                    cause: fault,
                    cleanup: Expect::Quiet.refuses(owner, answers[used as int]),
                }
            },
        },
    }
}

/// Where the making of a cable stands.
#[derive(Debug)]
pub enum ConnectStep {
    /// This is to be done next.
    Ask(Action),
    /// The cable is connected.
    Done(HostCable),
    /// Nothing was created.
    Refused(CableError),
    /// The setup failed after the bridge was created; `cleanup` is what went wrong with its
    /// deletion, if anything did.
    RolledBack { cause: CableError, cleanup: Option<CableError> },
}

pub open spec fn fault_view(e: Option<CableError>) -> Option<Fault> {
    match e {
        Some(x) => Some(x@),
        None => None,
    }
}

impl View for ConnectStep {
    type V = ConnectView;

    open spec fn view(&self) -> ConnectView {
        match self {
            ConnectStep::Ask(action) => ConnectView::Ask(action@),
            ConnectStep::Done(cable) => ConnectView::Done(cable@),
            ConnectStep::Refused(e) => ConnectView::Refused(e@),
            ConnectStep::RolledBack { cause, cleanup } => ConnectView::RolledBack {
                cause: cause@,
                cleanup: fault_view(*cleanup),
            },
        }
    }
}

// The same in executable form.

fn ip_stage(parts: &[&str], expect: Expect) -> (r: Stage)
    ensures
        r@ == stage(ActionView::Ip(Seq::new(parts@.len(), |i: int| parts@[i]@)), expect),
{
    Stage { guard: None, action: Action::Ip(words(parts)), expect }
}

fn inspect_stage(name: &str, expect: Expect) -> (r: Stage)
    ensures
        r@ == inspect(name@, expect),
{
    let mut s = ip_stage(&["-j", "-d", "link", "show", "dev", name], expect);
    assert(s@.action->Ip_0 =~= show_link(name@)->Ip_0);
    if !valid_name(name) {
        s.guard = Some(FaultKind::InvalidName);
    }
    s
}

fn addresses_stage(name: &str, expect: Expect) -> (r: Stage)
    ensures
        r@ == stage(show_addresses(name@), expect),
{
    let s = ip_stage(&["-j", "address", "show", "dev", name], expect);
    assert(s@.action->Ip_0 =~= show_addresses(name@)->Ip_0);
    s
}

fn state_stage(name: &str, up: bool) -> (r: Stage)
    ensures
        r@ == stage(set_state(name@, up), Expect::Quiet),
{
    let word = if up {
        "up"
    } else {
        "down"
    };
    let s = ip_stage(&["link", "set", "dev", name, word], Expect::Quiet);
    assert(s@.action->Ip_0 =~= set_state(name@, up)->Ip_0);
    s
}

fn master_stage(name: &str, bridge: &str) -> (r: Stage)
    ensures
        r@ == stage(set_master(name@, bridge@), Expect::Quiet),
{
    let s = ip_stage(&["link", "set", "dev", name, "master", bridge], Expect::Quiet);
    assert(s@.action->Ip_0 =~= set_master(name@, bridge@)->Ip_0);
    s
}

fn delete_stage(name: &str) -> (r: Stage)
    ensures
        r@ == stage(delete_link(name@), Expect::Quiet),
{
    let s = ip_stage(&["link", "delete", "dev", name], Expect::Quiet);
    assert(s@.action->Ip_0 =~= delete_link(name@)->Ip_0);
    s
}

fn ipv6_stage(name: &str, or_absent: bool) -> (r: Stage)
    ensures
        r@ == stage(disable_ipv6(name@), Expect::Written { or_absent }),
{
    let mut path = "/proc/sys/net/ipv6/conf/".to_owned();
    path.append(name);
    path.append("/disable_ipv6");
    let text = "1\n".to_owned();
    Stage { guard: None, action: Action::Write { path, text }, expect: Expect::Written { or_absent } }
}

fn end_stage(end: &Endpoint) -> (r: Stage)
    ensures
        r@ == verify_end(end@),
{
    inspect_stage(end.name.as_str(), Expect::SameVeth { ifindex: Some(end.ifindex) })
}

/// Adds a stage to a plan.
fn add_stage(plan: &mut Vec<Stage>, s: Stage)
    ensures
        stages_of(final(plan)@) == stages_of(old(plan)@).push(s@),
{
    plan.push(s);
    assert(stages_of(plan@) =~= stages_of(old(plan)@).push(s@));
}

/// Adds the stages that verify a bridge and its members.
fn add_verification(plan: &mut Vec<Stage>, bridge: &str, ifindex: Option<u64>, ends: &[Endpoint; 2])
    ensures
        stages_of(final(plan)@) == stages_of(old(plan)@) + bridge_plan(
            bridge@,
            ifindex,
            (ends@[0]@, ends@[1]@),
        ),
{
    let ghost before = stages_of(plan@);
    add_stage(plan, inspect_stage(bridge, Expect::OwnBridge { ifindex }));
    let members = ip_stage(
        &["-j", "link", "show", "master", bridge],
        Expect::Members { first: ends[0].ifindex, second: ends[1].ifindex },
    );
    assert(members@.action->Ip_0 =~= show_members(bridge@)->Ip_0);
    add_stage(plan, members);
    add_stage(plan, end_stage(&ends[0]));
    add_stage(plan, end_stage(&ends[1]));
    assert(stages_of(plan@) =~= before + bridge_plan(
        bridge@,
        ifindex,
        (ends@[0]@, ends@[1]@),
    ));
}

impl Endpoint {
    fn copied(&self) -> (r: Self)
        ensures
            r@ == self@,
    {
        Endpoint { name: self.name.clone(), ifindex: self.ifindex }
    }

    /// Prepare a freshly created external veth for an unnumbered cable.
    /// The caller MUST own its lifecycle and hold the host mutation lock.
    /// Automatic IPv6 link-local addresses may exist after Incus starts a guest;
    /// only those may be removed. Any IPv4/global address or existing master is
    /// refused. The ifindex is captured and rechecked around the scoped sysctl mutation.
    pub fn prepare_owned(name: &str, answers: &Transcript) -> (r: Step<Endpoint>)
        ensures
            r@ == step_with(
                progress(prepare_plan(name@, answers@), seq![], answers@, 0),
                EndpointView { name: name@, ifindex: shown_ifindex(answers@, 0)->0 },
            ),
    {
        let first = ifindex_at(answers, 0);
        let same = Expect::SameVeth { ifindex: first };
        let mut plan: Vec<Stage> = Vec::new();
        add_stage(&mut plan, inspect_stage(name, Expect::OwnedVeth));
        add_stage(&mut plan, addresses_stage(name, Expect::LinkLocal));
        add_stage(&mut plan, inspect_stage(name, same));
        add_stage(&mut plan, ipv6_stage(name, no_addresses_at(answers, 1)));
        add_stage(&mut plan, inspect_stage(name, same));
        add_stage(&mut plan, inspect_stage(name, Expect::FreeVeth));
        let bare = Expect::Bare { ifindex: ifindex_at(answers, 5), earlier: first };
        add_stage(&mut plan, addresses_stage(name, bare));
        let ghost views = prepare_plan(name@, answers@);
        assert(stages_of(plan@) =~= views);
        proof {
            reveal_strlit("");
            assert(""@ =~= seq![]);
            lemma_progress(views, seq![], answers@, 0);
        }
        match advance(plan, "", answers) {
            Advance::Ask(action) => Step::Ask(action),
            Advance::Refused { error, used } => Step::Refused(error),
            Advance::Passed => {
                assert(views[0].expect.refuses(seq![], answers@[0]) is None);
                match first {
                    Some(ifindex) => Step::Done(Endpoint { name: name.to_owned(), ifindex }),
                    None => Step::Refused(CableError::new(FaultKind::MissingIfindex)),
                }
            },
        }
    }

    /// Observe an unnumbered, unattached veth. An existing master is refused.
    pub fn observe(name: &str, answers: &Transcript) -> (r: Step<Endpoint>)
        ensures
            r@ == step_with(
                progress(observe_plan(name@, answers@), seq![], answers@, 0),
                EndpointView { name: name@, ifindex: shown_ifindex(answers@, 0)->0 },
            ),
    {
        let first = ifindex_at(answers, 0);
        let mut plan: Vec<Stage> = Vec::new();
        add_stage(&mut plan, inspect_stage(name, Expect::FreeVeth));
        add_stage(&mut plan, addresses_stage(name, Expect::Bare { ifindex: first, earlier: None }));
        let ghost views = observe_plan(name@, answers@);
        assert(stages_of(plan@) =~= views);
        proof {
            reveal_strlit("");
            assert(""@ =~= seq![]);
            lemma_progress(views, seq![], answers@, 0);
        }
        match advance(plan, "", answers) {
            Advance::Ask(action) => Step::Ask(action),
            Advance::Refused { error, used } => Step::Refused(error),
            Advance::Passed => {
                assert(views[1].expect.refuses(seq![], answers@[1]) is None);
                match first {
                    Some(ifindex) => Step::Done(Endpoint { name: name.to_owned(), ifindex }),
                    None => Step::Refused(CableError::new(FaultKind::MissingIfindex)),
                }
            },
        }
    }
}

impl HostCable {
    /// Join two borrowed veths with one private, unnumbered Linux bridge.
    /// L2 control protocols and ASIC/RDMA timing are outside this API's fidelity.
    pub fn connect(
        bridge: &str,
        owner: &str,
        ends: &[Endpoint; 2],
        answers: &Transcript,
    ) -> (r: ConnectStep)
        ensures
            r@ == connecting(bridge@, owner@, (ends@[0]@, ends@[1]@), answers@),
    {
        if !bridge_name(bridge) {
            return ConnectStep::Refused(CableError::new(FaultKind::BridgeName));
        }
        if !owner_marker(owner) {
            return ConnectStep::Refused(CableError::new(FaultKind::OwnerMarker));
        }
        if same_text(ends[0].name.as_str(), ends[1].name.as_str()) || ends[0].ifindex
            == ends[1].ifindex {
            return ConnectStep::Refused(CableError::new(FaultKind::SameEnds));
        }
        let made = ifindex_at(answers, 4);
        let ghost pair = (ends@[0]@, ends@[1]@);
        let mut plan: Vec<Stage> = Vec::new();
        // Both ends are checked before anything is created.
        let loose = Expect::LooseVeth { ifindex: Some(ends[0].ifindex) };
        add_stage(&mut plan, inspect_stage(ends[0].name.as_str(), loose));
        let loose = Expect::LooseVeth { ifindex: Some(ends[1].ifindex) };
        add_stage(&mut plan, inspect_stage(ends[1].name.as_str(), loose));
        // Exclusive creation: never replace an existing device.
        let add = ip_stage(
            &[
                "link",
                "add",
                "name",
                bridge,
                "type",
                "bridge",
                "stp_state",
                "0",
                "mcast_snooping",
                "0",
            ],
            Expect::Quiet,
        );
        assert(add@.action->Ip_0 =~= add_bridge(bridge@)->Ip_0);
        add_stage(&mut plan, add);
        assert(stages_of(plan@) =~= create_plan(bridge@, pair));
        let alias = ip_stage(&["link", "set", "dev", bridge, "alias", owner], Expect::Quiet);
        assert(alias@.action->Ip_0 =~= set_alias(bridge@, owner@)->Ip_0);
        add_stage(&mut plan, alias);
        add_stage(&mut plan, inspect_stage(bridge, Expect::Bridge));
        // Do not allow automatic IPv6 addresses or a host route on a cable.
        add_stage(&mut plan, ipv6_stage(bridge, false));
        add_stage(&mut plan, end_stage(&ends[0]));
        add_stage(&mut plan, master_stage(ends[0].name.as_str(), bridge));
        add_stage(&mut plan, state_stage(ends[0].name.as_str(), true));
        add_stage(&mut plan, end_stage(&ends[1]));
        add_stage(&mut plan, master_stage(ends[1].name.as_str(), bridge));
        add_stage(&mut plan, state_stage(ends[1].name.as_str(), true));
        add_stage(&mut plan, state_stage(bridge, true));
        add_verification(&mut plan, bridge, made, ends);
        let ghost views = connect_plan(bridge@, owner@, pair, answers@);
        assert(stages_of(plan@) =~= views);
        proof {
            lemma_progress(views, owner@, answers@, 0);
        }
        match advance(plan, owner, answers) {
            Advance::Ask(action) => ConnectStep::Ask(action),
            Advance::Passed => {
                assert(views[4].expect == Expect::Bridge);
                assert(views[4].expect.refuses(owner@, answers@[4]) is None);
                match made {
                    Some(ifindex) => {
                        let cable = HostCable {
                            bridge: bridge.to_owned(),
                            ifindex,
                            owner: owner.to_owned(),
                            ends: [ends[0].copied(), ends[1].copied()],
                        };
                        ConnectStep::Done(cable)
                    },
                    None => ConnectStep::Refused(CableError::new(FaultKind::MissingBridgeIfindex)),
                }
            },
            Advance::Refused { error, used } => if used <= 3 {
                ConnectStep::Refused(error)
            } else if answers.len() <= used {
                // The caller owns the mutation lock. Deleting this newly created
                // bridge detaches borrowed veths without deleting them.
                ConnectStep::Ask(delete_stage(bridge).action)
            } else {
                let cleanup = Expect::Quiet.judge(owner, answers.at(used));
                ConnectStep::RolledBack { cause: error, cleanup }
            },
        }
    }

    /// The stages that verify the cable.
    fn verification(&self) -> (r: Vec<Stage>)
        ensures
            stages_of(r@) == verify_plan(self@),
    {
        let mut plan: Vec<Stage> = Vec::new();
        add_verification(&mut plan, self.bridge.as_str(), Some(self.ifindex), &self.ends);
        assert(stages_of(plan@) =~= verify_plan(self@));
        plan
    }

    fn follow(&self, plan: Vec<Stage>, answers: &Transcript) -> (r: Step<()>)
        ensures
            r@ == step_with(progress(stages_of(plan@), self.owner@, answers@, 0), ()),
    {
        match advance(plan, self.owner.as_str(), answers) {
            Advance::Ask(action) => Step::Ask(action),
            Advance::Refused { error, used } => Step::Refused(error),
            Advance::Passed => Step::Done(()),
        }
    }

    /// Revalidate owner, bridge generation and exact endpoint membership.
    pub fn verify(&self, answers: &Transcript) -> (r: Step<()>)
        ensures
            r@ == step_with(progress(verify_plan(self@), self.owner@, answers@, 0), ()),
    {
        self.follow(self.verification(), answers)
    }

    /// Impair A→B exactly once, on B's host-side egress (and vice versa).
    /// Delay is nanoseconds; the kernel may quantize it. This is not ASIC PFC.
    pub fn shape_towards(
        &self,
        destination: usize,
        delay_ns: u64,
        bandwidth_bps: u64,
        queue_packets: u32,
        answers: &Transcript,
    ) -> (r: Step<()>)
        ensures
            r@ == (if !is_impairment(destination, delay_ns, bandwidth_bps, queue_packets) {
                StepView::Refused(plain(FaultKind::InvalidImpairment))
            } else {
                step_with(
                    progress(
                        shape_plan(self@, destination, delay_ns, bandwidth_bps, queue_packets),
                        self.owner@,
                        answers@,
                        0,
                    ),
                    (),
                )
            }),
    {
        if !(destination < 2 && delay_ns <= 60_000_000_000 && bandwidth_bps > 0 && queue_packets
            > 0) {
            return Step::Refused(CableError::new(FaultKind::InvalidImpairment));
        }
        let end = &self.ends[destination];
        let mut delay = decimal_text(delay_ns / 1000);
        delay.append(".");
        push_padded(&mut delay, delay_ns % 1000, 10, 3);
        delay.append("us");
        let mut rate = decimal_text(bandwidth_bps);
        rate.append("bit");
        let limit = decimal_text(queue_packets as u64);
        let args = words(
            &[
                "qdisc",
                "replace",
                "dev",
                end.name.as_str(),
                "root",
                "netem",
                "delay",
                delay.as_str(),
                "rate",
                rate.as_str(),
                "limit",
                limit.as_str(),
            ],
        );
        let action = Action::Tc(args);
        assert(action@->Tc_0 =~= impair(end.name@, delay_ns, bandwidth_bps, queue_packets)->Tc_0);
        let mut plan = self.verification();
        add_stage(&mut plan, Stage { guard: None, action, expect: Expect::Ran });
        self.follow(plan, answers)
    }

    /// Cut or restore both directions by changing the owned bridge only.
    pub fn set_up(&self, up: bool, answers: &Transcript) -> (r: Step<()>)
        ensures
            r@ == step_with(progress(set_up_plan(self@, up), self.owner@, answers@, 0), ()),
    {
        let mut plan = self.verification();
        add_stage(&mut plan, state_stage(self.bridge.as_str(), up));
        self.follow(plan, answers)
    }

    /// Detach borrowed endpoints and remove only this owned bridge.
    /// Refuse cleanup if another actor has changed membership or ownership.
    pub fn remove(&self, answers: &Transcript) -> (r: Step<()>)
        ensures
            r@ == step_with(progress(remove_plan(self@), self.owner@, answers@, 0), ()),
    {
        let mut plan = self.verification();
        add_stage(&mut plan, delete_stage(self.bridge.as_str()));
        self.follow(plan, answers)
    }
}

} // verus!

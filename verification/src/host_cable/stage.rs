//! Operations as lists of stages: each asks something of the host and says which answers it takes.

use super::exchange::{plain, Action, ActionView, Answer, AnswerView, CableError, Fault, FaultKind, Transcript};
use crate::json::{trees, Json, JsonTree};
use vstd::prelude::*;

verus! {

/// Which answers a stage takes.
#[derive(Clone, Copy, Debug, PartialEq, Eq)]
pub enum Expect {
    /// `ip` succeeded.
    Quiet,
    /// `tc` succeeded.
    Ran,
    /// The file was written; with `or_absent`, there may also be no such file.
    Written { or_absent: bool },
    /// One veth without a master.
    FreeVeth,
    /// One veth without a master, of which the interface index is shown.
    OwnedVeth,
    /// The veth with this interface index.
    SameVeth { ifindex: Option<u64> },
    /// The veth with this interface index, without a master.
    LooseVeth { ifindex: Option<u64> },
    /// Addresses that are all IPv6 link-local.
    LinkLocal,
    /// No addresses, on an interface whose index was shown as `ifindex`; it must not have changed
    /// from `earlier`, if that is known.
    Bare { ifindex: Option<u64>, earlier: Option<u64> },
    /// One link, of which the interface index is shown.
    Bridge,
    /// The bridge with this interface index, marked as this cable's own.
    OwnBridge { ifindex: Option<u64> },
    /// Exactly the members with these interface indices.
    Members { first: u64, second: u64 },
}

/// The fault of an answer that is not of the kind asked for.
pub open spec fn fault_of(answer: AnswerView) -> Fault {
    match answer {
        AnswerView::Failed(f) => f,
        AnswerView::Absent(m) => Fault { kind: FaultKind::Host, detail: m },
        _ => plain(FaultKind::Unexpected),
    }
}

/// The one link that `ip -j link show dev` printed.
pub open spec fn shown_link(answer: AnswerView) -> Result<JsonTree, Fault> {
    match answer {
        AnswerView::Document(tree) => match tree.as_array() {
            Some(rows) => if rows.len() == 1 {
                Ok(rows[0])
            } else {
                Err(plain(FaultKind::AmbiguousLink))
            },
            None => Err(plain(FaultKind::NoLinkArray)),
        },
        _ => Err(fault_of(answer)),
    }
}

/// The interface index of a link.
pub open spec fn ifindex_of(link: JsonTree) -> Option<u64> {
    link.field("ifindex"@).as_u64()
}

/// The interface index in the answer at `k`, if there is one.
pub open spec fn shown_ifindex(answers: Seq<AnswerView>, k: int) -> Option<u64> {
    if 0 <= k < answers.len() {
        match shown_link(answers[k]) {
            Ok(link) => ifindex_of(link),
            Err(_) => None,
        }
    } else {
        None
    }
}

pub open spec fn is_kind(link: JsonTree, kind: Seq<char>) -> bool {
    link.field("linkinfo"@).field("info_kind"@).is_text(kind)
}

/// The link belongs to no bridge.
pub open spec fn is_free(link: JsonTree) -> bool {
    link.get("master"@) is None
}

/// The addresses that `ip -j address show dev` printed.
pub open spec fn addresses_in(tree: JsonTree) -> Option<Seq<JsonTree>> {
    tree.first().field("addr_info"@).as_array()
}

/// The answer at `k` shows an interface without addresses.
pub open spec fn shows_no_addresses(answers: Seq<AnswerView>, k: int) -> bool {
    0 <= k < answers.len() && match answers[k] {
        AnswerView::Document(tree) => match addresses_in(tree) {
            Some(list) => list.len() == 0,
            None => false,
        },
        _ => false,
    }
}

pub open spec fn is_link_local(address: JsonTree) -> bool {
    address.field("family"@).is_text("inet6"@) && address.field("scope"@).is_text("link"@)
}

pub open spec fn are_link_local(list: Seq<JsonTree>) -> bool {
    forall|i: int| 0 <= i < list.len() ==> is_link_local(#[trigger] list[i])
}

/// Some link of the list has this interface index.
pub open spec fn is_member(links: Seq<JsonTree>, ifindex: u64) -> bool {
    exists|i: int| 0 <= i < links.len() && ifindex_of(#[trigger] links[i]) == Some(ifindex)
}

/// The links with an interface index are exactly those two.
pub open spec fn are_members(links: Seq<JsonTree>, first: u64, second: u64) -> bool {
    forall|x: u64| #[trigger] is_member(links, x) == (x == first || x == second)
}

pub open spec fn refuse_unless(holds: bool, kind: FaultKind) -> Option<Fault> {
    if holds {
        None
    } else {
        Some(plain(kind))
    }
}

impl Expect {
    /// Why a shown link is not taken.
    pub open spec fn refuses_link(self, owner: Seq<char>, link: JsonTree) -> Option<Fault> {
        match self {
            Expect::FreeVeth => if !is_kind(link, "veth"@) {
                Some(plain(FaultKind::NotVeth))
            } else {
                refuse_unless(is_free(link), FaultKind::Attached)
            },
            Expect::OwnedVeth => if !is_kind(link, "veth"@) || !is_free(link) {
                Some(plain(FaultKind::NotUnattachedVeth))
            } else {
                refuse_unless(ifindex_of(link) is Some, FaultKind::MissingIfindex)
            },
            Expect::SameVeth { ifindex } => if ifindex is None || ifindex_of(link) != ifindex {
                Some(plain(FaultKind::GenerationChanged))
            } else {
                refuse_unless(is_kind(link, "veth"@), FaultKind::KindChanged)
            },
            Expect::LooseVeth { ifindex } => if ifindex is None || ifindex_of(link) != ifindex {
                Some(plain(FaultKind::GenerationChanged))
            } else if !is_kind(link, "veth"@) {
                Some(plain(FaultKind::KindChanged))
            } else {
                refuse_unless(is_free(link), FaultKind::Adopted)
            },
            Expect::Bridge => refuse_unless(
                ifindex_of(link) is Some,
                FaultKind::MissingBridgeIfindex,
            ),
            Expect::OwnBridge { ifindex } => refuse_unless(
                ifindex is Some && ifindex_of(link) == ifindex && link.field("ifalias"@).is_text(
                    owner,
                ) && is_kind(link, "bridge"@),
                FaultKind::BridgeMismatch,
            ),
            _ => Some(plain(FaultKind::Unexpected)),
        }
    }

    /// Why an answer is not taken; `owner` is the marker of the cable.
    pub open spec fn refuses(self, owner: Seq<char>, answer: AnswerView) -> Option<Fault> {
        match self {
            Expect::Quiet => if answer is Document {
                None
            } else {
                Some(fault_of(answer))
            },
            Expect::Ran => if answer is Ran {
                None
            } else {
                Some(fault_of(answer))
            },
            Expect::Written { or_absent } => if answer is Written || (or_absent
                && answer is Absent) {
                None
            } else {
                Some(fault_of(answer))
            },
            Expect::LinkLocal => match answer {
                AnswerView::Document(tree) => match addresses_in(tree) {
                    Some(list) => refuse_unless(
                        are_link_local(list),
                        FaultKind::Numbered,
                    ),
                    None => Some(plain(FaultKind::NoAddressArray)),
                },
                _ => Some(fault_of(answer)),
            },
            Expect::Bare { ifindex, earlier } => match answer {
                AnswerView::Document(tree) => if addresses_in(tree) != Some(
                    Seq::<JsonTree>::empty(),
                ) {
                    Some(plain(FaultKind::HasAddresses))
                } else if ifindex is None {
                    Some(plain(FaultKind::MissingIfindex))
                } else {
                    refuse_unless(
                        earlier is None || earlier == ifindex,
                        FaultKind::ChangedInPreparation,
                    )
                },
                _ => Some(fault_of(answer)),
            },
            Expect::Members { first, second } => match answer {
                AnswerView::Document(tree) => match tree.as_array() {
                    Some(links) => refuse_unless(
                        are_members(links, first, second),
                        FaultKind::ForeignMember,
                    ),
                    None => Some(plain(FaultKind::NoMemberArray)),
                },
                _ => Some(fault_of(answer)),
            },
            _ => match shown_link(answer) {
                Ok(link) => self.refuses_link(owner, link),
                Err(f) => Some(f),
            },
        }
    }
}

/// The fault of an answer that is not of the kind asked for.
fn fault_in(answer: &Answer) -> (r: CableError)
    ensures
        r@ == fault_of(answer@),
{
    match answer {
        Answer::Failed(e) => e.copied(),
        Answer::Absent(m) => CableError { kind: FaultKind::Host, detail: m.clone() },
        _ => CableError::new(FaultKind::Unexpected),
    }
}

/// The one link that `ip -j link show dev` printed.
pub fn link_in(answer: &Answer) -> (r: Result<&Json, CableError>)
    ensures
        match r {
            Ok(link) => shown_link(answer@) == Ok::<JsonTree, Fault>(link@),
            Err(e) => shown_link(answer@) == Err::<JsonTree, Fault>(e@),
        },
{
    match answer {
        Answer::Document(json) => match json.as_array() {
            Some(rows) => if rows.len() == 1 {
                Ok(&rows[0])
            } else {
                Err(CableError::new(FaultKind::AmbiguousLink))
            },
            None => Err(CableError::new(FaultKind::NoLinkArray)),
        },
        _ => Err(fault_in(answer)),
    }
}

/// The interface index in the answer at `k`, if there is one.
pub fn ifindex_at(answers: &Transcript, k: usize) -> (r: Option<u64>)
    ensures
        r == shown_ifindex(answers@, k as int),
{
    if k < answers.len() {
        match link_in(answers.at(k)) {
            Ok(link) => link.number_in("ifindex"),
            Err(_) => None,
        }
    } else {
        None
    }
}

fn has_kind(link: &Json, kind: &str) -> (r: bool)
    ensures
        r == is_kind(link@, kind@),
{
    match link.get("linkinfo") {
        Some(info) => info.text_in("info_kind", kind),
        None => false,
    }
}

fn addresses(tree: &Json) -> (r: Option<&Vec<Json>>)
    ensures
        match r {
            Some(list) => addresses_in(tree@) == Some(trees(list@)),
            None => addresses_in(tree@) is None,
        },
{
    match tree.as_array() {
        Some(rows) => if rows.len() > 0 {
            match rows[0].get("addr_info") {
                Some(list) => list.as_array(),
                None => None,
            }
        } else {
            None
        },
        None => None,
    }
}

/// Whether the answer at `k` shows an interface without addresses.
pub fn no_addresses_at(answers: &Transcript, k: usize) -> (r: bool)
    ensures
        r == shows_no_addresses(answers@, k as int),
{
    if k < answers.len() {
        match answers.at(k) {
            Answer::Document(json) => match addresses(json) {
                Some(list) => list.len() == 0,
                None => false,
            },
            _ => false,
        }
    } else {
        false
    }
}

fn all_link_local(list: &Vec<Json>) -> (r: bool)
    ensures
        r == are_link_local(trees(list@)),
{
    let mut i: usize = 0;
    while i < list.len()
        invariant
            i <= list@.len(),
            forall|k: int| 0 <= k < i ==> is_link_local(#[trigger] trees(list@)[k]),
        decreases list@.len() - i,
    {
        if !(list[i].text_in("family", "inet6") && list[i].text_in("scope", "link")) {
            assert(!is_link_local(trees(list@)[i as int]));
            return false;
        }
        i = i + 1;
    }
    true
}

/// Whether the links with an interface index are exactly those two.
fn members_are(list: &Vec<Json>, first: u64, second: u64) -> (r: bool)
    ensures
        r == are_members(trees(list@), first, second),
{
    let ghost links = trees(list@);
    let mut seen_first = false;
    let mut seen_second = false;
    let mut i: usize = 0;
    while i < list.len()
        invariant
            i <= list@.len(),
            links == trees(list@),
            seen_first ==> is_member(links, first),
            seen_second ==> is_member(links, second),
            forall|k: int|
                0 <= k < i ==> {
                    &&& ifindex_of(#[trigger] links[k]) is Some ==> ifindex_of(links[k]) == Some(first)
                        || ifindex_of(links[k]) == Some(second)
                    &&& ifindex_of(links[k]) == Some(first) ==> seen_first
                    &&& ifindex_of(links[k]) == Some(second) ==> seen_second
                },
        decreases list@.len() - i,
    {
        let index = list[i].number_in("ifindex");
        assert(index == ifindex_of(links[i as int]));
        if let Some(x) = index {
            if x != first && x != second {
                assert(is_member(links, x));
                return false;
            }
            if x == first {
                seen_first = true;
            }
            if x == second {
                seen_second = true;
            }
        }
        i = i + 1;
    }
    proof {
        if seen_first && seen_second {
            assert forall|x: u64| #[trigger]
                is_member(links, x) == (x == first || x == second) by {}
        } else {
            assert(!seen_first ==> !is_member(links, first));
            assert(!seen_second ==> !is_member(links, second));
        }
    }
    seen_first && seen_second
}

fn unless(holds: bool, kind: FaultKind) -> (r: Option<CableError>)
    ensures
        match r {
            Some(e) => refuse_unless(holds, kind) == Some(e@),
            None => refuse_unless(holds, kind) is None,
        },
{
    if holds {
        None
    } else {
        Some(CableError::new(kind))
    }
}

/// Two interface indices, both known and the same.
fn known_same(a: Option<u64>, b: Option<u64>) -> (r: bool)
    ensures
        r == (a is Some && b == a),
{
    match (a, b) {
        (Some(x), Some(y)) => x == y,
        _ => false,
    }
}

impl Expect {
    /// Why a shown link is not taken.
    fn judge_link(&self, owner: &str, link: &Json) -> (r: Option<CableError>)
        ensures
            match r {
                Some(e) => self.refuses_link(owner@, link@) == Some(e@),
                None => self.refuses_link(owner@, link@) is None,
            },
    {
        let ifindex = link.number_in("ifindex");
        let free = link.get("master").is_none();
        match *self {
            Expect::FreeVeth => if !has_kind(link, "veth") {
                Some(CableError::new(FaultKind::NotVeth))
            } else {
                unless(free, FaultKind::Attached)
            },
            Expect::OwnedVeth => if !has_kind(link, "veth") || !free {
                Some(CableError::new(FaultKind::NotUnattachedVeth))
            } else {
                unless(ifindex.is_some(), FaultKind::MissingIfindex)
            },
            Expect::SameVeth { ifindex: known } => if !known_same(known, ifindex) {
                Some(CableError::new(FaultKind::GenerationChanged))
            } else {
                unless(has_kind(link, "veth"), FaultKind::KindChanged)
            },
            Expect::LooseVeth { ifindex: known } => if !known_same(known, ifindex) {
                Some(CableError::new(FaultKind::GenerationChanged))
            } else if !has_kind(link, "veth") {
                Some(CableError::new(FaultKind::KindChanged))
            } else {
                unless(free, FaultKind::Adopted)
            },
            Expect::Bridge => unless(ifindex.is_some(), FaultKind::MissingBridgeIfindex),
            Expect::OwnBridge { ifindex: known } => unless(
                known_same(known, ifindex) && link.text_in("ifalias", owner) && has_kind(
                    link,
                    "bridge",
                ),
                FaultKind::BridgeMismatch,
            ),
            _ => Some(CableError::new(FaultKind::Unexpected)),
        }
    }

    /// Why an answer is not taken; `owner` is the marker of the cable.
    pub fn judge(&self, owner: &str, answer: &Answer) -> (r: Option<CableError>)
        ensures
            match r {
                Some(e) => self.refuses(owner@, answer@) == Some(e@),
                None => self.refuses(owner@, answer@) is None,
            },
    {
        match *self {
            Expect::Quiet => match answer {
                Answer::Document(_) => None,
                _ => Some(fault_in(answer)),
            },
            Expect::Ran => match answer {
                Answer::Ran => None,
                _ => Some(fault_in(answer)),
            },
            Expect::Written { or_absent } => match answer {
                Answer::Written => None,
                Answer::Absent(_) => if or_absent {
                    None
                } else {
                    Some(fault_in(answer))
                },
                _ => Some(fault_in(answer)),
            },
            Expect::LinkLocal => match answer {
                Answer::Document(json) => match addresses(json) {
                    Some(list) => unless(all_link_local(list), FaultKind::Numbered),
                    None => Some(CableError::new(FaultKind::NoAddressArray)),
                },
                _ => Some(fault_in(answer)),
            },
            Expect::Bare { ifindex, earlier } => match answer {
                Answer::Document(json) => {
                    let none = match addresses(json) {
                        Some(list) => list.len() == 0,
                        None => false,
                    };
                    proof {
                        if none {
                            assert(addresses_in(json@)->0 =~= Seq::<JsonTree>::empty());
                        }
                    }
                    if !none {
                        Some(CableError::new(FaultKind::HasAddresses))
                    } else if ifindex.is_none() {
                        Some(CableError::new(FaultKind::MissingIfindex))
                    } else {
                        unless(
                            earlier.is_none() || known_same(ifindex, earlier),
                            FaultKind::ChangedInPreparation,
                        )
                    }
                },
                _ => Some(fault_in(answer)),
            },
            Expect::Members { first, second } => match answer {
                Answer::Document(json) => match json.as_array() {
                    Some(links) => unless(
                        members_are(links, first, second),
                        FaultKind::ForeignMember,
                    ),
                    None => Some(CableError::new(FaultKind::NoMemberArray)),
                },
                _ => Some(fault_in(answer)),
            },
            _ => match link_in(answer) {
                Ok(link) => self.judge_link(owner, link),
                Err(e) => Some(e),
            },
        }
    }
}

/// One stage of an operation.
pub struct StageView {
    /// Why the stage is not even entered.
    pub guard: Option<FaultKind>,
    pub action: ActionView,
    pub expect: Expect,
}

/// One stage of an operation.
#[derive(Debug)]
pub struct Stage {
    /// Why the stage is not even entered.
    pub guard: Option<FaultKind>,
    pub action: Action,
    pub expect: Expect,
}

impl View for Stage {
    type V = StageView;

    open spec fn view(&self) -> StageView {
        StageView { guard: self.guard, action: self.action@, expect: self.expect }
    }
}

pub open spec fn stages_of(s: Seq<Stage>) -> Seq<StageView> {
    s.map_values(|x: Stage| x@)
}

/// How far an operation has come.
pub enum Progress {
    /// This is to be done next.
    Ask(ActionView),
    /// A stage was not entered, or did not take its answer; `used` answers were read.
    Refused { fault: Fault, used: nat },
    /// Every stage has taken its answer.
    Passed,
}

/// How far the stages from `k` on have come with the answers from `k` on: each in turn is entered
/// unless it is guarded, asks for its action, and has to take the answer before the next.
pub open spec fn progress(
    stages: Seq<StageView>,
    owner: Seq<char>,
    answers: Seq<AnswerView>,
    k: nat,
) -> Progress
    decreases stages.len() - k,
{
    if k >= stages.len() {
        Progress::Passed
    } else if stages[k as int].guard is Some {
        Progress::Refused { fault: plain(stages[k as int].guard->0), used: k }
    } else if k >= answers.len() {
        Progress::Ask(stages[k as int].action)
    } else {
        match stages[k as int].expect.refuses(owner, answers[k as int]) {
            Some(fault) => Progress::Refused { fault, used: k + 1 },
            None => progress(stages, owner, answers, k + 1),
        }
    }
}

/// The first `n` stages have been entered and have taken their answers.
pub open spec fn taken(
    stages: Seq<StageView>,
    owner: Seq<char>,
    answers: Seq<AnswerView>,
    n: nat,
) -> bool {
    &&& n <= stages.len()
    &&& n <= answers.len()
    &&& forall|i: int|
        0 <= i < n ==> (#[trigger] stages[i]).guard is None && stages[i].expect.refuses(
            owner,
            answers[i],
        ) is None
}

/// Where an operation stands is decided by the first stage that has not taken its answer.
pub proof fn lemma_progress(
    stages: Seq<StageView>,
    owner: Seq<char>,
    answers: Seq<AnswerView>,
    k: nat,
)
    requires
        taken(stages, owner, answers, k),
    ensures
        match progress(stages, owner, answers, k) {
            Progress::Passed => taken(stages, owner, answers, stages.len()),
            Progress::Ask(action) => {
                &&& taken(stages, owner, answers, answers.len())
                &&& answers.len() < stages.len()
                &&& action == stages[answers.len() as int].action
                &&& stages[answers.len() as int].guard is None
            },
            Progress::Refused { fault, used } => used <= answers.len() && used <= stages.len(),
        },
    decreases stages.len() - k,
{
    if k < stages.len() && stages[k as int].guard is None && k < answers.len()
        && stages[k as int].expect.refuses(owner, answers[k as int]) is None {
        assert(taken(stages, owner, answers, k + 1));
        lemma_progress(stages, owner, answers, k + 1);
    }
}

/// Stages that have taken their answers are passed over.
pub proof fn lemma_progress_skips(
    stages: Seq<StageView>,
    owner: Seq<char>,
    answers: Seq<AnswerView>,
    k: nat,
    n: nat,
)
    requires
        taken(stages, owner, answers, n),
        k <= n,
    ensures
        progress(stages, owner, answers, k) == progress(stages, owner, answers, n),
    decreases n - k,
{
    if k < n {
        assert(stages[k as int].guard is None);
        lemma_progress_skips(stages, owner, answers, k + 1, n);
    }
}

/// How far an operation has come.
pub enum Advance {
    Ask(Action),
    Refused { error: CableError, used: usize },
    Passed,
}

impl View for Advance {
    type V = Progress;

    open spec fn view(&self) -> Progress {
        match self {
            Advance::Ask(action) => Progress::Ask(action@),
            Advance::Refused { error, used } => Progress::Refused {
                fault: error@,
                used: *used as nat,
            },
            Advance::Passed => Progress::Passed,
        }
    }
}

/// Goes through the stages with the answers so far.
pub fn advance(stages: Vec<Stage>, owner: &str, answers: &Transcript) -> (r: Advance)
    ensures
        r@ == progress(stages_of(stages@), owner@, answers@, 0),
{
    let ghost views = stages_of(stages@);
    let mut left = stages;
    let mut k: usize = 0;
    while k < left.len()
        invariant
            k <= left@.len(),
            views == stages_of(left@),
            views == stages_of(stages@),
            progress(views, owner@, answers@, 0) == progress(views, owner@, answers@, k as nat),
        decreases left@.len() - k,
    {
        assert(views[k as int] == left@[k as int]@);
        if let Some(kind) = left[k].guard {
            return Advance::Refused { error: CableError::new(kind), used: k };
        }
        if k >= answers.len() {
            let stage = left.swap_remove(k);
            return Advance::Ask(stage.action);
        }
        if let Some(error) = left[k].expect.judge(owner, answers.at(k)) {
            return Advance::Refused { error, used: k + 1 };
        }
        k = k + 1;
    }
    Advance::Passed
}

} // verus!

//! Which answers of the host each cable operation takes, told by what `ip` prints.

use super::exchange::{plain, AnswerView, Fault, FaultKind};
use super::stage::{addresses_in, are_link_local, are_members, ifindex_of, is_free, is_kind};
use super::stage::{is_link_local, is_member, lemma_progress, lemma_progress_skips, progress};
use super::stage::{shown_ifindex, shown_link, shows_no_addresses, taken, Expect, Progress, StageView};
use super::{connect_plan, connect_refusal, connecting, is_valid_name, observe_plan, prepare_plan};
use super::{remove_plan, set_up_plan, shape_plan, step_with, verified_plan, verify_plan};
use super::{CableView, ConnectView, EndpointView, StepView};
use crate::json::{member, JsonTree};
use vstd::prelude::*;

verus! {

/// The first member named `key` of an object holds `value`.
pub open spec fn holds(tree: JsonTree, key: Seq<char>, value: JsonTree) -> bool {
    tree matches JsonTree::Object(members) && exists|i: int|
        0 <= i < members.len() && #[trigger] members[i] == (key, value) && forall|j: int|
            0 <= j < i ==> (#[trigger] members[j]).0 != key
}

/// There is no member named `key`.
pub open spec fn lacks(tree: JsonTree, key: Seq<char>) -> bool {
    match tree {
        JsonTree::Object(members) => forall|i: int|
            0 <= i < members.len() ==> (#[trigger] members[i]).0 != key,
        _ => true,
    }
}

proof fn lemma_member(members: Seq<(Seq<char>, JsonTree)>, key: Seq<char>)
    ensures
        match member(members, key) {
            Some(value) => exists|i: int|
                0 <= i < members.len() && #[trigger] members[i] == (key, value) && forall|j: int|
                    0 <= j < i ==> (#[trigger] members[j]).0 != key,
            None => forall|i: int| 0 <= i < members.len() ==> (#[trigger] members[i]).0 != key,
        },
    decreases members.len(),
{
    if members.len() > 0 {
        if members[0].0 == key {
            assert(members[0] == (key, members[0].1));
        } else {
            let rest = members.skip(1);
            lemma_member(rest, key);
            match member(rest, key) {
                Some(value) => {
                    let i = choose|i: int|
                        0 <= i < rest.len() && #[trigger] rest[i] == (key, value) && forall|j: int|
                            0 <= j < i ==> (#[trigger] rest[j]).0 != key;
                    assert(members[i + 1] == (key, value));
                    assert forall|j: int| 0 <= j < i + 1 implies (#[trigger] members[j]).0 != key by {
                        if j > 0 {
                            assert(rest[j - 1] == members[j]);
                        }
                    }
                },
                None => {
                    assert forall|j: int| 0 <= j < members.len() implies (#[trigger] members[j]).0
                        != key by {
                        if j > 0 {
                            assert(rest[j - 1] == members[j]);
                        }
                    }
                },
            }
        }
    }
}

/// Looking a member up finds the first of its name, and nothing exactly if there is none.
pub proof fn law_members_are_found(tree: JsonTree, key: Seq<char>, value: JsonTree)
    ensures
        tree.get(key) == Some(value) <==> holds(tree, key, value),
        tree.get(key) is None <==> lacks(tree, key),
{
    if let JsonTree::Object(members) = tree {
        lemma_member(members, key);
        if holds(tree, key, value) {
            let i = choose|i: int|
                0 <= i < members.len() && #[trigger] members[i] == (key, value) && forall|j: int|
                    0 <= j < i ==> (#[trigger] members[j]).0 != key;
            let other = member(members, key)->0;
            let k = choose|k: int|
                0 <= k < members.len() && #[trigger] members[k] == (key, other) && forall|j: int|
                    0 <= j < k ==> (#[trigger] members[j]).0 != key;
            assert(i == k);
        }
    }
}

/// Exactly one link is shown, and it is this one.
pub open spec fn shows(answer: AnswerView, link: JsonTree) -> bool {
    answer == AnswerView::Document(JsonTree::Array(seq![link]))
}

/// The link has this kernel identity.
pub open spec fn numbered(link: JsonTree, ifindex: u64) -> bool {
    holds(link, "ifindex"@, JsonTree::Number(Some(ifindex)))
}

/// The link is of this kind.
pub open spec fn of_kind(link: JsonTree, kind: Seq<char>) -> bool {
    exists|info: JsonTree|
        holds(link, "linkinfo"@, info) && #[trigger] holds(info, "info_kind"@, JsonTree::Text(kind))
}

/// The answer shows the veth with this kernel identity.
pub open spec fn shows_veth(answer: AnswerView, ifindex: u64) -> bool {
    exists|link: JsonTree|
        #[trigger] shows(answer, link) && numbered(link, ifindex) && of_kind(link, "veth"@)
}

/// The answer shows the veth with this kernel identity, and that it belongs to no bridge.
pub open spec fn shows_free_veth(answer: AnswerView, ifindex: u64) -> bool {
    exists|link: JsonTree|
        #[trigger] shows(answer, link) && numbered(link, ifindex) && of_kind(link, "veth"@) && lacks(
            link,
            "master"@,
        )
}

/// The answer shows the bridge with this kernel identity and this mark.
pub open spec fn shows_bridge(answer: AnswerView, ifindex: u64, owner: Seq<char>) -> bool {
    exists|link: JsonTree|
        #[trigger] shows(answer, link) && numbered(link, ifindex) && holds(
            link,
            "ifalias"@,
            JsonTree::Text(owner),
        ) && of_kind(link, "bridge"@)
}

/// The answer lists these two members, each at least once, and no other.
pub open spec fn shows_members(answer: AnswerView, a: u64, b: u64) -> bool {
    answer matches AnswerView::Document(JsonTree::Array(rows)) && {
        &&& exists|i: int| 0 <= i < rows.len() && numbered(#[trigger] rows[i], a)
        &&& exists|i: int| 0 <= i < rows.len() && numbered(#[trigger] rows[i], b)
        &&& forall|i: int, x: u64|
            0 <= i < rows.len() && #[trigger] numbered(rows[i], x) ==> x == a || x == b
    }
}

/// The answer lists these addresses for the first interface that it shows.
pub open spec fn shows_addresses(answer: AnswerView, list: Seq<JsonTree>) -> bool {
    answer matches AnswerView::Document(JsonTree::Array(rows)) && rows.len() > 0 && holds(
        rows[0],
        "addr_info"@,
        JsonTree::Array(list),
    )
}

/// An IPv6 address that is valid on its link only.
pub open spec fn automatic(address: JsonTree) -> bool {
    holds(address, "family"@, JsonTree::Text("inet6"@)) && holds(
        address,
        "scope"@,
        JsonTree::Text("link"@),
    )
}

proof fn lemma_number(link: JsonTree, x: u64)
    ensures
        ifindex_of(link) == Some(x) <==> numbered(link, x),
{
    law_members_are_found(link, "ifindex"@, JsonTree::Number(Some(x)));
    if let Some(v) = link.get("ifindex"@) {
        law_members_are_found(link, "ifindex"@, v);
    }
}

proof fn lemma_text(tree: JsonTree, key: Seq<char>, text: Seq<char>)
    ensures
        tree.field(key).is_text(text) <==> holds(tree, key, JsonTree::Text(text)),
{
    law_members_are_found(tree, key, JsonTree::Text(text));
}

proof fn lemma_kind(link: JsonTree, kind: Seq<char>)
    ensures
        is_kind(link, kind) <==> of_kind(link, kind),
{
    let info = link.field("linkinfo"@);
    law_members_are_found(link, "linkinfo"@, info);
    lemma_text(info, "info_kind"@, kind);
    if of_kind(link, kind) {
        let other = choose|other: JsonTree|
            holds(link, "linkinfo"@, other) && #[trigger] holds(
                other,
                "info_kind"@,
                JsonTree::Text(kind),
            );
        law_members_are_found(link, "linkinfo"@, other);
    }
}

proof fn lemma_free(link: JsonTree)
    ensures
        is_free(link) <==> lacks(link, "master"@),
{
    law_members_are_found(link, "master"@, JsonTree::Null);
}

proof fn lemma_shown(answer: AnswerView, link: JsonTree)
    ensures
        shown_link(answer) matches Ok(l) && l == link <==> shows(answer, link),
{
    if let AnswerView::Document(JsonTree::Array(rows)) = answer {
        if rows.len() == 1 {
            assert(rows =~= seq![rows[0]]);
        }
        if shows(answer, link) {
            assert(rows == seq![link]);
            assert(rows[0] == link);
        }
    }
}

proof fn lemma_addresses(answer: AnswerView, list: Seq<JsonTree>)
    ensures
        answer matches AnswerView::Document(tree) && addresses_in(tree) == Some(list)
            <==> shows_addresses(answer, list),
{
    if let AnswerView::Document(tree) = answer {
        let first = tree.first();
        law_members_are_found(first, "addr_info"@, JsonTree::Array(list));
        if let Some(v) = first.get("addr_info"@) {
            law_members_are_found(first, "addr_info"@, v);
        }
    }
}

proof fn lemma_all_automatic(list: Seq<JsonTree>)
    ensures
        are_link_local(list) <==> forall|i: int|
            0 <= i < list.len() ==> automatic(#[trigger] list[i]),
{
    assert forall|i: int| 0 <= i < list.len() implies is_link_local(#[trigger] list[i])
        == automatic(list[i]) by {
        lemma_text(list[i], "family"@, "inet6"@);
        lemma_text(list[i], "scope"@, "link"@);
    }
}

proof fn lemma_members(rows: Seq<JsonTree>, a: u64, b: u64)
    ensures
        are_members(rows, a, b) <==> shows_members(
            AnswerView::Document(JsonTree::Array(rows)),
            a,
            b,
        ),
{
    let answer = AnswerView::Document(JsonTree::Array(rows));
    if are_members(rows, a, b) {
        assert(is_member(rows, a) && is_member(rows, b));
        let i = choose|i: int| 0 <= i < rows.len() && ifindex_of(#[trigger] rows[i]) == Some(a);
        let j = choose|j: int| 0 <= j < rows.len() && ifindex_of(#[trigger] rows[j]) == Some(b);
        lemma_number(rows[i], a);
        lemma_number(rows[j], b);
        assert forall|k: int, x: u64|
            0 <= k < rows.len() && #[trigger] numbered(rows[k], x) implies x == a || x == b by {
            lemma_number(rows[k], x);
            assert(is_member(rows, x));
        }
    }
    if shows_members(answer, a, b) {
        let i = choose|i: int| 0 <= i < rows.len() && numbered(#[trigger] rows[i], a);
        let j = choose|j: int| 0 <= j < rows.len() && numbered(#[trigger] rows[j], b);
        lemma_number(rows[i], a);
        lemma_number(rows[j], b);
        assert forall|x: u64| #[trigger] is_member(rows, x) == (x == a || x == b) by {
            if is_member(rows, x) {
                let k = choose|k: int|
                    0 <= k < rows.len() && ifindex_of(#[trigger] rows[k]) == Some(x);
                lemma_number(rows[k], x);
            }
        }
    }
}

proof fn lemma_expects(owner: Seq<char>, answer: AnswerView, x: u64, y: u64)
    ensures
        (Expect::SameVeth { ifindex: Some(x) }).refuses(owner, answer) is None <==> shows_veth(
            answer,
            x,
        ),
        (Expect::LooseVeth { ifindex: Some(x) }).refuses(owner, answer) is None
            <==> shows_free_veth(answer, x),
        (Expect::OwnBridge { ifindex: Some(x) }).refuses(owner, answer) is None <==> shows_bridge(
            answer,
            x,
            owner,
        ),
        (Expect::Members { first: x, second: y }).refuses(owner, answer) is None <==> shows_members(
            answer,
            x,
            y,
        ),
{
    if let Ok(link) = shown_link(answer) {
        lemma_shown(answer, link);
        lemma_number(link, x);
        lemma_kind(link, "veth"@);
        lemma_kind(link, "bridge"@);
        lemma_free(link);
        lemma_text(link, "ifalias"@, owner);
    }
    assert forall|link: JsonTree| #[trigger] shows(answer, link) implies shown_link(answer) == Ok::<
        JsonTree,
        Fault,
    >(link) by {
        lemma_shown(answer, link);
    }
    if let AnswerView::Document(JsonTree::Array(rows)) = answer {
        lemma_members(rows, x, y);
    }
}

proof fn lemma_link_expects(owner: Seq<char>, answers: Seq<AnswerView>, k: int)
    requires
        0 <= k < answers.len(),
    ensures
        shown_ifindex(answers, k) matches Some(x) ==> {
            &&& Expect::FreeVeth.refuses(owner, answers[k]) is None <==> shows_free_veth(
                answers[k],
                x,
            )
            &&& Expect::OwnedVeth.refuses(owner, answers[k]) is None <==> shows_free_veth(
                answers[k],
                x,
            )
            &&& Expect::Bridge.refuses(owner, answers[k]) is None
        },
        shown_ifindex(answers, k) is None ==> {
            &&& Expect::OwnedVeth.refuses(owner, answers[k]) is Some
            &&& Expect::Bridge.refuses(owner, answers[k]) is Some
            &&& forall|x: u64| !#[trigger] shows_free_veth(answers[k], x)
        },
        forall|x: u64| #[trigger]
            shows_free_veth(answers[k], x) ==> shown_ifindex(answers, k) == Some(x),
{
    let answer = answers[k];
    if let Ok(link) = shown_link(answer) {
        lemma_kind(link, "veth"@);
        lemma_free(link);
        lemma_shown(answer, link);
    }
    assert forall|x: u64| #[trigger] shows_free_veth(answer, x) implies shown_ifindex(answers, k)
        == Some(x) by {
        let link = choose|link: JsonTree|
            #[trigger] shows(answer, link) && numbered(link, x) && of_kind(link, "veth"@) && lacks(
                link,
                "master"@,
            );
        lemma_shown(answer, link);
        lemma_number(link, x);
    }
    if let Some(x) = shown_ifindex(answers, k) {
        let link = shown_link(answer)->Ok_0;
        lemma_number(link, x);
        assert forall|l: JsonTree| #[trigger] shows(answer, l) implies l == link by {
            lemma_shown(answer, l);
        }
    }
}

/// A plan passes exactly if each of its stages is entered and takes its answer.
proof fn lemma_passes(stages: Seq<StageView>, owner: Seq<char>, answers: Seq<AnswerView>)
    ensures
        progress(stages, owner, answers, 0) == Progress::Passed <==> taken(
            stages,
            owner,
            answers,
            stages.len(),
        ),
{
    lemma_progress(stages, owner, answers, 0);
    if taken(stages, owner, answers, stages.len()) {
        lemma_progress_skips(stages, owner, answers, 0, stages.len());
    }
}

/// What a verified cable looks like in four answers.
pub open spec fn shows_cable(cable: CableView, answers: Seq<AnswerView>) -> bool {
    &&& is_valid_name(cable.bridge) && is_valid_name(cable.ends.0.name) && is_valid_name(
        cable.ends.1.name,
    )
    &&& answers.len() >= 4
    &&& shows_bridge(answers[0], cable.ifindex, cable.owner)
    &&& shows_members(answers[1], cable.ends.0.ifindex, cable.ends.1.ifindex)
    &&& shows_veth(answers[2], cable.ends.0.ifindex)
    &&& shows_veth(answers[3], cable.ends.1.ifindex)
}

/// A cable passes verification exactly if the host shows its bridge with the recorded identity and
/// mark, its two ends as the only members, and both ends as the recorded veths.
pub proof fn law_cables_that_pass(cable: CableView, answers: Seq<AnswerView>)
    ensures
        progress(verify_plan(cable), cable.owner, answers, 0) == Progress::Passed <==> shows_cable(
            cable,
            answers,
        ),
{
    let plan = verify_plan(cable);
    let owner = cable.owner;
    lemma_passes(plan, owner, answers);
    assert(plan.len() == 4);
    if answers.len() >= 4 {
        let (a, b) = (cable.ends.0.ifindex, cable.ends.1.ifindex);
        lemma_expects(owner, answers[0], cable.ifindex, b);
        lemma_expects(owner, answers[1], a, b);
        lemma_expects(owner, answers[2], a, b);
        lemma_expects(owner, answers[3], b, a);
        if taken(plan, owner, answers, 4) {
            assert(plan[0].guard is None && plan[1].guard is None);
            assert(plan[2].guard is None && plan[3].guard is None);
        }
    }
}

/// An endpoint is observed exactly if the host shows a free veth of a valid name and no addresses
/// on it; what is recorded is that name and the identity shown.
pub proof fn law_endpoints_that_are_observed(name: Seq<char>, answers: Seq<AnswerView>, x: u64)
    ensures
        step_with(
            progress(observe_plan(name, answers), seq![], answers, 0),
            EndpointView { name, ifindex: shown_ifindex(answers, 0)->0 },
        ) == StepView::Done(EndpointView { name, ifindex: x }) <==> {
            &&& is_valid_name(name)
            &&& answers.len() >= 2
            &&& shows_free_veth(answers[0], x)
            &&& shows_addresses(answers[1], seq![])
        },
{
    let plan = observe_plan(name, answers);
    lemma_passes(plan, seq![], answers);
    assert(plan.len() == 2);
    if answers.len() >= 2 {
        lemma_link_expects(seq![], answers, 0);
        lemma_addresses(answers[1], seq![]);
        lemma_addresses(answers[1], Seq::<JsonTree>::empty());
        assert(seq![] =~= Seq::<JsonTree>::empty());
        if taken(plan, seq![], answers, 2) {
            assert(plan[0].guard is None && plan[1].guard is None);
            assert(plan[0].expect.refuses(seq![], answers[0]) is None);
            assert(plan[1].expect.refuses(seq![], answers[1]) is None);
        }
    }
}

/// An endpoint is prepared exactly if the host shows the same free veth throughout, first with
/// automatic addresses only and at last with none, and IPv6 could be switched off on it; where
/// there were no addresses, there may also be no such switch.
pub proof fn law_endpoints_that_are_prepared(
    name: Seq<char>,
    answers: Seq<AnswerView>,
    x: u64,
    list: Seq<JsonTree>,
)
    requires
        answers.len() >= 7,
        shows_addresses(answers[1], list),
    ensures
        step_with(
            progress(prepare_plan(name, answers), seq![], answers, 0),
            EndpointView { name, ifindex: shown_ifindex(answers, 0)->0 },
        ) == StepView::Done(EndpointView { name, ifindex: x }) <==> {
            &&& is_valid_name(name)
            &&& shows_free_veth(answers[0], x)
            &&& forall|i: int| 0 <= i < list.len() ==> automatic(#[trigger] list[i])
            &&& shows_veth(answers[2], x)
            &&& answers[3] is Written || (answers[3] is Absent && list.len() == 0)
            &&& shows_veth(answers[4], x)
            &&& shows_free_veth(answers[5], x)
            &&& shows_addresses(answers[6], seq![])
        },
{
    let plan = prepare_plan(name, answers);
    lemma_passes(plan, seq![], answers);
    assert(plan.len() == 7);
    lemma_link_expects(seq![], answers, 0);
    lemma_link_expects(seq![], answers, 5);
    lemma_addresses(answers[1], list);
    lemma_all_automatic(list);
    lemma_addresses(answers[6], Seq::<JsonTree>::empty());
    assert(seq![] =~= Seq::<JsonTree>::empty());
    lemma_expects(seq![], answers[2], x, x);
    lemma_expects(seq![], answers[4], x, x);
    assert(shows_no_addresses(answers, 1) <==> list.len() == 0);
    if taken(plan, seq![], answers, 7) {
        assert(plan[0].guard is None);
        assert(plan[0].expect.refuses(seq![], answers[0]) is None);
        assert(plan[1].expect.refuses(seq![], answers[1]) is None);
        assert(plan[2].expect.refuses(seq![], answers[2]) is None);
        assert(plan[3].expect.refuses(seq![], answers[3]) is None);
        assert(plan[4].expect.refuses(seq![], answers[4]) is None);
        assert(plan[5].expect.refuses(seq![], answers[5]) is None);
        assert(plan[6].expect.refuses(seq![], answers[6]) is None);
    }
}

/// An endpoint whose addresses are not listed is not prepared.
pub proof fn law_unlisted_addresses_are_refused(name: Seq<char>, answers: Seq<AnswerView>)
    requires
        progress(prepare_plan(name, answers), seq![], answers, 0) == Progress::Passed,
    ensures
        answers.len() >= 7,
        exists|list: Seq<JsonTree>| shows_addresses(answers[1], list),
{
    let plan = prepare_plan(name, answers);
    lemma_passes(plan, seq![], answers);
    assert(plan.len() == 7);
    assert(plan[1].expect.refuses(seq![], answers[1]) is None);
    let list = addresses_in(answers[1]->Document_0)->0;
    lemma_addresses(answers[1], list);
}

/// A command of a cable that was answered well.
pub open spec fn succeeded(answer: AnswerView) -> bool {
    answer is Document
}

/// The answer shows one link with this kernel identity, whatever else it is.
pub open spec fn shows_number(answer: AnswerView, ifindex: u64) -> bool {
    exists|link: JsonTree| #[trigger] shows(answer, link) && numbered(link, ifindex)
}

/// A cable is made exactly if both ends were seen free, every command succeeded, the bridge's
/// identity was seen, IPv6 was switched off on it, each end was still the same when it was
/// attached, and the cable as recorded passes verification.
pub proof fn law_cables_that_are_made(
    bridge: Seq<char>,
    owner: Seq<char>,
    ends: (EndpointView, EndpointView),
    answers: Seq<AnswerView>,
    x: u64,
)
    requires
        answers.len() >= 17,
    ensures
        connecting(bridge, owner, ends, answers) == ConnectView::Done(
            CableView { bridge, ifindex: x, owner, ends },
        ) <==> {
            &&& connect_refusal(bridge, owner, ends) is None
            &&& shows_free_veth(answers[0], ends.0.ifindex)
            &&& shows_free_veth(answers[1], ends.1.ifindex)
            &&& succeeded(answers[2]) && succeeded(answers[3])
            &&& shows_number(answers[4], x)
            &&& answers[5] is Written
            &&& shows_veth(answers[6], ends.0.ifindex)
            &&& succeeded(answers[7]) && succeeded(answers[8])
            &&& shows_veth(answers[9], ends.1.ifindex)
            &&& succeeded(answers[10]) && succeeded(answers[11]) && succeeded(answers[12])
            &&& shows_cable(CableView { bridge, ifindex: x, owner, ends }, answers.skip(13))
        },
{
    let plan = connect_plan(bridge, owner, ends, answers);
    let (a, b) = (ends.0.ifindex, ends.1.ifindex);
    lemma_passes(plan, owner, answers);
    assert(plan.len() == 17);
    lemma_expects(owner, answers[0], a, b);
    lemma_expects(owner, answers[1], b, a);
    lemma_expects(owner, answers[6], a, b);
    lemma_expects(owner, answers[9], b, a);
    lemma_link_expects(owner, answers, 4);
    lemma_shows_number(answers, 4);
    let tail = answers.skip(13);
    assert(tail[0] == answers[13] && tail[1] == answers[14]);
    assert(tail[2] == answers[15] && tail[3] == answers[16]);
    lemma_expects(owner, answers[13], x, b);
    lemma_expects(owner, answers[14], a, b);
    lemma_expects(owner, answers[15], a, b);
    lemma_expects(owner, answers[16], b, a);
    if taken(plan, owner, answers, 17) {
        assert forall|i: int| 0 <= i < 17 implies (#[trigger] plan[i]).guard is None
            && plan[i].expect.refuses(owner, answers[i]) is None by {}
        assert(plan[0].guard is None && plan[1].guard is None && plan[2].guard is None);
        assert(plan[3].guard is None && plan[4].guard is None && plan[5].guard is None);
        assert(plan[6].guard is None && plan[7].guard is None && plan[8].guard is None);
        assert(plan[9].guard is None && plan[10].guard is None && plan[11].guard is None);
        assert(plan[12].guard is None && plan[13].guard is None && plan[14].guard is None);
        assert(plan[15].guard is None && plan[16].guard is None);
    }
}

proof fn lemma_shows_number(answers: Seq<AnswerView>, k: int)
    requires
        0 <= k < answers.len(),
    ensures
        forall|x: u64| #[trigger]
            shows_number(answers[k], x) <==> shown_ifindex(answers, k) == Some(x),
{
    assert forall|x: u64| #[trigger] shows_number(answers[k], x) <==> shown_ifindex(answers, k)
        == Some(x) by {
        if shows_number(answers[k], x) {
            let link = choose|link: JsonTree|
                #[trigger] shows(answers[k], link) && numbered(link, x);
            lemma_shown(answers[k], link);
            lemma_number(link, x);
        }
        if shown_ifindex(answers, k) == Some(x) {
            let link = shown_link(answers[k])->Ok_0;
            lemma_shown(answers[k], link);
            lemma_number(link, x);
        }
    }
}

/// Cutting, restoring or removing a verified cable succeeds exactly if the one command after the
/// verification does; shaping it, if `tc` does.
pub proof fn law_changes_that_succeed(
    cable: CableView,
    up: bool,
    destination: usize,
    delay_ns: u64,
    bandwidth_bps: u64,
    queue_packets: u32,
    answers: Seq<AnswerView>,
)
    requires
        answers.len() >= 5,
    ensures
        progress(set_up_plan(cable, up), cable.owner, answers, 0) == Progress::Passed
            <==> shows_cable(cable, answers) && succeeded(answers[4]),
        progress(remove_plan(cable), cable.owner, answers, 0) == Progress::Passed <==> shows_cable(
            cable,
            answers,
        ) && succeeded(answers[4]),
        progress(
            shape_plan(cable, destination, delay_ns, bandwidth_bps, queue_packets),
            cable.owner,
            answers,
            0,
        ) == Progress::Passed <==> shows_cable(cable, answers) && answers[4] is Ran,
{
    law_cables_that_pass(cable, answers);
    lemma_last(cable, set_up_plan(cable, up).last(), answers);
    lemma_last(cable, remove_plan(cable).last(), answers);
    lemma_last(
        cable,
        shape_plan(cable, destination, delay_ns, bandwidth_bps, queue_packets).last(),
        answers,
    );
}

proof fn lemma_last(cable: CableView, last: StageView, answers: Seq<AnswerView>)
    requires
        answers.len() >= 5,
    ensures
        progress(verified_plan(cable, last), cable.owner, answers, 0) == Progress::Passed <==> {
            &&& progress(verify_plan(cable), cable.owner, answers, 0) == Progress::Passed
            &&& last.guard is None
            &&& last.expect.refuses(cable.owner, answers[4]) is None
        },
{
    let checks = verify_plan(cable);
    let plan = verified_plan(cable, last);
    let owner = cable.owner;
    lemma_passes(checks, owner, answers);
    lemma_passes(plan, owner, answers);
    assert(plan[4] == last);
    if taken(plan, owner, answers, 5) {
        assert forall|i: int| 0 <= i < 4 implies (#[trigger] checks[i]).guard is None
            && checks[i].expect.refuses(owner, answers[i]) is None by {
            assert(plan[i] == checks[i]);
        }
    }
    if taken(checks, owner, answers, 4) && last.guard is None && last.expect.refuses(
        owner,
        answers[4],
    ) is None {
        assert forall|i: int| 0 <= i < 5 implies (#[trigger] plan[i]).guard is None
            && plan[i].expect.refuses(owner, answers[i]) is None by {
            if i < 4 {
                assert(plan[i] == checks[i]);
            }
        }
    }
}

/// What the host could not do is reported as it was reported, whatever was expected; and an answer of
/// another form passes for none.
pub proof fn law_failures_are_reported(expect: Expect, owner: Seq<char>, answer: AnswerView)
    ensures
        answer matches AnswerView::Failed(f) ==> expect.refuses(owner, answer) == Some(f),
        answer matches AnswerView::Absent(m) ==> expect.refuses(owner, answer) == (if expect == (
        Expect::Written { or_absent: true }) {
            None
        } else {
            Some(Fault { kind: FaultKind::Host, detail: m })
        }),
        answer is Ran ==> (expect.refuses(owner, answer) is None <==> expect is Ran),
        answer is Written ==> (expect.refuses(owner, answer) is None <==> expect is Written),
        answer is Document && (expect is Ran || expect is Written) ==> expect.refuses(owner, answer)
            is Some,
{
}

/// Why a shown link is refused: because there is not exactly one, or by what is wrong with it, its
/// identity first.
pub proof fn law_why_links_are_refused(owner: Seq<char>, tree: JsonTree, link: JsonTree, x: u64)
    ensures
        ({
            let answer = AnswerView::Document(tree);
            let same = Expect::SameVeth { ifindex: Some(x) };
            let loose = Expect::LooseVeth { ifindex: Some(x) };
            let own = Expect::OwnBridge { ifindex: Some(x) };
            let veth = of_kind(link, "veth"@);
            let free = lacks(link, "master"@);
            &&& !(tree is Array) ==> {
                &&& same.refuses(owner, answer) == Some(plain(FaultKind::NoLinkArray))
                &&& loose.refuses(owner, answer) == Some(plain(FaultKind::NoLinkArray))
                &&& own.refuses(owner, answer) == Some(plain(FaultKind::NoLinkArray))
                &&& Expect::FreeVeth.refuses(owner, answer) == Some(plain(FaultKind::NoLinkArray))
                &&& Expect::OwnedVeth.refuses(owner, answer) == Some(plain(FaultKind::NoLinkArray))
                &&& Expect::Bridge.refuses(owner, answer) == Some(plain(FaultKind::NoLinkArray))
            }
            &&& tree is Array && tree->Array_0.len() != 1 ==> {
                &&& same.refuses(owner, answer) == Some(plain(FaultKind::AmbiguousLink))
                &&& loose.refuses(owner, answer) == Some(plain(FaultKind::AmbiguousLink))
                &&& own.refuses(owner, answer) == Some(plain(FaultKind::AmbiguousLink))
                &&& Expect::FreeVeth.refuses(owner, answer) == Some(plain(FaultKind::AmbiguousLink))
                &&& Expect::OwnedVeth.refuses(owner, answer) == Some(
                    plain(FaultKind::AmbiguousLink),
                )
                &&& Expect::Bridge.refuses(owner, answer) == Some(plain(FaultKind::AmbiguousLink))
            }
            &&& shows(answer, link) && !numbered(link, x) ==> {
                &&& same.refuses(owner, answer) == Some(plain(FaultKind::GenerationChanged))
                &&& loose.refuses(owner, answer) == Some(plain(FaultKind::GenerationChanged))
                &&& own.refuses(owner, answer) == Some(plain(FaultKind::BridgeMismatch))
            }
            &&& shows(answer, link) && numbered(link, x) && !veth ==> {
                &&& same.refuses(owner, answer) == Some(plain(FaultKind::KindChanged))
                &&& loose.refuses(owner, answer) == Some(plain(FaultKind::KindChanged))
            }
            &&& shows(answer, link) && numbered(link, x) && veth && !free ==> loose.refuses(
                owner,
                answer,
            ) == Some(plain(FaultKind::Adopted))
            &&& shows(answer, link) && own.refuses(owner, answer) is Some ==> own.refuses(
                owner,
                answer,
            ) == Some(plain(FaultKind::BridgeMismatch))
            &&& shows(answer, link) && !veth ==> Expect::FreeVeth.refuses(owner, answer) == Some(
                plain(FaultKind::NotVeth),
            )
            &&& shows(answer, link) && veth && !free ==> Expect::FreeVeth.refuses(owner, answer)
                == Some(plain(FaultKind::Attached))
            &&& shows(answer, link) && (!veth || !free) ==> Expect::OwnedVeth.refuses(owner, answer)
                == Some(plain(FaultKind::NotUnattachedVeth))
            &&& shows(answer, link) && veth && free && (forall|y: u64| !numbered(link, y)) ==> {
                &&& Expect::OwnedVeth.refuses(owner, answer) == Some(
                    plain(FaultKind::MissingIfindex),
                )
                &&& Expect::FreeVeth.refuses(owner, answer) is None
            }
            &&& shows(answer, link) && (forall|y: u64| !numbered(link, y))
                ==> Expect::Bridge.refuses(owner, answer) == Some(
                plain(FaultKind::MissingBridgeIfindex),
            )
        }),
{
    let answer = AnswerView::Document(tree);
    lemma_shown(answer, link);
    lemma_number(link, x);
    lemma_kind(link, "veth"@);
    lemma_free(link);
    if let Some(y) = ifindex_of(link) {
        lemma_number(link, y);
    }
}

/// Why addresses and members are refused.
pub proof fn law_why_lists_are_refused(
    owner: Seq<char>,
    tree: JsonTree,
    list: Seq<JsonTree>,
    x: u64,
    y: u64,
)
    ensures
        ({
            let answer = AnswerView::Document(tree);
            let bare = Expect::Bare { ifindex: Some(x), earlier: Some(y) };
            let unknown = Expect::Bare { ifindex: None, earlier: None };
            let members = Expect::Members { first: x, second: y };
            &&& (forall|l: Seq<JsonTree>| !shows_addresses(answer, l)) ==> {
                &&& Expect::LinkLocal.refuses(owner, answer) == Some(
                    plain(FaultKind::NoAddressArray),
                )
                &&& bare.refuses(owner, answer) == Some(plain(FaultKind::HasAddresses))
            }
            &&& shows_addresses(answer, list) && !(forall|i: int|
                0 <= i < list.len() ==> automatic(#[trigger] list[i])) ==> Expect::LinkLocal.refuses(
                owner,
                answer,
            ) == Some(plain(FaultKind::Numbered))
            &&& shows_addresses(answer, list) && list.len() > 0 ==> bare.refuses(owner, answer)
                == Some(plain(FaultKind::HasAddresses))
            &&& shows_addresses(answer, list) && list.len() == 0 ==> {
                &&& unknown.refuses(owner, answer) == Some(plain(FaultKind::MissingIfindex))
                &&& x != y ==> bare.refuses(owner, answer) == Some(
                    plain(FaultKind::ChangedInPreparation),
                )
            }
            &&& !(tree is Array) ==> members.refuses(owner, answer) == Some(
                plain(FaultKind::NoMemberArray),
            )
            &&& tree is Array && !shows_members(answer, x, y) ==> members.refuses(owner, answer)
                == Some(plain(FaultKind::ForeignMember))
        }),
{
    let answer = AnswerView::Document(tree);
    lemma_addresses(answer, list);
    lemma_all_automatic(list);
    if let Some(l) = addresses_in(tree) {
        lemma_addresses(answer, l);
    }
    if list.len() == 0 {
        assert(list =~= Seq::<JsonTree>::empty());
    }
    if let JsonTree::Array(rows) = tree {
        lemma_members(rows, x, y);
    }
}

/// The first stage that is not entered or does not take its answer ends an operation, with its own
/// reason; all before it took theirs, and nothing after it is asked for.
pub proof fn law_the_first_refusal_counts(
    stages: Seq<StageView>,
    owner: Seq<char>,
    answers: Seq<AnswerView>,
    k: nat,
)
    requires
        k < stages.len(),
        taken(stages, owner, answers, k),
    ensures
        stages[k as int].guard matches Some(kind) ==> progress(stages, owner, answers, 0) == (
        Progress::Refused { fault: plain(kind), used: k }),
        stages[k as int].guard is None && k == answers.len() ==> progress(stages, owner, answers, 0)
            == Progress::Ask(stages[k as int].action),
        stages[k as int].guard is None && k < answers.len() ==> (stages[k as int].expect.refuses(
            owner,
            answers[k as int],
        ) matches Some(f) ==> progress(stages, owner, answers, 0) == (Progress::Refused {
            fault: f,
            used: k + 1,
        })),
{
    lemma_progress_skips(stages, owner, answers, 0, k);
}

/// A cable that is rolled back reports why its setup failed, and what went wrong with the deletion
/// of its bridge exactly if that did not succeed.
pub proof fn law_rollbacks_are_reported(
    bridge: Seq<char>,
    owner: Seq<char>,
    ends: (EndpointView, EndpointView),
    answers: Seq<AnswerView>,
    cause: Fault,
    cleanup: Option<Fault>,
)
    requires
        connecting(bridge, owner, ends, answers) == (ConnectView::RolledBack { cause, cleanup }),
    ensures
        progress(connect_plan(bridge, owner, ends, answers), owner, answers, 0) matches
            Progress::Refused { fault, used } && {
            &&& fault == cause
            &&& 3 < used < answers.len()
            &&& cleanup is None <==> succeeded(answers[used as int])
            &&& answers[used as int] matches AnswerView::Failed(f) ==> cleanup == Some(f)
        },
{
}

/// An operation asks for what its stages ask for, is refused for their reason, and succeeds exactly
/// when all have passed.
pub proof fn law_operations_follow_their_stages<T>(p: Progress, value: T, other: T)
    ensures
        match p {
            Progress::Ask(action) => step_with(p, value) == StepView::<T>::Ask(action),
            Progress::Refused { fault, .. } => step_with(p, value) == StepView::<T>::Refused(fault),
            Progress::Passed => step_with(p, value) == StepView::Done(value),
        },
        step_with(p, value) == StepView::Done(other) <==> p == Progress::Passed && other == value,
{
}

/// A cable that is not begun asks for nothing, and neither does one that is refused before its bridge
/// was created.
pub proof fn law_cables_that_are_refused(
    bridge: Seq<char>,
    owner: Seq<char>,
    ends: (EndpointView, EndpointView),
    answers: Seq<AnswerView>,
    f: Fault,
)
    ensures
        connect_refusal(bridge, owner, ends) matches Some(kind) ==> connecting(
            bridge,
            owner,
            ends,
            answers,
        ) == ConnectView::Refused(plain(kind)),
        connect_refusal(bridge, owner, ends) is None ==> (connecting(bridge, owner, ends, answers)
            == ConnectView::Refused(f) <==> (progress(
            connect_plan(bridge, owner, ends, answers),
            owner,
            answers,
            0,
        ) matches Progress::Refused { fault, used } && fault == f && used <= 3)),
{
}

} // verus!

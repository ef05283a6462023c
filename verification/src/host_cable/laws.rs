//! What holds of every cable operation, whatever the host answers.

use super::exchange::{ActionView, AnswerView, Fault};
use super::stage::{addresses_in, are_link_local, are_members, ifindex_of, is_free, is_kind};
use super::stage::{lemma_progress, lemma_progress_skips, progress, shown_ifindex, shown_link, taken};
use super::stage::{Expect, Progress, StageView};
use super::{add_bridge, connect_plan, connect_refusal, connecting, create_plan, delete_link};
use super::{disable_ipv6, end_at, impair, observe_plan, prepare_plan, remove_plan, set_alias};
use super::{set_master, set_state, set_up_plan, shape_plan, show_addresses, show_link, show_members};
use super::{stage, verified_plan, verify_plan, CableView, ConnectView, EndpointView};
use crate::json::JsonTree;
use vstd::prelude::*;

verus! {

/// The action only looks: it makes `ip` print something.
pub open spec fn is_query(action: ActionView) -> bool {
    match action {
        ActionView::Ip(args) => args.len() > 0 && args[0] == "-j"@,
        _ => false,
    }
}

/// The action deletes something.
pub open spec fn is_deletion(action: ActionView) -> bool {
    match action {
        ActionView::Ip(args) => args.len() > 1 && args[1] == "delete"@,
        _ => false,
    }
}

proof fn lemma_actions(name: Seq<char>, other: Seq<char>)
    ensures
        is_query(show_link(name)),
        is_query(show_addresses(name)),
        is_query(show_members(name)),
        !is_query(add_bridge(name)),
        !is_query(set_alias(name, other)),
        !is_query(set_master(name, other)),
        !is_query(set_state(name, true)),
        !is_query(set_state(name, false)),
        !is_query(delete_link(name)),
        !is_query(disable_ipv6(name)),
        !is_deletion(show_link(name)),
        !is_deletion(show_addresses(name)),
        !is_deletion(show_members(name)),
        !is_deletion(add_bridge(name)),
        !is_deletion(set_alias(name, other)),
        !is_deletion(set_master(name, other)),
        !is_deletion(set_state(name, true)),
        !is_deletion(set_state(name, false)),
        !is_deletion(disable_ipv6(name)),
        is_deletion(delete_link(name)),
{
    reveal_strlit("-j");
    reveal_strlit("-d");
    reveal_strlit("link");
    reveal_strlit("address");
    reveal_strlit("delete");
    reveal_strlit("add");
    reveal_strlit("set");
    assert("link"@[0] != "-j"@[0]);
    assert("delete"@[0] == 'd');
    assert("-d"@[0] == '-');
    assert("add"@[0] == 'a');
    assert("set"@[0] == 's');
    assert("link"@[0] == 'l');
    assert("address"@[0] == 'a');
}

/// Revalidating a cable only looks.
pub proof fn law_verification_only_looks(cable: CableView)
    ensures
        forall|i: int|
            0 <= i < verify_plan(cable).len() ==> is_query((#[trigger] verify_plan(cable)[i]).action),
{
    lemma_actions(cable.bridge, cable.bridge);
    lemma_actions(cable.ends.0.name, cable.bridge);
    lemma_actions(cable.ends.1.name, cable.bridge);
}

/// Observing an endpoint only looks.
pub proof fn law_observation_only_looks(name: Seq<char>, answers: Seq<AnswerView>)
    ensures
        forall|i: int|
            0 <= i < observe_plan(name, answers).len() ==> is_query(
                (#[trigger] observe_plan(name, answers)[i]).action,
            ),
{
    lemma_actions(name, name);
}

/// A cable that passes verification is the owner's bridge of the recorded generation, with
/// exactly its two ends as members, and both ends are still the recorded veths.
pub proof fn law_verified_cable(cable: CableView, answers: Seq<AnswerView>)
    requires
        progress(verify_plan(cable), cable.owner, answers, 0) == Progress::Passed,
    ensures
        answers.len() >= 4,
        shown_link(answers[0]) matches Ok(link) && ifindex_of(link) == Some(cable.ifindex)
            && link.field("ifalias"@).is_text(cable.owner) && is_kind(link, "bridge"@),
        answers[1] matches AnswerView::Document(tree) && tree.as_array() matches Some(links)
            && are_members(links, cable.ends.0.ifindex, cable.ends.1.ifindex),
        shown_link(answers[2]) matches Ok(link) && ifindex_of(link) == Some(cable.ends.0.ifindex)
            && is_kind(link, "veth"@),
        shown_link(answers[3]) matches Ok(link) && ifindex_of(link) == Some(cable.ends.1.ifindex)
            && is_kind(link, "veth"@),
{
    let plan = verify_plan(cable);
    lemma_progress(plan, cable.owner, answers, 0);
    assert(plan[0].expect.refuses(cable.owner, answers[0]) is None);
    assert(plan[1].expect.refuses(cable.owner, answers[1]) is None);
    assert(plan[2].expect.refuses(cable.owner, answers[2]) is None);
    assert(plan[3].expect.refuses(cable.owner, answers[3]) is None);
}

/// Nothing is done to a cable before it has passed verification: the first thing asked for that
/// does more than look comes after it.
pub proof fn law_no_change_before_verification(
    cable: CableView,
    last: StageView,
    answers: Seq<AnswerView>,
    action: ActionView,
)
    requires
        progress(verified_plan(cable, last), cable.owner, answers, 0) == Progress::Ask(action),
        !is_query(action),
    ensures
        action == last.action,
        progress(verify_plan(cable), cable.owner, answers, 0) == Progress::Passed,
{
    let plan = verified_plan(cable, last);
    let checks = verify_plan(cable);
    lemma_progress(plan, cable.owner, answers, 0);
    law_verification_only_looks(cable);
    let n = answers.len() as int;
    if n < 4 {
        assert(plan[n] == checks[n]);
    }
    assert(taken(checks, cable.owner, answers, 4)) by {
        assert forall|i: int| 0 <= i < 4 implies (#[trigger] checks[i]).guard is None
            && checks[i].expect.refuses(cable.owner, answers[i]) is None by {
            assert(plan[i] == checks[i]);
        }
    }
    lemma_progress_skips(checks, cable.owner, answers, 0, 4);
}

/// Cutting, restoring, removing and impairing a cable change one thing each: its bridge, or what
/// leaves the one end that is impaired. All else only looks.
pub proof fn law_one_change_each(
    cable: CableView,
    up: bool,
    destination: usize,
    delay_ns: u64,
    bandwidth_bps: u64,
    queue_packets: u32,
)
    ensures
        changes_only(set_up_plan(cable, up), set_state(cable.bridge, up)),
        changes_only(remove_plan(cable), delete_link(cable.bridge)),
        changes_only(
            shape_plan(cable, destination, delay_ns, bandwidth_bps, queue_packets),
            impair(end_at(cable, destination).name, delay_ns, bandwidth_bps, queue_packets),
        ),
{
    law_verification_only_looks(cable);
    lemma_actions(cable.bridge, cable.bridge);
    let checks = verify_plan(cable);
    assert forall|last: StageView, i: int| 0 <= i < 4 implies is_query(
        (#[trigger] verified_plan(cable, last)[i]).action,
    ) by {
        assert(verified_plan(cable, last)[i] == checks[i]);
    }
}

/// The last of the stages asks for `change`, and all others only look.
pub open spec fn changes_only(stages: Seq<StageView>, change: ActionView) -> bool {
    &&& stages.len() > 0
    &&& stages.last().action == change
    &&& !is_query(change)
    &&& forall|i: int| 0 <= i < stages.len() - 1 ==> is_query((#[trigger] stages[i]).action)
}

/// A prepared endpoint had no address but IPv6 link-local ones, has none left, and is the same
/// free veth throughout.
pub proof fn law_prepared_endpoint(name: Seq<char>, answers: Seq<AnswerView>)
    requires
        progress(prepare_plan(name, answers), seq![], answers, 0) == Progress::Passed,
    ensures
        answers.len() >= 7,
        shown_ifindex(answers, 0) is Some,
        shown_ifindex(answers, 2) == shown_ifindex(answers, 0),
        shown_ifindex(answers, 4) == shown_ifindex(answers, 0),
        shown_ifindex(answers, 5) == shown_ifindex(answers, 0),
        answers[1] matches AnswerView::Document(tree) && addresses_in(tree) matches Some(list)
            && are_link_local(list),
        shown_link(answers[5]) matches Ok(link) && is_kind(link, "veth"@) && is_free(link),
        answers[6] matches AnswerView::Document(tree) && addresses_in(tree) == Some(
            Seq::<JsonTree>::empty(),
        ),
{
    let plan = prepare_plan(name, answers);
    lemma_progress(plan, seq![], answers, 0);
    assert(plan[0].expect.refuses(seq![], answers[0]) is None);
    assert(plan[1].expect.refuses(seq![], answers[1]) is None);
    assert(plan[2].expect.refuses(seq![], answers[2]) is None);
    assert(plan[4].expect.refuses(seq![], answers[4]) is None);
    assert(plan[5].expect.refuses(seq![], answers[5]) is None);
    assert(plan[6].expect.refuses(seq![], answers[6]) is None);
}

/// An observed endpoint is a free veth without addresses.
pub proof fn law_observed_endpoint(name: Seq<char>, answers: Seq<AnswerView>)
    requires
        progress(observe_plan(name, answers), seq![], answers, 0) == Progress::Passed,
    ensures
        answers.len() >= 2,
        shown_ifindex(answers, 0) is Some,
        shown_link(answers[0]) matches Ok(link) && is_kind(link, "veth"@) && is_free(link),
        answers[1] matches AnswerView::Document(tree) && addresses_in(tree) == Some(
            Seq::<JsonTree>::empty(),
        ),
{
    let plan = observe_plan(name, answers);
    lemma_progress(plan, seq![], answers, 0);
    assert(plan[0].expect.refuses(seq![], answers[0]) is None);
    assert(plan[1].expect.refuses(seq![], answers[1]) is None);
}

/// Until both ends have been seen to be the given veths, free, the making of a cable only looks.
pub proof fn law_ends_checked_before_creation(
    bridge: Seq<char>,
    owner: Seq<char>,
    ends: (EndpointView, EndpointView),
    answers: Seq<AnswerView>,
    action: ActionView,
)
    requires
        connecting(bridge, owner, ends, answers) == ConnectView::Ask(action),
        !is_query(action),
    ensures
        answers.len() >= 2,
        shown_link(answers[0]) matches Ok(link) && ifindex_of(link) == Some(ends.0.ifindex)
            && is_kind(link, "veth"@) && is_free(link),
        shown_link(answers[1]) matches Ok(link) && ifindex_of(link) == Some(ends.1.ifindex)
            && is_kind(link, "veth"@) && is_free(link),
{
    let plan = connect_plan(bridge, owner, ends, answers);
    let create = create_plan(bridge, ends);
    lemma_progress(plan, owner, answers, 0);
    lemma_actions(ends.0.name, bridge);
    lemma_actions(ends.1.name, bridge);
    assert(plan[0] == create[0]);
    assert(plan[1] == create[1]);
    match progress(plan, owner, answers, 0) {
        Progress::Refused { fault, used } => {
            lemma_refused(plan, owner, answers, 0, fault, used);
        },
        _ => {},
    }
    assert(plan[0].expect.refuses(owner, answers[0]) is None);
    assert(plan[1].expect.refuses(owner, answers[1]) is None);
}

/// A refusal comes from the last stage whose answer was read, or from the guard of the next.
proof fn lemma_refused(
    stages: Seq<StageView>,
    owner: Seq<char>,
    answers: Seq<AnswerView>,
    k: nat,
    fault: Fault,
    used: nat,
)
    requires
        taken(stages, owner, answers, k),
        progress(stages, owner, answers, k) == (Progress::Refused { fault, used }),
    ensures
        k <= used <= answers.len(),
        ({
            ||| used < stages.len() && stages[used as int].guard is Some && taken(
                stages,
                owner,
                answers,
                used,
            )
            ||| used > 0 && taken(stages, owner, answers, (used - 1) as nat)
        }),
    decreases stages.len() - k,
{
    if stages[k as int].guard is None && stages[k as int].expect.refuses(
        owner,
        answers[k as int],
    ) is None {
        assert(taken(stages, owner, answers, k + 1));
        lemma_refused(stages, owner, answers, k + 1, fault, used);
    }
}

/// A refusal depends only on the answers that were read and the stages they were read for.
proof fn lemma_refusal_stands(
    stages: Seq<StageView>,
    others: Seq<StageView>,
    owner: Seq<char>,
    answers: Seq<AnswerView>,
    k: nat,
    fault: Fault,
    used: nat,
)
    requires
        progress(stages, owner, answers, k) == (Progress::Refused { fault, used }),
        stages.len() == others.len(),
        forall|i: int| 0 <= i <= used && i < stages.len() ==> stages[i] == others[i],
        k <= used <= answers.len(),
    ensures
        progress(others, owner, answers.take(used as int), k) == (Progress::Refused { fault, used }),
    decreases stages.len() - k,
{
    let shorter = answers.take(used as int);
    assert(stages[k as int] == others[k as int]);
    if stages[k as int].guard is None {
        if k == used {
            lemma_used_grows(stages, owner, answers, k);
        }
        assert(shorter[k as int] == answers[k as int]);
        if stages[k as int].expect.refuses(owner, answers[k as int]) is None {
            lemma_used_grows(stages, owner, answers, k + 1);
            lemma_refusal_stands(stages, others, owner, answers, k + 1, fault, used);
        }
    }
}

proof fn lemma_used_grows(
    stages: Seq<StageView>,
    owner: Seq<char>,
    answers: Seq<AnswerView>,
    k: nat,
)
    ensures
        progress(stages, owner, answers, k) matches Progress::Refused { fault, used } ==> k <= used
            && (k < stages.len() && stages[k as int].guard is None ==> k < used),
    decreases stages.len() - k,
{
    if k < stages.len() && stages[k as int].guard is None && k < answers.len()
        && stages[k as int].expect.refuses(owner, answers[k as int]) is None {
        lemma_used_grows(stages, owner, answers, k + 1);
    }
}

/// A cable whose setup failed after its bridge was created has asked for the deletion of that
/// bridge.
pub proof fn law_failed_setup_is_rolled_back(
    bridge: Seq<char>,
    owner: Seq<char>,
    ends: (EndpointView, EndpointView),
    answers: Seq<AnswerView>,
)
    requires
        connecting(bridge, owner, ends, answers) is RolledBack,
    ensures
        exists|n: int|
            0 <= n < answers.len() && connecting(bridge, owner, ends, #[trigger] answers.take(n))
                == ConnectView::Ask(delete_link(bridge)),
{
    let plan = connect_plan(bridge, owner, ends, answers);
    let p = progress(plan, owner, answers, 0);
    let fault = p->fault;
    let used = p->used;
    lemma_progress(plan, owner, answers, 0);
    let shorter = answers.take(used as int);
    let other = connect_plan(bridge, owner, ends, shorter);
    if used >= 5 {
        assert(shorter[4] == answers[4]);
    }
    assert(plan.len() == other.len());
    assert forall|i: int| 0 <= i <= used && i < plan.len() implies plan[i] == other[i] by {
        if used < 5 {
            assert(i <= 4);
        }
    }
    lemma_refusal_stands(plan, other, owner, answers, 0, fault, used);
    assert(connecting(bridge, owner, ends, shorter) == ConnectView::Ask(delete_link(bridge)));
}

/// Once the bridge exists, the making of a cable never ends without either the cable or a
/// rollback.
pub proof fn law_created_bridge_is_kept_or_rolled_back(
    bridge: Seq<char>,
    owner: Seq<char>,
    ends: (EndpointView, EndpointView),
    answers: Seq<AnswerView>,
)
    requires
        connect_refusal(bridge, owner, ends) is None,
        taken(create_plan(bridge, ends), owner, answers, 3),
    ensures
        !(connecting(bridge, owner, ends, answers) is Refused),
{
    let plan = connect_plan(bridge, owner, ends, answers);
    let create = create_plan(bridge, ends);
    assert(taken(plan, owner, answers, 3)) by {
        assert forall|i: int| 0 <= i < 3 implies (#[trigger] plan[i]).guard is None
            && plan[i].expect.refuses(owner, answers[i]) is None by {
            assert(plan[i] == create[i]);
        }
    }
    lemma_progress_skips(plan, owner, answers, 0, 3);
    assert(plan[3] == stage(set_alias(bridge, owner), Expect::Quiet));
    lemma_used_grows(plan, owner, answers, 3);
}

/// The making of a cable deletes nothing but the bridge that it created: borrowed veths are never
/// deleted.
pub proof fn law_only_the_new_bridge_is_deleted(
    bridge: Seq<char>,
    owner: Seq<char>,
    ends: (EndpointView, EndpointView),
    answers: Seq<AnswerView>,
    action: ActionView,
)
    requires
        connecting(bridge, owner, ends, answers) == ConnectView::Ask(action),
        is_deletion(action),
    ensures
        action == delete_link(bridge),
        taken(create_plan(bridge, ends), owner, answers, 3),
{
    let plan = connect_plan(bridge, owner, ends, answers);
    let create = create_plan(bridge, ends);
    lemma_progress(plan, owner, answers, 0);
    lemma_actions(ends.0.name, bridge);
    lemma_actions(ends.1.name, bridge);
    lemma_actions(bridge, owner);
    match progress(plan, owner, answers, 0) {
        Progress::Ask(asked) => {
            let i = answers.len() as int;
            assert(plan[i].action == asked);
        },
        Progress::Refused { fault, used } => {
            lemma_refused(plan, owner, answers, 0, fault, used);
            assert forall|i: int| 0 <= i < 3 implies (#[trigger] create[i]).guard is None
                && create[i].expect.refuses(owner, answers[i]) is None by {
                assert(plan[i] == create[i]);
            }
        },
        Progress::Passed => {},
    }
}

/// A cable that is reported as connected passes verification on the last four answers.
pub proof fn law_connected_cable_is_verified(
    bridge: Seq<char>,
    owner: Seq<char>,
    ends: (EndpointView, EndpointView),
    answers: Seq<AnswerView>,
    cable: CableView,
)
    requires
        connecting(bridge, owner, ends, answers) == ConnectView::Done(cable),
    ensures
        cable.bridge == bridge,
        cable.owner == owner,
        cable.ends == ends,
        answers.len() >= 17,
        progress(verify_plan(cable), owner, answers.subrange(13, 17), 0) == Progress::Passed,
{
    let plan = connect_plan(bridge, owner, ends, answers);
    lemma_progress(plan, owner, answers, 0);
    assert(plan.len() == 17);
    assert(plan[4].expect.refuses(owner, answers[4]) is None);
    assert(plan[4].expect == Expect::Bridge);
    let checks = verify_plan(cable);
    let tail = answers.subrange(13, 17);
    assert(taken(checks, owner, tail, 4)) by {
        assert forall|i: int| 0 <= i < 4 implies (#[trigger] checks[i]).guard is None
            && checks[i].expect.refuses(owner, tail[i]) is None by {
            assert(plan[13 + i] == checks[i]);
            assert(tail[i] == answers[13 + i]);
        }
    }
    lemma_progress_skips(checks, owner, tail, 0, 4);
}

} // verus!

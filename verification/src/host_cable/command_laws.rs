//! What the host is told by every cable operation, word for word, whatever the names and numbers.

use super::exchange::{answer_to, ActionView, AnswerView, FaultKind, Reply};
use super::stage::{lemma_progress, progress, Progress};
use super::{connect_plan, connect_refusal, connecting, is_impairment, is_owner_marker};
use super::{is_valid_name, microseconds, observe_plan, prepare_plan, remove_plan, set_up_plan};
use super::{shape_plan, verify_plan, CableView, ConnectView, EndpointView};
use crate::json::{parsed, JsonTree};
use crate::reading::{after, is_numeral, numeral, reads_as, reads_with_unit, until};
use crate::reading::{law_decimals_are_read_back, law_padded_numbers_are_read_back, lemma_decimal_free_of};
use crate::reading::{lemma_divide, lemma_unit_read_back};
use crate::text::{decimal, padded, word_char};
use vstd::arithmetic::power::pow;
use vstd::prelude::*;

verus! {

/// A letter, a digit or a hyphen, of ASCII.
pub open spec fn is_plain(c: char) -> bool {
    'a' <= c <= 'z' || 'A' <= c <= 'Z' || '0' <= c <= '9' || c == '-'
}

/// An interface name has one to fifteen letters, digits and hyphens, and no hyphen in front; every
/// such name is taken.
pub proof fn law_interface_names(name: Seq<char>)
    ensures
        is_valid_name(name) <==> {
            &&& 1 <= name.len() <= 15
            &&& name[0] != '-'
            &&& forall|i: int| 0 <= i < name.len() ==> is_plain(#[trigger] name[i])
        },
{
    if is_valid_name(name) {
        assert forall|i: int| 0 <= i < name.len() implies is_plain(#[trigger] name[i]) by {
            assert(word_char(name[i], false));
        }
    }
    if forall|i: int| 0 <= i < name.len() ==> is_plain(#[trigger] name[i]) {
        assert forall|i: int| 0 <= i < name.len() implies word_char(#[trigger] name[i], false) by {
            assert(is_plain(name[i]));
        }
    }
}

/// A cable is begun exactly if the bridge is named `pc` and up to thirteen more characters, the
/// marker has sixteen to eighty letters, digits and hyphens, and the ends differ both in name and
/// in kernel identity.
pub proof fn law_cables_that_are_begun(
    bridge: Seq<char>,
    owner: Seq<char>,
    ends: (EndpointView, EndpointView),
)
    ensures
        connect_refusal(bridge, owner, ends) is None <==> {
            &&& 2 <= bridge.len() <= 15
            &&& bridge[0] == 'p' && bridge[1] == 'c'
            &&& forall|i: int| 0 <= i < bridge.len() ==> is_plain(#[trigger] bridge[i])
            &&& 16 <= owner.len() <= 80
            &&& forall|i: int| 0 <= i < owner.len() ==> is_plain(#[trigger] owner[i])
            &&& ends.0.name != ends.1.name
            &&& ends.0.ifindex != ends.1.ifindex
        },
        connect_refusal(bridge, owner, ends) matches Some(kind) ==> kind == FaultKind::BridgeName
            || kind == FaultKind::OwnerMarker || kind == FaultKind::SameEnds,
        connect_refusal(bridge, owner, ends) == Some(FaultKind::SameEnds) ==> ends.0.name
            == ends.1.name || ends.0.ifindex == ends.1.ifindex,
{
    law_interface_names(bridge);
    if is_owner_marker(owner) {
        assert forall|i: int| 0 <= i < owner.len() implies is_plain(#[trigger] owner[i]) by {
            assert(word_char(owner[i], false));
        }
    }
    if forall|i: int| 0 <= i < owner.len() ==> is_plain(#[trigger] owner[i]) {
        assert forall|i: int| 0 <= i < owner.len() implies word_char(#[trigger] owner[i], false) by {
            assert(is_plain(owner[i]));
        }
    }
}

/// An impairment is taken for either end, any delay up to a minute, and any rate and queue but
/// none at all.
pub proof fn law_impairments_that_are_taken(
    destination: usize,
    delay_ns: u64,
    bandwidth_bps: u64,
    queue_packets: u32,
)
    ensures
        is_impairment(destination, delay_ns, bandwidth_bps, queue_packets) <==> (destination == 0
            || destination == 1) && delay_ns <= 60_000_000_000 && bandwidth_bps != 0
            && queue_packets != 0,
{
}

/// A delay is written in microseconds with three decimals: the whole part and the thousandths give
/// back the nanoseconds.
pub open spec fn reads_as_delay(s: Seq<char>, nanoseconds: nat) -> bool {
    let whole = until(s, '.');
    let rest = after(s, '.');
    &&& is_numeral(whole)
    &&& rest.len() == 5
    &&& rest.skip(3) == "us"@
    &&& forall|i: int| 0 <= i < 3 ==> '0' <= #[trigger] rest[i] <= '9'
    &&& numeral(whole, 10) * 1000 + numeral(rest.take(3), 10) == nanoseconds
}

proof fn lemma_delay(n: nat)
    ensures
        reads_as_delay(microseconds(n), n),
{
    reveal_strlit(".");
    reveal_strlit("us");
    let whole = decimal(n / 1000);
    let part = padded(n % 1000, 10, 3);
    let rest = part + "us"@;
    assert(pow(10, 3) == 1000) by {
        reveal_with_fuel(pow, 4);
    }
    law_decimals_are_read_back(n / 1000);
    law_padded_numbers_are_read_back(n % 1000, 10, 3);
    lemma_decimal_free_of(n / 1000, '.');
    assert(microseconds(n) =~= whole + seq!['.'] + rest);
    lemma_divide(whole, '.', rest);
    assert(rest.take(3) =~= part);
    assert(rest.skip(3) =~= "us"@);
    assert forall|i: int| 0 <= i < 3 implies '0' <= #[trigger] rest[i] <= '9' by {
        assert(rest[i] == part[i]);
    }
}

/// Where the shaping of a cable does more than look, it replaces the queueing discipline at the
/// host side of the one end that is meant: the delay, the rate and the limit that `tc` reads are
/// the nanoseconds, the bits per second and the packets that were asked for.
pub proof fn law_shaping_is_what_was_asked_for(
    cable: CableView,
    destination: usize,
    delay_ns: u64,
    bandwidth_bps: u64,
    queue_packets: u32,
    answers: Seq<AnswerView>,
    action: ActionView,
)
    requires
        destination < 2,
        progress(
            shape_plan(cable, destination, delay_ns, bandwidth_bps, queue_packets),
            cable.owner,
            answers,
            0,
        ) == Progress::Ask(action),
        answers.len() >= 4,
    ensures
        action matches ActionView::Tc(words) && {
            &&& words.len() == 12
            &&& words[0] == "qdisc"@ && words[1] == "replace"@ && words[2] == "dev"@
            &&& words[3] == (if destination == 0 {
                cable.ends.0.name
            } else {
                cable.ends.1.name
            })
            &&& words[4] == "root"@ && words[5] == "netem"@
            &&& words[6] == "delay"@ && reads_as_delay(words[7], delay_ns as nat)
            &&& words[8] == "rate"@ && reads_with_unit(words[9], bandwidth_bps as nat, "bit"@)
            &&& words[10] == "limit"@ && reads_as(words[11], queue_packets as nat)
        },
{
    let plan = shape_plan(cable, destination, delay_ns, bandwidth_bps, queue_packets);
    lemma_progress(plan, cable.owner, answers, 0);
    assert(plan.len() == 5);
    lemma_delay(delay_ns as nat);
    lemma_unit_read_back(bandwidth_bps as nat, "bit"@);
    law_decimals_are_read_back(queue_packets as nat);
}

/// `ip` shows one link.
pub open spec fn looks_at(action: ActionView, name: Seq<char>) -> bool {
    action == ActionView::Ip(seq!["-j"@, "-d"@, "link"@, "show"@, "dev"@, name])
}

/// `ip` shows the addresses of an interface.
pub open spec fn looks_at_addresses(action: ActionView, name: Seq<char>) -> bool {
    action == ActionView::Ip(seq!["-j"@, "address"@, "show"@, "dev"@, name])
}

/// IPv6 is switched off on an interface.
pub open spec fn switches_ipv6_off(action: ActionView, name: Seq<char>) -> bool {
    action == (ActionView::Write {
        path: "/proc/sys/net/ipv6/conf/"@ + name + "/disable_ipv6"@,
        text: "1\n"@,
    })
}

/// `ip link set dev` is told these words.
pub open spec fn sets(action: ActionView, words: Seq<Seq<char>>) -> bool {
    action == ActionView::Ip(seq!["link"@, "set"@, "dev"@] + words)
}

/// `ip` shows the members of a bridge.
pub open spec fn looks_at_members(action: ActionView, bridge: Seq<char>) -> bool {
    action == ActionView::Ip(seq!["-j"@, "link"@, "show"@, "master"@, bridge])
}

/// The order in which a cable is revalidated: the bridge, its members, one end, the other.
pub open spec fn revalidates(n: int, action: ActionView, bridge: Seq<char>, ends: (EndpointView, EndpointView)) -> bool {
    if n == 0 {
        looks_at(action, bridge)
    } else if n == 1 {
        looks_at_members(action, bridge)
    } else if n == 2 {
        looks_at(action, ends.0.name)
    } else {
        looks_at(action, ends.1.name)
    }
}

/// Observing an endpoint looks at its link, then at its addresses. Preparing it does so too, checks
/// that it is still the same, switches IPv6 off on it, and checks once more before it observes it.
pub proof fn law_course_of_an_endpoint(name: Seq<char>, answers: Seq<AnswerView>, action: ActionView)
    ensures
        progress(observe_plan(name, answers), seq![], answers, 0) == Progress::Ask(action) ==> {
            let n = answers.len() as int;
            &&& n < 2
            &&& n == 0 ==> looks_at(action, name)
            &&& n == 1 ==> looks_at_addresses(action, name)
        },
        progress(prepare_plan(name, answers), seq![], answers, 0) == Progress::Ask(action) ==> {
            let n = answers.len() as int;
            &&& n < 7
            &&& n == 0 || n == 2 || n == 4 || n == 5 ==> looks_at(action, name)
            &&& n == 1 || n == 6 ==> looks_at_addresses(action, name)
            &&& n == 3 ==> switches_ipv6_off(action, name)
        },
{
    let observe = observe_plan(name, answers);
    let prepare = prepare_plan(name, answers);
    lemma_progress(observe, seq![], answers, 0);
    lemma_progress(prepare, seq![], answers, 0);
    assert(observe.len() == 2);
    assert(prepare.len() == 7);
}

/// Verifying, cutting or restoring, and removing a cable look at the bridge, its members and both
/// ends; then the bridge, and nothing else, is set or deleted.
pub proof fn law_course_of_a_cable(cable: CableView, up: bool, answers: Seq<AnswerView>, action: ActionView)
    ensures
        progress(verify_plan(cable), cable.owner, answers, 0) == Progress::Ask(action) ==> {
            let n = answers.len() as int;
            n < 4 && revalidates(n, action, cable.bridge, cable.ends)
        },
        progress(set_up_plan(cable, up), cable.owner, answers, 0) == Progress::Ask(action) ==> {
            let n = answers.len() as int;
            &&& n < 5
            &&& n < 4 ==> revalidates(n, action, cable.bridge, cable.ends)
            &&& n == 4 && up ==> sets(action, seq![cable.bridge, "up"@])
            &&& n == 4 && !up ==> sets(action, seq![cable.bridge, "down"@])
        },
        progress(remove_plan(cable), cable.owner, answers, 0) == Progress::Ask(action) ==> {
            let n = answers.len() as int;
            &&& n < 5
            &&& n < 4 ==> revalidates(n, action, cable.bridge, cable.ends)
            &&& n == 4 ==> action == ActionView::Ip(
                seq!["link"@, "delete"@, "dev"@, cable.bridge],
            )
        },
{
    let verify = verify_plan(cable);
    let set = set_up_plan(cable, up);
    let remove = remove_plan(cable);
    lemma_progress(verify, cable.owner, answers, 0);
    lemma_progress(set, cable.owner, answers, 0);
    lemma_progress(remove, cable.owner, answers, 0);
    assert(verify.len() == 4);
    assert(set.len() == 5);
    assert(remove.len() == 5);
    let words = seq!["link"@, "set"@, "dev"@];
    assert(words + seq![cable.bridge, "up"@] =~= seq!["link"@, "set"@, "dev"@, cable.bridge, "up"@]);
    assert(words + seq![cable.bridge, "down"@] =~= seq![
        "link"@,
        "set"@,
        "dev"@,
        cable.bridge,
        "down"@,
    ]);
}

/// What the making of a cable asks for while nothing has been refused, in order.
pub open spec fn connects_by(
    n: int,
    action: ActionView,
    bridge: Seq<char>,
    owner: Seq<char>,
    ends: (EndpointView, EndpointView),
) -> bool {
    let (a, b) = (ends.0.name, ends.1.name);
    if n == 0 || n == 6 {
        looks_at(action, a)
    } else if n == 1 || n == 9 {
        looks_at(action, b)
    } else if n == 2 {
        action == ActionView::Ip(
            seq![
                "link"@, "add"@, "name"@, bridge, "type"@, "bridge"@,
                "stp_state"@, "0"@, "mcast_snooping"@, "0"@,
            ],
        )
    } else if n == 3 {
        sets(action, seq![bridge, "alias"@, owner])
    } else if n == 4 {
        looks_at(action, bridge)
    } else if n == 5 {
        switches_ipv6_off(action, bridge)
    } else if n == 7 {
        sets(action, seq![a, "master"@, bridge])
    } else if n == 8 {
        sets(action, seq![a, "up"@])
    } else if n == 10 {
        sets(action, seq![b, "master"@, bridge])
    } else if n == 11 {
        sets(action, seq![b, "up"@])
    } else if n == 12 {
        sets(action, seq![bridge, "up"@])
    } else {
        n < 17 && revalidates(n - 13, action, bridge, ends)
    }
}

proof fn lemma_sets(a: Seq<char>, b: Seq<char>, c: Seq<char>)
    ensures
        seq!["link"@, "set"@, "dev"@] + seq![a, b, c] == seq!["link"@, "set"@, "dev"@, a, b, c],
        seq!["link"@, "set"@, "dev"@] + seq![a, b] == seq!["link"@, "set"@, "dev"@, a, b],
{
    assert(seq!["link"@, "set"@, "dev"@] + seq![a, b, c] =~= seq![
        "link"@,
        "set"@,
        "dev"@,
        a,
        b,
        c,
    ]);
    assert(seq!["link"@, "set"@, "dev"@] + seq![a, b] =~= seq!["link"@, "set"@, "dev"@, a, b]);
}

/// The making of a cable looks at both ends, creates the bridge, marks it, records it, keeps IPv6
/// off it, attaches each end after another look at it, sets the bridge up and revalidates. Whatever
/// else it asks for is the deletion of that bridge.
pub proof fn law_course_of_a_new_cable(
    bridge: Seq<char>,
    owner: Seq<char>,
    ends: (EndpointView, EndpointView),
    answers: Seq<AnswerView>,
    action: ActionView,
)
    requires
        connecting(bridge, owner, ends, answers) == ConnectView::Ask(action),
    ensures
        connects_by(answers.len() as int, action, bridge, owner, ends) || (answers.len() > 3
            && action == ActionView::Ip(seq!["link"@, "delete"@, "dev"@, bridge])),
        progress(connect_plan(bridge, owner, ends, answers), owner, answers, 0) is Ask
            ==> connects_by(answers.len() as int, action, bridge, owner, ends),
{
    let plan = connect_plan(bridge, owner, ends, answers);
    lemma_progress(plan, owner, answers, 0);
    assert(plan.len() == 17);
    lemma_sets(bridge, "alias"@, owner);
    lemma_sets(ends.0.name, "master"@, bridge);
    lemma_sets(ends.1.name, "master"@, bridge);
    lemma_sets(ends.0.name, "up"@, bridge);
    lemma_sets(ends.1.name, "up"@, bridge);
    lemma_sets(bridge, "up"@, owner);
}

/// Every command runs under `timeout`, which kills it after ten seconds and two, with the tool and
/// all its words in their order.
pub proof fn law_commands_run_under_a_timeout(action: ActionView)
    ensures
        match action {
            ActionView::Ip(words) => action.timeout_arguments() matches Some(args)
                && args.len() == words.len() + 3 && args[0] == "--kill-after=2"@ && args[1] == "10"@
                && args[2] == "ip"@ && args.skip(3) == words,
            ActionView::Tc(words) => action.timeout_arguments() matches Some(args)
                && args.len() == words.len() + 3 && args[0] == "--kill-after=2"@ && args[1] == "10"@
                && args[2] == "tc"@ && args.skip(3) == words,
            ActionView::Write { .. } => action.timeout_arguments() is None,
        },
{
    if let Some(args) = action.timeout_arguments() {
        match action {
            ActionView::Ip(words) => {
                assert(args.skip(3) =~= words);
            },
            ActionView::Tc(words) => {
                assert(args.skip(3) =~= words);
            },
            ActionView::Write { .. } => {},
        }
    }
}

/// A command that succeeded is read, one that failed is reported with what it printed as its error,
/// and nothing else passes for an answer.
pub proof fn law_replies_are_read(action: ActionView, reply: Reply, tree: JsonTree)
    ensures
        answer_to(action, reply) == AnswerView::Document(tree) <==> {
            &&& action is Ip
            &&& reply matches Reply::Exited { success, stdout, .. } && success && (
            if stdout@.len() == 0 {
                tree == JsonTree::Null
            } else {
                parsed(stdout@) == Ok::<JsonTree, Seq<char>>(tree)
            })
        },
        answer_to(action, reply) == AnswerView::Ran <==> action is Tc && (
        reply matches Reply::Exited { success, .. } && success),
        answer_to(action, reply) == AnswerView::Written <==> action is Write && reply is Written,
        answer_to(action, reply) is Absent <==> action is Write && (
        reply matches Reply::WriteFailed { not_found, .. } && not_found),
{
}

/// Each fault is told in its own words, which what is reported of it follows.
pub proof fn law_words_of_faults()
    ensures
        FaultKind::Host.says() == ""@,
        FaultKind::NotJson.says() == ""@,
        FaultKind::IpFailed.says() == "ip failed: "@,
        FaultKind::TcFailed.says() == "tc failed: "@,
        FaultKind::InvalidName.says() == "invalid kernel interface name"@,
        FaultKind::NoLinkArray.says() == "expected link array"@,
        FaultKind::AmbiguousLink.says() == "ambiguous link identity"@,
        FaultKind::NotUnattachedVeth.says() == "owned endpoint must be an unattached veth"@,
        FaultKind::MissingIfindex.says() == "missing ifindex"@,
        FaultKind::NoAddressArray.says() == "address array"@,
        FaultKind::Numbered.says() == "refusing a numbered host endpoint"@,
        FaultKind::ChangedInPreparation.says() == "endpoint changed during preparation"@,
        FaultKind::NotVeth.says() == "endpoint must be a veth"@,
        FaultKind::Attached.says() == "endpoint already belongs to a bridge"@,
        FaultKind::HasAddresses.says() == "host endpoint has IP addresses"@,
        FaultKind::GenerationChanged.says() == "endpoint generation changed"@,
        FaultKind::KindChanged.says() == "endpoint kind changed"@,
        FaultKind::BridgeName.says() == "bridge needs a pc prefix and <=15 bytes"@,
        FaultKind::OwnerMarker.says() == "invalid owner marker"@,
        FaultKind::SameEnds.says() == "endpoints must differ"@,
        FaultKind::Adopted.says() == "endpoint was adopted by another bridge"@,
        FaultKind::MissingBridgeIfindex.says() == "missing bridge ifindex"@,
        FaultKind::BridgeMismatch.says() == "bridge ownership/generation mismatch"@,
        FaultKind::NoMemberArray.says() == "members array"@,
        FaultKind::ForeignMember.says() == "foreign or missing bridge member"@,
        FaultKind::InvalidImpairment.says() == "invalid impairment"@,
{
}

} // verus!

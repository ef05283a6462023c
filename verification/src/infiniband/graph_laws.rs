//! What holds of every port graph and of the text that it is emitted as.

use super::topology::{guid, is_roster, port_count, roster, valid_node_name, EndView, LinkView, NodeView, TopologyError};
use super::topology::{lemma_with_link, lemma_with_link_up, lemma_with_node, TopologyView, MAX_NODES};
use crate::text::{before, lemma_before_irreflexive};
use crate::text::{lemma_order_unique, lemma_padded_injective, lemma_put_in_order, padded, word_char};
use vstd::arithmetic::power::pow;
use vstd::prelude::*;

verus! {

proof fn lemma_roster_of(nodes: Map<Seq<char>, NodeView>) -> (names: Seq<Seq<char>>)
    requires
        nodes.dom().finite(),
    ensures
        is_roster(nodes, names),
        names.len() == nodes.len(),
    decreases nodes.len(),
{
    if nodes.len() == 0 {
        let names: Seq<Seq<char>> = seq![];
        assert forall|k: Seq<char>| names.contains(k) == #[trigger] nodes.contains_key(k) by {
            if nodes.dom().contains(k) {
                assert(nodes.dom().remove(k).len() == nodes.dom().len() - 1);
            }
        }
        names
    } else {
        let k = nodes.dom().choose();
        assert(nodes.dom().contains(k)) by {
            vstd::set::axiom_set_choose_len(nodes.dom());
        }
        let rest = lemma_roster_of(nodes.remove(k));
        assert(!rest.contains(k)) by {
            assert(rest.contains(k) == nodes.remove(k).contains_key(k));
        }
        let names = lemma_put_in_order(rest, k);
        assert forall|x: Seq<char>| names.contains(x) == #[trigger] nodes.contains_key(x) by {
            assert(names.contains(x) == (rest.contains(x) || x == k));
            assert(rest.contains(x) == nodes.remove(k).contains_key(x));
        }
        names
    }
}

/// The roster of a graph lists every node once, in lexical order, and is the only such list.
pub proof fn law_roster_lists_every_node_once(t: TopologyView, names: Seq<Seq<char>>)
    requires
        t.valid(),
    ensures
        is_roster(t.nodes, roster(t.nodes)),
        roster(t.nodes).len() == t.nodes.len(),
        is_roster(t.nodes, names) ==> names == roster(t.nodes),
{
    let found = lemma_roster_of(t.nodes);
    let list = roster(t.nodes);
    assert(is_roster(t.nodes, list));
    assert forall|k: Seq<char>| found.contains(k) == list.contains(k) by {
        assert(found.contains(k) == t.nodes.contains_key(k));
        assert(list.contains(k) == t.nodes.contains_key(k));
    }
    lemma_order_unique(found, list);
    if is_roster(t.nodes, names) {
        assert forall|k: Seq<char>| names.contains(k) == list.contains(k) by {
            assert(names.contains(k) == t.nodes.contains_key(k));
            assert(list.contains(k) == t.nodes.contains_key(k));
        }
        lemma_order_unique(names, list);
    }
}

/// A cable leads both ways: the port at its far end leads back.
pub proof fn law_cables_lead_both_ways(t: TopologyView, a: EndView, b: EndView)
    requires
        t.valid(),
        t.peer(a) == Some(b),
    ensures
        t.peer(b) == Some(a),
{
    let i = choose|id: Seq<char>| t.connects(id, a);
    assert(t.connects(i, a));
    let link = t.links[i];
    assert(link.ends.0.node != link.ends.1.node);
    assert(t.connects(i, b));
    let j = choose|id: Seq<char>| t.connects(id, b);
    assert(t.uses(i, b) && t.uses(j, b));
}

/// The peer of a port is the far end of the one connected cable that is plugged in there.
pub proof fn law_peer_is_far_end(t: TopologyView, id: Seq<char>, e: EndView)
    requires
        t.valid(),
        t.connects(id, e),
    ensures
        t.peer(e) == Some(t.links[id].far_end(e)),
{
    let j = choose|j: Seq<char>| t.connects(j, e);
    assert(t.uses(id, e) && t.uses(j, e));
}

/// Both ports of a cable are reserved, whether it is up or down: no other cable is taken there.
pub proof fn law_cables_reserve_ports(t: TopologyView, id: Seq<char>, e: EndView)
    requires
        t.valid(),
        t.uses(id, e),
    ensures
        t.end_refusal(e) == Some(TopologyError::PortTaken),
{
    assert(t.taken(e));
}

/// Connecting or disconnecting a cable reserves and frees nothing, and keeps the graph valid.
pub proof fn law_switching_keeps_reservations(t: TopologyView, id: Seq<char>, up: bool, e: EndView)
    requires
        t.valid(),
        t.links.contains_key(id),
    ensures
        t.with_link_up(id, up).taken(e) == t.taken(e),
        t.with_link_up(id, up).valid(),
{
    let u = t.with_link_up(id, up);
    if t.taken(e) {
        let i = choose|i: Seq<char>| t.uses(i, e);
        assert(u.uses(i, e));
    }
    if u.taken(e) {
        let i = choose|i: Seq<char>| u.uses(i, e);
        assert(t.uses(i, e));
    }
    lemma_with_link_up(t, id, up);
}

/// A cable that is disconnected and restored leaves the graph as it was.
pub proof fn law_restoring_a_cable(t: TopologyView, id: Seq<char>, up: bool)
    requires
        t.links.contains_key(id),
        t.links[id].up == up,
    ensures
        t.with_link_up(id, !up).with_link_up(id, up) == t,
{
    assert(t.with_link_up(id, !up).with_link_up(id, up) =~= t);
}

proof fn lemma_same_text(t: TopologyView, u: TopologyView, n: nat)
    requires
        t.nodes == u.nodes,
        forall|e: EndView| #[trigger] t.peer(e) == u.peer(e),
        n <= roster(t.nodes).len(),
    ensures
        t.node_blocks(roster(t.nodes), n) == u.node_blocks(roster(t.nodes), n),
    decreases n,
{
    if n > 0 {
        lemma_same_text(t, u, (n - 1) as nat);
        let name = roster(t.nodes)[n - 1];
        lemma_same_lines(t, u, name, t.nodes[name].ports as nat);
    }
}

proof fn lemma_same_lines(t: TopologyView, u: TopologyView, name: Seq<char>, n: nat)
    requires
        forall|e: EndView| #[trigger] t.peer(e) == u.peer(e),
    ensures
        t.port_lines(name, n) == u.port_lines(name, n),
    decreases n,
{
    if n > 0 {
        lemma_same_lines(t, u, name, (n - 1) as nat);
        let e = EndView { node: name, port: n as u8 };
        assert(t.peer(e) == u.peer(e));
    }
}

pub(crate) proof fn lemma_joins(t: TopologyView, a: EndView, b: EndView)
    requires
        t.valid(),
    ensures
        t.joins(a, b) <==> t.peer(a) == Some(b),
{
    if t.joins(a, b) {
        let i = choose|id: Seq<char>|
            t.connects(id, a) && (t.links[id].ends == (a, b) || t.links[id].ends == (b, a));
        law_peer_is_far_end(t, i, a);
        assert(t.links[i].ends.0.node != t.links[i].ends.1.node);
    }
    if t.peer(a) == Some(b) {
        let i = choose|id: Seq<char>| t.connects(id, a);
        assert(t.connects(i, a));
        assert(t.links[i].ends == (a, b) || t.links[i].ends == (b, a));
    }
}

/// The text shows the nodes and which ports are joined, and nothing else of the cables: neither
/// their identifiers, nor which end is the first, nor those that are disconnected.
pub proof fn law_text_shows_only_joined_ports(t: TopologyView, u: TopologyView)
    requires
        t.valid(),
        u.valid(),
        t.nodes == u.nodes,
        forall|a: EndView, b: EndView| #[trigger] t.joins(a, b) == u.joins(a, b),
    ensures
        t.text() == u.text(),
        t.render_refusal() == u.render_refusal(),
{
    assert forall|e: EndView| #[trigger] t.peer(e) == u.peer(e) by {
        if let Some(b) = t.peer(e) {
            lemma_joins(t, e, b);
            assert(t.joins(e, b) == u.joins(e, b));
            lemma_joins(u, e, b);
        }
        if let Some(b) = u.peer(e) {
            lemma_joins(u, e, b);
            assert(t.joins(e, b) == u.joins(e, b));
            lemma_joins(t, e, b);
        }
    }
    lemma_same_text(t, u, roster(t.nodes).len());
}

/// A disconnected cable is not in the text: the graph is emitted as if there were none.
pub proof fn law_disconnected_cables_are_omitted(t: TopologyView, id: Seq<char>, link: LinkView)
    requires
        t.valid(),
        t.link_refusal(id, link.ends) is None,
        !link.up,
    ensures
        t.with_link(id, link).text() == t.text(),
        t.with_link(id, link).render_refusal() == t.render_refusal(),
{
    let u = t.with_link(id, link);
    assert forall|e: EndView| #[trigger] t.peer(e) == u.peer(e) by {
        if exists|i: Seq<char>| t.connects(i, e) {
            let i = choose|i: Seq<char>| t.connects(i, e);
            assert(u.connects(i, e));
            let j = choose|j: Seq<char>| u.connects(j, e);
            assert(j != id);
            assert(t.uses(i, e) && t.uses(j, e));
        }
        if exists|j: Seq<char>| u.connects(j, e) {
            let j = choose|j: Seq<char>| u.connects(j, e);
            assert(t.connects(j, e));
        }
    }
    lemma_same_text(t, u, roster(t.nodes).len());
}

/// A graph whose cable is disconnected is emitted as the graph without that cable.
pub proof fn law_disconnecting_removes_from_text(t: TopologyView, id: Seq<char>)
    requires
        t.valid(),
        t.links.contains_key(id),
    ensures
        t.with_link_up(id, false).text() == (TopologyView {
            links: t.links.remove(id),
            ..t
        }).text(),
{
    let u = t.with_link_up(id, false);
    let w = TopologyView { links: t.links.remove(id), ..t };
    assert forall|e: EndView| #[trigger] w.peer(e) == u.peer(e) by {
        if exists|i: Seq<char>| w.connects(i, e) {
            let i = choose|i: Seq<char>| w.connects(i, e);
            assert(i != id);
            assert(u.connects(i, e));
            let j = choose|j: Seq<char>| u.connects(j, e);
            assert(j != id);
            assert(t.uses(i, e) && t.uses(j, e));
        }
        if exists|j: Seq<char>| u.connects(j, e) {
            let j = choose|j: Seq<char>| u.connects(j, e);
            assert(j != id);
            assert(w.connects(j, e));
        }
    }
    lemma_same_text(w, u, roster(t.nodes).len());
}

/// Every node of a graph has a GUID of 64 bits of its own: no two are written alike.
pub proof fn law_guids_distinct(i: nat, j: nat)
    requires
        i < MAX_NODES,
        j < MAX_NODES,
        padded(guid(i), 16, 16) == padded(guid(j), 16, 16),
    ensures
        i == j,
        guid(i) <= u64::MAX,
{
    assert(pow(16, 16) == 0x1_0000_0000_0000_0000) by {
        reveal_with_fuel(pow, 17);
    }
    lemma_padded_injective(guid(i), guid(j), 16, 16);
}

/// No name of a node can end a line of the console or the quotes that it stands in.
pub proof fn law_names_stay_in_their_quotes(name: Seq<char>)
    requires
        valid_node_name(name),
    ensures
        forall|i: int|
            0 <= i < name.len() ==> #[trigger] name[i] != '"' && name[i] != '\n' && name[i] != '\\'
                && name[i] != ' ' && name[i] != '[',
{
    assert forall|i: int| 0 <= i < name.len() implies #[trigger] name[i] != '"' && name[i] != '\n'
        && name[i] != '\\' && name[i] != ' ' && name[i] != '[' by {
        assert(word_char(name[i], true));
    }
}

/// A node or cable that is not refused keeps the graph valid.
pub proof fn law_additions_keep_graphs_valid(
    t: TopologyView,
    name: Seq<char>,
    node: NodeView,
    id: Seq<char>,
    link: LinkView,
)
    requires
        t.valid(),
    ensures
        t.node_refusal(name, node.ports) is None ==> t.with_node(name, node).valid(),
        t.link_refusal(id, link.ends) is None ==> t.with_link(id, link).valid(),
{
    if t.node_refusal(name, node.ports) is None {
        lemma_with_node(t, name, node);
    }
    if t.link_refusal(id, link.ends) is None {
        lemma_with_link(t, id, link);
    }
}

/// The ports of the nodes, port zero of each included, summed up one node after another.
pub open spec fn port_sum(nodes: Map<Seq<char>, NodeView>) -> nat
    decreases nodes.len(),
    when nodes.dom().finite()
{
    if nodes.len() == 0 {
        0
    } else {
        let name = nodes.dom().choose();
        proof {
            vstd::set::axiom_set_choose_len(nodes.dom());
        }
        nodes[name].ports as nat + 1 + port_sum(nodes.remove(name))
    }
}

proof fn lemma_count_insert(
    nodes: Map<Seq<char>, NodeView>,
    s: Seq<Seq<char>>,
    p: int,
    k: Seq<char>,
    n: nat,
)
    requires
        0 <= p <= s.len(),
        !s.contains(k),
        n <= s.len() + 1,
    ensures
        n <= p ==> port_count(nodes, s.insert(p, k), n) == port_count(nodes.remove(k), s, n),
        n > p ==> port_count(nodes, s.insert(p, k), n) == port_count(
            nodes.remove(k),
            s,
            (n - 1) as nat,
        ) + nodes[k].ports + 1,
    decreases n,
{
    if n > 0 {
        let t = s.insert(p, k);
        lemma_count_insert(nodes, s, p, k, (n - 1) as nat);
        if n <= p {
            assert(t[n - 1] == s[n - 1]);
            assert(s.contains(s[n - 1]));
        } else if n - 1 == p {
            assert(t[n - 1] == k);
        } else {
            assert(t[n - 1] == s[n - 2]);
            assert(s.contains(s[n - 2]));
        }
    }
}

proof fn lemma_one_node(nodes: Map<Seq<char>, NodeView>, k: Seq<char>)
    requires
        nodes.dom().finite(),
        nodes.contains_key(k),
    ensures
        total_of(nodes) == total_of(nodes.remove(k)) + nodes[k].ports + 1,
{
    let rest = nodes.remove(k);
    let t = lemma_roster_is(nodes);
    let s = lemma_roster_is(rest);
    assert(t.contains(k)) by {
        assert(t.contains(k) == nodes.contains_key(k));
    }
    let p = choose|p: int| 0 <= p < t.len() && t[p] == k;
    let less = t.remove(p);
    assert forall|i: int, j: int| 0 <= i < j < less.len() implies before(
        #[trigger] less[i],
        #[trigger] less[j],
    ) by {
        let a = if i < p { i } else { i + 1 };
        let b = if j < p { j } else { j + 1 };
        assert(less[i] == t[a] && less[j] == t[b]);
    }
    assert forall|x: Seq<char>| less.contains(x) == s.contains(x) by {
        assert(s.contains(x) == rest.contains_key(x));
        assert(t.contains(x) == nodes.contains_key(x));
        if less.contains(x) {
            let i = choose|i: int| 0 <= i < less.len() && less[i] == x;
            let a = if i < p { i } else { i + 1 };
            assert(t[a] == x);
            lemma_before_irreflexive(k);
            if a < p {
                assert(before(t[a], t[p]));
            } else {
                assert(before(t[p], t[a]));
            }
        }
        if s.contains(x) {
            let a = choose|a: int| 0 <= a < t.len() && t[a] == x;
            let i = if a < p { a } else { a - 1 };
            assert(less[i] == x);
        }
    }
    lemma_order_unique(less, s);
    assert(!s.contains(k)) by {
        assert(s.contains(k) == rest.contains_key(k));
    }
    assert(t =~= s.insert(p, k));
    lemma_count_insert(nodes, s, p, k, t.len());
}

/// All ports of nodes in lexical order.
spec fn total_of(nodes: Map<Seq<char>, NodeView>) -> nat {
    port_count(nodes, roster(nodes), roster(nodes).len())
}

proof fn lemma_roster_is(nodes: Map<Seq<char>, NodeView>) -> (names: Seq<Seq<char>>)
    requires
        nodes.dom().finite(),
    ensures
        names == roster(nodes),
        is_roster(nodes, names),
{
    let found = lemma_roster_of(nodes);
    assert(is_roster(nodes, roster(nodes)));
    roster(nodes)
}

proof fn lemma_sum(nodes: Map<Seq<char>, NodeView>)
    requires
        nodes.dom().finite(),
    ensures
        total_of(nodes) == port_sum(nodes),
    decreases nodes.len(),
{
    if nodes.len() == 0 {
        let names = lemma_roster_is(nodes);
        if names.len() > 0 {
            assert(names.contains(names[0]));
            assert(nodes.contains_key(names[0]));
            assert(nodes.dom().remove(names[0]).len() == nodes.dom().len() - 1);
        }
    } else {
        let k = nodes.dom().choose();
        vstd::set::axiom_set_choose_len(nodes.dom());
        lemma_one_node(nodes, k);
        lemma_sum(nodes.remove(k));
    }
}

/// The ports of a graph are those of all its nodes together, with port zero of each: however large
/// it is, each node counts in full, in whatever order the nodes are taken.
pub proof fn law_ports_add_up(t: TopologyView, name: Seq<char>, node: NodeView)
    requires
        t.valid(),
    ensures
        t.ports() == port_sum(t.nodes),
        t.nodes.len() == 0 ==> t.ports() == 0,
        t.nodes.contains_key(name) ==> t.ports() == port_sum(t.nodes.remove(name))
            + t.nodes[name].ports + 1,
        !t.nodes.contains_key(name) ==> t.with_node(name, node).ports() == t.ports() + node.ports
            + 1,
{
    lemma_sum(t.nodes);
    if t.nodes.contains_key(name) {
        lemma_one_node(t.nodes, name);
        lemma_sum(t.nodes.remove(name));
    } else {
        let u = t.with_node(name, node);
        lemma_one_node(u.nodes, name);
        assert(u.nodes.remove(name) =~= t.nodes);
    }
}

/// A letter, a digit, a hyphen or an underscore, of ASCII.
pub open spec fn is_name_char(c: char) -> bool {
    'a' <= c <= 'z' || 'A' <= c <= 'Z' || '0' <= c <= '9' || c == '-' || c == '_'
}

/// A node is added exactly if its name has one to thirty-one letters, digits, hyphens and
/// underscores, it has a port, no node has its name, and there are fewer than 1024 nodes.
pub proof fn law_nodes_that_are_added(t: TopologyView, name: Seq<char>, ports: u8)
    ensures
        t.node_refusal(name, ports) == Some(TopologyError::InvalidNode) <==> !{
            &&& 1 <= name.len() <= 31
            &&& forall|i: int| 0 <= i < name.len() ==> is_name_char(#[trigger] name[i])
            &&& ports >= 1
        },
        t.node_refusal(name, ports) is None <==> {
            &&& 1 <= name.len() <= 31
            &&& forall|i: int| 0 <= i < name.len() ==> is_name_char(#[trigger] name[i])
            &&& ports >= 1
            &&& !t.nodes.contains_key(name)
            &&& t.nodes.len() < 1024
        },
        t.node_refusal(name, ports) == Some(TopologyError::DuplicateNode)
            ==> t.nodes.contains_key(name),
        t.node_refusal(name, ports) == Some(TopologyError::TooManyNodes) ==> t.nodes.len() >= 1024
            && !t.nodes.contains_key(name),
{
    if valid_node_name(name) {
        assert forall|i: int| 0 <= i < name.len() implies is_name_char(#[trigger] name[i]) by {
            assert(word_char(name[i], true));
        }
    }
    if forall|i: int| 0 <= i < name.len() ==> is_name_char(#[trigger] name[i]) {
        assert forall|i: int| 0 <= i < name.len() implies word_char(#[trigger] name[i], true) by {
            assert(is_name_char(name[i]));
        }
    }
}

/// A cable is added exactly if its identifier is not empty and not taken, its ends are at different
/// nodes of the graph, each at one of the node's physical ports, and no cable, up or down, has an
/// end there.
pub proof fn law_cables_that_are_added(t: TopologyView, id: Seq<char>, a: EndView, b: EndView)
    ensures
        t.link_refusal(id, (a, b)) is None <==> {
            &&& id.len() > 0
            &&& !t.links.contains_key(id)
            &&& a.node != b.node
            &&& t.nodes.contains_key(a.node) && 1 <= a.port <= t.nodes[a.node].ports
            &&& t.nodes.contains_key(b.node) && 1 <= b.port <= t.nodes[b.node].ports
            &&& forall|other: Seq<char>| #[trigger]
                t.links.contains_key(other) ==> {
                    let ends = t.links[other].ends;
                    ends.0 != a && ends.0 != b && ends.1 != a && ends.1 != b
                }
        },
{
    let free = forall|other: Seq<char>| #[trigger]
        t.links.contains_key(other) ==> {
            let ends = t.links[other].ends;
            ends.0 != a && ends.0 != b && ends.1 != a && ends.1 != b
        };
    if t.taken(a) {
        let i = choose|i: Seq<char>| t.uses(i, a);
        assert(t.links.contains_key(i));
    }
    if t.taken(b) {
        let i = choose|i: Seq<char>| t.uses(i, b);
        assert(t.links.contains_key(i));
    }
    if !t.taken(a) && !t.taken(b) {
        assert forall|other: Seq<char>| #[trigger] t.links.contains_key(other) implies {
            let ends = t.links[other].ends;
            ends.0 != a && ends.0 != b && ends.1 != a && ends.1 != b
        } by {
            assert(!t.uses(other, a));
            assert(!t.uses(other, b));
        }
    }
}

/// What is added is added as it is, and nothing else changes; connecting or disconnecting a cable
/// changes that and nothing else of it, nor of any other.
pub proof fn law_changes_are_what_was_asked_for(
    t: TopologyView,
    name: Seq<char>,
    node: NodeView,
    id: Seq<char>,
    link: LinkView,
    up: bool,
    other: Seq<char>,
)
    ensures
        t.with_node(name, node).nodes[name] == node,
        t.with_node(name, node).nodes.contains_key(other) <==> other == name
            || t.nodes.contains_key(other),
        other != name ==> t.with_node(name, node).nodes[other] == t.nodes[other],
        t.with_node(name, node).links == t.links,
        t.with_link(id, link).links[id] == link,
        t.with_link(id, link).links.contains_key(other) <==> other == id || t.links.contains_key(
            other,
        ),
        other != id ==> t.with_link(id, link).links[other] == t.links[other],
        t.with_link(id, link).nodes == t.nodes,
        t.links.contains_key(id) ==> {
            let u = t.with_link_up(id, up);
            &&& u.nodes == t.nodes
            &&& u.links.dom() == t.links.dom()
            &&& u.links[id].up == up
            &&& u.links[id].ends == t.links[id].ends
            &&& other != id ==> u.links[other] == t.links[other]
        },
{
    if t.links.contains_key(id) {
        assert(t.with_link_up(id, up).links.dom() =~= t.links.dom());
    }
}

/// A graph is emitted exactly if it has a node and at most 32768 ports, port zero of each node
/// included.
pub proof fn law_graphs_that_are_emitted(t: TopologyView)
    requires
        t.valid(),
    ensures
        t.render_refusal() is None <==> t.nodes.len() > 0 && port_sum(t.nodes) <= 32768,
        t.render_refusal() == Some(TopologyError::Empty) <==> t.nodes.len() == 0,
{
    lemma_sum(t.nodes);
}

/// Why a cable is refused, in the order in which it is looked at: its identifier, its nodes, then its
/// first end and its second.
pub proof fn law_why_cables_are_refused(t: TopologyView, id: Seq<char>, a: EndView, b: EndView)
    ensures
        t.link_refusal(id, (a, b)) == Some(TopologyError::InvalidLinkId) <==> id.len() == 0
            || t.links.contains_key(id),
        id.len() > 0 && !t.links.contains_key(id) ==> {
            &&& t.link_refusal(id, (a, b)) == Some(TopologyError::SelfLink) <==> a.node == b.node
            &&& a.node != b.node ==> t.link_refusal(id, (a, b)) == (if t.end_refusal(a) is Some {
                t.end_refusal(a)
            } else {
                t.end_refusal(b)
            })
        },
        t.end_refusal(a) == Some(TopologyError::UnknownNode) <==> !t.nodes.contains_key(a.node),
        t.end_refusal(a) == Some(TopologyError::PortOutOfRange) <==> t.nodes.contains_key(a.node)
            && !(1 <= a.port <= t.nodes[a.node].ports),
        t.end_refusal(a) == Some(TopologyError::PortTaken) <==> {
            &&& t.nodes.contains_key(a.node) && 1 <= a.port <= t.nodes[a.node].ports
            &&& exists|other: Seq<char>| #[trigger]
                t.links.contains_key(other) && (t.links[other].ends.0 == a
                    || t.links[other].ends.1 == a)
        },
{
    if t.taken(a) {
        let i = choose|i: Seq<char>| t.uses(i, a);
        assert(t.links.contains_key(i));
    }
    if exists|other: Seq<char>| #[trigger]
        t.links.contains_key(other) && (t.links[other].ends.0 == a || t.links[other].ends.1 == a) {
        let i = choose|other: Seq<char>| #[trigger]
            t.links.contains_key(other) && (t.links[other].ends.0 == a || t.links[other].ends.1
                == a);
        assert(t.uses(i, a));
    }
}

/// Two ports are joined exactly by a cable of the graph that is up and has one end at each.
pub proof fn law_joined_ports(t: TopologyView, a: EndView, b: EndView)
    ensures
        t.joins(a, b) <==> exists|id: Seq<char>| #[trigger]
            t.links.contains_key(id) && t.links[id].up && (t.links[id].ends == (a, b)
                || t.links[id].ends == (b, a)),
{
    if t.joins(a, b) {
        let i = choose|id: Seq<char>|
            t.connects(id, a) && (t.links[id].ends == (a, b) || t.links[id].ends == (b, a));
        assert(t.links.contains_key(i));
    }
    if exists|id: Seq<char>| #[trigger]
        t.links.contains_key(id) && t.links[id].up && (t.links[id].ends == (a, b)
            || t.links[id].ends == (b, a)) {
        let i = choose|id: Seq<char>| #[trigger]
            t.links.contains_key(id) && t.links[id].up && (t.links[id].ends == (a, b)
                || t.links[id].ends == (b, a));
        assert(t.connects(i, a));
    }
}

} // verus!

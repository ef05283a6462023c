//! The native topology text as the simulator reads it: line by line, block by block.

use super::graph_laws::{law_names_stay_in_their_quotes, law_roster_lists_every_node_once};
use super::graph_laws::lemma_joins;
use super::topology::{cable_line, guid, guid_line, node_line, roster, valid_node_name, EndView};
use super::topology::{IbNodeKind, NodeView, TopologyView};
use crate::reading::{after, between, beyond, free_of, numeral, reads_as, until};
use crate::reading::{law_decimals_are_read_back, law_padded_numbers_are_read_back};
use crate::reading::{lemma_after_shorter, lemma_decimal_free_of, lemma_divide};
use crate::text::{before, decimal, padded};
use vstd::arithmetic::power::pow;
use vstd::prelude::*;

verus! {

/// The line of a port: its number, and the node and port at the other end of its cable.
pub struct CableRead {
    pub line: Seq<char>,
    pub port: nat,
    pub peer: Seq<char>,
    pub far: nat,
}

/// The block of a node: the line of its GUID, the line of the node, and the lines of its ports.
pub struct BlockRead {
    pub guid: Seq<char>,
    pub node: Seq<char>,
    pub cables: Seq<CableRead>,
}

/// Reads the line of a port: the number in the first brackets, the name in quotes, and the number in
/// the brackets after it.
pub open spec fn read_cable(line: Seq<char>) -> CableRead {
    CableRead {
        line,
        port: numeral(between(line, '[', ']'), 10),
        peer: between(line, '"', '"'),
        far: numeral(between(beyond(line, '"', '"'), '[', ']'), 10),
    }
}

/// Reads the lines of ports up to an empty line.
pub open spec fn read_cables(s: Seq<char>) -> Seq<CableRead>
    decreases s.len(),
{
    if s.len() == 0 || s[0] == '\n' {
        seq![]
    } else {
        proof {
            lemma_after_shorter(s, '\n');
        }
        seq![read_cable(until(s, '\n'))] + read_cables(after(s, '\n'))
    }
}

/// What stands after the next empty line.
pub open spec fn past_block(s: Seq<char>) -> Seq<char>
    decreases s.len(),
{
    if s.len() == 0 {
        s
    } else if s[0] == '\n' {
        s.skip(1)
    } else {
        proof {
            lemma_after_shorter(s, '\n');
        }
        past_block(after(s, '\n'))
    }
}

pub proof fn lemma_past_shorter(s: Seq<char>)
    ensures
        past_block(s).len() <= s.len(),
    decreases s.len(),
{
    if s.len() > 0 && s[0] != '\n' {
        lemma_after_shorter(s, '\n');
        lemma_past_shorter(after(s, '\n'));
    }
}

/// Reads blocks up to the end.
pub open spec fn read_blocks(s: Seq<char>) -> Seq<BlockRead>
    decreases s.len(),
{
    if s.len() == 0 {
        seq![]
    } else {
        let rest = after(after(s, '\n'), '\n');
        proof {
            lemma_after_shorter(s, '\n');
            lemma_after_shorter(after(s, '\n'), '\n');
            lemma_past_shorter(rest);
        }
        seq![
            BlockRead {
                guid: until(s, '\n'),
                node: until(after(s, '\n'), '\n'),
                cables: read_cables(rest),
            },
        ] + read_blocks(past_block(rest))
    }
}

/// Reads a topology text: a line of comment, then blocks.
pub open spec fn read_text(s: Seq<char>) -> Seq<BlockRead> {
    read_blocks(after(s, '\n'))
}

impl BlockRead {
    /// The name in quotes.
    pub open spec fn name(self) -> Seq<char> {
        between(self.node, '"', '"')
    }

    /// The line of the node is `kind`, its number of ports and its name in quotes.
    pub open spec fn tells(self, kind: Seq<char>, ports: nat, name: Seq<char>) -> bool {
        let digits = between(self.node, ' ', ' ');
        &&& self.node == kind + seq![' '] + digits + seq![' ', '"'] + name + seq!['"']
        &&& reads_as(digits, ports)
        &&& self.name() == name
    }

    /// The line of the GUID is `word`, and a number of sixteen hexadecimal digits.
    pub open spec fn tells_guid(self, word: Seq<char>, number: nat) -> bool {
        let digits = after(self.guid, 'x');
        &&& self.guid == word + seq!['=', '0', 'x'] + digits
        &&& digits.len() == 16
        &&& numeral(digits, 16) == number
    }

    /// Some line says that the port `port` leads to the port `far` of `peer`.
    pub open spec fn leads(self, port: nat, peer: Seq<char>, far: nat) -> bool {
        exists|i: int|
            0 <= i < self.cables.len() && (#[trigger] self.cables[i]).port == port
                && self.cables[i].peer == peer && self.cables[i].far == far
    }
}

impl CableRead {
    /// The line is nothing but the port in brackets, the peer in quotes and its port in brackets.
    pub open spec fn is_plain(self) -> bool {
        let near = between(self.line, '[', ']');
        let far = between(beyond(self.line, '"', '"'), '[', ']');
        &&& self.line == seq!['['] + near + seq![']', ' ', '"'] + self.peer + seq!['"', '['] + far
            + seq![']']
        &&& reads_as(near, self.port)
        &&& reads_as(far, self.far)
    }
}

/// The core of the line of a port.
spec fn cable_core(port: u8, peer: EndView) -> Seq<char> {
    seq!['['] + decimal(port as nat) + seq![']', ' ', '"'] + peer.node + seq!['"', '['] + decimal(
        peer.port as nat,
    ) + seq![']']
}

proof fn lemma_cable_core(port: u8, peer: EndView)
    requires
        valid_node_name(peer.node),
    ensures
        cable_line(port, peer) == cable_core(port, peer) + seq!['\n'],
        free_of(cable_core(port, peer), '\n'),
        cable_core(port, peer).len() > 0,
        cable_core(port, peer)[0] == '[',
        read_cable(cable_core(port, peer)).port == port,
        read_cable(cable_core(port, peer)).peer == peer.node,
        read_cable(cable_core(port, peer)).far == peer.port,
        read_cable(cable_core(port, peer)).is_plain(),
{
    reveal_strlit("[");
    reveal_strlit("] \"");
    reveal_strlit("\"[");
    reveal_strlit("]\n");
    let core = cable_core(port, peer);
    let near = decimal(port as nat);
    let far = decimal(peer.port as nat);
    let name = peer.node;
    assert(cable_line(port, peer) =~= core + seq!['\n']);
    law_names_stay_in_their_quotes(name);
    law_decimals_are_read_back(port as nat);
    law_decimals_are_read_back(peer.port as nat);
    lemma_decimal_free_of(port as nat, '\n');
    lemma_decimal_free_of(peer.port as nat, '\n');
    lemma_decimal_free_of(port as nat, ']');
    lemma_decimal_free_of(peer.port as nat, ']');
    lemma_decimal_free_of(port as nat, '"');
    assert(free_of(name, '\n') && free_of(name, '"'));
    // The first brackets.
    let a = seq![' ', '"'] + name + seq!['"', '['] + far + seq![']'];
    assert(core =~= Seq::<char>::empty() + seq!['['] + (near + seq![']'] + a));
    lemma_divide(Seq::<char>::empty(), '[', near + seq![']'] + a);
    lemma_divide(near, ']', a);
    // The quotes.
    let head = seq!['['] + near + seq![']', ' '];
    let b = seq!['['] + far + seq![']'];
    assert(core =~= head + seq!['"'] + (name + seq!['"'] + b));
    assert(free_of(head, '"'));
    lemma_divide(head, '"', name + seq!['"'] + b);
    lemma_divide(name, '"', b);
    // The last brackets.
    let none = Seq::<char>::empty();
    assert(b =~= none + seq!['['] + (far + seq![']'] + none));
    lemma_divide(none, '[', far + seq![']'] + none);
    lemma_divide(far, ']', none);
}

/// The lines that the first `n` ports of a node have.
spec fn expected_cables(t: TopologyView, name: Seq<char>, n: nat) -> Seq<CableRead>
    decreases n,
{
    if n == 0 {
        seq![]
    } else {
        let before = expected_cables(t, name, (n - 1) as nat);
        match t.peer(EndView { node: name, port: n as u8 }) {
            Some(peer) => before.push(read_cable(cable_core(n as u8, peer))),
            None => before,
        }
    }
}

proof fn lemma_peer_name(t: TopologyView, e: EndView)
    requires
        t.valid(),
    ensures
        t.peer(e) matches Some(b) ==> valid_node_name(b.node) && t.has_port(b),
{
    if let Some(b) = t.peer(e) {
        let i = choose|id: Seq<char>| t.connects(id, e);
        assert(t.connects(i, e));
        assert(t.links.contains_key(i));
    }
}

proof fn lemma_read_cables(t: TopologyView, name: Seq<char>, n: nat, rest: Seq<char>)
    requires
        t.valid(),
        n <= 255,
    ensures
        read_cables(t.port_lines(name, n) + rest) == expected_cables(t, name, n) + read_cables(rest),
        past_block(t.port_lines(name, n) + rest) == past_block(rest),
    decreases n,
{
    if n == 0 {
        assert(t.port_lines(name, n) + rest =~= rest);
        assert(expected_cables(t, name, n) + read_cables(rest) =~= read_cables(rest));
    } else {
        let m = (n - 1) as nat;
        let e = EndView { node: name, port: n as u8 };
        let more = t.port_line(name, n as u8) + rest;
        assert(t.port_lines(name, n) + rest =~= t.port_lines(name, m) + more);
        lemma_read_cables(t, name, m, more);
        lemma_peer_name(t, e);
        match t.peer(e) {
            Some(peer) => {
                let core = cable_core(n as u8, peer);
                lemma_cable_core(n as u8, peer);
                assert(more =~= core + seq!['\n'] + rest);
                lemma_divide(core, '\n', rest);
                assert(more[0] == '[');
                assert(expected_cables(t, name, m) + read_cables(more) =~= expected_cables(t, name, n)
                    + read_cables(rest));
            },
            None => {
                assert(more =~= rest);
            },
        }
    }
}

spec fn kind_word(kind: IbNodeKind) -> Seq<char> {
    match kind {
        IbNodeKind::Hca => "Hca"@,
        IbNodeKind::Switch => "Switch"@,
    }
}

spec fn guid_word(kind: IbNodeKind) -> Seq<char> {
    match kind {
        IbNodeKind::Hca => "caguid"@,
        IbNodeKind::Switch => "switchguid"@,
    }
}

spec fn node_core(name: Seq<char>, node: NodeView) -> Seq<char> {
    kind_word(node.kind) + seq![' '] + decimal(node.ports as nat) + seq![' ', '"'] + name + seq!['"']
}

spec fn guid_core(index: nat, kind: IbNodeKind) -> Seq<char> {
    guid_word(kind) + seq!['=', '0', 'x'] + padded(guid(index), 16, 16)
}

spec fn expected_block(t: TopologyView, index: nat, name: Seq<char>) -> BlockRead {
    BlockRead {
        guid: guid_core(index, t.nodes[name].kind),
        node: node_core(name, t.nodes[name]),
        cables: expected_cables(t, name, t.nodes[name].ports as nat),
    }
}

proof fn lemma_padded_digits(n: nat, width: nat)
    ensures
        padded(n, 16, width).len() == width,
        free_of(padded(n, 16, width), '\n'),
    decreases width,
{
    if width > 0 {
        lemma_padded_digits(n / 16, (width - 1) as nat);
        let s = padded(n, 16, width);
        assert forall|i: int| 0 <= i < s.len() implies #[trigger] s[i] != '\n' by {
            if i < width - 1 {
                assert(s[i] == padded(n / 16, 16, (width - 1) as nat)[i]);
            }
        }
    }
}

proof fn lemma_heads(index: nat, name: Seq<char>, node: NodeView)
    requires
        valid_node_name(name),
    ensures
        guid_line(index, node.kind) == guid_core(index, node.kind) + seq!['\n'],
        node_line(name, node) == node_core(name, node) + seq!['\n'],
        free_of(guid_core(index, node.kind), '\n'),
        free_of(node_core(name, node), '\n'),
        guid_core(index, node.kind).len() > 0,
{
    reveal_strlit("Hca");
    reveal_strlit("Switch");
    reveal_strlit("caguid");
    reveal_strlit("switchguid");
    reveal_strlit("=0x");
    reveal_strlit("\n");
    reveal_strlit(" ");
    reveal_strlit(" \"");
    reveal_strlit("\"\n");
    law_names_stay_in_their_quotes(name);
    lemma_decimal_free_of(node.ports as nat, '\n');
    lemma_padded_digits(guid(index), 16);
    assert(guid_line(index, node.kind) =~= guid_core(index, node.kind) + seq!['\n']);
    assert(node_line(name, node) =~= node_core(name, node) + seq!['\n']);
    assert(free_of(kind_word(node.kind), '\n'));
    assert(free_of(guid_word(node.kind), '\n'));
    assert(free_of(name, '\n'));
}

proof fn lemma_read_block(t: TopologyView, index: nat, name: Seq<char>, rest: Seq<char>)
    requires
        t.valid(),
        t.nodes.contains_key(name),
    ensures
        read_blocks(t.node_block(index, name) + rest) == seq![expected_block(t, index, name)]
            + read_blocks(rest),
{
    let node = t.nodes[name];
    lemma_heads(index, name, node);
    reveal_strlit("\n");
    let end = seq!['\n'] + rest;
    let lines = t.port_lines(name, node.ports as nat) + end;
    let second = node_core(name, node) + seq!['\n'] + lines;
    let whole = t.node_block(index, name) + rest;
    assert(whole =~= guid_core(index, node.kind) + seq!['\n'] + second);
    lemma_divide(guid_core(index, node.kind), '\n', second);
    lemma_divide(node_core(name, node), '\n', lines);
    lemma_read_cables(t, name, node.ports as nat, end);
    assert(end[0] == '\n');
    assert(end.skip(1) =~= rest);
    assert(expected_cables(t, name, node.ports as nat) + read_cables(end) =~= expected_cables(
        t,
        name,
        node.ports as nat,
    ));
    assert(whole.len() > 0);
}

proof fn lemma_read_blocks(t: TopologyView, names: Seq<Seq<char>>, n: nat, rest: Seq<char>)
    requires
        t.valid(),
        n <= names.len(),
        forall|i: int| 0 <= i < names.len() ==> t.nodes.contains_key(#[trigger] names[i]),
    ensures
        read_blocks(t.node_blocks(names, n) + rest) == Seq::new(
            n,
            |i: int| expected_block(t, i as nat, names[i]),
        ) + read_blocks(rest),
    decreases n,
{
    let whole = t.node_blocks(names, n) + rest;
    if n == 0 {
        assert(whole =~= rest);
        assert(Seq::new(n, |i: int| expected_block(t, i as nat, names[i])) + read_blocks(rest)
            =~= read_blocks(rest));
    } else {
        let m = (n - 1) as nat;
        let more = t.node_block(m, names[m as int]) + rest;
        assert(whole =~= t.node_blocks(names, m) + more);
        assert(t.nodes.contains_key(names[m as int]));
        lemma_read_blocks(t, names, m, more);
        lemma_read_block(t, m, names[m as int], rest);
        assert(Seq::new(m, |i: int| expected_block(t, i as nat, names[i])) + (seq![
            expected_block(t, m, names[m as int]),
        ] + read_blocks(rest)) =~= Seq::new(n, |i: int| expected_block(t, i as nat, names[i]))
            + read_blocks(rest));
    }
}

proof fn lemma_expected_cables(t: TopologyView, name: Seq<char>, n: nat)
    requires
        t.valid(),
        n <= 255,
    ensures
        forall|i: int|
            0 <= i < expected_cables(t, name, n).len() ==> {
                let c = #[trigger] expected_cables(t, name, n)[i];
                &&& c.is_plain()
                &&& 1 <= c.port <= n
                &&& c.far <= 255
                &&& t.peer(EndView { node: name, port: c.port as u8 }) == Some(
                    EndView { node: c.peer, port: c.far as u8 },
                )
            },
        forall|i: int, j: int|
            0 <= i < j < expected_cables(t, name, n).len() ==> (#[trigger] expected_cables(
                t,
                name,
                n,
            )[i]).port < (#[trigger] expected_cables(t, name, n)[j]).port,
        forall|p: u8|
            1 <= p <= n ==> (#[trigger] t.peer(EndView { node: name, port: p }) matches Some(b)
                ==> exists|i: int|
                0 <= i < expected_cables(t, name, n).len() && (#[trigger] expected_cables(
                    t,
                    name,
                    n,
                )[i]).port == p && expected_cables(t, name, n)[i].peer == b.node
                    && expected_cables(t, name, n)[i].far == b.port),
    decreases n,
{
    if n > 0 {
        let m = (n - 1) as nat;
        lemma_expected_cables(t, name, m);
        let old_list = expected_cables(t, name, m);
        let list = expected_cables(t, name, n);
        let e = EndView { node: name, port: n as u8 };
        lemma_peer_name(t, e);
        if let Some(peer) = t.peer(e) {
            lemma_cable_core(n as u8, peer);
            assert(list[old_list.len() as int] == read_cable(cable_core(n as u8, peer)));
        }
        assert forall|i: int| 0 <= i < old_list.len() implies list[i] == #[trigger] old_list[i] by {}
        assert forall|p: u8| 1 <= p <= n implies (#[trigger] t.peer(
            EndView { node: name, port: p },
        ) matches Some(b) ==> exists|i: int|
            0 <= i < list.len() && (#[trigger] list[i]).port == p && list[i].peer == b.node
                && list[i].far == b.port) by {
            if let Some(b) = t.peer(EndView { node: name, port: p }) {
                if p < n {
                    let i = choose|i: int|
                        0 <= i < old_list.len() && (#[trigger] old_list[i]).port == p
                            && old_list[i].peer == b.node && old_list[i].far == b.port;
                    assert(list[i] == old_list[i]);
                } else {
                    assert(list[old_list.len() as int].port == p);
                }
            }
        }
    }
}

proof fn lemma_heads_are_read(index: nat, name: Seq<char>, node: NodeView, b: BlockRead)
    requires
        valid_node_name(name),
        b.guid == guid_core(index, node.kind),
        b.node == node_core(name, node),
        index < 1024,
    ensures
        b.tells(kind_word(node.kind), node.ports as nat, name),
        b.tells_guid(guid_word(node.kind), 0x1000_0000_0000_0000 + 256 * index),
{
    reveal_strlit("Hca");
    reveal_strlit("Switch");
    reveal_strlit("caguid");
    reveal_strlit("switchguid");
    let digits = decimal(node.ports as nat);
    let kind = kind_word(node.kind);
    law_decimals_are_read_back(node.ports as nat);
    lemma_decimal_free_of(node.ports as nat, ' ');
    lemma_decimal_free_of(node.ports as nat, '"');
    law_names_stay_in_their_quotes(name);
    let a = seq!['"'] + name + seq!['"'];
    assert(b.node =~= kind + seq![' '] + (digits + seq![' '] + a));
    assert(free_of(kind, ' '));
    lemma_divide(kind, ' ', digits + seq![' '] + a);
    lemma_divide(digits, ' ', a);
    let head = kind + seq![' '] + digits + seq![' '];
    let none = Seq::<char>::empty();
    assert(b.node =~= head + seq!['"'] + (name + seq!['"'] + none));
    assert(free_of(head, '"'));
    assert(free_of(name, '"'));
    lemma_divide(head, '"', name + seq!['"'] + none);
    lemma_divide(name, '"', none);
    // The GUID.
    let word = guid_word(node.kind);
    let hex = padded(guid(index), 16, 16);
    assert(pow(16, 16) == 0x1_0000_0000_0000_0000) by {
        reveal_with_fuel(pow, 17);
    }
    law_padded_numbers_are_read_back(guid(index), 16, 16);
    let front = word + seq!['=', '0'];
    assert(b.guid =~= front + seq!['x'] + hex);
    assert(free_of(front, 'x'));
    lemma_divide(front, 'x', hex);
}

/// The text begins with a line of comment, and every node of the graph has one block in it, in
/// lexical order. The block tells the node's kind, its ports and its name, and a GUID of its own;
/// and it has a line for each port that a connected cable is plugged into, in the order of the
/// ports, which tells where that cable leads, and no other line.
pub proof fn law_text_tells_the_graph(t: TopologyView)
    requires
        t.valid(),
    ensures
        t.text().len() > 0 && t.text()[0] == '#',
        read_text(t.text()).len() == t.nodes.len(),
        forall|i: int, j: int|
            0 <= i < j < read_text(t.text()).len() ==> before(
                (#[trigger] read_text(t.text())[i]).name(),
                (#[trigger] read_text(t.text())[j]).name(),
            ),
        forall|name: Seq<char>| #[trigger]
            t.nodes.contains_key(name) <==> exists|i: int|
                0 <= i < read_text(t.text()).len() && (#[trigger] read_text(t.text())[i]).name()
                    == name,
        forall|i: int|
            0 <= i < read_text(t.text()).len() ==> block_is_right(
                t,
                i,
                #[trigger] read_text(t.text())[i],
            ),
{
    let names = roster(t.nodes);
    law_roster_lists_every_node_once(t, names);
    assert forall|i: int| 0 <= i < names.len() implies t.nodes.contains_key(#[trigger] names[i]) by {
        assert(names.contains(names[i]));
    }
    reveal_strlit("# patchbay IB graph; LIDs and LFTs are assigned by OpenSM.\n");
    let header = "# patchbay IB graph; LIDs and LFTs are assigned by OpenSM.\n"@;
    let comment = header.drop_last();
    let blocks = t.node_blocks(names, names.len());
    assert(header.last() == '\n');
    assert(free_of(comment, '\n'));
    assert(t.text() =~= comment + seq!['\n'] + blocks);
    lemma_divide(comment, '\n', blocks);
    let none = Seq::<char>::empty();
    assert(blocks + none =~= blocks);
    lemma_read_blocks(t, names, names.len(), none);
    let read = read_text(t.text());
    assert(read =~= Seq::new(names.len(), |i: int| expected_block(t, i as nat, names[i])));
    assert forall|i: int| 0 <= i < read.len() implies block_is_right(t, i, #[trigger] read[i])
        && read[i].name() == names[i] by {
        let name = names[i];
        assert(t.nodes.contains_key(name));
        let node = t.nodes[name];
        lemma_heads_are_read(i as nat, name, node, read[i]);
        lemma_expected_cables(t, name, node.ports as nat);
        lemma_block_leads(t, i, name, read[i]);
    }
    assert forall|name: Seq<char>| #[trigger] t.nodes.contains_key(name) <==> exists|i: int|
        0 <= i < read.len() && (#[trigger] read[i]).name() == name by {
        if t.nodes.contains_key(name) {
            assert(names.contains(name));
            let i = choose|i: int| 0 <= i < names.len() && names[i] == name;
            assert(read[i].name() == name);
        }
        if exists|i: int| 0 <= i < read.len() && (#[trigger] read[i]).name() == name {
            let i = choose|i: int| 0 <= i < read.len() && (#[trigger] read[i]).name() == name;
            assert(names[i] == name);
        }
    }
    assert forall|i: int, j: int| 0 <= i < j < read.len() implies before(
        (#[trigger] read[i]).name(),
        (#[trigger] read[j]).name(),
    ) by {
        assert(read[i].name() == names[i]);
        assert(read[j].name() == names[j]);
    }
}

/// The `i`-th block tells the node that it names.
pub open spec fn block_is_right(t: TopologyView, i: int, b: BlockRead) -> bool {
    let node = t.nodes[b.name()];
    let name = b.name();
    &&& t.nodes.contains_key(name)
    &&& match node.kind {
        IbNodeKind::Hca => b.tells("Hca"@, node.ports as nat, name),
        IbNodeKind::Switch => b.tells("Switch"@, node.ports as nat, name),
    }
    &&& match node.kind {
        IbNodeKind::Hca => b.tells_guid("caguid"@, (0x1000_0000_0000_0000 + 256 * i) as nat),
        IbNodeKind::Switch => b.tells_guid("switchguid"@, (0x1000_0000_0000_0000 + 256 * i) as nat),
    }
    &&& forall|k: int| 0 <= k < b.cables.len() ==> (#[trigger] b.cables[k]).is_plain()
    &&& forall|k: int, l: int|
        0 <= k < l < b.cables.len() ==> (#[trigger] b.cables[k]).port < (
        #[trigger] b.cables[l]).port
    &&& forall|k: int|
        0 <= k < b.cables.len() ==> 1 <= (#[trigger] b.cables[k]).port <= node.ports
            && b.cables[k].far <= 255
    &&& forall|near: EndView, far: EndView|
        near.node == name && 1 <= near.port <= node.ports ==> (#[trigger] t.joins(near, far)
            <==> b.leads(near.port as nat, far.node, far.port as nat))
}

proof fn lemma_block_leads(t: TopologyView, index: int, name: Seq<char>, b: BlockRead)
    requires
        t.valid(),
        0 <= index < 1024,
        t.nodes.contains_key(name),
        b == expected_block(t, index as nat, name),
        b.name() == name,
        b.tells(kind_word(t.nodes[name].kind), t.nodes[name].ports as nat, name),
        b.tells_guid(guid_word(t.nodes[name].kind), (0x1000_0000_0000_0000 + 256 * index) as nat),
    ensures
        block_is_right(t, index, b),
{
    let node = t.nodes[name];
    lemma_expected_cables(t, name, node.ports as nat);
    assert forall|near: EndView, far: EndView|
        near.node == name && 1 <= near.port <= node.ports implies (#[trigger] t.joins(near, far)
        <==> b.leads(near.port as nat, far.node, far.port as nat)) by {
        lemma_joins(t, near, far);
        assert(near == (EndView { node: name, port: near.port }));
        if t.joins(near, far) {
            assert(t.peer(EndView { node: name, port: near.port }) == Some(far));
        }
        if b.leads(near.port as nat, far.node, far.port as nat) {
            let i = choose|i: int|
                0 <= i < b.cables.len() && (#[trigger] b.cables[i]).port == near.port as nat
                    && b.cables[i].peer == far.node && b.cables[i].far == far.port as nat;
            assert(t.peer(EndView { node: name, port: b.cables[i].port as u8 }) == Some(
                EndView { node: b.cables[i].peer, port: b.cables[i].far as u8 },
            ));
        }
    }
}

/// Graphs that differ in their nodes or in the ports that connected cables join are emitted as
/// different texts.
pub proof fn law_different_graphs_have_different_texts(t: TopologyView, u: TopologyView, a: EndView, b: EndView)
    requires
        t.valid(),
        u.valid(),
        t.text() == u.text(),
    ensures
        t.nodes == u.nodes,
        t.joins(a, b) == u.joins(a, b),
{
    law_text_tells_the_graph(t);
    law_text_tells_the_graph(u);
    let read = read_text(t.text());
    assert forall|name: Seq<char>| #[trigger] t.nodes.contains_key(name) implies u.nodes[name]
        == t.nodes[name] by {
        let i = choose|i: int| 0 <= i < read.len() && (#[trigger] read[i]).name() == name;
        assert(block_is_right(t, i, read[i]) && block_is_right(u, i, read[i]));
        lemma_kinds_differ(read[i], t.nodes[name], u.nodes[name]);
    }
    assert(t.nodes =~= u.nodes) by {
        assert forall|name: Seq<char>| t.nodes.contains_key(name) == u.nodes.contains_key(name) by {}
    }
    if t.joins(a, b) || u.joins(a, b) {
        lemma_joined_ports(t, a, b);
        lemma_joined_ports(u, a, b);
        let i = choose|i: int| 0 <= i < read.len() && (#[trigger] read[i]).name() == a.node;
        assert(block_is_right(t, i, read[i]) && block_is_right(u, i, read[i]));
    }
}

proof fn lemma_joined_ports(t: TopologyView, a: EndView, b: EndView)
    requires
        t.valid(),
    ensures
        t.joins(a, b) ==> t.has_port(a) && t.has_port(b),
{
    if t.joins(a, b) {
        let i = choose|id: Seq<char>|
            t.connects(id, a) && (t.links[id].ends == (a, b) || t.links[id].ends == (b, a));
        assert(t.links.contains_key(i));
    }
}

proof fn lemma_kinds_differ(b: BlockRead, x: NodeView, y: NodeView)
    requires
        match x.kind {
            IbNodeKind::Hca => b.tells("Hca"@, x.ports as nat, b.name()),
            IbNodeKind::Switch => b.tells("Switch"@, x.ports as nat, b.name()),
        },
        match y.kind {
            IbNodeKind::Hca => b.tells("Hca"@, y.ports as nat, b.name()),
            IbNodeKind::Switch => b.tells("Switch"@, y.ports as nat, b.name()),
        },
    ensures
        x == y,
{
    reveal_strlit("Hca");
    reveal_strlit("Switch");
    if x.kind != y.kind {
        assert(b.node[0] == 'H');
        assert(b.node[0] == 'S');
    }
}

} // verus!

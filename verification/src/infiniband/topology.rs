//! An InfiniBand port graph and the text in which the native simulator reads it.

use crate::registry::{has_key, key_at, ordered, table, Keyed, Registry};
use crate::registry::{lemma_table_at, lemma_table_len};
use crate::text::{before, decimal, in_order, is_word, padded, push_decimal, push_padded, same_text, word};
use crate::text::{lemma_order_unique, lemma_word_bytes};
use vstd::prelude::*;
use vstd::std_specs::iter::IteratorSpec;
use vstd::string::*;

verus! {

/// Longest node name, in bytes, that the native simulator holds.
pub const NODE_ID_CAPACITY: usize = 31;

/// Most nodes of one subnet.
pub const MAX_NODES: usize = 1024;

/// Most ports of one subnet, port zero of each node included.
pub const MAX_PORTS: u64 = 32768;

/// The two native IB node types.
#[derive(Clone, Copy, Debug, PartialEq, Eq, Structural)]
pub enum IbNodeKind {
    /// Channel adapter. Native UMAD applications attach to port one.
    Hca,
    /// Switch, with its internal management port zero.
    Switch,
}

/// A node of the subnet.
#[derive(Clone, Debug)]
pub struct IbNode {
    /// Native node identifier, also used by `SIM_HOST`.
    pub name: String,
    /// Node type.
    pub kind: IbNodeKind,
    /// Physical port count, excluding switch port zero.
    pub ports: u8,
}

/// A physical IB cable endpoint.
#[derive(Clone, Debug, PartialEq, Eq, PartialOrd, Ord)]
pub struct IbEndpoint {
    /// Node identifier.
    pub node: String,
    /// One-based physical port number.
    pub port: u8,
}

/// Physical cable and administrative state.
#[derive(Clone, Debug)]
pub struct IbLink {
    /// Identifier used for fault injection.
    pub id: String,
    /// Exclusively owned physical ports.
    pub endpoints: [IbEndpoint; 2],
    /// Whether the cable is connected.
    pub up: bool,
}

/// Why a graph is refused.
#[derive(Clone, Copy, Debug, PartialEq, Eq, Structural)]
pub enum TopologyError {
    InvalidNode,
    DuplicateNode,
    TooManyNodes,
    InvalidLinkId,
    SelfLink,
    UnknownNode,
    PortOutOfRange,
    PortTaken,
    Empty,
    TooManyPorts,
}

/// What a node is, apart from its name.
pub struct NodeView {
    pub kind: IbNodeKind,
    pub ports: u8,
}

/// A port of a named node.
pub struct EndView {
    pub node: Seq<char>,
    pub port: u8,
}

/// What a cable is, apart from its identifier.
pub struct LinkView {
    pub ends: (EndView, EndView),
    pub up: bool,
}

impl LinkView {
    /// The cable is plugged into the port `e`.
    pub open spec fn plugged(self, e: EndView) -> bool {
        self.ends.0 == e || self.ends.1 == e
    }

    /// Where the cable leads from the port `e`.
    pub open spec fn far_end(self, e: EndView) -> EndView {
        if self.ends.0 == e {
            self.ends.1
        } else {
            self.ends.0
        }
    }
}

/// A port graph: nodes by name and cables by identifier.
#[verifier::ext_equal]
pub struct TopologyView {
    pub nodes: Map<Seq<char>, NodeView>,
    pub links: Map<Seq<char>, LinkView>,
}

/// A name that the native simulator can hold and that no line of its console can misread.
pub open spec fn valid_node_name(name: Seq<char>) -> bool {
    1 <= name.len() <= NODE_ID_CAPACITY && word(name, true)
}

/// The nodes' names in lexical order.
pub open spec fn is_roster(nodes: Map<Seq<char>, NodeView>, names: Seq<Seq<char>>) -> bool {
    &&& in_order(names)
    &&& forall|k: Seq<char>| names.contains(k) == #[trigger] nodes.contains_key(k)
}

pub open spec fn roster(nodes: Map<Seq<char>, NodeView>) -> Seq<Seq<char>> {
    choose|names: Seq<Seq<char>>| is_roster(nodes, names)
}

/// The ports of the first `n` nodes named, with port zero of each.
pub open spec fn port_count(
    nodes: Map<Seq<char>, NodeView>,
    names: Seq<Seq<char>>,
    n: nat,
) -> nat
    decreases n,
{
    if n == 0 {
        0
    } else {
        port_count(nodes, names, (n - 1) as nat) + nodes[names[n - 1]].ports as nat + 1
    }
}

impl TopologyView {
    /// The cable `id` is plugged into the port `e`.
    pub open spec fn uses(self, id: Seq<char>, e: EndView) -> bool {
        self.links.contains_key(id) && self.links[id].plugged(e)
    }

    /// Some cable is plugged into the port `e`, whether up or down.
    pub open spec fn taken(self, e: EndView) -> bool {
        exists|id: Seq<char>| self.uses(id, e)
    }

    /// The cable `id` is up and plugged into the port `e`.
    pub open spec fn connects(self, id: Seq<char>, e: EndView) -> bool {
        self.uses(id, e) && self.links[id].up
    }

    /// A connected cable joins the ports `a` and `b`, whichever of them is its first end.
    pub open spec fn joins(self, a: EndView, b: EndView) -> bool {
        exists|id: Seq<char>|
            self.connects(id, a) && (self.links[id].ends == (a, b) || self.links[id].ends == (b, a))
    }

    /// Where the connected cable at the port `e` leads, if there is one.
    pub open spec fn peer(self, e: EndView) -> Option<EndView> {
        if exists|id: Seq<char>| self.connects(id, e) {
            let id = choose|id: Seq<char>| self.connects(id, e);
            Some(self.links[id].far_end(e))
        } else {
            None
        }
    }

    /// The port `e` is a physical port of a node of the graph.
    pub open spec fn has_port(self, e: EndView) -> bool {
        self.nodes.contains_key(e.node) && 1 <= e.port <= self.nodes[e.node].ports
    }

    /// A graph that can be: well-named nodes with ports, each cable between ports of two
    /// different nodes, no port with two cables.
    pub open spec fn valid(self) -> bool {
        &&& self.nodes.dom().finite()
        &&& self.nodes.len() <= MAX_NODES
        &&& forall|name: Seq<char>| #[trigger]
            self.nodes.contains_key(name) ==> valid_node_name(name) && self.nodes[name].ports >= 1
        &&& forall|id: Seq<char>| #[trigger]
            self.links.contains_key(id) ==> {
                &&& id.len() > 0
                &&& self.links[id].ends.0.node != self.links[id].ends.1.node
                &&& self.has_port(self.links[id].ends.0)
                &&& self.has_port(self.links[id].ends.1)
            }
        &&& forall|i: Seq<char>, j: Seq<char>, e: EndView|
            #[trigger] self.uses(i, e) && #[trigger] self.uses(j, e) ==> i == j
    }

    pub open spec fn with_node(self, name: Seq<char>, node: NodeView) -> TopologyView {
        TopologyView { nodes: self.nodes.insert(name, node), ..self }
    }

    pub open spec fn with_link(self, id: Seq<char>, link: LinkView) -> TopologyView {
        TopologyView { links: self.links.insert(id, link), ..self }
    }

    /// The graph with the cable `id` connected or disconnected.
    pub open spec fn with_link_up(self, id: Seq<char>, up: bool) -> TopologyView {
        self.with_link(id, LinkView { up, ..self.links[id] })
    }

    /// Why a node is refused, if it is.
    pub open spec fn node_refusal(self, name: Seq<char>, ports: u8) -> Option<TopologyError> {
        if !valid_node_name(name) || ports == 0 {
            Some(TopologyError::InvalidNode)
        } else if self.nodes.contains_key(name) {
            Some(TopologyError::DuplicateNode)
        } else if self.nodes.len() >= MAX_NODES {
            Some(TopologyError::TooManyNodes)
        } else {
            None
        }
    }

    /// Why a port cannot take a cable, if it cannot.
    pub open spec fn end_refusal(self, e: EndView) -> Option<TopologyError> {
        if !self.nodes.contains_key(e.node) {
            Some(TopologyError::UnknownNode)
        } else if !self.has_port(e) {
            Some(TopologyError::PortOutOfRange)
        } else if self.taken(e) {
            Some(TopologyError::PortTaken)
        } else {
            None
        }
    }

    /// Why a cable is refused, if it is.
    pub open spec fn link_refusal(self, id: Seq<char>, ends: (EndView, EndView)) -> Option<
        TopologyError,
    > {
        if id.len() == 0 || self.links.contains_key(id) {
            Some(TopologyError::InvalidLinkId)
        } else if ends.0.node == ends.1.node {
            Some(TopologyError::SelfLink)
        } else if self.end_refusal(ends.0) is Some {
            self.end_refusal(ends.0)
        } else {
            self.end_refusal(ends.1)
        }
    }

    /// All ports of the graph, port zero of each node included.
    pub open spec fn ports(self) -> nat {
        port_count(self.nodes, roster(self.nodes), roster(self.nodes).len())
    }

    /// Why a graph cannot be emitted, if it cannot.
    pub open spec fn render_refusal(self) -> Option<TopologyError> {
        if self.nodes.len() == 0 {
            Some(TopologyError::Empty)
        } else if self.ports() > MAX_PORTS {
            Some(TopologyError::TooManyPorts)
        } else {
            None
        }
    }

    /// One line for the port `port` of the node `name`, if a connected cable is plugged in there.
    pub open spec fn port_line(self, name: Seq<char>, port: u8) -> Seq<char> {
        match self.peer(EndView { node: name, port }) {
            Some(peer) => cable_line(port, peer),
            None => seq![],
        }
    }

    /// The lines of the first `n` ports of the node `name`, in the order of the ports.
    pub open spec fn port_lines(self, name: Seq<char>, n: nat) -> Seq<char>
        decreases n,
    {
        if n == 0 {
            seq![]
        } else {
            self.port_lines(name, (n - 1) as nat) + self.port_line(name, n as u8)
        }
    }

    /// The lines of the node `name`, which is the `index`-th in lexical order.
    pub open spec fn node_block(self, index: nat, name: Seq<char>) -> Seq<char> {
        let node = self.nodes[name];
        guid_line(index, node.kind) + node_line(name, node) + self.port_lines(
            name,
            node.ports as nat,
        ) + "\n"@
    }

    /// The lines of the first `n` nodes named.
    pub open spec fn node_blocks(self, names: Seq<Seq<char>>, n: nat) -> Seq<char>
        decreases n,
    {
        if n == 0 {
            seq![]
        } else {
            self.node_blocks(names, (n - 1) as nat) + self.node_block((n - 1) as nat, names[n - 1])
        }
    }

    /// The native topology text: each node in lexical order, with its connected ports.
    pub open spec fn text(self) -> Seq<char> {
        "# patchbay IB graph; LIDs and LFTs are assigned by OpenSM.\n"@ + self.node_blocks(
            roster(self.nodes),
            roster(self.nodes).len(),
        )
    }
}

/// The number by which the `index`-th node is known to the subnet manager.
pub open spec fn guid(index: nat) -> nat {
    0x1000_0000_0000_0000 + index * 256
}

pub open spec fn guid_line(index: nat, kind: IbNodeKind) -> Seq<char> {
    (match kind {
        IbNodeKind::Hca => "caguid"@,
        IbNodeKind::Switch => "switchguid"@,
    }) + "=0x"@ + padded(guid(index), 16, 16) + "\n"@
}

pub open spec fn node_line(name: Seq<char>, node: NodeView) -> Seq<char> {
    (match node.kind {
        IbNodeKind::Hca => "Hca"@,
        IbNodeKind::Switch => "Switch"@,
    }) + " "@ + decimal(node.ports as nat) + " \""@ + name + "\"\n"@
}

/// The line of a port whose cable leads to `peer`.
pub open spec fn cable_line(port: u8, peer: EndView) -> Seq<char> {
    "["@ + decimal(port as nat) + "] \""@ + peer.node + "\"["@ + decimal(peer.port as nat)
        + "]\n"@
}

impl View for IbEndpoint {
    type V = EndView;

    open spec fn view(&self) -> EndView {
        EndView { node: self.node@, port: self.port }
    }
}

impl Keyed for IbNode {
    type Entry = NodeView;

    open spec fn key(&self) -> Seq<char> {
        self.name@
    }

    open spec fn entry(&self) -> NodeView {
        NodeView { kind: self.kind, ports: self.ports }
    }

    fn key_text(&self) -> (r: &str) {
        self.name.as_str()
    }
}

impl Keyed for IbLink {
    type Entry = LinkView;

    open spec fn key(&self) -> Seq<char> {
        self.id@
    }

    open spec fn entry(&self) -> LinkView {
        LinkView { ends: (self.endpoints@[0]@, self.endpoints@[1]@), up: self.up }
    }

    fn key_text(&self) -> (r: &str) {
        self.id.as_str()
    }
}

impl IbEndpoint {
    /// Construct an endpoint, validated when added to the topology.
    pub fn new(node: &str, port: u8) -> (r: Self)
        ensures
            r@ == (EndView { node: node@, port }),
    {
        IbEndpoint { node: node.to_owned(), port }
    }

    fn same(&self, other: &IbEndpoint) -> (r: bool)
        ensures
            r == (self@ == other@),
    {
        self.port == other.port && same_text(self.node.as_str(), other.node.as_str())
    }
}

/// An IB port graph. OpenSM, not patchbay, assigns LIDs and forwarding tables.
#[derive(Clone, Debug)]
pub struct IbTopology {
    nodes: Registry<IbNode>,
    links: Registry<IbLink>,
}

impl View for IbTopology {
    type V = TopologyView;

    closed spec fn view(&self) -> TopologyView {
        TopologyView { nodes: table(self.nodes@), links: table(self.links@) }
    }
}

impl IbTopology {
    pub closed spec fn wf(&self) -> bool {
        self.nodes.wf() && self.links.wf() && self@.valid()
    }

    /// The graph of a well-formed topology is valid.
    pub proof fn lemma_valid(&self)
        requires
            self.wf(),
        ensures
            self@.valid(),
    {
    }

    /// The nodes in lexical order.
    pub closed spec fn node_list(&self) -> Seq<IbNode> {
        self.nodes@
    }

    /// The cables in the order of their identifiers.
    pub closed spec fn link_list(&self) -> Seq<IbLink> {
        self.links@
    }

    /// Start an empty subnet.
    pub fn new() -> (r: Self)
        ensures
            r.wf(),
            r@ == (TopologyView { nodes: Map::empty(), links: Map::empty() }),
    {
        let r = IbTopology { nodes: Registry::new(), links: Registry::new() };
        proof {
            assert(r@.nodes =~= Map::<Seq<char>, NodeView>::empty());
            assert(r@.links =~= Map::<Seq<char>, LinkView>::empty());
        }
        r
    }

    /// Add a node with a native-compatible name and 1..255 physical ports.
    pub fn add_node(&mut self, name: &str, kind: IbNodeKind, ports: u8) -> (r: Result<
        (),
        TopologyError,
    >)
        requires
            old(self).wf(),
        ensures
            final(self).wf(),
            match r {
                Ok(()) => {
                    &&& old(self)@.node_refusal(name@, ports) is None
                    &&& final(self)@ == old(self)@.with_node(name@, NodeView { kind, ports })
                },
                Err(e) => {
                    &&& old(self)@.node_refusal(name@, ports) == Some(e)
                    &&& *final(self) == *old(self)
                },
            },
    {
        if name.is_empty() || !is_word(name, true) {
            return Err(TopologyError::InvalidNode);
        }
        proof {
            lemma_word_bytes(name@, true);
        }
        if name.as_bytes().len() > NODE_ID_CAPACITY || ports == 0 {
            return Err(TopologyError::InvalidNode);
        }
        if self.nodes.get(name).is_some() {
            return Err(TopologyError::DuplicateNode);
        }
        proof {
            lemma_table_len(self.nodes@);
        }
        if self.nodes.items().len() >= MAX_NODES {
            return Err(TopologyError::TooManyNodes);
        }
        self.nodes.insert(IbNode { name: name.to_owned(), kind, ports });
        proof {
            lemma_with_node(old(self)@, name@, NodeView { kind, ports });
            assert(self@ =~= old(self)@.with_node(name@, NodeView { kind, ports }));
        }
        Ok(())
    }

    /// Whether some cable, up or down, is plugged into the port.
    fn is_taken(&self, e: &IbEndpoint) -> (r: bool)
        requires
            self.wf(),
        ensures
            r == self@.taken(e@),
    {
        let links = self.links.items();
        let mut i: usize = 0;
        while i < links.len()
            invariant
                i <= links@.len(),
                links@ == self.links@,
                self.wf(),
                forall|k: int| 0 <= k < i ==> !(#[trigger] links@[k]).entry().plugged(e@),
            decreases links@.len() - i,
        {
            let l = &links[i];
            if l.endpoints[0].same(e) || l.endpoints[1].same(e) {
                proof {
                    lemma_table_at(self.links@, i as int);
                    assert(self@.uses(l.key(), e@));
                }
                return true;
            }
            i = i + 1;
        }
        proof {
            if self@.taken(e@) {
                let id = choose|id: Seq<char>| self@.uses(id, e@);
                let k = key_at(self.links@, id);
                assert(has_key(self.links@, id));
                assert(links@[k].entry().plugged(e@));
            }
        }
        false
    }

    fn check_end(&self, e: &IbEndpoint) -> (r: Result<(), TopologyError>)
        requires
            self.wf(),
        ensures
            match r {
                Ok(()) => self@.end_refusal(e@) is None,
                Err(x) => self@.end_refusal(e@) == Some(x),
            },
    {
        match self.nodes.get(e.node.as_str()) {
            None => Err(TopologyError::UnknownNode),
            Some(n) => {
                if e.port == 0 || e.port > n.ports {
                    Err(TopologyError::PortOutOfRange)
                } else if self.is_taken(e) {
                    Err(TopologyError::PortTaken)
                } else {
                    Ok(())
                }
            },
        }
    }

    /// Add a cable. Down cables still reserve both endpoints.
    pub fn add_link(&mut self, id: &str, endpoints: [IbEndpoint; 2], up: bool) -> (r: Result<
        (),
        TopologyError,
    >)
        requires
            old(self).wf(),
        ensures
            final(self).wf(),
            match r {
                Ok(()) => {
                    &&& old(self)@.link_refusal(id@, (endpoints@[0]@, endpoints@[1]@)) is None
                    &&& final(self)@ == old(self)@.with_link(
                        id@,
                        LinkView { ends: (endpoints@[0]@, endpoints@[1]@), up },
                    )
                },
                Err(e) => {
                    &&& old(self)@.link_refusal(id@, (endpoints@[0]@, endpoints@[1]@)) == Some(e)
                    &&& *final(self) == *old(self)
                },
            },
    {
        if id.is_empty() || self.links.get(id).is_some() {
            return Err(TopologyError::InvalidLinkId);
        }
        if same_text(endpoints[0].node.as_str(), endpoints[1].node.as_str()) {
            return Err(TopologyError::SelfLink);
        }
        if let Err(e) = self.check_end(&endpoints[0]) {
            return Err(e);
        }
        if let Err(e) = self.check_end(&endpoints[1]) {
            return Err(e);
        }
        let ghost link = LinkView { ends: (endpoints@[0]@, endpoints@[1]@), up };
        self.links.insert(IbLink { id: id.to_owned(), endpoints, up });
        proof {
            lemma_with_link(old(self)@, id@, link);
            assert(self@ =~= old(self)@.with_link(id@, link));
        }
        Ok(())
    }

    /// Look up a node.
    pub fn node(&self, name: &str) -> (r: Option<&IbNode>)
        requires
            self.wf(),
        ensures
            match r {
                Some(n) => self@.nodes.contains_key(name@) && n.name@ == name@ && n.entry()
                    == self@.nodes[name@],
                None => !self@.nodes.contains_key(name@),
            },
    {
        self.nodes.get(name)
    }

    /// Look up a cable.
    pub fn link(&self, id: &str) -> (r: Option<&IbLink>)
        requires
            self.wf(),
        ensures
            match r {
                Some(l) => self@.links.contains_key(id@) && l.id@ == id@ && l.entry()
                    == self@.links[id@],
                None => !self@.links.contains_key(id@),
            },
    {
        self.links.get(id)
    }

    /// Nodes in lexical order.
    pub fn nodes(&self) -> (r: std::slice::Iter<'_, IbNode>)
        requires
            self.wf(),
        ensures
            r.remaining() == self.node_list().as_ref(),
            ordered(self.node_list()),
            table(self.node_list()) == self@.nodes,
    {
        self.nodes.items().as_slice().iter()
    }

    /// Cables in identifier order.
    pub fn links(&self) -> (r: std::slice::Iter<'_, IbLink>)
        requires
            self.wf(),
        ensures
            r.remaining() == self.link_list().as_ref(),
            ordered(self.link_list()),
            table(self.link_list()) == self@.links,
    {
        self.links.items().as_slice().iter()
    }

    /// Connects or disconnects the cable `id`.
    pub fn set_up(&mut self, id: &str, up: bool)
        requires
            old(self).wf(),
            old(self)@.links.contains_key(id@),
        ensures
            final(self).wf(),
            final(self)@ == old(self)@.with_link_up(id@, up),
    {
        match self.links.find(id) {
            Ok(p) => {
                let l = &self.links.items()[p];
                let a = IbEndpoint { node: l.endpoints[0].node.clone(), port: l.endpoints[0].port };
                let b = IbEndpoint { node: l.endpoints[1].node.clone(), port: l.endpoints[1].port };
                let link = IbLink { id: l.id.clone(), endpoints: [a, b], up };
                proof {
                    lemma_table_at(self.links@, p as int);
                    assert(link.entry() == (LinkView { up, ..self@.links[id@] }));
                }
                self.links.replace(p, link);
                proof {
                    assert(self@ =~= old(self)@.with_link_up(id@, up));
                    lemma_with_link_up(old(self)@, id@, up);
                }
            },
            Err(_) => {},
        }
    }

    /// The name of the first node in lexical order.
    pub fn first_node(&self) -> (r: &str)
        requires
            self.wf(),
            self@.nodes.len() > 0,
        ensures
            r@ == roster(self@.nodes)[0],
            self@.nodes.contains_key(r@),
    {
        proof {
            lemma_roster(self.nodes@);
            lemma_table_len(self.nodes@);
            lemma_table_at(self.nodes@, 0);
        }
        self.nodes.items()[0].name.as_str()
    }

    /// The number of nodes.
    pub fn node_count(&self) -> (r: usize)
        requires
            self.wf(),
        ensures
            r == self@.nodes.len(),
            r <= MAX_NODES,
    {
        proof {
            lemma_table_len(self.nodes@);
        }
        self.nodes.items().len()
    }

    /// All ports of the graph, port zero of each node included.
    pub fn total_ports(&self) -> (r: u64)
        requires
            self.wf(),
        ensures
            r == self@.ports(),
            r <= 256 * self@.nodes.len(),
            self@.nodes.len() <= MAX_NODES,
    {
        let nodes = self.nodes.items();
        let ghost names = names_of(nodes@);
        proof {
            lemma_roster(nodes@);
            lemma_table_len(nodes@);
        }
        let mut sum: u64 = 0;
        let mut i: usize = 0;
        while i < nodes.len()
            invariant
                i <= nodes@.len() <= MAX_NODES,
                nodes@ == self.nodes@,
                ordered(nodes@),
                names == names_of(nodes@),
                sum == port_count(self@.nodes, names, i as nat),
                sum <= 256 * i,
            decreases nodes@.len() - i,
        {
            proof {
                lemma_table_at(nodes@, i as int);
            }
            sum = sum + nodes[i].ports as u64 + 1;
            i = i + 1;
        }
        sum
    }

    /// Where the connected cables of a node lead, by port.
    fn peers(&self, n: &IbNode) -> (r: Vec<Option<&IbEndpoint>>)
        requires
            self.wf(),
            self@.nodes.contains_key(n.name@),
            self@.nodes[n.name@] == n.entry(),
        ensures
            r@.len() == n.ports + 1,
            forall|p: u8|
                p <= n.ports ==> end_view(#[trigger] r@[p as int]) == self@.peer(
                    EndView { node: n.name@, port: p },
                ),
    {
        let mut t: Vec<Option<&IbEndpoint>> = Vec::new();
        let mut p: usize = 0;
        while p < n.ports as usize + 1
            invariant
                p <= n.ports + 1,
                t@.len() == p,
                forall|k: int| 0 <= k < p ==> #[trigger] t@[k] is None,
            decreases n.ports + 1 - p,
        {
            t.push(None);
            p = p + 1;
        }
        let links = self.links.items();
        let mut i: usize = 0;
        while i < links.len()
            invariant
                i <= links@.len(),
                links@ == self.links@,
                self.wf(),
                self@.nodes.contains_key(n.name@),
                self@.nodes[n.name@] == n.entry(),
                t@.len() == n.ports + 1,
                forall|p: u8|
                    p <= n.ports ==> leads(
                        links@.take(i as int),
                        EndView { node: n.name@, port: p },
                        end_view(#[trigger] t@[p as int]),
                    ),
            decreases links@.len() - i,
        {
            let l = &links[i];
            let ghost before_i = links@.take(i as int);
            let ghost after_i = links@.take(i + 1);
            let ghost t0 = t@;
            proof {
                lemma_table_at(links@, i as int);
                assert(after_i =~= before_i.push(links@[i as int]));
                assert(self@.links.contains_key(l.id@));
                assert(self@.has_port(l.entry().ends.0));
                assert(self@.has_port(l.entry().ends.1));
            }
            if l.up {
                if same_text(l.endpoints[0].node.as_str(), n.name.as_str()) {
                    t[l.endpoints[0].port as usize] = Some(&l.endpoints[1]);
                } else if same_text(l.endpoints[1].node.as_str(), n.name.as_str()) {
                    t[l.endpoints[1].port as usize] = Some(&l.endpoints[0]);
                }
            }
            proof {
                assert forall|p: u8| p <= n.ports implies leads(
                    after_i,
                    EndView { node: n.name@, port: p },
                    end_view(#[trigger] t@[p as int]),
                ) by {
                    let e = EndView { node: n.name@, port: p };
                    assert(leads(before_i, e, end_view(t0[p as int])));
                    lemma_leads_push(before_i, links@[i as int], e, end_view(t0[p as int]));
                }
            }
            i = i + 1;
        }
        proof {
            assert(links@.take(i as int) =~= links@);
            assert forall|p: u8| p <= n.ports implies end_view(#[trigger] t@[p as int])
                == self@.peer(EndView { node: n.name@, port: p }) by {
                lemma_peer(self.links@, self@, EndView { node: n.name@, port: p }, end_view(t@[p as int]));
            }
        }
        t
    }

    /// Appends the lines of a node.
    fn push_node(&self, out: &mut String, index: usize, n: &IbNode)
        requires
            self.wf(),
            self@.nodes.contains_key(n.name@),
            self@.nodes[n.name@] == n.entry(),
            index < MAX_NODES,
        ensures
            final(out)@ == old(out)@ + self@.node_block(index as nat, n.name@),
    {
        let ghost start = out@;
        push_guid_line(out, index, n.kind);
        push_node_line(out, n);
        let ghost head = start + guid_line(index as nat, n.kind) + node_line(n.name@, n.entry());
        assert(out@ == head);
        let peers = self.peers(n);
        let mut p: u8 = 0;
        proof {
            assert(out@ =~= head + self@.port_lines(n.name@, 0));
        }
        while p < n.ports
            invariant
                p <= n.ports,
                peers@.len() == n.ports + 1,
                forall|p: u8|
                    p <= n.ports ==> end_view(#[trigger] peers@[p as int]) == self@.peer(
                        EndView { node: n.name@, port: p },
                    ),
                out@ == head + self@.port_lines(n.name@, p as nat),
            decreases n.ports - p,
        {
            let ghost lines = out@;
            p = p + 1;
            assert(end_view(peers@[p as int]) == self@.peer(EndView { node: n.name@, port: p }));
            if let Some(peer) = peers[p as usize] {
                push_cable_line(out, p, peer);
            }
            proof {
                assert(p as nat as u8 == p);
                assert(out@ =~= lines + self@.port_line(n.name@, p));
                assert(out@ =~= head + self@.port_lines(n.name@, p as nat));
            }
        }
        out.append("\n");
        assert(out@ =~= start + self@.node_block(index as nat, n.name@));
    }

    /// Emit native topology text. Disconnected cables are omitted until restored.
    pub fn render(&self) -> (r: Result<String, TopologyError>)
        requires
            self.wf(),
        ensures
            match r {
                Ok(text) => self@.render_refusal() is None && text@ == self@.text(),
                Err(e) => self@.render_refusal() == Some(e),
            },
    {
        let nodes = self.nodes.items();
        let ghost names = names_of(nodes@);
        proof {
            lemma_roster(nodes@);
            lemma_table_len(nodes@);
        }
        if nodes.len() == 0 {
            return Err(TopologyError::Empty);
        }
        if self.total_ports() > MAX_PORTS {
            return Err(TopologyError::TooManyPorts);
        }
        let ghost header = "# patchbay IB graph; LIDs and LFTs are assigned by OpenSM.\n"@;
        let mut out = "# patchbay IB graph; LIDs and LFTs are assigned by OpenSM.\n".to_owned();
        proof {
            assert(out@ =~= header + self@.node_blocks(names, 0));
        }
        let mut i: usize = 0;
        while i < nodes.len()
            invariant
                i <= nodes@.len() <= MAX_NODES,
                nodes@ == self.nodes@,
                self.wf(),
                names == names_of(nodes@),
                out@ == header + self@.node_blocks(names, i as nat),
            decreases nodes@.len() - i,
        {
            let n = &nodes[i];
            proof {
                lemma_table_at(nodes@, i as int);
                assert(names[i as int] == n.name@);
            }
            self.push_node(&mut out, i, n);
            proof {
                assert(out@ =~= header + self@.node_blocks(names, (i + 1) as nat));
            }
            i = i + 1;
        }
        Ok(out)
    }
}

impl Default for IbTopology {
    fn default() -> (r: Self)
        ensures
            r.wf(),
            r@ == (TopologyView { nodes: Map::empty(), links: Map::empty() }),
    {
        IbTopology::new()
    }
}

fn push_guid_line(out: &mut String, index: usize, kind: IbNodeKind)
    requires
        index < MAX_NODES,
    ensures
        final(out)@ == old(out)@ + guid_line(index as nat, kind),
{
    let ghost start = out@;
    match kind {
        IbNodeKind::Hca => out.append("caguid"),
        IbNodeKind::Switch => out.append("switchguid"),
    }
    out.append("=0x");
    push_padded(out, 0x1000_0000_0000_0000u64 + index as u64 * 256, 16, 16);
    out.append("\n");
    assert(out@ =~= start + guid_line(index as nat, kind));
}

fn push_node_line(out: &mut String, n: &IbNode)
    ensures
        final(out)@ == old(out)@ + node_line(n.name@, n.entry()),
{
    let ghost start = out@;
    match n.kind {
        IbNodeKind::Hca => out.append("Hca"),
        IbNodeKind::Switch => out.append("Switch"),
    }
    out.append(" ");
    push_decimal(out, n.ports as u64);
    out.append(" \"");
    out.append(n.name.as_str());
    out.append("\"\n");
    assert(out@ =~= start + node_line(n.name@, n.entry()));
}

fn push_cable_line(out: &mut String, port: u8, peer: &IbEndpoint)
    ensures
        final(out)@ == old(out)@ + cable_line(port, peer@),
{
    let ghost start = out@;
    out.append("[");
    push_decimal(out, port as u64);
    out.append("] \"");
    out.append(peer.node.as_str());
    out.append("\"[");
    push_decimal(out, peer.port as u64);
    out.append("]\n");
    assert(out@ =~= start + cable_line(port, peer@));
}

/// The port that a found endpoint names.
spec fn end_view(e: Option<&IbEndpoint>) -> Option<EndView> {
    match e {
        Some(x) => Some(x@),
        None => None,
    }
}

/// `r` is where a connected cable of `s` leads from the port `e`; `None` if there is no such cable.
spec fn leads(s: Seq<IbLink>, e: EndView, r: Option<EndView>) -> bool {
    match r {
        Some(x) => exists|k: int|
            0 <= k < s.len() && (#[trigger] s[k]).up && s[k].entry().plugged(e) && x
                == s[k].entry().far_end(e),
        None => forall|k: int| 0 <= k < s.len() ==> !((#[trigger] s[k]).up && s[k].entry().plugged(e)),
    }
}

proof fn lemma_leads_push(s: Seq<IbLink>, l: IbLink, e: EndView, r: Option<EndView>)
    requires
        leads(s, e, r),
    ensures
        l.up && l.entry().plugged(e) ==> leads(s.push(l), e, Some(l.entry().far_end(e))),
        !(l.up && l.entry().plugged(e)) ==> leads(s.push(l), e, r),
{
    let t = s.push(l);
    assert(t[s.len() as int] == l);
    if !(l.up && l.entry().plugged(e)) && r is Some {
        let k = choose|k: int|
            0 <= k < s.len() && (#[trigger] s[k]).up && s[k].entry().plugged(e) && r->0
                == s[k].entry().far_end(e);
        assert(t[k] == s[k]);
    }
}

proof fn lemma_peer(s: Seq<IbLink>, t: TopologyView, e: EndView, r: Option<EndView>)
    requires
        ordered(s),
        t.valid(),
        t.links == table(s),
        leads(s, e, r),
    ensures
        t.peer(e) == r,
{
    if exists|id: Seq<char>| t.connects(id, e) {
        let id = choose|id: Seq<char>| t.connects(id, e);
        assert(has_key(s, id));
        let j = key_at(s, id);
        lemma_table_at(s, j);
        assert(s[j].up && s[j].entry().plugged(e));
        let k = choose|k: int|
            0 <= k < s.len() && (#[trigger] s[k]).up && s[k].entry().plugged(e) && r->0
                == s[k].entry().far_end(e);
        lemma_table_at(s, k);
        assert(t.uses(s[k].key(), e));
        assert(t.uses(id, e));
    } else {
        if r is Some {
            let k = choose|k: int|
                0 <= k < s.len() && (#[trigger] s[k]).up && s[k].entry().plugged(e) && r->0
                    == s[k].entry().far_end(e);
            lemma_table_at(s, k);
            assert(t.connects(s[k].key(), e));
        }
    }
}

spec fn names_of(s: Seq<IbNode>) -> Seq<Seq<char>> {
    s.map_values(|n: IbNode| n.name@)
}

proof fn lemma_roster(s: Seq<IbNode>)
    requires
        ordered(s),
    ensures
        roster(table(s)) == names_of(s),
{
    let names = names_of(s);
    assert forall|i: int, j: int| 0 <= i < j < names.len() implies before(
        #[trigger] names[i],
        #[trigger] names[j],
    ) by {
        assert(before(s[i].key(), s[j].key()));
    }
    assert forall|k: Seq<char>| names.contains(k) == #[trigger] table(s).contains_key(k) by {
        if names.contains(k) {
            let i = choose|i: int| 0 <= i < names.len() && names[i] == k;
            assert(s[i].key() == k);
        }
        if has_key(s, k) {
            assert(names[key_at(s, k)] == k);
        }
    }
    assert(is_roster(table(s), names));
    let other = roster(table(s));
    assert(is_roster(table(s), other));
    assert forall|k: Seq<char>| names.contains(k) == other.contains(k) by {
        assert(names.contains(k) == table(s).contains_key(k));
        assert(other.contains(k) == table(s).contains_key(k));
    }
    lemma_order_unique(names, other);
}

pub(crate) proof fn lemma_with_link_up(t: TopologyView, id: Seq<char>, up: bool)
    requires
        t.valid(),
        t.links.contains_key(id),
    ensures
        t.with_link_up(id, up).valid(),
{
    let u = t.with_link_up(id, up);
    assert forall|i: Seq<char>, j: Seq<char>, e: EndView|
        #[trigger] u.uses(i, e) && #[trigger] u.uses(j, e) implies i == j by {
        assert(t.uses(i, e) && t.uses(j, e));
    }
}

pub(crate) proof fn lemma_with_node(t: TopologyView, name: Seq<char>, node: NodeView)
    requires
        t.valid(),
        t.node_refusal(name, node.ports) is None,
    ensures
        t.with_node(name, node).valid(),
{
    let u = t.with_node(name, node);
    assert(u.nodes.dom() =~= t.nodes.dom().insert(name));
    assert forall|i: Seq<char>, j: Seq<char>, e: EndView|
        #[trigger] u.uses(i, e) && #[trigger] u.uses(j, e) implies i == j by {
        assert(t.uses(i, e) && t.uses(j, e));
    }
}

pub(crate) proof fn lemma_with_link(t: TopologyView, id: Seq<char>, link: LinkView)
    requires
        t.valid(),
        t.link_refusal(id, link.ends) is None,
    ensures
        t.with_link(id, link).valid(),
{
    let u = t.with_link(id, link);
    assert forall|i: Seq<char>, j: Seq<char>, e: EndView|
        #[trigger] u.uses(i, e) && #[trigger] u.uses(j, e) implies i == j by {
        if i != id {
            assert(t.uses(i, e));
            assert(t.taken(e));
        }
        if j != id {
            assert(t.uses(j, e));
            assert(t.taken(e));
        }
        if i != id && j != id {
            assert(t.uses(i, e) && t.uses(j, e));
        }
    }
}

} // verus!

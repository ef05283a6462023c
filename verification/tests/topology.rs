use patchbay::infiniband::topology::TopologyError;
use patchbay::infiniband::{IbEndpoint, IbNodeKind, IbTopology};

fn topology() -> IbTopology {
    let mut t = IbTopology::new();
    t.add_node("h1", IbNodeKind::Hca, 1).unwrap();
    t.add_node("h2", IbNodeKind::Hca, 1).unwrap();
    t.add_node("s1", IbNodeKind::Switch, 3).unwrap();
    t.add_node("s2", IbNodeKind::Switch, 3).unwrap();
    for (id, a, pa, b, pb, up) in [
        ("host1", "h1", 1, "s1", 1, true),
        ("host2", "h2", 1, "s2", 1, true),
        ("core", "s1", 2, "s2", 2, true),
        ("backup", "s1", 3, "s2", 3, false),
    ] {
        t.add_link(id, [IbEndpoint::new(a, pa), IbEndpoint::new(b, pb)], up)
            .unwrap();
    }
    t
}

#[test]
fn invalid_cables_and_native_command_injection_are_rejected_atomically() {
    let mut t = topology();
    let before = t.render().unwrap();
    assert!(t.add_node("x\"\nQuit", IbNodeKind::Hca, 1).is_err());
    assert!(t.add_node(&"a".repeat(32), IbNodeKind::Hca, 1).is_err());
    assert!(t
        .add_link(
            "dup",
            [IbEndpoint::new("s1", 3), IbEndpoint::new("s2", 3)],
            true
        )
        .is_err());
    assert!(t
        .add_link(
            "zero",
            [IbEndpoint::new("s1", 0), IbEndpoint::new("s2", 0)],
            true
        )
        .is_err());
    assert!(t
        .add_link(
            "absent",
            [IbEndpoint::new("missing", 1), IbEndpoint::new("s2", 9)],
            true
        )
        .is_err());
    assert_eq!(before, t.render().unwrap());
}

#[test]
fn exporter_preserves_parallel_ports_and_initial_disconnection() {
    let t = topology();
    let text = t.render().unwrap();
    assert!(text.contains("[2] \"s2\"[2]"));
    assert!(!text.contains("[3]"));
    assert_eq!(t.links().count(), 4);
    assert_eq!(text.lines().filter(|l| l.contains("guid=")).count(), 4);
}

#[test]
fn text_is_exact() {
    assert_eq!(
        topology().render().unwrap(),
        "# patchbay IB graph; LIDs and LFTs are assigned by OpenSM.\n\
         caguid=0x1000000000000000\nHca 1 \"h1\"\n[1] \"s1\"[1]\n\n\
         caguid=0x1000000000000100\nHca 1 \"h2\"\n[1] \"s2\"[1]\n\n\
         switchguid=0x1000000000000200\nSwitch 3 \"s1\"\n[1] \"h1\"[1]\n[2] \"s2\"[2]\n\n\
         switchguid=0x1000000000000300\nSwitch 3 \"s2\"\n[1] \"h2\"[1]\n[2] \"s1\"[2]\n\n"
    );
}

#[test]
fn refusals_are_told_apart() {
    let mut t = topology();
    let end = IbEndpoint::new;
    assert_eq!(t.add_node("", IbNodeKind::Hca, 1), Err(TopologyError::InvalidNode));
    assert_eq!(t.add_node("ok", IbNodeKind::Hca, 0), Err(TopologyError::InvalidNode));
    assert_eq!(t.add_node("é", IbNodeKind::Hca, 1), Err(TopologyError::InvalidNode));
    assert_eq!(t.add_node("h1", IbNodeKind::Switch, 1), Err(TopologyError::DuplicateNode));
    assert_eq!(t.add_node(&"a".repeat(31), IbNodeKind::Switch, 255), Ok(()));
    assert_eq!(t.add_node("a_b-9", IbNodeKind::Switch, 4), Ok(()));
    assert_eq!(
        t.add_link("", [end("h1", 1), end("s1", 1)], true),
        Err(TopologyError::InvalidLinkId)
    );
    assert_eq!(
        t.add_link("core", [end("a_b-9", 1), end("s1", 9)], true),
        Err(TopologyError::InvalidLinkId)
    );
    assert_eq!(
        t.add_link("l", [end("a_b-9", 1), end("a_b-9", 2)], true),
        Err(TopologyError::SelfLink)
    );
    assert_eq!(
        t.add_link("l", [end("a_b-9", 1), end("nowhere", 2)], true),
        Err(TopologyError::UnknownNode)
    );
    assert_eq!(
        t.add_link("l", [end("a_b-9", 5), end("nowhere", 2)], true),
        Err(TopologyError::PortOutOfRange)
    );
    assert_eq!(
        t.add_link("l", [end("a_b-9", 0), end("s1", 1)], true),
        Err(TopologyError::PortOutOfRange)
    );
    assert_eq!(
        t.add_link("l", [end("a_b-9", 1), end("s2", 3)], true),
        Err(TopologyError::PortTaken)
    );
    assert_eq!(IbTopology::new().render(), Err(TopologyError::Empty));
    assert_eq!(IbTopology::default().render(), Err(TopologyError::Empty));
    assert_eq!(TopologyError::Empty.text(), "empty IB topology");
    assert_eq!(TopologyError::Empty.message("h1"), "empty IB topology");
    assert_eq!(TopologyError::DuplicateNode.message("h1"), "duplicate IB node h1");
}

#[test]
fn sizes_are_limited() {
    let mut t = IbTopology::new();
    for i in 0..128 {
        t.add_node(&format!("n{i}"), IbNodeKind::Switch, 255).unwrap();
    }
    assert_eq!(t.total_ports(), 32768);
    assert!(t.render().is_ok());
    t.add_node("one-more", IbNodeKind::Hca, 1).unwrap();
    assert_eq!(t.render(), Err(TopologyError::TooManyPorts));
    let mut t = IbTopology::new();
    for i in 0..1024 {
        t.add_node(&format!("n{i}"), IbNodeKind::Hca, 1).unwrap();
    }
    assert_eq!(t.node_count(), 1024);
    assert_eq!(t.add_node("n1024", IbNodeKind::Hca, 1), Err(TopologyError::TooManyNodes));
    assert_eq!(t.add_node("n7", IbNodeKind::Hca, 1), Err(TopologyError::DuplicateNode));
}

#[test]
fn nodes_and_cables_come_in_lexical_order() {
    let t = topology();
    let names: Vec<&str> = t.nodes().map(|n| n.name.as_str()).collect();
    assert_eq!(names, ["h1", "h2", "s1", "s2"]);
    let ids: Vec<&str> = t.links().map(|l| l.id.as_str()).collect();
    assert_eq!(ids, ["backup", "core", "host1", "host2"]);
    assert_eq!(t.first_node(), "h1");
    let mut t = IbTopology::new();
    for name in ["b", "B", "a1", "a", "_", "-", "10", "9"] {
        t.add_node(name, IbNodeKind::Hca, 1).unwrap();
    }
    let names: Vec<&str> = t.nodes().map(|n| n.name.as_str()).collect();
    assert_eq!(names, ["-", "10", "9", "B", "_", "a", "a1", "b"]);
}

#[test]
fn lookups_find_what_was_added() {
    let t = topology();
    let n = t.node("s1").unwrap();
    assert_eq!((n.kind, n.ports), (IbNodeKind::Switch, 3));
    assert!(t.node("s3").is_none());
    let l = t.link("backup").unwrap();
    assert!(!l.up);
    assert_eq!(l.endpoints, [IbEndpoint::new("s1", 3), IbEndpoint::new("s2", 3)]);
    assert!(t.link("none").is_none());
}

#[test]
fn disconnected_cables_are_omitted_and_restored() {
    let mut t = topology();
    let before = t.render().unwrap();
    t.set_up("core", false);
    let cut = t.render().unwrap();
    assert!(!cut.contains("[2]"));
    assert_eq!(
        t.add_link("x", [IbEndpoint::new("s1", 2), IbEndpoint::new("h2", 1)], true),
        Err(TopologyError::PortTaken)
    );
    t.set_up("core", true);
    assert_eq!(t.render().unwrap(), before);
    t.set_up("backup", true);
    let text = t.render().unwrap();
    assert!(text.contains("[3] \"s2\"[3]\n") && text.contains("[3] \"s1\"[3]\n"));
}

#[test]
fn ports_are_listed_in_numeric_order() {
    let mut t = IbTopology::new();
    t.add_node("s", IbNodeKind::Switch, 12).unwrap();
    for i in [10, 2, 1] {
        t.add_node(&format!("h{i}"), IbNodeKind::Hca, 1).unwrap();
        t.add_link(
            &format!("l{i}"),
            [IbEndpoint::new(&format!("h{i}"), 1), IbEndpoint::new("s", i)],
            true,
        )
        .unwrap();
    }
    assert!(t
        .render()
        .unwrap()
        .ends_with("Switch 12 \"s\"\n[1] \"h1\"[1]\n[2] \"h2\"[1]\n[10] \"h10\"[1]\n\n"));
}

#[test]
fn cables_show_only_as_joined_ports() {
    let mut a = topology();
    let mut b = IbTopology::new();
    for n in a.nodes() {
        b.add_node(&n.name, n.kind, n.ports).unwrap();
    }
    for (k, l) in a.links().enumerate() {
        if l.up {
            let [x, y] = &l.endpoints;
            let turned = [IbEndpoint::new(&y.node, y.port), IbEndpoint::new(&x.node, x.port)];
            b.add_link(&format!("z{k}"), turned, true).unwrap();
        }
    }
    assert_eq!(a.render(), b.render());
    a.set_up("core", false);
    assert_ne!(a.render(), b.render());
}

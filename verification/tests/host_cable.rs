use patchbay::host_cable::exchange::{Action, Answer, CableError, FaultKind, Reply, Transcript};
use patchbay::host_cable::{valid_name, ConnectStep, Endpoint, HostCable, Step};
use patchbay::json::Json;

const OWNER: &str = "run-0123456789abcdef";

fn printed(stdout: &str) -> Reply {
    Reply::Exited {
        success: true,
        stdout: stdout.as_bytes().to_vec(),
        stderr: Vec::new(),
    }
}

fn veth(ifindex: u64) -> Reply {
    printed(&format!(
        "[{{\"ifindex\":{ifindex},\"linkinfo\":{{\"info_kind\":\"veth\"}}}}]"
    ))
}

fn bridge(ifindex: u64, owner: &str) -> Reply {
    printed(&format!(
        "[{{\"ifindex\":{ifindex},\"ifalias\":\"{owner}\",\"linkinfo\":{{\"info_kind\":\"bridge\"}}}}]"
    ))
}

fn members(indices: &[u64]) -> Reply {
    let rows: Vec<String> = indices.iter().map(|i| format!("{{\"ifindex\":{i}}}")).collect();
    printed(&format!("[{}]", rows.join(",")))
}

fn bare() -> Reply {
    printed("[{\"addr_info\":[]}]")
}

fn failed() -> Reply {
    Reply::Exited {
        success: false,
        stdout: Vec::new(),
        stderr: b"no such device\n".to_vec(),
    }
}

/// Follows an operation: each reply answers the action that is asked for.
fn follow<T>(mut step: impl FnMut(&Transcript) -> Step<T>, replies: Vec<Reply>) -> (Step<T>, Vec<String>) {
    let mut answers = Transcript::new();
    let mut asked = Vec::new();
    for reply in replies {
        match step(&answers) {
            Step::Ask(action) => {
                asked.push(line(&action));
                answers.record(&action, reply);
            }
            _ => panic!("the operation ended early: {asked:?}"),
        }
    }
    (step(&answers), asked)
}

fn line(action: &Action) -> String {
    match action {
        Action::Ip(args) => format!("ip {}", args.join(" ")),
        Action::Tc(args) => format!("tc {}", args.join(" ")),
        Action::Write { path, text } => format!("write {path} {text:?}"),
    }
}

fn refusal<T>(step: Step<T>) -> CableError {
    match step {
        Step::Refused(e) => e,
        Step::Ask(action) => panic!("asks for {}", line(&action)),
        Step::Done(_) => panic!("succeeded"),
    }
}

fn cable() -> HostCable {
    HostCable {
        bridge: "pc0".to_string(),
        ifindex: 9,
        owner: OWNER.to_string(),
        ends: ends(),
    }
}

fn ends() -> [Endpoint; 2] {
    [
        Endpoint { name: "va".to_string(), ifindex: 4 },
        Endpoint { name: "vb".to_string(), ifindex: 5 },
    ]
}

fn verified() -> Vec<Reply> {
    vec![bridge(9, OWNER), members(&[5, 4]), veth(4), veth(5)]
}

#[test]
fn reject_names_that_could_escape_scope() {
    for name in [
        "",
        "-all",
        "a/b",
        "x y",
        "abcdefghijklmnop",
        "$(id)",
        "eth0:1",
    ] {
        assert!(!valid_name(name));
    }
    assert!(valid_name("pc0123456789abc"));
}

#[test]
fn names_are_plain_ascii() {
    assert!(valid_name("a"));
    assert!(valid_name("a-"));
    assert!(valid_name("veth-9Z"));
    assert!(!valid_name("a_b"));
    assert!(!valid_name("vé"));
    assert!(!valid_name("a\n"));
}

#[test]
fn commands_run_under_a_timeout() {
    let action = Action::Ip(vec!["link".to_string(), "show".to_string()]);
    assert_eq!(
        action.timeout_arguments().unwrap(),
        ["--kill-after=2", "10", "ip", "link", "show"]
    );
    let action = Action::Tc(vec![]);
    assert_eq!(action.timeout_arguments().unwrap(), ["--kill-after=2", "10", "tc"]);
    let action = Action::Write { path: "p".to_string(), text: "t".to_string() };
    assert!(action.timeout_arguments().is_none());
}

#[test]
fn observe_takes_a_bare_veth() {
    let (step, asked) = follow(|a| Endpoint::observe("veth0", a), vec![veth(7), bare()]);
    match step {
        Step::Done(end) => {
            assert_eq!(end.name, "veth0");
            assert_eq!(end.ifindex, 7);
        }
        _ => panic!("not observed"),
    }
    assert_eq!(
        asked,
        ["ip -j -d link show dev veth0", "ip -j address show dev veth0"]
    );
}

#[test]
fn observe_refuses_what_is_no_bare_veth() {
    let kind = |replies| refusal(follow(|a| Endpoint::observe("veth0", a), replies).0).kind;
    assert_eq!(kind(vec![bridge(7, OWNER)]), FaultKind::NotVeth);
    assert_eq!(
        kind(vec![printed(
            "[{\"ifindex\":7,\"master\":\"br0\",\"linkinfo\":{\"info_kind\":\"veth\"}}]"
        )]),
        FaultKind::Attached
    );
    assert_eq!(
        kind(vec![printed(
            "[{\"ifindex\":7,\"master\":null,\"linkinfo\":{\"info_kind\":\"veth\"}}]"
        )]),
        FaultKind::Attached
    );
    assert_eq!(
        kind(vec![veth(7), printed("[{\"addr_info\":[{\"family\":\"inet6\"}]}]")]),
        FaultKind::HasAddresses
    );
    assert_eq!(kind(vec![veth(7), printed("[]")]), FaultKind::HasAddresses);
    assert_eq!(kind(vec![printed("[]")]), FaultKind::AmbiguousLink);
    assert_eq!(kind(vec![printed("[{},{}]")]), FaultKind::AmbiguousLink);
    assert_eq!(kind(vec![printed("{}")]), FaultKind::NoLinkArray);
    assert_eq!(kind(vec![printed("")]), FaultKind::NoLinkArray);
    assert_eq!(kind(vec![printed("[{")]), FaultKind::NotJson);
    assert_eq!(
        kind(vec![
            printed("[{\"ifindex\":-7,\"linkinfo\":{\"info_kind\":\"veth\"}}]"),
            bare()
        ]),
        FaultKind::MissingIfindex
    );
    assert_eq!(refusal(Endpoint::observe("-all", &Transcript::new())).kind, FaultKind::InvalidName);
}

#[test]
fn failures_of_the_host_are_reported() {
    let e = refusal(follow(|a| Endpoint::observe("veth0", a), vec![failed()]).0);
    assert_eq!(e.kind, FaultKind::IpFailed);
    assert_eq!(e.message(), "ip failed: no such device\n");
    let e = refusal(
        follow(
            |a| Endpoint::observe("veth0", a),
            vec![Reply::NotStarted("not found".to_string())],
        )
        .0,
    );
    assert_eq!(e.kind, FaultKind::Host);
    assert_eq!(e.message(), "not found");
    let e = refusal(follow(|a| Endpoint::observe("veth0", a), vec![Reply::Written]).0);
    assert_eq!(e.kind, FaultKind::Unexpected);
}

#[test]
fn prepare_removes_link_local_addresses_only() {
    let local = "[{\"addr_info\":[{\"family\":\"inet6\",\"scope\":\"link\"}]}]";
    let (step, asked) = follow(
        |a| Endpoint::prepare_owned("veth0", a),
        vec![
            veth(7),
            printed(local),
            veth(7),
            Reply::Written,
            veth(7),
            veth(7),
            bare(),
        ],
    );
    assert!(matches!(step, Step::Done(Endpoint { ifindex: 7, .. })));
    assert_eq!(asked[3], "write /proc/sys/net/ipv6/conf/veth0/disable_ipv6 \"1\\n\"");
    let kind = |replies| refusal(follow(|a| Endpoint::prepare_owned("veth0", a), replies).0).kind;
    assert_eq!(
        kind(vec![
            veth(7),
            printed("[{\"addr_info\":[{\"family\":\"inet\",\"scope\":\"link\"}]}]")
        ]),
        FaultKind::Numbered
    );
    assert_eq!(
        kind(vec![
            veth(7),
            printed("[{\"addr_info\":[{\"family\":\"inet6\",\"scope\":\"global\"}]}]")
        ]),
        FaultKind::Numbered
    );
    assert_eq!(kind(vec![veth(7), printed("[{}]")]), FaultKind::NoAddressArray);
    assert_eq!(kind(vec![veth(7), printed(local), veth(8)]), FaultKind::GenerationChanged);
    assert_eq!(
        kind(vec![veth(7), printed(local), bridge(7, OWNER)]),
        FaultKind::KindChanged
    );
    assert_eq!(
        kind(vec![
            printed("[{\"linkinfo\":{\"info_kind\":\"veth\"}}]")
        ]),
        FaultKind::MissingIfindex
    );
    assert_eq!(kind(vec![bridge(7, OWNER)]), FaultKind::NotUnattachedVeth);
    assert_eq!(
        kind(vec![veth(7), printed(local), veth(7), Reply::Written, veth(7), veth(8), bare()]),
        FaultKind::ChangedInPreparation
    );
}

#[test]
fn prepare_may_miss_the_setting_only_without_addresses() {
    let absent = || Reply::WriteFailed { not_found: true, message: "gone".to_string() };
    let (step, _) = follow(
        |a| Endpoint::prepare_owned("veth0", a),
        vec![veth(7), bare(), veth(7), absent(), veth(7), veth(7), bare()],
    );
    assert!(matches!(step, Step::Done(_)));
    let local = "[{\"addr_info\":[{\"family\":\"inet6\",\"scope\":\"link\"}]}]";
    let e = refusal(
        follow(
            |a| Endpoint::prepare_owned("veth0", a),
            vec![veth(7), printed(local), veth(7), absent()],
        )
        .0,
    );
    assert_eq!((e.kind, e.message().as_str()), (FaultKind::Host, "gone"));
    let e = refusal(
        follow(
            |a| Endpoint::prepare_owned("veth0", a),
            vec![
                veth(7),
                bare(),
                veth(7),
                Reply::WriteFailed { not_found: false, message: "denied".to_string() },
            ],
        )
        .0,
    );
    assert_eq!(e.message(), "denied");
}

#[test]
fn verify_takes_exactly_the_owned_cable() {
    let cable = cable();
    let (step, asked) = follow(|a| cable.verify(a), verified());
    assert!(matches!(step, Step::Done(())));
    assert_eq!(
        asked,
        [
            "ip -j -d link show dev pc0",
            "ip -j link show master pc0",
            "ip -j -d link show dev va",
            "ip -j -d link show dev vb"
        ]
    );
    let kind = |replies| refusal(follow(|a| cable.verify(a), replies).0).kind;
    assert_eq!(kind(vec![bridge(8, OWNER)]), FaultKind::BridgeMismatch);
    assert_eq!(kind(vec![bridge(9, "someone-else-0123")]), FaultKind::BridgeMismatch);
    assert_eq!(kind(vec![veth(9)]), FaultKind::BridgeMismatch);
    assert_eq!(kind(vec![bridge(9, OWNER), members(&[4])]), FaultKind::ForeignMember);
    assert_eq!(
        kind(vec![bridge(9, OWNER), members(&[4, 5, 6])]),
        FaultKind::ForeignMember
    );
    assert_eq!(kind(vec![bridge(9, OWNER), printed("{}")]), FaultKind::NoMemberArray);
    assert_eq!(
        kind(vec![bridge(9, OWNER), members(&[4, 5]), veth(5)]),
        FaultKind::GenerationChanged
    );
}

#[test]
fn changes_come_after_verification() {
    let cable = cable();
    let (step, _) = follow(|a| cable.set_up(false, a), verified());
    match step {
        Step::Ask(action) => assert_eq!(line(&action), "ip link set dev pc0 down"),
        _ => panic!("nothing asked"),
    }
    let (step, _) = follow(|a| cable.set_up(true, a), verified());
    match step {
        Step::Ask(action) => assert_eq!(line(&action), "ip link set dev pc0 up"),
        _ => panic!("nothing asked"),
    }
    let mut replies = verified();
    replies.push(printed(""));
    let (step, asked) = follow(|a| cable.remove(a), replies);
    assert!(matches!(step, Step::Done(())));
    assert_eq!(asked[4], "ip link delete dev pc0");
    let foreign = vec![bridge(9, OWNER), members(&[4, 5, 6])];
    assert_eq!(
        refusal(follow(|a| cable.remove(a), foreign).0).kind,
        FaultKind::ForeignMember
    );
}

#[test]
fn shaping_is_exact() {
    let cable = cable();
    let mut replies = verified();
    replies.push(Reply::Exited { success: true, stdout: b"no JSON".to_vec(), stderr: Vec::new() });
    let (step, asked) = follow(|a| cable.shape_towards(1, 1_234_567, 10_000_000, 1000, a), replies);
    assert!(matches!(step, Step::Done(())));
    assert_eq!(
        asked[4],
        "tc qdisc replace dev vb root netem delay 1234.567us rate 10000000bit limit 1000"
    );
    let mut replies = verified();
    replies.push(failed());
    let (step, asked) = follow(|a| cable.shape_towards(0, 60_000_000_000, 1, 1, a), replies);
    assert!(asked[4].starts_with("tc qdisc replace dev va root netem delay 60000000.000us rate 1bit"));
    assert_eq!(refusal(step).message(), "tc failed: no such device\n");
    for (destination, delay, rate, queue) in [
        (2, 0, 1, 1),
        (0, 60_000_000_001, 1, 1),
        (0, 0, 0, 1),
        (0, 0, 1, 0),
    ] {
        let step = cable.shape_towards(destination, delay, rate, queue, &Transcript::new());
        assert_eq!(refusal(step).kind, FaultKind::InvalidImpairment);
    }
}

#[test]
fn delays_are_written_as_the_float_would_be() {
    let cable = cable();
    for delay in [0u64, 1, 9, 10, 999, 1000, 1001, 123_456, 59_999_999_999, 60_000_000_000] {
        let (step, _) = follow(|a| cable.shape_towards(0, delay, 5, 5, a), verified());
        match step {
            Step::Ask(Action::Tc(args)) => {
                assert_eq!(args[7], format!("{:.3}us", delay as f64 / 1000.0));
            }
            _ => panic!("nothing asked"),
        }
    }
}

fn connect(replies: Vec<Reply>) -> (ConnectStep, Vec<String>) {
    let ends = ends();
    let mut answers = Transcript::new();
    let mut asked = Vec::new();
    for reply in replies {
        match HostCable::connect("pc0", OWNER, &ends, &answers) {
            ConnectStep::Ask(action) => {
                asked.push(line(&action));
                answers.record(&action, reply);
            }
            _ => panic!("the operation ended early: {asked:?}"),
        }
    }
    (HostCable::connect("pc0", OWNER, &ends, &answers), asked)
}

fn connected() -> Vec<Reply> {
    let mut replies = vec![
        veth(4),
        veth(5),
        printed(""),
        printed(""),
        bridge(9, OWNER),
        Reply::Written,
        veth(4),
        printed(""),
        printed(""),
        veth(5),
        printed(""),
        printed(""),
        printed(""),
    ];
    replies.extend(verified());
    replies
}

#[test]
fn connect_joins_two_ends() {
    let (step, asked) = connect(connected());
    match step {
        ConnectStep::Done(cable) => {
            assert_eq!(cable.bridge, "pc0");
            assert_eq!(cable.ifindex, 9);
            assert_eq!(cable.owner, OWNER);
            assert_eq!(cable.ends[0].name, "va");
            assert_eq!(cable.ends[1].ifindex, 5);
        }
        _ => panic!("not connected"),
    }
    assert_eq!(
        asked,
        [
            "ip -j -d link show dev va",
            "ip -j -d link show dev vb",
            "ip link add name pc0 type bridge stp_state 0 mcast_snooping 0",
            "ip link set dev pc0 alias run-0123456789abcdef",
            "ip -j -d link show dev pc0",
            "write /proc/sys/net/ipv6/conf/pc0/disable_ipv6 \"1\\n\"",
            "ip -j -d link show dev va",
            "ip link set dev va master pc0",
            "ip link set dev va up",
            "ip -j -d link show dev vb",
            "ip link set dev vb master pc0",
            "ip link set dev vb up",
            "ip link set dev pc0 up",
            "ip -j -d link show dev pc0",
            "ip -j link show master pc0",
            "ip -j -d link show dev va",
            "ip -j -d link show dev vb"
        ]
    );
}

#[test]
fn connect_checks_before_it_creates() {
    let kind = |bridge: &str, owner: &str, ends: &[Endpoint; 2]| {
        match HostCable::connect(bridge, owner, ends, &Transcript::new()) {
            ConnectStep::Refused(e) => e.kind,
            _ => panic!("not refused"),
        }
    };
    assert_eq!(kind("br0", OWNER, &ends()), FaultKind::BridgeName);
    assert_eq!(kind("pc0123456789abcd", OWNER, &ends()), FaultKind::BridgeName);
    assert_eq!(kind("pc0", "short", &ends()), FaultKind::OwnerMarker);
    assert_eq!(kind("pc0", &"a".repeat(81), &ends()), FaultKind::OwnerMarker);
    assert_eq!(kind("pc0", "run_0123456789abcdef", &ends()), FaultKind::OwnerMarker);
    let mut same = ends();
    same[1].ifindex = 4;
    assert_eq!(kind("pc0", OWNER, &same), FaultKind::SameEnds);
    let mut same = ends();
    same[1].name = "va".to_string();
    assert_eq!(kind("pc0", OWNER, &same), FaultKind::SameEnds);
    let adopted =
        printed("[{\"ifindex\":4,\"master\":\"br0\",\"linkinfo\":{\"info_kind\":\"veth\"}}]");
    match connect(vec![adopted]).0 {
        ConnectStep::Refused(e) => assert_eq!(e.kind, FaultKind::Adopted),
        _ => panic!("not refused"),
    }
    // A name that is taken is not replaced, and nothing is deleted.
    match connect(vec![veth(4), veth(5), failed()]).0 {
        ConnectStep::Refused(e) => assert_eq!(e.kind, FaultKind::IpFailed),
        _ => panic!("not refused"),
    }
}

#[test]
fn failed_setup_deletes_the_new_bridge() {
    for bad in 3..17 {
        let mut replies: Vec<Reply> = connected().into_iter().take(bad).collect();
        replies.push(failed());
        let (step, _) = connect(replies);
        match step {
            ConnectStep::Ask(action) => assert_eq!(line(&action), "ip link delete dev pc0"),
            _ => panic!("no rollback"),
        }
        let mut replies: Vec<Reply> = connected().into_iter().take(bad).collect();
        replies.push(failed());
        replies.push(printed(""));
        match connect(replies).0 {
            ConnectStep::RolledBack { cause, cleanup } => {
                let kind = if bad == 5 { FaultKind::Unexpected } else { FaultKind::IpFailed };
                assert_eq!(cause.kind, kind);
                assert!(cleanup.is_none());
            }
            _ => panic!("not rolled back"),
        }
    }
    let mut replies: Vec<Reply> = connected().into_iter().take(4).collect();
    replies.push(printed("[{}]"));
    replies.push(failed());
    match connect(replies).0 {
        ConnectStep::RolledBack { cause, cleanup } => {
            assert_eq!(cause.kind, FaultKind::MissingBridgeIfindex);
            assert_eq!(cleanup.unwrap().kind, FaultKind::IpFailed);
        }
        _ => panic!("not rolled back"),
    }
}

#[test]
fn answers_can_be_given_as_values() {
    let mut answers = Transcript::new();
    let link = Json::Object(vec![
        ("ifindex".to_string(), Json::Number(Some(3))),
        (
            "linkinfo".to_string(),
            Json::Object(vec![("info_kind".to_string(), Json::Text("veth".to_string()))]),
        ),
    ]);
    answers.push(Answer::Document(Json::Array(vec![link])));
    answers.push(Answer::Document(Json::Array(vec![Json::Object(vec![(
        "addr_info".to_string(),
        Json::Array(vec![]),
    )])])));
    assert!(matches!(
        Endpoint::observe("veth0", &answers),
        Step::Done(Endpoint { ifindex: 3, .. })
    ));
}

#[test]
fn reports_of_the_host_are_carried() {
    let e = refusal(follow(|a| Endpoint::observe("veth0", a), vec![printed("[{")]).0);
    assert_eq!(e.kind, FaultKind::NotJson);
    assert_eq!(e.message(), "EOF while parsing an object at line 1 column 2");
    let garbled = Reply::Exited {
        success: false,
        stdout: Vec::new(),
        stderr: b"caf\xc3\xa9 \xff!".to_vec(),
    };
    let e = refusal(follow(|a| Endpoint::observe("veth0", a), vec![garbled]).0);
    assert_eq!(e.message(), "ip failed: caf\u{e9} \u{fffd}!");
}

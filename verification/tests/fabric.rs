use patchbay::infiniband::command::{command_step, CommandEvent, CommandStep};
use patchbay::infiniband::fabric::{
    Change, Close, Closed, FabricStep, IbFabric, IbPortStatus, Polled, Ready, Service, Try, Wait,
};
use patchbay::infiniband::fault::{FabricError, FabricFault};
use patchbay::infiniband::launch::{preloadable, IbOptions, Input};
use patchbay::infiniband::manager::{ManagerEvent, ManagerStep};
use patchbay::infiniband::lab::{
    namespace_name, start_infiniband, take_serial, LabAction, LabEvent, LabStep,
};
use patchbay::infiniband::startup::{basename, start, StartAction, StartAnswer, StartStep};
use patchbay::infiniband::topology::TopologyError;
use patchbay::infiniband::{IbEndpoint, IbNodeKind, IbTopology};

fn topology() -> IbTopology {
    let mut t = IbTopology::new();
    t.add_node("h1", IbNodeKind::Hca, 1).unwrap();
    t.add_node("s1", IbNodeKind::Switch, 3).unwrap();
    t.add_node("s2", IbNodeKind::Switch, 3).unwrap();
    for (id, a, pa, b, pb, up) in [
        ("host1", "h1", 1, "s1", 1, true),
        ("core", "s1", 2, "s2", 2, true),
        ("backup", "s1", 3, "s2", 3, false),
    ] {
        t.add_link(id, [IbEndpoint::new(a, pa), IbEndpoint::new(b, pb)], up).unwrap();
    }
    t
}

fn options() -> IbOptions {
    IbOptions {
        binary: b"bin/ibsim".to_vec(),
        umad_library: b"lib/umad.so".to_vec(),
        state_dir: b"state".to_vec(),
    }
}

fn fabric() -> IbFabric {
    let options = IbOptions {
        binary: b"/b/ibsim".to_vec(),
        umad_library: b"/l/umad.so".to_vec(),
        state_dir: b"/s".to_vec(),
    };
    IbFabric::new(topology(), options, "pb-1-2".to_string())
}

fn alive() -> Vec<Polled> {
    vec![Polled::Alive]
}

fn refused<T>(step: FabricStep<T>) -> FabricError {
    match step {
        FabricStep::Refused(e) => e,
        FabricStep::Poll(service) => panic!("wants to look at {service:?}"),
        FabricStep::Go(_) => panic!("goes on"),
    }
}

fn sent(step: FabricStep<Change>) -> String {
    match step {
        FabricStep::Go(Change::Send(line)) => line,
        _ => panic!("sends nothing"),
    }
}

fn launched(f: &mut IbFabric) {
    let step = f.manager_event(ManagerEvent::Launched { failure: None });
    assert!(matches!(step, ManagerStep::WaitActive(30_000_000_000)));
}

#[test]
fn subnet_managers_are_followed_to_an_active_port() {
    let mut f = fabric();
    let step = f.manager_event(ManagerEvent::Granted);
    assert!(matches!(step, ManagerStep::CreateCache));
    let step = f.manager_event(ManagerEvent::CacheCreated { failure: None });
    assert!(matches!(step, ManagerStep::OpenOut));
    let step = f.manager_event(ManagerEvent::OutOpened { failure: None });
    assert!(matches!(step, ManagerStep::OpenErr));
    let step = f.manager_event(ManagerEvent::ErrOpened { failure: None });
    assert!(matches!(step, ManagerStep::Launch));
    assert!(matches!(f.healthy(&alive()), FabricStep::Go(())));
    launched(&mut f);
    assert!(matches!(f.healthy(&alive()), FabricStep::Poll(Service::Manager)));
    let port = IbPortStatus { lid: 1, state: 4 };
    match f.manager_event(ManagerEvent::Active(port)) {
        ManagerStep::Started(p) => assert_eq!(p, port),
        _ => panic!("not started"),
    }
}

#[test]
fn subnet_managers_that_fail_are_refused() {
    let no = || Some("no".to_string());
    for event in [
        ManagerEvent::CacheCreated { failure: no() },
        ManagerEvent::OutOpened { failure: no() },
        ManagerEvent::ErrOpened { failure: no() },
        ManagerEvent::Launched { failure: no() },
        ManagerEvent::WaitFailed("no".to_string()),
    ] {
        let mut f = fabric();
        match f.manager_event(event) {
            ManagerStep::Refused(e) => assert_eq!(e.message(), "no"),
            _ => panic!("not refused"),
        }
        assert!(matches!(f.healthy(&alive()), FabricStep::Go(())));
    }
}

#[test]
fn names_tell_fabrics_apart() {
    assert_eq!(namespace_name(12), "ibsim-12");
    assert_eq!(basename(7, 0), "pb-7-0");
    assert_ne!(basename(1, 11), basename(11, 1));
}

fn answered(answers: &[StartAnswer]) -> Vec<StartAnswer> {
    answers
        .iter()
        .map(|a| match a {
            StartAnswer::Path(p) => StartAnswer::Path(p.clone()),
            StartAnswer::Serial(n) => StartAnswer::Serial(*n),
            StartAnswer::Done => StartAnswer::Done,
            StartAnswer::Failed(m) => StartAnswer::Failed(m.clone()),
        })
        .collect()
}

fn good_answers() -> Vec<StartAnswer> {
    vec![
        StartAnswer::Path(b"/b/ibsim".to_vec()),
        StartAnswer::Path(b"/l/umad.so".to_vec()),
        StartAnswer::Done,
        StartAnswer::Path(b"/s".to_vec()),
        StartAnswer::Done,
        StartAnswer::Serial(2),
        StartAnswer::Done,
        StartAnswer::Done,
        StartAnswer::Done,
    ]
}

#[test]
fn a_fabric_is_started_step_by_step() {
    let t = topology();
    let answers = good_answers();
    for k in 0..9 {
        let action = match start(&t, &options(), 1, &answered(&answers[..k])) {
            StartStep::Ask(action) => action,
            _ => panic!("nothing asked at {k}"),
        };
        match (k, action) {
            (0, StartAction::Canonicalize(p)) => assert_eq!(p, b"bin/ibsim"),
            (1, StartAction::Canonicalize(p)) => assert_eq!(p, b"lib/umad.so"),
            (2, StartAction::CreateDir(p)) => assert_eq!(p, b"state"),
            (3, StartAction::Canonicalize(p)) => assert_eq!(p, b"state"),
            (4, StartAction::Write { path, text }) => {
                assert_eq!(path, b"/s/topology.net");
                assert_eq!(text, t.render().unwrap());
            }
            (5, StartAction::TakeSerial) => {}
            (6, StartAction::CaptureErrors(p)) => assert_eq!(p, b"/s/ibsim.stderr.log"),
            (7, StartAction::Launch(l)) => {
                assert_eq!(l.program, b"/b/ibsim");
                let args: Vec<&[u8]> = l.args.iter().map(|a| a.as_slice()).collect();
                let expected: [&[u8]; 8] =
                    [b"-s", b"-N", b"4", b"-S", b"4", b"-P", b"11", b"/s/topology.net"];
                assert_eq!(args, expected);
                assert_eq!(l.environment.dir, b"/s");
                assert_eq!(
                    l.environment.set,
                    [("IBSIM_SOCKNAME".to_string(), b"pb-1-2".to_vec())]
                );
                assert_eq!(l.environment.removed, ["LD_PRELOAD"]);
                assert_eq!(l.environment.input, Input::Piped);
                assert!(l.environment.own_group && l.environment.kill_on_drop);
            }
            (8, StartAction::OpenTranscript(p)) => assert_eq!(p, b"/s/ibsim.console.log"),
            (k, _) => panic!("another action at {k}"),
        }
    }
    match start(&t, &options(), 1, &answers) {
        StartStep::Running { options: o, base } => {
            assert_eq!(base, "pb-1-2");
            assert_eq!(o.binary, b"/b/ibsim");
            assert_eq!(o.umad_library, b"/l/umad.so");
            assert_eq!(o.state_dir, b"/s");
        }
        _ => panic!("not running"),
    }
}

#[test]
fn a_start_stops_at_its_first_failure() {
    let t = topology();
    let kinds = [
        FabricFault::Binary,
        FabricFault::Library,
        FabricFault::StateDir,
        FabricFault::Host,
        FabricFault::Host,
        FabricFault::Host,
        FabricFault::Host,
        FabricFault::Host,
        FabricFault::Host,
    ];
    for k in 0..9 {
        let mut answers = answered(&good_answers()[..k]);
        answers.push(StartAnswer::Failed("File exists".to_string()));
        match start(&t, &options(), 1, &answers) {
            StartStep::Refused(e) => {
                assert_eq!(e.kind, kinds[k]);
                if k == 2 {
                    assert_eq!(e.message(), "ibsim state_dir must be new: File exists");
                }
            }
            _ => panic!("not refused at {k}"),
        }
    }
    match start(&IbTopology::new(), &options(), 1, &vec![]) {
        StartStep::Refused(e) => {
            assert_eq!(e.kind, FabricFault::Graph(TopologyError::Empty));
            assert_eq!(e.message(), "empty IB topology");
        }
        _ => panic!("not refused"),
    }
}

#[test]
fn answers_of_another_form_stop_a_start() {
    let t = topology();
    for k in 0..9 {
        let mut answers = answered(&good_answers()[..k]);
        answers.push(match k {
            5 => StartAnswer::Done,
            _ => StartAnswer::Serial(2),
        });
        match start(&t, &options(), 1, &answers) {
            StartStep::Refused(e) => assert_eq!(e.kind, FabricFault::Host),
            _ => panic!("not refused at {k}"),
        }
    }
}

#[test]
fn numbers_are_handed_out_once() {
    let mut counter = 0;
    assert_eq!(take_serial(&mut counter), 0);
    assert_eq!(take_serial(&mut counter), 1);
    assert_eq!(counter, 2);
    counter = u64::MAX;
    assert_eq!(take_serial(&mut counter), u64::MAX);
    assert_eq!(counter, 0);
}

#[test]
fn each_fabric_has_a_device_of_its_own() {
    let t = topology();
    let mut counter = 0;
    for name in ["ibsim-0", "ibsim-1"] {
        let begin = start_infiniband(&t, LabEvent::Begin);
        assert!(matches!(begin, LabStep::Ask(LabAction::TakeSerial)));
        match start_infiniband(&t, LabEvent::Taken(take_serial(&mut counter))) {
            LabStep::Ask(LabAction::AddDevice { name: n, dummy }) => {
                assert_eq!(n, name);
                assert_eq!(dummy, "ibctl");
            }
            _ => panic!("no device"),
        }
        let added = start_infiniband(&t, LabEvent::Added { failure: None });
        assert!(matches!(added, LabStep::Start));
    }
    let failure = Some("no namespace".to_string());
    match start_infiniband(&t, LabEvent::Added { failure }) {
        LabStep::Refused(e) => assert_eq!(e.message(), "no namespace"),
        _ => panic!("not refused"),
    }
    match start_infiniband(&IbTopology::new(), LabEvent::Begin) {
        LabStep::Refused(e) => assert_eq!(e.message(), "empty IB topology"),
        _ => panic!("not refused"),
    }
}

#[test]
fn preloaded_paths_are_one_word() {
    let t = topology();
    for path in ["/a b", "/a:b", "/a\tb", "/a\nb", "/a\rb", "/a\u{c}b"] {
        assert!(!preloadable(&path.as_bytes().to_vec()));
        let answers = vec![
            StartAnswer::Path(b"/b".to_vec()),
            StartAnswer::Path(path.as_bytes().to_vec()),
        ];
        match start(&t, &options(), 1, &answers) {
            StartStep::Refused(e) => assert_eq!(e.kind, FabricFault::Preload),
            _ => panic!("not refused"),
        }
    }
    assert!(preloadable(&b"/a\x0bb\xff".to_vec()));
}

#[test]
fn new_fabrics_wait_for_their_socket() {
    let mut f = fabric();
    match f.readiness(&alive(), &Try::NotYet) {
        FabricStep::Go(Ready::Ask(node)) => assert_eq!(node, "h1"),
        _ => panic!("no node asked"),
    }
    let failed = |elapsed| Try::Failed { message: "no".to_string(), elapsed };
    let early = f.readiness(&vec![], &failed(4_999_999_999));
    assert!(matches!(early, FabricStep::Go(Ready::Pause(50))));
    let e = refused(f.readiness(&vec![], &failed(5_000_000_000)));
    assert_eq!(e.message(), "ibsim control socket readiness: no");
    let ready = f.readiness(&vec![], &Try::Answered);
    assert!(matches!(ready, FabricStep::Go(Ready::Ready)));
}

#[test]
fn programs_are_looked_at_first() {
    let mut f = fabric();
    assert!(matches!(f.healthy(&vec![]), FabricStep::Poll(Service::Server)));
    assert!(matches!(f.healthy(&alive()), FabricStep::Go(())));
    launched(&mut f);
    assert!(matches!(f.healthy(&alive()), FabricStep::Poll(Service::Manager)));
    let gone = vec![Polled::Alive, Polled::Exited("signal: 9".to_string())];
    assert_eq!(refused(f.healthy(&gone)).message(), "OpenSM exited: signal: 9");
    assert!(!f.has_failed());
    let unknown = vec![Polled::Failed("ECHILD".to_string())];
    assert_eq!(refused(f.healthy(&unknown)).message(), "ECHILD");
    assert!(!f.has_failed());
    assert!(matches!(
        f.healthy(&vec![Polled::Alive, Polled::Alive]),
        FabricStep::Go(())
    ));
}

#[test]
fn a_dead_server_does_not_change_the_graph() {
    let mut f = fabric();
    let dead = vec![Polled::Exited("exit status: 1".to_string())];
    let e = refused(f.set_link_up("core", false, &dead));
    assert_eq!(e.message(), "native ibsim exited: exit status: 1");
    assert!(f.has_failed());
    assert!(f.topology().link("core").unwrap().up);
    assert_eq!(refused(f.port_status("h1", &alive())).kind, FabricFault::Failed);
}

#[test]
fn cables_change_once_acknowledged() {
    let mut f = fabric();
    assert_eq!(sent(f.set_link_up("core", false, &alive())), "Unlink \"s1\"[2]\n");
    assert!(f.has_failed());
    assert!(f.topology().link("core").unwrap().up);
    f.link_answered(" \n").unwrap();
    assert!(!f.has_failed());
    assert!(!f.topology().link("core").unwrap().up);
    assert!(matches!(
        f.set_link_up("core", false, &alive()),
        FabricStep::Go(Change::Unchanged)
    ));
    assert_eq!(
        sent(f.set_link_up("backup", true, &alive())),
        "Link \"s1\"[3] \"s2\"[3]\n"
    );
    f.link_answered("").unwrap();
    assert!(f.topology().link("backup").unwrap().up);
    let e = refused(f.set_link_up("none", true, &alive()));
    assert_eq!(e.kind, FabricFault::UnknownLink);
    assert!(!f.has_failed());
}

#[test]
fn a_change_that_is_given_up_fails_closed() {
    let mut f = fabric();
    sent(f.set_link_up("core", false, &alive()));
    assert!(f.has_failed());
    assert!(f.topology().link("core").unwrap().up);
    assert_eq!(
        refused(f.set_link_up("backup", true, &alive())).message(),
        "ibsim backend is failed; rebuild it before further operations"
    );
    assert!(!f.topology().link("backup").unwrap().up);
    // The change was given up: nothing that is handed in now can bring it about.
    assert_eq!(f.link_answered("").unwrap_err().kind, FabricFault::NothingPending);
    assert!(f.has_failed());
    assert!(f.topology().link("core").unwrap().up);
}

#[test]
fn a_change_that_is_not_sent_fails_closed() {
    let mut f = fabric();
    sent(f.set_link_up("core", false, &alive()));
    assert_eq!(f.send_failed("broken pipe").message(), "broken pipe");
    assert!(f.has_failed());
    assert!(f.link_answered("").is_err());
    assert!(f.topology().link("core").unwrap().up);
}

#[test]
fn rejected_changes_fail_the_fabric() {
    let mut f = fabric();
    sent(f.set_link_up("core", false, &alive()));
    let e = f.link_answered("no such port").unwrap_err();
    assert_eq!(e.message(), "ibsim rejected cable change: no such port");
    assert!(f.has_failed());
    assert!(f.topology().link("core").unwrap().up);
    assert_eq!(f.link_answered("").unwrap_err().kind, FabricFault::NothingPending);
    let mut f = fabric();
    sent(f.set_link_up("core", false, &alive()));
    let failure = f.console_failed("deadline");
    assert_eq!(failure.kill, Service::Server);
    assert_eq!(failure.error.message(), "ibsim console failed: deadline");
    assert!(f.has_failed());
    assert!(f.link_answered("").is_err());
    assert!(f.topology().link("core").unwrap().up);
}

#[test]
fn ports_are_asked_by_name() {
    let mut f = fabric();
    match f.port_status("s2", &alive()) {
        FabricStep::Go(q) => assert_eq!((q.base.as_str(), q.node.as_str()), ("pb-1-2", "s2")),
        _ => panic!("no query"),
    }
    assert_eq!(refused(f.port_status("s3", &alive())).message(), "unknown IB node s3");
}

#[test]
fn ports_are_waited_for_until_a_deadline() {
    let mut f = fabric();
    let second = 1_000_000_000;
    for deadline in [0, 600 * second + 1] {
        let e = refused(f.wait_active("h1", deadline, &alive(), None));
        assert_eq!(e.message(), "IB readiness deadline must be in (0,600] seconds");
    }
    assert!(matches!(
        f.wait_active("h1", 600 * second, &alive(), None),
        FabricStep::Go(Wait::Query(_))
    ));
    let port = |lid, state| IbPortStatus { lid, state };
    let mut seen = |lid, state, elapsed| {
        f.wait_active("h1", second, &vec![], Some((port(lid, state), elapsed)))
    };
    assert!(matches!(seen(0, 4, 0), FabricStep::Go(Wait::Pause(100))));
    assert!(matches!(seen(7, 2, second - 1), FabricStep::Go(Wait::Pause(100))));
    match seen(7, 4, 2 * second) {
        FabricStep::Go(Wait::Active(p)) => assert_eq!(p, port(7, 4)),
        _ => panic!("not active"),
    }
    assert_eq!(
        refused(seen(7, 2, second)).message(),
        format!("IB port h1 did not become Active: {:?}", port(7, 2))
    );
}

#[test]
fn tools_run_in_the_environment_of_their_node() {
    let mut f = fabric();
    let e = match f.run("h1", 1, &alive()) {
        FabricStep::Go(e) => e,
        _ => panic!("not run"),
    };
    assert_eq!(e.dir, b"/s");
    assert_eq!(
        e.set,
        [
            ("LD_PRELOAD".to_string(), b"/l/umad.so".to_vec()),
            ("SIM_HOST".to_string(), b"h1".to_vec()),
            ("IBSIM_SOCKNAME".to_string(), b"pb-1-2".to_vec()),
        ]
    );
    assert_eq!(e.removed, ["SIM_SET_ISSM", "IBSIM_SERVER_NAME", "IBSIM_SERVER_PORT"]);
    assert_eq!(e.input, Input::Null);
    assert!(e.own_group && e.kill_on_drop);
    assert_eq!(f.prepare("x").unwrap_err().message(), "unknown IB node x");
    assert_eq!(refused(f.run("x", 1, &alive())).kind, FabricFault::UnknownNode);
    for deadline in [0, 600_000_000_001] {
        let e = refused(f.run("h1", deadline, &alive()));
        assert_eq!(e.kind, FabricFault::CommandDeadline);
    }
    let (out, err) = f.command_logs(41);
    assert_eq!(out, b"/s/command-41.stdout.log");
    assert_eq!(err, b"/s/command-41.stderr.log");
    assert_eq!(f.state_dir(), b"/s");
}

#[test]
fn commands_are_limited() {
    let mut f = fabric();
    for _ in 0..1024 {
        assert!(matches!(f.run("h1", 1, &alive()), FabricStep::Go(_)));
        assert!(matches!(f.run("x", 1, &alive()), FabricStep::Refused(_)));
    }
    assert_eq!(
        refused(f.run("h1", 1, &alive())).message(),
        "IB command retention limit reached; start a new fabric"
    );
}

#[test]
fn subnet_managers_attach_to_an_hca() {
    let mut f = fabric();
    let opensm = b"opensm".to_vec();
    let e = refused(f.start_subnet_manager("none", &opensm, &alive()));
    assert_eq!(e.kind, FabricFault::UnknownManagerNode);
    let e = refused(f.start_subnet_manager("s1", &opensm, &alive()));
    assert_eq!(e.kind, FabricFault::NotHca);
    let m = match f.start_subnet_manager("h1", &opensm, &alive()) {
        FabricStep::Go(m) => m,
        _ => panic!("not started"),
    };
    assert_eq!(m.cache, b"/s/opensm-cache");
    assert_eq!(m.stdout, b"/s/opensm.stdout.log");
    assert_eq!(m.stderr, b"/s/opensm.stderr.log");
    assert_eq!(m.launch.program, b"opensm");
    let args: Vec<&[u8]> = m.launch.args.iter().map(|a| a.as_slice()).collect();
    let expected: [&[u8]; 4] = [b"-s", b"1", b"-f", b"/dev/stdout"];
    assert_eq!(args, expected);
    let set = &m.launch.environment.set;
    assert_eq!(set.len(), 5);
    assert_eq!(m.launch.environment.input, Input::Null);
    assert!(m.launch.environment.own_group && m.launch.environment.kill_on_drop);
    assert_eq!(set[1], ("SIM_HOST".to_string(), b"h1".to_vec()));
    assert_eq!(set[3], ("OSM_CACHE_DIR".to_string(), b"/s/opensm-cache".to_vec()));
    assert_eq!(set[4], ("OSM_TMP_DIR".to_string(), b"/s/opensm-cache".to_vec()));
    launched(&mut f);
    let both = vec![Polled::Alive, Polled::Alive];
    let e = refused(f.start_subnet_manager("h1", &opensm, &both));
    assert_eq!(e.message(), "OpenSM already started");
}

#[test]
fn shutdown_may_be_repeated() {
    let mut f = fabric();
    launched(&mut f);
    let stopped = |service| Closed::Stopped { service, failure: None };
    let done = || Closed::LogFinished { failure: None };
    assert!(matches!(f.shutdown(Closed::Begin, 3), Close::Stop(Service::Manager)));
    assert!(f.has_failed());
    assert!(matches!(f.shutdown(stopped(Service::Manager), 3), Close::Stop(Service::Server)));
    assert!(matches!(f.shutdown(stopped(Service::Server), 3), Close::FinishLog));
    assert!(matches!(f.shutdown(done(), 2), Close::FinishLog));
    assert!(matches!(f.shutdown(done(), 1), Close::FinishLog));
    assert!(matches!(f.shutdown(done(), 0), Close::Closed));
    assert!(matches!(f.shutdown(Closed::Begin, 0), Close::Stop(Service::Server)));
    assert!(matches!(f.shutdown(stopped(Service::Server), 0), Close::Closed));
}

#[test]
fn shutdown_reports_what_went_wrong() {
    let failure = |m: &str| Some(m.to_string());
    let mut f = fabric();
    launched(&mut f);
    f.shutdown(Closed::Begin, 1);
    let e = Closed::Stopped { service: Service::Manager, failure: failure("stuck") };
    match f.shutdown(e, 1) {
        Close::Refused(e) => assert_eq!(e.message(), "stuck"),
        _ => panic!("not refused"),
    }
    assert!(matches!(f.shutdown(Closed::Begin, 1), Close::Stop(Service::Manager)));
    let mut f = fabric();
    f.shutdown(Closed::Begin, 2);
    f.shutdown(Closed::Stopped { service: Service::Server, failure: None }, 2);
    let lost = |m| Closed::LogFinished { failure: failure(m) };
    assert!(matches!(f.shutdown(lost("a"), 1), Close::FinishLog));
    match f.shutdown(lost("b"), 0) {
        Close::Refused(e) => assert_eq!(e.message(), "b"),
        _ => panic!("not refused"),
    }
}

fn command_refusal(event: CommandEvent) -> String {
    match command_step(event) {
        CommandStep::Refused(e) => e.message(),
        _ => panic!("not refused"),
    }
}

#[test]
fn tools_are_followed_to_their_output() {
    assert!(matches!(command_step(CommandEvent::Spawned), CommandStep::Wait));
    assert!(matches!(command_step(CommandEvent::Exited), CommandStep::FinishOut));
    let whole = CommandEvent::OutFinished { failure: None };
    assert!(matches!(command_step(whole), CommandStep::FinishErr));
    let whole = CommandEvent::ErrFinished { failure: None };
    assert!(matches!(command_step(whole), CommandStep::Collect));
}

#[test]
fn tools_that_fail_give_no_output() {
    let lost = || Some("IB log drain timed out".to_string());
    assert_eq!(command_refusal(CommandEvent::WaitFailed("ECHILD".to_string())), "ECHILD");
    assert!(matches!(command_step(CommandEvent::DeadlinePassed), CommandStep::Stop));
    assert_eq!(
        command_refusal(CommandEvent::Stopped { failure: None }),
        "native IB command timed out"
    );
    let stuck = CommandEvent::Stopped { failure: Some("stuck".to_string()) };
    assert_eq!(command_refusal(stuck), "stuck");
    let event = CommandEvent::OutFinished { failure: lost() };
    assert_eq!(command_refusal(event), "IB log drain timed out");
    let event = CommandEvent::ErrFinished { failure: lost() };
    assert_eq!(command_refusal(event), "IB log drain timed out");
}

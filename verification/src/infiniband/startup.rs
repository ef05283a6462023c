//! How a fabric is started, step by step.

use super::fault::{fault, FabricError, FabricFault, FaultView};
use super::launch::{add_argument, byte_strings, preloadable, is_preloadable, Environment, EnvironmentView};
use super::launch::{IbOptions, Input, Launch, LaunchView, OptionsView};
use super::topology::{IbTopology, TopologyView};
use crate::text::{bytes_of, copy_bytes, decimal, decimal_text, path_in, path_to, push_decimal};
use vstd::prelude::*;
use vstd::string::*;
use vstd::utf8::encode_utf8;

verus! {

/// The name of the sockets of the `serial`-th fabric of the process `pid`.
pub open spec fn socket_base(pid: nat, serial: nat) -> Seq<char> {
    "pb-"@ + decimal(pid) + "-"@ + decimal(serial)
}

/// The name of the sockets of the `serial`-th fabric of the process `pid`.
pub fn basename(pid: u32, serial: u64) -> (r: String)
    ensures
        r@ == socket_base(pid as nat, serial as nat),
{
    let mut out = "pb-".to_owned();
    push_decimal(&mut out, pid as u64);
    out.append("-");
    push_decimal(&mut out, serial);
    out
}

/// Something to be done on the way to a running fabric.
pub enum StartActionView {
    /// Find the canonical form of a path.
    Canonicalize(Seq<u8>),
    /// Create a directory that only its owner can enter. Fails if it exists.
    CreateDir(Seq<u8>),
    /// Write a file.
    Write { path: Seq<u8>, text: Seq<char> },
    /// Take a number from the counter of the process.
    TakeSerial,
    /// Open a log for what the simulator prints to its standard error.
    CaptureErrors(Seq<u8>),
    /// Start the simulator, with pipes to its console.
    Launch(LaunchView),
    /// Open a log of the console.
    OpenTranscript(Seq<u8>),
}

/// Something to be done on the way to a running fabric.
#[derive(Debug)]
pub enum StartAction {
    /// Find the canonical form of a path.
    Canonicalize(Vec<u8>),
    /// Create a directory that only its owner can enter. Fails if it exists.
    CreateDir(Vec<u8>),
    /// Write a file.
    Write { path: Vec<u8>, text: String },
    /// Take a number from the counter of the process.
    TakeSerial,
    /// Open a log for what the simulator prints to its standard error.
    CaptureErrors(Vec<u8>),
    /// Start the simulator, with pipes to its console.
    Launch(Launch),
    /// Open a log of the console.
    OpenTranscript(Vec<u8>),
}

impl View for StartAction {
    type V = StartActionView;

    open spec fn view(&self) -> StartActionView {
        match self {
            StartAction::Canonicalize(path) => StartActionView::Canonicalize(path@),
            StartAction::CreateDir(path) => StartActionView::CreateDir(path@),
            StartAction::Write { path, text } => StartActionView::Write { path: path@, text: text@ },
            StartAction::TakeSerial => StartActionView::TakeSerial,
            StartAction::CaptureErrors(path) => StartActionView::CaptureErrors(path@),
            StartAction::Launch(launch) => StartActionView::Launch(launch@),
            StartAction::OpenTranscript(path) => StartActionView::OpenTranscript(path@),
        }
    }
}

/// What came of a start action.
pub enum StartAnswerView {
    /// The canonical form of a path.
    Path(Seq<u8>),
    /// The number that was taken.
    Serial(nat),
    Done,
    Failed(Seq<char>),
}

/// What came of a start action.
#[derive(Debug)]
pub enum StartAnswer {
    /// The canonical form of a path.
    Path(Vec<u8>),
    /// The number that was taken.
    Serial(u64),
    Done,
    Failed(String),
}

impl View for StartAnswer {
    type V = StartAnswerView;

    open spec fn view(&self) -> StartAnswerView {
        match self {
            StartAnswer::Path(path) => StartAnswerView::Path(path@),
            StartAnswer::Serial(number) => StartAnswerView::Serial(*number as nat),
            StartAnswer::Done => StartAnswerView::Done,
            StartAnswer::Failed(m) => StartAnswerView::Failed(m@),
        }
    }
}

pub open spec fn answer_views(s: Seq<StartAnswer>) -> Seq<StartAnswerView> {
    s.map_values(|a: StartAnswer| a@)
}

/// Where a start stands.
pub enum StartView {
    /// This is to be done next.
    Ask(StartActionView),
    Refused(FaultView),
    /// The simulator runs, with these canonical paths and this name of its sockets.
    Running { options: OptionsView, base: Seq<char> },
}

/// Where a start stands.
#[derive(Debug)]
pub enum StartStep {
    /// This is to be done next.
    Ask(StartAction),
    Refused(FabricError),
    /// The simulator runs, with these canonical paths and this name of its sockets.
    Running { options: IbOptions, base: String },
}

impl View for StartStep {
    type V = StartView;

    open spec fn view(&self) -> StartView {
        match self {
            StartStep::Ask(action) => StartView::Ask(action@),
            StartStep::Refused(e) => StartView::Refused(e@),
            StartStep::Running { options, base } => StartView::Running {
                options: options@,
                base: base@,
            },
        }
    }
}

/// The path in an answer; empty if it holds none.
pub open spec fn path_of(answers: Seq<StartAnswerView>, k: int) -> Seq<u8> {
    if 0 <= k < answers.len() {
        match answers[k] {
            StartAnswerView::Path(path) => path,
            _ => seq![],
        }
    } else {
        seq![]
    }
}

/// The number in an answer; zero if it holds none.
pub open spec fn serial_of(answers: Seq<StartAnswerView>, k: int) -> nat {
    if 0 <= k < answers.len() {
        match answers[k] {
            StartAnswerView::Serial(number) => number,
            _ => 0,
        }
    } else {
        0
    }
}

/// The paths as the answers so far give them.
pub open spec fn canonical(answers: Seq<StartAnswerView>) -> OptionsView {
    OptionsView {
        binary: path_of(answers, 0),
        umad_library: path_of(answers, 1),
        state_dir: path_of(answers, 3),
    }
}

/// The simulator on a graph: room for one node more than there are, and for all their ports.
pub open spec fn server_launch(
    graph: TopologyView,
    options: OptionsView,
    base: Seq<char>,
) -> LaunchView {
    let nodes = encode_utf8(decimal((graph.nodes.len() + 1) as nat));
    let ports = encode_utf8(decimal(graph.ports() + 1));
    LaunchView {
        program: options.binary,
        args: seq![
            encode_utf8("-s"@),
            encode_utf8("-N"@),
            nodes,
            encode_utf8("-S"@),
            nodes,
            encode_utf8("-P"@),
            ports,
            path_in(options.state_dir, "topology.net"@),
        ],
        environment: EnvironmentView {
            dir: options.state_dir,
            set: seq![("IBSIM_SOCKNAME"@, encode_utf8(base))],
            removed: seq!["LD_PRELOAD"@],
            input: Input::Piped,
            own_group: true,
            kill_on_drop: true,
        },
    }
}

/// The actions of a start in the process `pid`, in order.
pub open spec fn start_action(
    graph: TopologyView,
    options: OptionsView,
    pid: nat,
    answers: Seq<StartAnswerView>,
    k: int,
) -> StartActionView {
    let found = canonical(answers);
    if k == 0 {
        StartActionView::Canonicalize(options.binary)
    } else if k == 1 {
        StartActionView::Canonicalize(options.umad_library)
    } else if k == 2 {
        StartActionView::CreateDir(options.state_dir)
    } else if k == 3 {
        StartActionView::Canonicalize(options.state_dir)
    } else if k == 4 {
        StartActionView::Write {
            path: path_in(found.state_dir, "topology.net"@),
            text: graph.text(),
        }
    } else if k == 5 {
        StartActionView::TakeSerial
    } else if k == 6 {
        StartActionView::CaptureErrors(path_in(found.state_dir, "ibsim.stderr.log"@))
    } else if k == 7 {
        StartActionView::Launch(
            server_launch(graph, found, socket_base(pid, serial_of(answers, 5))),
        )
    } else {
        StartActionView::OpenTranscript(path_in(found.state_dir, "ibsim.console.log"@))
    }
}

/// The actions whose answer is a path.
pub open spec fn wants_path(k: int) -> bool {
    k == 0 || k == 1 || k == 3
}

/// The action whose answer is a number.
pub open spec fn wants_serial(k: int) -> bool {
    k == 5
}

/// What a failure at the `k`-th action is called.
pub open spec fn start_fault(k: int) -> FabricFault {
    if k == 0 {
        FabricFault::Binary
    } else if k == 1 {
        FabricFault::Library
    } else if k == 2 {
        FabricFault::StateDir
    } else {
        FabricFault::Host
    }
}

/// Why a start does not go on after the answer to its `k`-th action.
pub open spec fn start_refusal(k: int, answer: StartAnswerView) -> Option<FaultView> {
    match answer {
        StartAnswerView::Failed(m) => Some(FaultView { kind: start_fault(k), detail: m }),
        StartAnswerView::Path(path) => if !wants_path(k) {
            Some(fault(FabricFault::Host))
        } else if k == 1 && !is_preloadable(path) {
            Some(fault(FabricFault::Preload))
        } else {
            None
        },
        StartAnswerView::Serial(_) => if !wants_serial(k) {
            Some(fault(FabricFault::Host))
        } else {
            None
        },
        StartAnswerView::Done => if wants_path(k) || wants_serial(k) {
            Some(fault(FabricFault::Host))
        } else {
            None
        },
    }
}

/// Where a start stands from its `k`-th action on: each in turn has to succeed before the next.
pub open spec fn starting(
    graph: TopologyView,
    options: OptionsView,
    pid: nat,
    answers: Seq<StartAnswerView>,
    k: nat,
) -> StartView
    decreases 9 - k,
{
    if k >= 9 {
        StartView::Running {
            options: canonical(answers),
            base: socket_base(pid, serial_of(answers, 5)),
        }
    } else if k >= answers.len() {
        StartView::Ask(start_action(graph, options, pid, answers, k as int))
    } else {
        match start_refusal(k as int, answers[k as int]) {
            Some(f) => StartView::Refused(f),
            None => starting(graph, options, pid, answers, k + 1),
        }
    }
}

/// Where a start stands: the graph has to be one that can be emitted.
pub open spec fn start_view(
    graph: TopologyView,
    options: OptionsView,
    pid: nat,
    answers: Seq<StartAnswerView>,
) -> StartView {
    match graph.render_refusal() {
        Some(e) => StartView::Refused(fault(FabricFault::Graph(e))),
        None => starting(graph, options, pid, answers, 0),
    }
}

fn serial_at(answers: &Vec<StartAnswer>, k: usize) -> (r: u64)
    ensures
        r == serial_of(answer_views(answers@), k as int),
{
    if k < answers.len() {
        assert(answer_views(answers@)[k as int] == answers@[k as int]@);
        if let StartAnswer::Serial(number) = &answers[k] {
            return *number;
        }
    }
    0
}

fn path_at(answers: &Vec<StartAnswer>, k: usize) -> (r: Vec<u8>)
    ensures
        r@ == path_of(answer_views(answers@), k as int),
{
    if k < answers.len() {
        assert(answer_views(answers@)[k as int] == answers@[k as int]@);
        if let StartAnswer::Path(path) = &answers[k] {
            return copy_bytes(path.as_slice());
        }
    }
    let none: Vec<u8> = Vec::new();
    assert(none@ =~= seq![]);
    none
}

fn judge_start(k: usize, answer: &StartAnswer) -> (r: Option<FabricError>)
    requires
        k < 9,
    ensures
        match r {
            Some(e) => start_refusal(k as int, answer@) == Some(e@),
            None => start_refusal(k as int, answer@) is None,
        },
{
    let path_wanted = k == 0 || k == 1 || k == 3;
    match answer {
        StartAnswer::Failed(m) => {
            let kind = if k == 0 {
                FabricFault::Binary
            } else if k == 1 {
                FabricFault::Library
            } else if k == 2 {
                FabricFault::StateDir
            } else {
                FabricFault::Host
            };
            Some(FabricError::about(kind, m.as_str()))
        },
        StartAnswer::Path(path) => if !path_wanted {
            Some(FabricError::new(FabricFault::Host))
        } else if k == 1 && !preloadable(path) {
            Some(FabricError::new(FabricFault::Preload))
        } else {
            None
        },
        StartAnswer::Serial(_) => if k != 5 {
            Some(FabricError::new(FabricFault::Host))
        } else {
            None
        },
        StartAnswer::Done => if path_wanted || k == 5 {
            Some(FabricError::new(FabricFault::Host))
        } else {
            None
        },
    }
}

/// The simulator on a graph.
fn simulator(topology: &IbTopology, options: &IbOptions, base: &str) -> (r: Launch)
    requires
        topology.wf(),
    ensures
        r@ == server_launch(topology@, options@, base@),
{
    let nodes = bytes_of(decimal_text(topology.node_count() as u64 + 1).as_str());
    let ports = bytes_of(decimal_text(topology.total_ports() + 1).as_str());
    let mut args: Vec<Vec<u8>> = Vec::new();
    add_argument(&mut args, "-s".as_bytes());
    add_argument(&mut args, "-N".as_bytes());
    add_argument(&mut args, nodes.as_slice());
    add_argument(&mut args, "-S".as_bytes());
    add_argument(&mut args, nodes.as_slice());
    add_argument(&mut args, "-P".as_bytes());
    add_argument(&mut args, ports.as_slice());
    let file = path_to(&options.state_dir, "topology.net");
    add_argument(&mut args, file.as_slice());
    assert(byte_strings(args@) =~= server_launch(topology@, options@, base@).args);
    let mut environment = Environment::new(&options.state_dir, Input::Piped);
    environment.set("IBSIM_SOCKNAME", base.as_bytes());
    environment.remove("LD_PRELOAD");
    assert(environment@.set =~= seq![("IBSIM_SOCKNAME"@, encode_utf8(base@))]);
    assert(environment@.removed =~= seq!["LD_PRELOAD"@]);
    Launch { program: copy_bytes(options.binary.as_slice()), args, environment }
}

/// The next step of starting the simulator on a graph, after the answers so far. The sockets of
/// the fabric are named after the process `pid` and the number that it takes.
pub fn start(
    topology: &IbTopology,
    options: &IbOptions,
    pid: u32,
    answers: &Vec<StartAnswer>,
) -> (r: StartStep)
    requires
        topology.wf(),
    ensures
        r@ == start_view(topology@, options@, pid as nat, answer_views(answers@)),
{
    let text = match topology.render() {
        Ok(text) => text,
        Err(e) => {
            return StartStep::Refused(FabricError::new(FabricFault::Graph(e)));
        },
    };
    let ghost views = answer_views(answers@);
    let found = IbOptions {
        binary: path_at(answers, 0),
        umad_library: path_at(answers, 1),
        state_dir: path_at(answers, 3),
    };
    let base = basename(pid, serial_at(answers, 5));
    let mut k: usize = 0;
    while k < 9 && k < answers.len()
        invariant
            k <= 9,
            k <= answers@.len(),
            views == answer_views(answers@),
            topology@.render_refusal() is None,
            start_view(topology@, options@, pid as nat, views) == starting(
                topology@,
                options@,
                pid as nat,
                views,
                k as nat,
            ),
        decreases 9 - k,
    {
        assert(views[k as int] == answers@[k as int]@);
        if let Some(e) = judge_start(k, &answers[k]) {
            return StartStep::Refused(e);
        }
        k = k + 1;
    }
    if k == 9 {
        return StartStep::Running { options: found, base };
    }
    let action = if k == 0 {
        StartAction::Canonicalize(copy_bytes(options.binary.as_slice()))
    } else if k == 1 {
        StartAction::Canonicalize(copy_bytes(options.umad_library.as_slice()))
    } else if k == 2 {
        StartAction::CreateDir(copy_bytes(options.state_dir.as_slice()))
    } else if k == 3 {
        StartAction::Canonicalize(copy_bytes(options.state_dir.as_slice()))
    } else if k == 4 {
        StartAction::Write { path: path_to(&found.state_dir, "topology.net"), text }
    } else if k == 5 {
        StartAction::TakeSerial
    } else if k == 6 {
        StartAction::CaptureErrors(path_to(&found.state_dir, "ibsim.stderr.log"))
    } else if k == 7 {
        StartAction::Launch(simulator(topology, &found, base.as_str()))
    } else {
        StartAction::OpenTranscript(path_to(&found.state_dir, "ibsim.console.log"))
    };
    StartStep::Ask(action)
}

} // verus!

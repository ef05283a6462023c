//! A running fabric: what it is asked, what it asks of the host, and how its state changes.
//!
//! The native programs run elsewhere. Before an operation they are polled; then the operation says
//! what to do next. Where it says to send something, the state has already changed as if no answer
//! will ever come, so that an operation that is given up leaves the fabric failed.

use super::fault::{fault, FabricError, FabricFault, FaultView};
use super::launch::{add_argument, byte_strings, Environment, EnvironmentView, IbOptions, Input};
use super::launch::{Launch, LaunchView, OptionsView};
use super::manager::{after_manager_event, manager_step, ManagerEvent, ManagerStep};
use super::topology::{roster, IbNodeKind, IbTopology, LinkView, TopologyView};
use crate::registry::Keyed;
use crate::text::{blank, copy_bytes, decimal, is_blank, path_in, path_to, push_decimal};
use vstd::prelude::*;
use vstd::string::*;
use vstd::utf8::encode_utf8;

verus! {

/// Most commands of a fabric whose logs are retained.
pub const MAX_COMMANDS: usize = 1024;

/// Longest deadline, in nanoseconds: 600 seconds.
pub const MAX_DEADLINE: u128 = 600_000_000_000;

/// How long a fabric may take, in nanoseconds, until its control socket answers: 5 seconds.
pub const READINESS_DEADLINE: u128 = 5_000_000_000;

/// Milliseconds between two tries at the control socket of a new fabric.
pub const READINESS_PAUSE: u64 = 50;

/// How long a port may take, in nanoseconds, after a subnet manager was started: 30 seconds.
pub const MANAGER_DEADLINE: u128 = 30_000_000_000;

/// Milliseconds between two looks at a port.
pub const ACTIVE_PAUSE: u64 = 100;

/// Port state read from the running native simulator, never from the input graph.
#[derive(Clone, Copy, Debug, PartialEq, Eq, Structural)]
pub struct IbPortStatus {
    /// LID assigned by the subnet manager; zero before assignment.
    pub lid: u16,
    /// Native IB port state (1 = Down, 4 = Active).
    pub state: u8,
}

impl IbPortStatus {
    /// The port is Active and has a LID.
    pub open spec fn is_active(self) -> bool {
        self.state == 4 && self.lid != 0
    }

    /// The status in words.
    pub open spec fn says(self) -> Seq<char> {
        "IbPortStatus { lid: "@ + decimal(self.lid as nat) + ", state: "@ + decimal(
            self.state as nat,
        ) + " }"@
    }
}

/// A deadline that an operation takes.
pub open spec fn is_deadline(nanoseconds: u128) -> bool {
    0 < nanoseconds <= MAX_DEADLINE
}

/// The native programs of a fabric.
#[derive(Clone, Copy, Debug, PartialEq, Eq, Structural)]
pub enum Service {
    /// The simulator.
    Server,
    /// The subnet manager.
    Manager,
}

/// What a look at a program showed.
pub enum PolledView {
    Alive,
    /// It has exited, with this status.
    Exited(Seq<char>),
    /// It could not be looked at.
    Failed(Seq<char>),
}

/// What a look at a program showed.
#[derive(Debug)]
pub enum Polled {
    Alive,
    /// It has exited, with this status.
    Exited(String),
    /// It could not be looked at.
    Failed(String),
}

impl View for Polled {
    type V = PolledView;

    open spec fn view(&self) -> PolledView {
        match self {
            Polled::Alive => PolledView::Alive,
            Polled::Exited(status) => PolledView::Exited(status@),
            Polled::Failed(m) => PolledView::Failed(m@),
        }
    }
}

/// What the looks at the programs showed: first at the simulator, then at the subnet manager.
pub open spec fn looks(s: Seq<Polled>) -> Seq<PolledView> {
    s.map_values(|p: Polled| p@)
}

/// Where an operation stands.
pub enum FabricStepView<T> {
    /// Look at this program next.
    Poll(Service),
    Refused(FaultView),
    /// The operation goes on with this.
    Go(T),
}

/// Where an operation stands.
#[derive(Debug)]
pub enum FabricStep<T> {
    /// Look at this program next.
    Poll(Service),
    Refused(FabricError),
    /// The operation goes on with this.
    Go(T),
}

impl<T: View> View for FabricStep<T> {
    type V = FabricStepView<T::V>;

    open spec fn view(&self) -> FabricStepView<T::V> {
        match self {
            FabricStep::Poll(service) => FabricStepView::Poll(*service),
            FabricStep::Refused(e) => FabricStepView::Refused(e@),
            FabricStep::Go(value) => FabricStepView::Go(value@),
        }
    }
}

/// What changing a cable takes.
pub enum ChangeView {
    /// Nothing: the cable is already so.
    Unchanged,
    /// Send this line to the console, and hand in what it prints.
    Send(Seq<char>),
}

/// What changing a cable takes.
#[derive(Debug)]
pub enum Change {
    /// Nothing: the cable is already so.
    Unchanged,
    /// Send this line to the console, and hand in what it prints.
    Send(String),
}

impl View for Change {
    type V = ChangeView;

    open spec fn view(&self) -> ChangeView {
        match self {
            Change::Unchanged => ChangeView::Unchanged,
            Change::Send(line) => ChangeView::Send(line@),
        }
    }
}

/// A question to the control socket.
pub struct QueryView {
    pub base: Seq<char>,
    pub node: Seq<char>,
}

/// A question to the control socket: the first port of an HCA, or port zero of a switch.
#[derive(Debug)]
pub struct Query {
    /// The name of the fabric's sockets.
    pub base: String,
    pub node: String,
}

impl View for Query {
    type V = QueryView;

    open spec fn view(&self) -> QueryView {
        QueryView { base: self.base@, node: self.node@ }
    }
}

/// What waiting for a port takes.
pub enum WaitView {
    Query(QueryView),
    /// Wait so many milliseconds, and look again.
    Pause(u64),
    Active(IbPortStatus),
}

/// What waiting for a port takes.
#[derive(Debug)]
pub enum Wait {
    Query(Query),
    /// Wait so many milliseconds, and look again.
    Pause(u64),
    Active(IbPortStatus),
}

impl View for Wait {
    type V = WaitView;

    open spec fn view(&self) -> WaitView {
        match self {
            Wait::Query(q) => WaitView::Query(q@),
            Wait::Pause(ms) => WaitView::Pause(*ms),
            Wait::Active(port) => WaitView::Active(*port),
        }
    }
}

/// What waiting for a new fabric takes.
pub enum ReadyView {
    /// Ask for the status of this node's port.
    Ask(Seq<char>),
    /// Wait so many milliseconds, and try again.
    Pause(u64),
    Ready,
}

/// What waiting for a new fabric takes.
#[derive(Debug)]
pub enum Ready {
    /// Ask for the status of this node's port.
    Ask(String),
    /// Wait so many milliseconds, and try again.
    Pause(u64),
    Ready,
}

impl View for Ready {
    type V = ReadyView;

    open spec fn view(&self) -> ReadyView {
        match self {
            Ready::Ask(node) => ReadyView::Ask(node@),
            Ready::Pause(ms) => ReadyView::Pause(*ms),
            Ready::Ready => ReadyView::Ready,
        }
    }
}

/// How a try at the control socket of a new fabric went.
#[derive(Debug)]
pub enum Try {
    /// None was made yet.
    NotYet,
    Answered,
    /// It failed, so many nanoseconds after the first.
    Failed { message: String, elapsed: u128 },
}

/// A subnet manager to be started.
pub struct ManagerView {
    /// A directory to be created for it.
    pub cache: Seq<u8>,
    pub launch: LaunchView,
    pub stdout: Seq<u8>,
    pub stderr: Seq<u8>,
}

/// A subnet manager to be started.
#[derive(Debug)]
pub struct Manager {
    /// A directory to be created for it.
    pub cache: Vec<u8>,
    pub launch: Launch,
    /// Its logs.
    pub stdout: Vec<u8>,
    pub stderr: Vec<u8>,
}

impl View for Manager {
    type V = ManagerView;

    open spec fn view(&self) -> ManagerView {
        ManagerView {
            cache: self.cache@,
            launch: self.launch@,
            stdout: self.stdout@,
            stderr: self.stderr@,
        }
    }
}

/// What comes of a console that could not be read up to its prompt.
#[derive(Debug)]
pub struct ConsoleFailure {
    /// The program to be killed.
    pub kill: Service,
    pub error: FabricError,
}

/// What happened on the way to the end of a fabric.
#[derive(Debug)]
pub enum Closed {
    /// Nothing yet.
    Begin,
    /// A program was killed and reaped, or could not be.
    Stopped { service: Service, failure: Option<String> },
    /// The log of a program ended, or was found incomplete.
    LogFinished { failure: Option<String> },
}

/// What ending a fabric takes.
pub enum CloseView {
    /// Kill and reap this program.
    Stop(Service),
    /// Wait for the last of the open logs.
    FinishLog,
    Closed,
    Refused(FaultView),
}

/// What ending a fabric takes.
#[derive(Debug)]
pub enum Close {
    /// Kill and reap this program.
    Stop(Service),
    /// Wait for the last of the open logs.
    FinishLog,
    Closed,
    Refused(FabricError),
}

impl View for Close {
    type V = CloseView;

    open spec fn view(&self) -> CloseView {
        match self {
            Close::Stop(service) => CloseView::Stop(*service),
            Close::FinishLog => CloseView::FinishLog,
            Close::Closed => CloseView::Closed,
            Close::Refused(e) => CloseView::Refused(e@),
        }
    }
}

/// The line by which the console connects or disconnects a cable.
pub open spec fn console_line(link: LinkView, up: bool) -> Seq<char> {
    let (a, b) = link.ends;
    if up {
        "Link \""@ + a.node + "\"["@ + decimal(a.port as nat) + "] \""@ + b.node + "\"["@ + decimal(
            b.port as nat,
        ) + "]\n"@
    } else {
        "Unlink \""@ + a.node + "\"["@ + decimal(a.port as nat) + "]\n"@
    }
}

/// A cable change that waits for its acknowledgement.
pub struct PendingView {
    pub link: Seq<char>,
    pub up: bool,
}

/// The state of a fabric.
#[verifier::ext_equal]
pub struct FabricView {
    /// The graph as far as the console has acknowledged it.
    pub graph: TopologyView,
    pub options: OptionsView,
    pub base: Seq<char>,
    /// Nothing more can be asked of the fabric.
    pub failed: bool,
    /// A subnet manager was started.
    pub managed: bool,
    /// Commands that were run.
    pub commands: nat,
    /// The cable change that was sent and not yet acknowledged.
    pub pending: Option<PendingView>,
    /// What went wrong with a log while the fabric was ended.
    pub lost_log: Option<Seq<char>>,
}

impl FabricView {
    /// A fabric that has just been started.
    pub open spec fn fresh(graph: TopologyView, options: OptionsView, base: Seq<char>) -> Self {
        FabricView {
            graph,
            options,
            base,
            failed: false,
            managed: false,
            commands: 0,
            pending: None,
            lost_log: None,
        }
    }

    /// Whether the programs are as they must be for an operation, and what to look at next.
    pub open spec fn health(self, polled: Seq<PolledView>) -> FabricStepView<()> {
        if self.failed {
            FabricStepView::Refused(fault(FabricFault::Failed))
        } else if polled.len() == 0 {
            FabricStepView::Poll(Service::Server)
        } else {
            match polled[0] {
                PolledView::Exited(status) => FabricStepView::Refused(
                    FaultView { kind: FabricFault::ServerExited, detail: status },
                ),
                PolledView::Failed(m) => FabricStepView::Refused(
                    FaultView { kind: FabricFault::Host, detail: m },
                ),
                PolledView::Alive => if !self.managed {
                    FabricStepView::Go(())
                } else if polled.len() == 1 {
                    FabricStepView::Poll(Service::Manager)
                } else {
                    match polled[1] {
                        PolledView::Exited(status) => FabricStepView::Refused(
                            FaultView { kind: FabricFault::ManagerExited, detail: status },
                        ),
                        PolledView::Failed(m) => FabricStepView::Refused(
                            FaultView { kind: FabricFault::Host, detail: m },
                        ),
                        PolledView::Alive => FabricStepView::Go(()),
                    }
                },
            }
        }
    }

    /// The fabric after its programs were looked at: once the simulator has exited, it has failed.
    /// An operation on a fabric that has already failed gives up the cable change that waits for
    /// its acknowledgement.
    pub open spec fn polled(self, polled: Seq<PolledView>) -> Self {
        FabricView {
            failed: self.failed || (polled.len() > 0 && polled[0] is Exited),
            pending: if self.failed {
                None
            } else {
                self.pending
            },
            ..self
        }
    }

    /// An operation that does `next` on a healthy fabric.
    pub open spec fn if_healthy<T>(self, polled: Seq<PolledView>, next: FabricStepView<T>) -> FabricStepView<
        T,
    > {
        match self.health(polled) {
            FabricStepView::Poll(service) => FabricStepView::Poll(service),
            FabricStepView::Refused(f) => FabricStepView::Refused(f),
            FabricStepView::Go(_) => next,
        }
    }

    pub open spec fn change(self, id: Seq<char>, up: bool) -> FabricStepView<ChangeView> {
        if !self.graph.links.contains_key(id) {
            FabricStepView::Refused(fault(FabricFault::UnknownLink))
        } else if self.graph.links[id].up == up {
            FabricStepView::Go(ChangeView::Unchanged)
        } else {
            FabricStepView::Go(ChangeView::Send(console_line(self.graph.links[id], up)))
        }
    }

    /// Changing a cable.
    pub open spec fn set_link_up(
        self,
        id: Seq<char>,
        up: bool,
        polled: Seq<PolledView>,
    ) -> FabricStepView<ChangeView> {
        self.if_healthy(polled, self.change(id, up))
    }

    /// The fabric after a step of changing a cable: where a line is to be sent, it counts as failed
    /// until the console acknowledges it.
    pub open spec fn after_set_link_up(
        self,
        id: Seq<char>,
        up: bool,
        polled: Seq<PolledView>,
    ) -> Self {
        match self.set_link_up(id, up, polled) {
            FabricStepView::Go(ChangeView::Send(_)) => FabricView {
                failed: true,
                pending: Some(PendingView { link: id, up }),
                ..self
            },
            _ => self.polled(polled),
        }
    }

    /// Whether the console has acknowledged a cable change, by printing nothing.
    pub open spec fn acknowledges(self, response: Seq<char>) -> bool {
        self.pending is Some && blank(response)
    }

    /// The fabric after the console has answered a cable change.
    pub open spec fn after_answer(self, response: Seq<char>) -> Self {
        if self.acknowledges(response) {
            FabricView {
                graph: self.graph.with_link_up(self.pending->0.link, self.pending->0.up),
                failed: false,
                pending: None,
                ..self
            }
        } else {
            FabricView { failed: true, pending: None, ..self }
        }
    }

    pub open spec fn query(self, node: Seq<char>) -> FabricStepView<QueryView> {
        if self.graph.nodes.contains_key(node) {
            FabricStepView::Go(QueryView { base: self.base, node })
        } else {
            FabricStepView::Refused(FaultView { kind: FabricFault::UnknownNode, detail: node })
        }
    }

    /// Asking for the status of a port.
    pub open spec fn port_status(self, node: Seq<char>, polled: Seq<PolledView>) -> FabricStepView<
        QueryView,
    > {
        self.if_healthy(polled, self.query(node))
    }

    /// Waiting for a port, where `seen` is its status and the nanoseconds that have gone by.
    pub open spec fn wait_active(
        self,
        node: Seq<char>,
        deadline: u128,
        polled: Seq<PolledView>,
        seen: Option<(IbPortStatus, u128)>,
    ) -> FabricStepView<WaitView> {
        if !is_deadline(deadline) {
            FabricStepView::Refused(fault(FabricFault::ReadinessDeadline))
        } else {
            match seen {
                None => match self.port_status(node, polled) {
                    FabricStepView::Poll(service) => FabricStepView::Poll(service),
                    FabricStepView::Refused(f) => FabricStepView::Refused(f),
                    FabricStepView::Go(q) => FabricStepView::Go(WaitView::Query(q)),
                },
                Some((port, elapsed)) => if port.is_active() {
                    FabricStepView::Go(WaitView::Active(port))
                } else if elapsed >= deadline {
                    FabricStepView::Refused(
                        FaultView {
                            kind: FabricFault::NotActive,
                            detail: node + " did not become Active: "@ + port.says(),
                        },
                    )
                } else {
                    FabricStepView::Go(WaitView::Pause(ACTIVE_PAUSE))
                },
            }
        }
    }

    /// Waiting for a new fabric's control socket.
    pub open spec fn readiness(self, polled: Seq<PolledView>, last: Try) -> FabricStepView<
        ReadyView,
    > {
        match last {
            Try::NotYet => self.if_healthy(
                polled,
                FabricStepView::Go(ReadyView::Ask(roster(self.graph.nodes)[0])),
            ),
            Try::Answered => FabricStepView::Go(ReadyView::Ready),
            Try::Failed { message, elapsed } => if elapsed >= READINESS_DEADLINE {
                FabricStepView::Refused(
                    FaultView { kind: FabricFault::Readiness, detail: message@ },
                )
            } else {
                FabricStepView::Go(ReadyView::Pause(READINESS_PAUSE))
            },
        }
    }

    /// The environment of a UMAD program at a node.
    pub open spec fn environment(self, node: Seq<char>) -> EnvironmentView {
        EnvironmentView {
            dir: self.options.state_dir,
            set: seq![
                ("LD_PRELOAD"@, self.options.umad_library),
                ("SIM_HOST"@, encode_utf8(node)),
                ("IBSIM_SOCKNAME"@, encode_utf8(self.base)),
            ],
            removed: seq!["SIM_SET_ISSM"@, "IBSIM_SERVER_NAME"@, "IBSIM_SERVER_PORT"@],
            input: Input::Null,
            own_group: true,
            kill_on_drop: true,
        }
    }

    /// The subnet manager `program` at a node.
    pub open spec fn manager_at(self, node: Seq<char>, program: Seq<u8>) -> ManagerView {
        let dir = self.options.state_dir;
        let cache = path_in(dir, "opensm-cache"@);
        let e = self.environment(node);
        ManagerView {
            cache,
            launch: LaunchView {
                program,
                args: seq![
                    encode_utf8("-s"@),
                    encode_utf8("1"@),
                    encode_utf8("-f"@),
                    encode_utf8("/dev/stdout"@),
                ],
                environment: EnvironmentView {
                    set: e.set.push(("OSM_CACHE_DIR"@, cache)).push(("OSM_TMP_DIR"@, cache)),
                    ..e
                },
            },
            stdout: path_in(dir, "opensm.stdout.log"@),
            stderr: path_in(dir, "opensm.stderr.log"@),
        }
    }

    pub open spec fn attach_manager(self, node: Seq<char>, program: Seq<u8>) -> FabricStepView<
        ManagerView,
    > {
        if self.managed {
            FabricStepView::Refused(fault(FabricFault::ManagerRunning))
        } else if !self.graph.nodes.contains_key(node) {
            FabricStepView::Refused(fault(FabricFault::UnknownManagerNode))
        } else if self.graph.nodes[node].kind != IbNodeKind::Hca {
            FabricStepView::Refused(fault(FabricFault::NotHca))
        } else {
            FabricStepView::Go(self.manager_at(node, program))
        }
    }

    /// Starting a subnet manager.
    pub open spec fn start_subnet_manager(
        self,
        node: Seq<char>,
        program: Seq<u8>,
        polled: Seq<PolledView>,
    ) -> FabricStepView<ManagerView> {
        self.if_healthy(polled, self.attach_manager(node, program))
    }

    /// The fabric after an event on the way to a running subnet manager.
    pub open spec fn after_manager(self, event: ManagerEvent) -> Self {
        match event {
            ManagerEvent::Launched { failure: None } => FabricView { managed: true, ..self },
            _ => self,
        }
    }

    pub open spec fn command(self, node: Seq<char>, deadline: u128) -> FabricStepView<
        EnvironmentView,
    > {
        if !is_deadline(deadline) {
            FabricStepView::Refused(fault(FabricFault::CommandDeadline))
        } else if !self.graph.nodes.contains_key(node) {
            FabricStepView::Refused(FaultView { kind: FabricFault::UnknownNode, detail: node })
        } else if self.commands >= MAX_COMMANDS {
            FabricStepView::Refused(fault(FabricFault::CommandLimit))
        } else {
            FabricStepView::Go(self.environment(node))
        }
    }

    /// Running a UMAD tool at a node.
    pub open spec fn run(self, node: Seq<char>, deadline: u128, polled: Seq<PolledView>) -> FabricStepView<
        EnvironmentView,
    > {
        self.if_healthy(polled, self.command(node, deadline))
    }

    /// The fabric after a step of running a tool: a tool that is let through is counted.
    pub open spec fn after_run(
        self,
        node: Seq<char>,
        deadline: u128,
        polled: Seq<PolledView>,
    ) -> Self {
        if self.run(node, deadline, polled) is Go {
            FabricView { commands: self.commands + 1, ..self }
        } else {
            self.polled(polled)
        }
    }

    /// What is left once both programs are gone: the logs, and then the first of them to have
    /// been opened that was lost.
    pub open spec fn logs_left(self, open_logs: nat) -> CloseView {
        if open_logs > 0 {
            CloseView::FinishLog
        } else {
            match self.lost_log {
                Some(m) => CloseView::Refused(FaultView { kind: FabricFault::Host, detail: m }),
                None => CloseView::Closed,
            }
        }
    }

    /// The fabric after an event on the way to its end.
    pub open spec fn after_closed(self, event: Closed) -> Self {
        match event {
            Closed::Begin => FabricView { failed: true, pending: None, lost_log: None, ..self },
            Closed::Stopped { service, failure } => if service == Service::Manager
                && failure is None {
                FabricView { managed: false, ..self }
            } else {
                self
            },
            Closed::LogFinished { failure } => match failure {
                Some(m) => FabricView { lost_log: Some(m@), ..self },
                None => self,
            },
        }
    }

    /// What ending the fabric takes after an event, with so many logs still open.
    pub open spec fn shutdown(self, event: Closed, open_logs: nat) -> CloseView {
        match event {
            Closed::Begin => if self.managed {
                CloseView::Stop(Service::Manager)
            } else {
                CloseView::Stop(Service::Server)
            },
            Closed::Stopped { service, failure } => match failure {
                Some(m) => CloseView::Refused(FaultView { kind: FabricFault::Host, detail: m@ }),
                None => if service == Service::Manager {
                    CloseView::Stop(Service::Server)
                } else {
                    self.logs_left(open_logs)
                },
            },
            Closed::LogFinished { failure } => self.after_closed(event).logs_left(open_logs),
        }
    }
}

/// Owns the graph of a running fabric and what is known of its native programs.
#[derive(Debug)]
pub struct IbFabric {
    topology: IbTopology,
    options: IbOptions,
    base: String,
    failed: bool,
    managed: bool,
    commands: usize,
    pending: Option<(String, bool)>,
    lost_log: Option<String>,
}

impl View for IbFabric {
    type V = FabricView;

    closed spec fn view(&self) -> FabricView {
        FabricView {
            graph: self.topology@,
            options: self.options@,
            base: self.base@,
            failed: self.failed,
            managed: self.managed,
            commands: self.commands as nat,
            pending: match self.pending {
                Some((id, up)) => Some(PendingView { link: id@, up }),
                None => None,
            },
            lost_log: match self.lost_log {
                Some(m) => Some(m@),
                None => None,
            },
        }
    }
}

/// Carries a refusal or a poll over to an operation of another kind.
fn carry<T: View>(health: FabricStep<()>) -> (r: FabricStep<T>)
    requires
        !(health is Go),
    ensures
        match health@ {
            FabricStepView::Poll(service) => r@ == FabricStepView::<T::V>::Poll(service),
            FabricStepView::Refused(f) => r@ == FabricStepView::<T::V>::Refused(f),
            FabricStepView::Go(_) => true,
        },
{
    match health {
        FabricStep::Poll(service) => FabricStep::Poll(service),
        FabricStep::Refused(e) => FabricStep::Refused(e),
        FabricStep::Go(_) => FabricStep::Poll(Service::Server),
    }
}

impl IbFabric {
    /// At most so many commands were run; and while a cable change waits for its acknowledgement,
    /// the cable is there and nothing else can be done.
    pub closed spec fn wf(&self) -> bool {
        &&& self.topology.wf()
        &&& self@.commands <= MAX_COMMANDS
        &&& self@.pending is Some ==> self@.failed && self@.graph.links.contains_key(
            self@.pending->0.link,
        )
    }

    /// What a well-formed fabric keeps to.
    pub proof fn lemma_wf(&self)
        requires
            self.wf(),
        ensures
            self@.graph.valid(),
            self@.commands <= MAX_COMMANDS,
            self@.pending is Some ==> self@.failed && self@.graph.links.contains_key(
                self@.pending->0.link,
            ),
    {
        self.topology.lemma_valid();
    }

    /// A fabric whose simulator has just been started.
    pub fn new(topology: IbTopology, options: IbOptions, base: String) -> (r: Self)
        requires
            topology.wf(),
        ensures
            r.wf(),
            r@ == FabricView::fresh(topology@, options@, base@),
    {
        IbFabric {
            topology,
            options,
            base,
            failed: false,
            managed: false,
            commands: 0,
            pending: None,
            lost_log: None,
        }
    }

    /// The current IB graph, updated only after native console acknowledgement.
    pub fn topology(&self) -> (r: &IbTopology)
        requires
            self.wf(),
        ensures
            r@ == self@.graph,
            r.wf(),
    {
        &self.topology
    }

    /// Directory containing native reports and process logs.
    pub fn state_dir(&self) -> (r: &Vec<u8>)
        ensures
            r@ == self@.options.state_dir,
    {
        &self.options.state_dir
    }

    /// Whether nothing more can be asked of the fabric.
    pub fn has_failed(&self) -> (r: bool)
        ensures
            r == self@.failed,
    {
        self.failed
    }

    /// Whether the programs are as they must be for an operation, and what to look at next.
    pub fn healthy(&mut self, polled: &Vec<Polled>) -> (r: FabricStep<()>)
        requires
            old(self).wf(),
        ensures
            final(self).wf(),
            r@ == old(self)@.health(looks(polled@)),
            final(self)@ == (if r@ is Go {
                old(self)@
            } else {
                old(self)@.polled(looks(polled@))
            }),
    {
        let ghost views = looks(polled@);
        if self.failed {
            self.pending = None;
            return FabricStep::Refused(FabricError::new(FabricFault::Failed));
        }
        if polled.len() == 0 {
            assert(self@ =~= old(self)@.polled(views));
            return FabricStep::Poll(Service::Server);
        }
        assert(views[0] == polled@[0]@);
        match &polled[0] {
            Polled::Exited(status) => {
                self.failed = true;
                FabricStep::Refused(FabricError::about(FabricFault::ServerExited, status.as_str()))
            },
            Polled::Failed(m) => {
                FabricStep::Refused(FabricError::about(FabricFault::Host, m.as_str()))
            },
            Polled::Alive => {
                if !self.managed {
                    return FabricStep::Go(());
                }
                if polled.len() == 1 {
                    return FabricStep::Poll(Service::Manager);
                }
                assert(views[1] == polled@[1]@);
                match &polled[1] {
                    Polled::Exited(status) => FabricStep::Refused(
                        FabricError::about(FabricFault::ManagerExited, status.as_str()),
                    ),
                    Polled::Failed(m) => FabricStep::Refused(
                        FabricError::about(FabricFault::Host, m.as_str()),
                    ),
                    Polled::Alive => FabricStep::Go(()),
                }
            },
        }
    }

    /// Connect or disconnect the native cable. OpenSM receives the upstream traps.
    pub fn set_link_up(&mut self, id: &str, up: bool, polled: &Vec<Polled>) -> (r: FabricStep<Change>)
        requires
            old(self).wf(),
        ensures
            final(self).wf(),
            r@ == old(self)@.set_link_up(id@, up, looks(polled@)),
            final(self)@ == old(self)@.after_set_link_up(id@, up, looks(polled@)),
    {
        let health = self.healthy(polled);
        if !matches!(health, FabricStep::Go(_)) {
            return carry(health);
        }
        let line = match self.topology.link(id) {
            None => {
                return FabricStep::Refused(FabricError::new(FabricFault::UnknownLink));
            },
            Some(link) => {
                if link.up == up {
                    return FabricStep::Go(Change::Unchanged);
                }
                let a = &link.endpoints[0];
                let b = &link.endpoints[1];
                let mut line = (if up {
                    "Link \""
                } else {
                    "Unlink \""
                }).to_owned();
                line.append(a.node.as_str());
                line.append("\"[");
                push_decimal(&mut line, a.port as u64);
                if up {
                    line.append("] \"");
                    line.append(b.node.as_str());
                    line.append("\"[");
                    push_decimal(&mut line, b.port as u64);
                }
                line.append("]\n");
                assert(line@ =~= console_line(link.entry(), up));
                line
            },
        };
        // An operation that is given up after sending a command leaves its outcome unknown.
        // The fabric stays failed until both acknowledgement and commit, so that the next
        // call cannot take a stale prompt for its own.
        self.failed = true;
        self.pending = Some((id.to_owned(), up));
        FabricStep::Go(Change::Send(line))
    }

    /// Takes what the console printed after a cable change was sent.
    pub fn link_answered(&mut self, response: &str) -> (r: Result<(), FabricError>)
        requires
            old(self).wf(),
        ensures
            final(self).wf(),
            final(self)@ == old(self)@.after_answer(response@),
            match r {
                Ok(()) => old(self)@.acknowledges(response@),
                Err(e) => {
                    &&& !old(self)@.acknowledges(response@)
                    &&& e@ == (if old(self)@.pending is None {
                        fault(FabricFault::NothingPending)
                    } else {
                        FaultView { kind: FabricFault::Rejected, detail: response@ }
                    })
                },
            },
    {
        let pending = self.pending.take();
        self.failed = true;
        match pending {
            None => Err(FabricError::new(FabricFault::NothingPending)),
            Some((id, up)) => {
                if !is_blank(response) {
                    return Err(FabricError::about(FabricFault::Rejected, response));
                }
                self.topology.set_up(id.as_str(), up);
                self.failed = false;
                Ok(())
            },
        }
    }

    /// Takes note that the console could not be read up to its prompt.
    pub fn console_failed(&mut self, reason: &str) -> (r: ConsoleFailure)
        requires
            old(self).wf(),
        ensures
            final(self).wf(),
            final(self)@ == (FabricView { failed: true, pending: None, ..old(self)@ }),
            r.kill == Service::Server,
            r.error@ == (FaultView { kind: FabricFault::Console, detail: reason@ }),
    {
        self.failed = true;
        self.pending = None;
        let error = FabricError::about(FabricFault::Console, reason);
        ConsoleFailure { kill: Service::Server, error }
    }

    /// Takes note that a cable change could not be sent.
    pub fn send_failed(&mut self, reason: &str) -> (r: FabricError)
        requires
            old(self).wf(),
        ensures
            final(self).wf(),
            final(self)@ == (FabricView { failed: true, pending: None, ..old(self)@ }),
            r@ == (FaultView { kind: FabricFault::Host, detail: reason@ }),
    {
        self.failed = true;
        self.pending = None;
        FabricError::about(FabricFault::Host, reason)
    }

    fn query(&self, node: &str) -> (r: FabricStep<Query>)
        requires
            self.wf(),
        ensures
            r@ == self@.query(node@),
    {
        if self.topology.node(node).is_none() {
            return FabricStep::Refused(FabricError::about(FabricFault::UnknownNode, node));
        }
        FabricStep::Go(Query { base: self.base.clone(), node: node.to_owned() })
    }

    /// Query the native first HCA port, or switch port zero.
    pub fn port_status(&mut self, node: &str, polled: &Vec<Polled>) -> (r: FabricStep<Query>)
        requires
            old(self).wf(),
        ensures
            final(self).wf(),
            r@ == old(self)@.port_status(node@, looks(polled@)),
            final(self)@ == (if r@ is Go {
                old(self)@
            } else {
                old(self)@.polled(looks(polled@))
            }),
    {
        let health = self.healthy(polled);
        if !matches!(health, FabricStep::Go(_)) {
            return carry(health);
        }
        self.query(node)
    }

    /// Wait for a real nonzero LID and Active port, with a finite deadline in nanoseconds. `seen`
    /// is the status that came back and the nanoseconds that have gone by.
    pub fn wait_active(
        &mut self,
        node: &str,
        deadline: u128,
        polled: &Vec<Polled>,
        seen: Option<(IbPortStatus, u128)>,
    ) -> (r: FabricStep<Wait>)
        requires
            old(self).wf(),
        ensures
            final(self).wf(),
            r@ == old(self)@.wait_active(node@, deadline, looks(polled@), seen),
            final(self)@ == (if is_deadline(deadline) && seen is None && !(r@ is Go) {
                old(self)@.polled(looks(polled@))
            } else {
                old(self)@
            }),
    {
        if deadline == 0 || deadline > MAX_DEADLINE {
            return FabricStep::Refused(FabricError::new(FabricFault::ReadinessDeadline));
        }
        match seen {
            None => match self.port_status(node, polled) {
                FabricStep::Poll(service) => FabricStep::Poll(service),
                FabricStep::Refused(e) => FabricStep::Refused(e),
                FabricStep::Go(q) => FabricStep::Go(Wait::Query(q)),
            },
            Some((port, elapsed)) => {
                if port.state == 4 && port.lid != 0 {
                    return FabricStep::Go(Wait::Active(port));
                }
                if elapsed >= deadline {
                    let mut detail = node.to_owned();
                    detail.append(" did not become Active: ");
                    detail.append("IbPortStatus { lid: ");
                    push_decimal(&mut detail, port.lid as u64);
                    detail.append(", state: ");
                    push_decimal(&mut detail, port.state as u64);
                    detail.append(" }");
                    assert(detail@ =~= node@ + " did not become Active: "@ + port.says());
                    return FabricStep::Refused(
                        FabricError { kind: FabricFault::NotActive, detail },
                    );
                }
                FabricStep::Go(Wait::Pause(ACTIVE_PAUSE))
            },
        }
    }

    /// Wait for the control socket of a new fabric: the console prompt is printed before the native
    /// simulator sets its sockets up, so a real control exchange with the first node is the
    /// readiness check.
    pub fn readiness(&mut self, polled: &Vec<Polled>, last: &Try) -> (r: FabricStep<Ready>)
        requires
            old(self).wf(),
            old(self)@.graph.nodes.len() > 0,
        ensures
            final(self).wf(),
            r@ == old(self)@.readiness(looks(polled@), *last),
            final(self)@ == (if last is NotYet && !(r@ is Go) {
                old(self)@.polled(looks(polled@))
            } else {
                old(self)@
            }),
    {
        match last {
            Try::NotYet => {
                let health = self.healthy(polled);
                if !matches!(health, FabricStep::Go(_)) {
                    return carry(health);
                }
                FabricStep::Go(Ready::Ask(self.topology.first_node().to_owned()))
            },
            Try::Answered => FabricStep::Go(Ready::Ready),
            Try::Failed { message, elapsed } => {
                if *elapsed >= READINESS_DEADLINE {
                    FabricStep::Refused(FabricError::about(FabricFault::Readiness, message.as_str()))
                } else {
                    FabricStep::Go(Ready::Pause(READINESS_PAUSE))
                }
            },
        }
    }

    fn environment(&self, node: &str) -> (r: Environment)
        ensures
            r@ == self@.environment(node@),
    {
        let mut e = Environment::new(&self.options.state_dir, Input::Null);
        e.set("LD_PRELOAD", self.options.umad_library.as_slice());
        e.set("SIM_HOST", node.as_bytes());
        e.set("IBSIM_SOCKNAME", self.base.as_str().as_bytes());
        e.remove("SIM_SET_ISSM");
        e.remove("IBSIM_SERVER_NAME");
        e.remove("IBSIM_SERVER_PORT");
        assert(e@.set =~= self@.environment(node@).set);
        assert(e@.removed =~= self@.environment(node@).removed);
        e
    }

    /// The environment of a UMAD program at a node of the graph.
    pub fn prepare(&self, node: &str) -> (r: Result<Environment, FabricError>)
        requires
            self.wf(),
        ensures
            match r {
                Ok(e) => self@.graph.nodes.contains_key(node@) && e@ == self@.environment(node@),
                Err(e) => !self@.graph.nodes.contains_key(node@) && e@ == (FaultView {
                    kind: FabricFault::UnknownNode,
                    detail: node@,
                }),
            },
    {
        if self.topology.node(node).is_none() {
            return Err(FabricError::about(FabricFault::UnknownNode, node));
        }
        Ok(self.environment(node))
    }

    /// Start an unmodified OpenSM in the foreground, attached to an HCA.
    pub fn start_subnet_manager(&mut self, node: &str, opensm: &Vec<u8>, polled: &Vec<Polled>) -> (r:
        FabricStep<Manager>)
        requires
            old(self).wf(),
        ensures
            final(self).wf(),
            r@ == old(self)@.start_subnet_manager(node@, opensm@, looks(polled@)),
            final(self)@ == (if r@ is Go {
                old(self)@
            } else {
                old(self)@.polled(looks(polled@))
            }),
    {
        let health = self.healthy(polled);
        if !matches!(health, FabricStep::Go(_)) {
            return carry(health);
        }
        if self.managed {
            return FabricStep::Refused(FabricError::new(FabricFault::ManagerRunning));
        }
        match self.topology.node(node) {
            None => {
                return FabricStep::Refused(FabricError::new(FabricFault::UnknownManagerNode));
            },
            Some(n) => {
                if n.kind != IbNodeKind::Hca {
                    return FabricStep::Refused(FabricError::new(FabricFault::NotHca));
                }
            },
        }
        let dir = &self.options.state_dir;
        let cache = path_to(dir, "opensm-cache");
        let mut environment = self.environment(node);
        environment.set("OSM_CACHE_DIR", cache.as_slice());
        environment.set("OSM_TMP_DIR", cache.as_slice());
        let mut args: Vec<Vec<u8>> = Vec::new();
        add_argument(&mut args, "-s".as_bytes());
        add_argument(&mut args, "1".as_bytes());
        add_argument(&mut args, "-f".as_bytes());
        add_argument(&mut args, "/dev/stdout".as_bytes());
        assert(byte_strings(args@) =~= self@.manager_at(node@, opensm@).launch.args);
        let program = copy_bytes(opensm.as_slice());
        let launch = Launch { program, args, environment };
        let stdout = path_to(dir, "opensm.stdout.log");
        let stderr = path_to(dir, "opensm.stderr.log");
        FabricStep::Go(Manager { cache, launch, stdout, stderr })
    }

    /// What to do next about a subnet manager that was let through. From its launch on, it is
    /// looked at before every operation.
    pub fn manager_event(&mut self, event: ManagerEvent) -> (r: ManagerStep)
        requires
            old(self).wf(),
        ensures
            final(self).wf(),
            r@ == after_manager_event(event),
            final(self)@ == old(self)@.after_manager(event),
    {
        if let ManagerEvent::Launched { failure: None } = &event {
            self.managed = true;
        }
        manager_step(event)
    }

    /// Let a native UMAD tool run at a graph node, with a deadline in nanoseconds. At most 1024
    /// commands retain logs; exhausted budgets fail without unbounded growth.
    pub fn run(&mut self, node: &str, deadline: u128, polled: &Vec<Polled>) -> (r: FabricStep<Environment>)
        requires
            old(self).wf(),
        ensures
            final(self).wf(),
            r@ == old(self)@.run(node@, deadline, looks(polled@)),
            final(self)@ == old(self)@.after_run(node@, deadline, looks(polled@)),
    {
        let health = self.healthy(polled);
        if !matches!(health, FabricStep::Go(_)) {
            return carry(health);
        }
        if deadline == 0 || deadline > MAX_DEADLINE {
            return FabricStep::Refused(FabricError::new(FabricFault::CommandDeadline));
        }
        let environment = match self.prepare(node) {
            Ok(e) => e,
            Err(e) => {
                return FabricStep::Refused(e);
            },
        };
        if self.commands >= MAX_COMMANDS {
            return FabricStep::Refused(FabricError::new(FabricFault::CommandLimit));
        }
        self.commands = self.commands + 1;
        FabricStep::Go(environment)
    }

    /// The logs of the `id`-th command of a process.
    pub fn command_logs(&self, id: u64) -> (r: (Vec<u8>, Vec<u8>))
        ensures
            r.0@ == path_in(
                self@.options.state_dir,
                "command-"@ + decimal(id as nat) + ".stdout.log"@,
            ),
            r.1@ == path_in(
                self@.options.state_dir,
                "command-"@ + decimal(id as nat) + ".stderr.log"@,
            ),
    {
        let mut stdout = "command-".to_owned();
        push_decimal(&mut stdout, id);
        let mut stderr = stdout.clone();
        stdout.append(".stdout.log");
        stderr.append(".stderr.log");
        let dir = &self.options.state_dir;
        (path_to(dir, stdout.as_str()), path_to(dir, stderr.as_str()))
    }

    /// Terminate and reap both native services. Safe to call more than once. `open_logs` is the
    /// number of logs of these services that have not been waited for.
    pub fn shutdown(&mut self, event: Closed, open_logs: usize) -> (r: Close)
        requires
            old(self).wf(),
        ensures
            final(self).wf(),
            r@ == old(self)@.shutdown(event, open_logs as nat),
            final(self)@ == old(self)@.after_closed(event),
    {
        match event {
            Closed::Begin => {
                self.failed = true;
                self.pending = None;
                self.lost_log = None;
                if self.managed {
                    Close::Stop(Service::Manager)
                } else {
                    Close::Stop(Service::Server)
                }
            },
            Closed::Stopped { service, failure } => match failure {
                Some(detail) => Close::Refused(FabricError { kind: FabricFault::Host, detail }),
                None => match service {
                    Service::Manager => {
                        self.managed = false;
                        Close::Stop(Service::Server)
                    },
                    Service::Server => self.logs_left(open_logs),
                },
            },
            Closed::LogFinished { failure } => {
                if let Some(m) = failure {
                    self.lost_log = Some(m);
                }
                self.logs_left(open_logs)
            },
        }
    }

    fn logs_left(&self, open_logs: usize) -> (r: Close)
        ensures
            r@ == self@.logs_left(open_logs as nat),
    {
        if open_logs > 0 {
            return Close::FinishLog;
        }
        match &self.lost_log {
            Some(m) => Close::Refused(FabricError::about(FabricFault::Host, m.as_str())),
            None => Close::Closed,
        }
    }
}

} // verus!

//! What holds of every fabric, whatever its native programs do.

use super::fabric::{console_line, ChangeView, CloseView, Closed, FabricStepView, FabricView, PolledView};
use super::fabric::{is_deadline, IbPortStatus, Service, WaitView, MAX_COMMANDS};
use super::control::lemma_suffix;
use super::fault::{fault, FabricFault};
use super::graph_laws::law_names_stay_in_their_quotes;
use super::launch::{is_preloadable, Input, OptionsView};
use super::lab::{handed_out, lab_step, law_serials_distinct, namespace, serials, LabActionView};
use super::lab::{LabEvent, LabView};
use super::startup::{serial_of, server_launch, socket_base, start_action, start_refusal, start_view};
use super::startup::{starting, StartAnswerView, StartView};
use super::topology::TopologyView;
use crate::text::{blank, decimal};
use crate::text::{lemma_decimal_digits, lemma_decimal_injective};
use vstd::prelude::*;

verus! {

/// A failed fabric refuses every operation, and nothing is asked of its programs.
pub proof fn law_failed_fabric_refuses(
    f: FabricView,
    node: Seq<char>,
    id: Seq<char>,
    up: bool,
    program: Seq<u8>,
    deadline: u128,
    polled: Seq<PolledView>,
)
    requires
        f.failed,
    ensures
        f.set_link_up(id, up, polled) == FabricStepView::<ChangeView>::Refused(
            fault(FabricFault::Failed),
        ),
        f.after_set_link_up(id, up, polled) == (FabricView { pending: None, ..f }),
        f.port_status(node, polled) is Refused,
        f.start_subnet_manager(node, program, polled) is Refused,
        f.run(node, deadline, polled) is Refused,
        f.after_run(node, deadline, polled) == (FabricView { pending: None, ..f }),
        f.wait_active(node, deadline, polled, None) is Refused,
{
}

/// A cable change that was sent and not acknowledged leaves the graph as it was and the fabric
/// failed, so that no later operation can take the answer for its own. Once a later operation has
/// been refused, nothing that is handed in can make up for the acknowledgement.
pub proof fn law_unanswered_change_fails_closed(
    f: FabricView,
    id: Seq<char>,
    up: bool,
    polled: Seq<PolledView>,
    later: Seq<PolledView>,
    response: Seq<char>,
)
    requires
        f.set_link_up(id, up, polled) matches FabricStepView::Go(ChangeView::Send(_)),
    ensures
        f.after_set_link_up(id, up, polled).failed,
        f.after_set_link_up(id, up, polled).graph == f.graph,
        f.after_set_link_up(id, up, polled).health(later) is Refused,
        f.after_set_link_up(id, up, polled).polled(later).failed,
        f.after_set_link_up(id, up, polled).polled(later).graph == f.graph,
        f.after_set_link_up(id, up, polled).polled(later).after_answer(response).failed,
        f.after_set_link_up(id, up, polled).polled(later).after_answer(response).graph == f.graph,
{
}

/// A cable change that the console acknowledges is in the graph, and nothing else has changed.
pub proof fn law_acknowledged_change(
    f: FabricView,
    id: Seq<char>,
    up: bool,
    polled: Seq<PolledView>,
    response: Seq<char>,
)
    requires
        f.pending is Some ==> f.failed,
        f.set_link_up(id, up, polled) matches FabricStepView::Go(ChangeView::Send(_)),
        blank(response),
    ensures
        f.after_set_link_up(id, up, polled).acknowledges(response),
        f.after_set_link_up(id, up, polled).after_answer(response) == (FabricView {
            graph: f.graph.with_link_up(id, up),
            ..f
        }),
{
    assert(!f.failed);
    assert(f.pending is None);
}

/// A cable change that the console answers with anything else is not in the graph, and the fabric
/// has failed.
pub proof fn law_rejected_change(
    f: FabricView,
    id: Seq<char>,
    up: bool,
    polled: Seq<PolledView>,
    response: Seq<char>,
)
    requires
        f.set_link_up(id, up, polled) matches FabricStepView::Go(ChangeView::Send(_)),
        !blank(response),
    ensures
        f.after_set_link_up(id, up, polled).after_answer(response).graph == f.graph,
        f.after_set_link_up(id, up, polled).after_answer(response).failed,
{
}

/// The graph changes by nothing but an acknowledged cable change.
pub proof fn law_graph_changes_only_on_acknowledgement(
    f: FabricView,
    node: Seq<char>,
    id: Seq<char>,
    up: bool,
    deadline: u128,
    polled: Seq<PolledView>,
    response: Seq<char>,
    event: Closed,
)
    ensures
        f.polled(polled).graph == f.graph,
        f.after_set_link_up(id, up, polled).graph == f.graph,
        f.after_run(node, deadline, polled).graph == f.graph,
        f.after_closed(event).graph == f.graph,
        f.after_answer(response).graph != f.graph ==> f.acknowledges(response),
{
}

/// A failed fabric stays failed, unless the console acknowledges the cable change that it waits
/// for.
pub proof fn law_failure_lasts(
    f: FabricView,
    node: Seq<char>,
    id: Seq<char>,
    up: bool,
    deadline: u128,
    polled: Seq<PolledView>,
    response: Seq<char>,
    event: Closed,
)
    requires
        f.failed,
    ensures
        f.polled(polled).failed,
        f.after_set_link_up(id, up, polled).failed,
        f.after_run(node, deadline, polled).failed,
        f.after_closed(event).failed,
        !f.acknowledges(response) ==> f.after_answer(response).failed,
{
}

/// Once the simulator has been seen to have exited, the fabric has failed.
pub proof fn law_dead_server_fails(
    f: FabricView,
    id: Seq<char>,
    up: bool,
    polled: Seq<PolledView>,
)
    requires
        polled.len() > 0,
        polled[0] is Exited,
    ensures
        f.set_link_up(id, up, polled) is Refused,
        f.after_set_link_up(id, up, polled).failed,
        f.after_set_link_up(id, up, polled).graph == f.graph,
{
}

/// At most so many commands are let through.
pub proof fn law_commands_are_bounded(
    f: FabricView,
    node: Seq<char>,
    deadline: u128,
    polled: Seq<PolledView>,
)
    requires
        f.commands <= MAX_COMMANDS,
    ensures
        f.after_run(node, deadline, polled).commands <= MAX_COMMANDS,
        f.commands == MAX_COMMANDS ==> !(f.run(node, deadline, polled) is Go),
{
}

/// Only an Active port with a LID ends the wait for it, and one that is seen so always does.
pub proof fn law_wait_ends_with_an_active_port(
    f: FabricView,
    node: Seq<char>,
    deadline: u128,
    polled: Seq<PolledView>,
    port: IbPortStatus,
    elapsed: u128,
)
    requires
        is_deadline(deadline),
    ensures
        f.wait_active(node, deadline, polled, Some((port, elapsed))) == FabricStepView::Go(
            WaitView::Active(port),
        ) <==> port.is_active(),
        !port.is_active() && elapsed >= deadline ==> f.wait_active(
            node,
            deadline,
            polled,
            Some((port, elapsed)),
        ) is Refused,
{
}

/// What is left of ending a fabric whose logs have all been whole so far.
pub open spec fn rest(open_logs: nat) -> CloseView {
    if open_logs > 0 {
        CloseView::FinishLog
    } else {
        CloseView::Closed
    }
}

/// Ending a fabric stops the subnet manager, then the simulator, then waits for each log; and
/// ending it again finds it ended, whatever had become of the logs.
pub proof fn law_shutdown_twice(f: FabricView, open_logs: nat, failure: Option<String>)
    ensures
        ({
            let a = f.after_closed(Closed::Begin);
            let m = Closed::Stopped { service: Service::Manager, failure: None };
            let s = Closed::Stopped { service: Service::Server, failure: None };
            let l = Closed::LogFinished { failure: None };
            let b = if f.managed {
                a.after_closed(m)
            } else {
                a
            };
            let c = b.after_closed(s);
            let d = c.after_closed(Closed::LogFinished { failure });
            &&& f.managed ==> f.shutdown(Closed::Begin, open_logs) == CloseView::Stop(
                Service::Manager,
            )
            &&& f.managed ==> a.shutdown(m, open_logs) == CloseView::Stop(Service::Server)
            &&& !f.managed ==> f.shutdown(Closed::Begin, open_logs) == CloseView::Stop(
                Service::Server,
            )
            &&& b.shutdown(s, open_logs) == rest(open_logs)
            &&& c.failed && !c.managed
            &&& c.after_closed(l) == c
            &&& c.shutdown(l, open_logs) == rest(open_logs)
            &&& d.after_closed(Closed::Begin) == c
            &&& d.shutdown(Closed::Begin, 0) == CloseView::Stop(Service::Server)
            &&& c.after_closed(s) == c
            &&& c.shutdown(s, 0) == CloseView::Closed
        }),
{
}

/// A fabric is not reported as ended while a log is still open, nor if one was lost.
pub proof fn law_shutdown_waits_for_logs(f: FabricView, event: Closed, open_logs: nat)
    requires
        f.shutdown(event, open_logs) == CloseView::Closed,
    ensures
        open_logs == 0,
        f.after_closed(event).lost_log is None,
{
}

/// A cable change is one line of the console: a line break stands at its end and nowhere else.
pub proof fn law_change_is_one_line(t: TopologyView, id: Seq<char>, up: bool)
    requires
        t.valid(),
        t.links.contains_key(id),
    ensures
        console_line(t.links[id], up).len() > 0,
        console_line(t.links[id], up).last() == '\n',
        forall|i: int|
            0 <= i < console_line(t.links[id], up).len() - 1 ==> #[trigger] console_line(
                t.links[id],
                up,
            )[i] != '\n',
{
    let link = t.links[id];
    let (a, b) = link.ends;
    assert(t.has_port(a) && t.has_port(b));
    law_names_stay_in_their_quotes(a.node);
    law_names_stay_in_their_quotes(b.node);
    lemma_decimal_digits(a.port as nat);
    lemma_decimal_digits(b.port as nat);
    reveal_strlit("Link \"");
    reveal_strlit("Unlink \"");
    reveal_strlit("\"[");
    reveal_strlit("] \"");
    reveal_strlit("]\n");
    assert(no_break("Link \""@));
    assert(no_break("Unlink \""@));
    assert(no_break("\"["@));
    assert(no_break("] \""@));
    assert(no_break(decimal(a.port as nat)));
    assert(no_break(decimal(b.port as nat)));
    assert(no_break(a.node));
    assert(no_break(b.node));
}

spec fn no_break(s: Seq<char>) -> bool {
    forall|i: int| 0 <= i < s.len() ==> #[trigger] s[i] != '\n'
}

/// Different fabrics have different socket names, in one process or in several.
pub proof fn law_socket_names_distinct(p: nat, a: nat, q: nat, b: nat)
    requires
        socket_base(p, a) == socket_base(q, b),
    ensures
        p == q,
        a == b,
{
    let x = decimal(p);
    let y = decimal(q);
    let n = "pb-"@.len() as int;
    reveal_strlit("-");
    lemma_decimal_digits(p);
    lemma_decimal_digits(q);
    let s = socket_base(p, a);
    let t = socket_base(q, b);
    assert(s[n + x.len()] == '-');
    assert(t[n + y.len()] == '-');
    if x.len() < y.len() {
        assert(t[n + x.len()] == y[x.len() as int]);
    }
    if y.len() < x.len() {
        assert(s[n + y.len()] == x[y.len() as int]);
    }
    assert(x =~= y) by {
        assert forall|i: int| 0 <= i < x.len() implies x[i] == y[i] by {
            assert(s[n + i] == x[i]);
            assert(t[n + i] == y[i]);
        }
    }
    lemma_decimal_injective(p, q);
    assert(s.skip(n + x.len() + 1) =~= decimal(a));
    assert(t.skip(n + y.len() + 1) =~= decimal(b));
    lemma_decimal_injective(a, b);
}

/// Different fabrics of a process have different namespaces.
pub proof fn law_namespaces_distinct(a: nat, b: nat)
    requires
        namespace(a) == namespace(b),
    ensures
        a == b,
{
    lemma_suffix("ibsim-"@, a, b);
}

proof fn lemma_start_prefix(
    graph: TopologyView,
    options: OptionsView,
    pid: nat,
    answers: Seq<StartAnswerView>,
    k: nat,
)
    requires
        k <= 9,
        k <= answers.len(),
    ensures
        match starting(graph, options, pid, answers, k) {
            StartView::Refused(_) => true,
            StartView::Ask(action) => {
                &&& answers.len() < 9
                &&& action == start_action(
                    graph,
                    options,
                    pid,
                    answers,
                    answers.len() as int,
                )
                &&& forall|i: int|
                    k <= i < answers.len() ==> start_refusal(
                        i,
                        #[trigger] answers[i],
                    ) is None
            },
            StartView::Running { .. } => {
                &&& answers.len() > 8
                &&& forall|i: int|
                    k <= i < 9 ==> start_refusal(i, #[trigger] answers[i]) is None
            },
        },
    decreases 9 - k,
{
    if k < 9 && k < answers.len() && start_refusal(
        k as int,
        answers[k as int],
    ) is None {
        lemma_start_prefix(graph, options, pid, answers, k + 1);
    }
}

/// The simulator is started, and files are written, only in a directory that was created for it,
/// and only with a library that can be preloaded.
pub proof fn law_start_in_a_new_directory(
    graph: TopologyView,
    options: OptionsView,
    pid: nat,
    answers: Seq<StartAnswerView>,
)
    requires
        match start_view(graph, options, pid, answers) {
            StartView::Ask(action) => action is Write || action is TakeSerial
                || action is CaptureErrors || action is Launch || action is OpenTranscript,
            StartView::Running { .. } => true,
            StartView::Refused(_) => false,
        },
    ensures
        graph.render_refusal() is None,
        answers.len() >= 4,
        answers[2] is Done,
        answers[1] matches StartAnswerView::Path(library) && is_preloadable(library),
{
    lemma_start_prefix(graph, options, pid, answers, 0);
    if answers.len() > 2 {
        assert(start_refusal(1, answers[1]) is None);
        assert(start_refusal(2, answers[2]) is None);
    }
}

/// A graph that cannot be emitted is refused, and no device is added for it. Any two fabrics of a
/// process have devices of different names, each with the dummy interface `ibctl`, and sockets of
/// different names: `i` and `j` tell when the first took its two numbers, `k` and `l` when the
/// second did.
pub proof fn law_fabrics_are_apart(
    pid: nat,
    graphs: (TopologyView, TopologyView),
    options: (OptionsView, OptionsView),
    devices: (u64, u64),
    answers: (Seq<StartAnswerView>, Seq<StartAnswerView>),
    i: nat,
    j: nat,
    k: nat,
    l: nat,
)
    requires
        i < serials() && j < serials() && k < serials() && l < serials(),
        i != k && j != l,
        devices.0 == handed_out(i) && devices.1 == handed_out(k),
        serial_of(answers.0, 5) == handed_out(j) && serial_of(answers.1, 5) == handed_out(l),
    ensures
        forall|event: LabEvent|
            graphs.0.render_refusal() is Some ==> #[trigger] lab_step(graphs.0, event) is Refused,
        graphs.0.render_refusal() is Some ==> start_view(graphs.0, options.0, pid, answers.0)
            is Refused,
        lab_step(graphs.0, LabEvent::Taken(devices.0)) matches LabView::Ask(a) ==> (
        a matches LabActionView::AddDevice { name, dummy } && name == namespace(handed_out(i))
            && dummy == "ibctl"@),
        lab_step(graphs.1, LabEvent::Taken(devices.1)) matches LabView::Ask(a) ==> (
        a matches LabActionView::AddDevice { name, dummy } && name == namespace(handed_out(k))
            && dummy == "ibctl"@),
        namespace(handed_out(i)) != namespace(handed_out(k)),
        start_view(graphs.0, options.0, pid, answers.0) matches StartView::Running { base: a, .. }
            ==> (start_view(graphs.1, options.1, pid, answers.1) matches StartView::Running {
            base: b,
            ..
        } ==> a != b),
{
    law_serials_distinct(i, k);
    law_serials_distinct(j, l);
    if namespace(handed_out(i)) == namespace(handed_out(k)) {
        law_namespaces_distinct(handed_out(i), handed_out(k));
    }
    if socket_base(pid, handed_out(j)) == socket_base(pid, handed_out(l)) {
        law_socket_names_distinct(pid, handed_out(j), pid, handed_out(l));
    }
    lemma_running(graphs.0, options.0, pid, answers.0, 0);
    lemma_running(graphs.1, options.1, pid, answers.1, 0);
}

proof fn lemma_running(
    graph: TopologyView,
    options: OptionsView,
    pid: nat,
    answers: Seq<StartAnswerView>,
    k: nat,
)
    ensures
        starting(graph, options, pid, answers, k) matches StartView::Running { base, .. } ==> base
            == socket_base(pid, serial_of(answers, 5)),
    decreases 9 - k,
{
    if k < 9 && k < answers.len() && start_refusal(k as int, answers[k as int]) is None {
        lemma_running(graph, options, pid, answers, k + 1);
    }
}

/// The preloaded library is for UMAD programs only: the simulator runs without `LD_PRELOAD`, and
/// each program at a node has it.
pub proof fn law_preload_is_scoped(
    graph: TopologyView,
    f: FabricView,
    node: Seq<char>,
    program: Seq<u8>,
)
    ensures
        server_launch(graph, f.options, f.base).environment.removed.contains("LD_PRELOAD"@),
        forall|i: int|
            0 <= i < server_launch(graph, f.options, f.base).environment.set.len()
                ==> (#[trigger] server_launch(graph, f.options, f.base).environment.set[i]).0
                != "LD_PRELOAD"@,
        f.environment(node).set.contains(("LD_PRELOAD"@, f.options.umad_library)),
        f.manager_at(node, program).launch.environment.set.contains(
            ("LD_PRELOAD"@, f.options.umad_library),
        ),
{
    reveal_strlit("LD_PRELOAD");
    reveal_strlit("IBSIM_SOCKNAME");
    let e = server_launch(graph, f.options, f.base).environment;
    assert(e.removed[0] == "LD_PRELOAD"@);
    assert("IBSIM_SOCKNAME"@.len() != "LD_PRELOAD"@.len());
    assert(f.environment(node).set[0] == ("LD_PRELOAD"@, f.options.umad_library));
    assert(f.manager_at(node, program).launch.environment.set[0] == (
        "LD_PRELOAD"@,
        f.options.umad_library,
    ));
}

/// Every program of a fabric leads a process group of its own and is killed when it is let go of.
/// UMAD programs read nothing; the simulator reads what it is sent.
pub proof fn law_programs_are_tied_to_their_fabric(
    graph: TopologyView,
    f: FabricView,
    node: Seq<char>,
    program: Seq<u8>,
)
    ensures
        server_launch(graph, f.options, f.base).environment.is_tied(),
        f.environment(node).is_tied(),
        f.manager_at(node, program).launch.environment.is_tied(),
        server_launch(graph, f.options, f.base).environment.input == Input::Piped,
        f.environment(node).input == Input::Null,
        f.manager_at(node, program).launch.environment.input == Input::Null,
{
}

/// The programs of a fabric run in its own directory, and its subnet manager keeps its cache and
/// its logs there.
pub proof fn law_programs_stay_in_their_directory(
    graph: TopologyView,
    f: FabricView,
    node: Seq<char>,
    program: Seq<u8>,
)
    ensures
        server_launch(graph, f.options, f.base).environment.dir == f.options.state_dir,
        f.environment(node).dir == f.options.state_dir,
        f.manager_at(node, program).launch.environment.dir == f.options.state_dir,
        f.options.state_dir.is_prefix_of(f.manager_at(node, program).cache),
        f.options.state_dir.is_prefix_of(f.manager_at(node, program).stdout),
        f.options.state_dir.is_prefix_of(f.manager_at(node, program).stderr),
        f.manager_at(node, program).launch.environment.set.contains(
            ("OSM_CACHE_DIR"@, f.manager_at(node, program).cache),
        ),
{
    let m = f.manager_at(node, program);
    assert(m.launch.environment.set[3] == ("OSM_CACHE_DIR"@, m.cache));
}

} // verus!

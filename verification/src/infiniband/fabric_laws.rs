//! What every operation of a fabric comes to, told by what its programs read and by when it goes on.

use super::fabric::{console_line, ChangeView, CloseView, Closed, FabricStepView, FabricView, IbPortStatus, PendingView};
use super::fabric::{ManagerView, PolledView, QueryView, ReadyView, Service, Try, WaitView};
use super::fault::{fault, FabricFault, FaultView};
use super::graph_laws::{law_graphs_that_are_emitted, law_names_stay_in_their_quotes, law_ports_add_up};
use super::graph_laws::{law_roster_lists_every_node_once, port_sum};
use super::launch::{is_preloadable, separates, EnvironmentView, LaunchView, OptionsView};
use super::startup::{canonical, serial_of, server_launch, socket_base, start_action, start_refusal};
use super::startup::{start_view, starting, StartActionView, StartAnswerView, StartView};
use super::topology::{roster, valid_node_name, IbNodeKind, LinkView, NodeView, TopologyView};
use crate::reading::{after, between, beyond, bytes_read_as, free_of, reads_as, until};
use crate::reading::{law_decimals_are_read_back, lemma_bytes_read_back, lemma_decimal_free_of, lemma_divide};
use crate::text::{before, blank, decimal, path_in};
use vstd::prelude::*;
use vstd::utf8::{decode_utf8, encode_utf8, encode_utf8_decode_utf8};

verus! {

/// The programs are as they must be for an operation: the simulator was seen alive, and so was the
/// subnet manager, if there is one.
pub open spec fn seen_alive(f: FabricView, polled: Seq<PolledView>) -> bool {
    &&& !f.failed
    &&& polled.len() > 0 && polled[0] is Alive
    &&& f.managed ==> polled.len() > 1 && polled[1] is Alive
}

/// A fabric is healthy exactly if it has not failed and its programs were seen alive; it wants to
/// look at what has not been looked at, the simulator first; and otherwise it says what it saw.
pub proof fn law_health(f: FabricView, polled: Seq<PolledView>)
    ensures
        f.health(polled) is Go <==> seen_alive(f, polled),
        f.health(polled) == FabricStepView::<()>::Poll(Service::Server) <==> !f.failed
            && polled.len() == 0,
        f.health(polled) == FabricStepView::<()>::Poll(Service::Manager) <==> !f.failed && f.managed
            && polled.len() == 1 && polled[0] is Alive,
        f.failed ==> f.health(polled) == FabricStepView::<()>::Refused(fault(FabricFault::Failed)),
        !f.failed && polled.len() > 0 ==> match polled[0] {
            PolledView::Exited(m) => f.health(polled) == FabricStepView::<()>::Refused(
                FaultView { kind: FabricFault::ServerExited, detail: m },
            ),
            PolledView::Failed(m) => f.health(polled) == FabricStepView::<()>::Refused(
                FaultView { kind: FabricFault::Host, detail: m },
            ),
            PolledView::Alive => f.managed && polled.len() > 1 ==> match polled[1] {
                PolledView::Exited(m) => f.health(polled) == FabricStepView::<()>::Refused(
                    FaultView { kind: FabricFault::ManagerExited, detail: m },
                ),
                PolledView::Failed(m) => f.health(polled) == FabricStepView::<()>::Refused(
                    FaultView { kind: FabricFault::Host, detail: m },
                ),
                PolledView::Alive => true,
            },
        },
{
}

/// Looking at the programs changes nothing but this: a fabric whose simulator has exited has
/// failed, and one that had already failed gives up its pending change.
pub proof fn law_looking_changes_little(f: FabricView, polled: Seq<PolledView>)
    ensures
        f.polled(polled) == (FabricView {
            failed: f.polled(polled).failed,
            pending: f.polled(polled).pending,
            ..f
        }),
        f.polled(polled).failed <==> f.failed || (polled.len() > 0 && polled[0] is Exited),
        f.failed ==> f.polled(polled).pending is None,
        !f.failed ==> f.polled(polled).pending == f.pending,
{
}

/// A command is let through exactly if the fabric is healthy, the node is in the graph, the deadline
/// is from one nanosecond to six hundred seconds, and fewer than 1024 were let through before. It
/// is then counted, and nothing else of the fabric changes.
pub proof fn law_commands_that_are_let_through(
    f: FabricView,
    node: Seq<char>,
    deadline: u128,
    polled: Seq<PolledView>,
)
    ensures
        f.run(node, deadline, polled) is Go <==> {
            &&& seen_alive(f, polled)
            &&& f.graph.nodes.contains_key(node)
            &&& 1 <= deadline <= 600_000_000_000
            &&& f.commands < 1024
        },
        f.run(node, deadline, polled) is Poll <==> f.health(polled) is Poll,
        seen_alive(f, polled) && !(1 <= deadline <= 600_000_000_000) ==> f.run(
            node,
            deadline,
            polled,
        ) == FabricStepView::<EnvironmentView>::Refused(fault(FabricFault::CommandDeadline)),
        f.run(node, deadline, polled) is Go ==> f.after_run(node, deadline, polled) == (FabricView {
            commands: f.commands + 1,
            ..f
        }),
        !(f.run(node, deadline, polled) is Go) ==> f.after_run(node, deadline, polled).commands
            == f.commands,
{
}

/// The status of a port is asked for exactly if the fabric is healthy and the node is in the graph;
/// the question names the fabric's sockets and the node.
pub proof fn law_ports_that_are_asked_for(
    f: FabricView,
    node: Seq<char>,
    polled: Seq<PolledView>,
    q: QueryView,
)
    ensures
        f.port_status(node, polled) == FabricStepView::Go(q) <==> {
            &&& seen_alive(f, polled)
            &&& f.graph.nodes.contains_key(node)
            &&& q.base == f.base
            &&& q.node == node
        },
{
}

/// A port is waited for with a deadline from one nanosecond to six hundred seconds. It is asked for
/// first; a status ends the wait well if it is Active with a LID, whenever it came, and otherwise
/// the wait goes on a tenth of a second later, until the deadline has passed.
pub proof fn law_waiting_for_a_port(
    f: FabricView,
    node: Seq<char>,
    deadline: u128,
    polled: Seq<PolledView>,
    q: QueryView,
    port: IbPortStatus,
    elapsed: u128,
)
    ensures
        f.wait_active(node, deadline, polled, None) == FabricStepView::Go(WaitView::Query(q)) <==> {
            &&& 1 <= deadline <= 600_000_000_000
            &&& seen_alive(f, polled)
            &&& f.graph.nodes.contains_key(node)
            &&& q.base == f.base && q.node == node
        },
        f.wait_active(node, deadline, polled, Some((port, elapsed))) == FabricStepView::Go(
            WaitView::Active(port),
        ) <==> 1 <= deadline <= 600_000_000_000 && port.state == 4 && port.lid != 0,
        f.wait_active(node, deadline, polled, Some((port, elapsed))) == FabricStepView::Go(
            WaitView::Pause(100),
        ) <==> 1 <= deadline <= 600_000_000_000 && !(port.state == 4 && port.lid != 0) && elapsed
            < deadline,
        f.wait_active(node, deadline, polled, Some((port, elapsed))) is Refused <==> !(1 <= deadline
            <= 600_000_000_000) || (!(port.state == 4 && port.lid != 0) && elapsed >= deadline),
{
}

/// A new fabric asks for the port of the node that no other stands before. It is ready once that was
/// answered; after a failure it tries again a twentieth of a second later, until five seconds have
/// passed since the first try.
pub proof fn law_waiting_for_a_fabric(
    f: FabricView,
    polled: Seq<PolledView>,
    node: Seq<char>,
    other: Seq<char>,
    message: String,
    elapsed: u128,
)
    requires
        f.graph.valid(),
        f.graph.nodes.len() > 0,
    ensures
        f.readiness(polled, Try::NotYet) is Go <==> seen_alive(f, polled),
        f.readiness(polled, Try::NotYet) == FabricStepView::Go(ReadyView::Ask(node)) ==> {
            &&& f.graph.nodes.contains_key(node)
            &&& f.graph.nodes.contains_key(other) && other != node ==> before(node, other)
        },
        f.readiness(polled, Try::Answered) == FabricStepView::Go(ReadyView::Ready),
        f.readiness(polled, Try::Failed { message, elapsed }) == (if elapsed < 5_000_000_000 {
            FabricStepView::Go(ReadyView::Pause(50))
        } else {
            FabricStepView::Refused(FaultView { kind: FabricFault::Readiness, detail: message@ })
        }),
{
    let names = roster(f.graph.nodes);
    law_roster_lists_every_node_once(f.graph, names);
    assert(names.contains(names[0]));
    assert(f.graph.nodes.contains_key(names[0]));
    if f.graph.nodes.contains_key(other) {
        assert(names.contains(other));
        let i = choose|i: int| 0 <= i < names.len() && names[i] == other;
        if i > 0 {
            assert(before(names[0], names[i]));
        }
    }
}

/// A cable is changed exactly if the fabric is healthy, the cable is in the graph and not already
/// so. The fabric then counts as failed and waits for the acknowledgement of that change, and
/// nothing else of it changes.
pub proof fn law_changes_that_are_sent(
    f: FabricView,
    id: Seq<char>,
    up: bool,
    polled: Seq<PolledView>,
)
    ensures
        f.set_link_up(id, up, polled) matches FabricStepView::Go(ChangeView::Send(_)) <==> {
            &&& seen_alive(f, polled)
            &&& f.graph.links.contains_key(id)
            &&& f.graph.links[id].up != up
        },
        f.set_link_up(id, up, polled) == FabricStepView::Go(ChangeView::Unchanged) <==> {
            &&& seen_alive(f, polled)
            &&& f.graph.links.contains_key(id)
            &&& f.graph.links[id].up == up
        },
        seen_alive(f, polled) && !f.graph.links.contains_key(id) ==> f.set_link_up(id, up, polled)
            == FabricStepView::<ChangeView>::Refused(fault(FabricFault::UnknownLink)),
        f.set_link_up(id, up, polled) matches FabricStepView::Go(ChangeView::Send(_))
            ==> f.after_set_link_up(id, up, polled) == (FabricView {
            failed: true,
            pending: Some(PendingView { link: id, up }),
            ..f
        }),
        !(f.set_link_up(id, up, polled) matches FabricStepView::Go(ChangeView::Send(_)))
            ==> f.after_set_link_up(id, up, polled) == f.polled(polled),
{
}

/// The console acknowledges the pending change by printing nothing but white space: then that one
/// cable is as it was to be, and the fabric goes on. Anything else leaves the graph as it is and
/// the fabric failed.
pub proof fn law_acknowledgements(f: FabricView, response: Seq<char>, other: Seq<char>)
    ensures
        f.acknowledges(response) <==> f.pending is Some && blank(response),
        f.after_answer(response).pending is None,
        f.after_answer(response).failed <==> !(f.pending is Some && blank(response)),
        f.after_answer(response).graph.nodes == f.graph.nodes,
        f.pending matches Some(p) && blank(response) ==> {
            let graph = f.after_answer(response).graph;
            &&& graph.links[f.pending->0.link].up == f.pending->0.up
            &&& graph.links[f.pending->0.link].ends == f.graph.links[f.pending->0.link].ends
            &&& other != f.pending->0.link ==> graph.links[other] == f.graph.links[other]
        },
        !(f.pending is Some && blank(response)) ==> f.after_answer(response).graph == f.graph,
        f.after_answer(response).commands == f.commands,
        f.after_answer(response).managed == f.managed,
        f.after_answer(response).options == f.options,
        f.after_answer(response).base == f.base,
{
}

/// The line that connects a cable is `Link` with both of its ends: the two names in quotes, each
/// followed by its port in brackets, are those of the first end and of the second. The line that
/// disconnects it is `Unlink` with the first end alone.
pub proof fn law_a_change_names_the_ends_of_its_cable(
    f: FabricView,
    id: Seq<char>,
    up: bool,
    polled: Seq<PolledView>,
    line: Seq<char>,
)
    requires
        f.graph.valid(),
        f.set_link_up(id, up, polled) == FabricStepView::Go(ChangeView::Send(line)),
    ensures
        f.graph.links.contains_key(id),
        names_ends(line, f.graph.links[id], up),
{
    let link = f.graph.links[id];
    assert(f.graph.has_port(link.ends.0) && f.graph.has_port(link.ends.1));
    if up {
        lemma_link_line(link);
    } else {
        lemma_unlink_line(link);
    }
}

/// What stands in quotes, and what stands after them.
proof fn lemma_quoted(head: Seq<char>, name: Seq<char>, tail: Seq<char>)
    requires
        free_of(head, '"'),
        free_of(name, '"'),
    ensures
        between(head + seq!['"'] + name + seq!['"'] + tail, '"', '"') == name,
        beyond(head + seq!['"'] + name + seq!['"'] + tail, '"', '"') == tail,
{
    let inner = name + seq!['"'] + tail;
    assert(head + seq!['"'] + name + seq!['"'] + tail =~= head + seq!['"'] + inner);
    lemma_divide(head, '"', inner);
    lemma_divide(name, '"', tail);
}

/// The number in brackets, and what stands after them.
proof fn lemma_bracketed(n: nat, tail: Seq<char>)
    ensures
        reads_as(between(seq!['['] + decimal(n) + seq![']'] + tail, '[', ']'), n),
        beyond(seq!['['] + decimal(n) + seq![']'] + tail, '[', ']') == tail,
{
    let none = Seq::<char>::empty();
    let inner = decimal(n) + seq![']'] + tail;
    law_decimals_are_read_back(n);
    lemma_decimal_free_of(n, ']');
    assert(seq!['['] + decimal(n) + seq![']'] + tail =~= none + seq!['['] + inner);
    lemma_divide(none, '[', inner);
    lemma_divide(decimal(n), ']', tail);
}

proof fn lemma_link_line(link: LinkView)
    requires
        valid_node_name(link.ends.0.node),
        valid_node_name(link.ends.1.node),
    ensures
        names_ends(console_line(link, true), link, true),
{
    let (a, b) = link.ends;
    let line = console_line(link, true);
    reveal_strlit("Link");
    reveal_strlit("Link \"");
    reveal_strlit("\"[");
    reveal_strlit("] \"");
    reveal_strlit("]\n");
    reveal_strlit("\n");
    law_names_stay_in_their_quotes(a.node);
    law_names_stay_in_their_quotes(b.node);
    let end = "\n"@;
    let third = seq!['['] + decimal(b.port as nat) + seq![']'] + end;
    let second = seq![' '] + seq!['"'] + b.node + seq!['"'] + third;
    let first = seq!['['] + decimal(a.port as nat) + seq![']'] + second;
    let word = "Link"@;
    let head = word + seq![' '];
    let rest = seq!['"'] + a.node + seq!['"'] + first;
    assert(line =~= head + seq!['"'] + a.node + seq!['"'] + first);
    assert(line =~= word + seq![' '] + rest);
    lemma_divide(word, ' ', rest);
    lemma_quoted(head, a.node, first);
    lemma_bracketed(a.port as nat, second);
    lemma_quoted(seq![' '], b.node, third);
    lemma_bracketed(b.port as nat, end);
}

proof fn lemma_unlink_line(link: LinkView)
    requires
        valid_node_name(link.ends.0.node),
    ensures
        names_ends(console_line(link, false), link, false),
{
    let a = link.ends.0;
    let line = console_line(link, false);
    reveal_strlit("Unlink");
    reveal_strlit("Unlink \"");
    reveal_strlit("\"[");
    reveal_strlit("]\n");
    reveal_strlit("\n");
    law_names_stay_in_their_quotes(a.node);
    let end = "\n"@;
    let first = seq!['['] + decimal(a.port as nat) + seq![']'] + end;
    let word = "Unlink"@;
    let head = word + seq![' '];
    let rest = seq!['"'] + a.node + seq!['"'] + first;
    assert(line =~= head + seq!['"'] + a.node + seq!['"'] + first);
    assert(line =~= word + seq![' '] + rest);
    lemma_divide(word, ' ', rest);
    lemma_quoted(head, a.node, first);
    lemma_bracketed(a.port as nat, end);
}

/// The line is read as the connection of both ends of the cable, or as the disconnection of the
/// first.
pub open spec fn names_ends(line: Seq<char>, link: LinkView, up: bool) -> bool {
    let (a, b) = link.ends;
    let first = beyond(line, '"', '"');
    let then = beyond(first, '[', ']');
    let second = beyond(then, '"', '"');
    &&& until(line, ' ') == (if up {
        "Link"@
    } else {
        "Unlink"@
    })
    &&& between(line, '"', '"') == a.node
    &&& reads_as(between(first, '[', ']'), a.port as nat)
    &&& !up ==> then == "\n"@
    &&& up ==> {
        &&& between(then, '"', '"') == b.node
        &&& reads_as(between(second, '[', ']'), b.port as nat)
        &&& beyond(second, '[', ']') == "\n"@
    }
}

/// Cables that differ in a node or a port of either end are connected by different lines.
pub proof fn law_different_cables_have_different_lines(line: Seq<char>, x: LinkView, y: LinkView)
    requires
        names_ends(line, x, true),
        names_ends(line, y, true),
    ensures
        x.ends == y.ends,
{
}

/// A subnet manager is let through exactly if the fabric is healthy, has none, and the node is an
/// HCA of the graph.
pub proof fn law_managers_that_are_let_through(
    f: FabricView,
    node: Seq<char>,
    program: Seq<u8>,
    polled: Seq<PolledView>,
)
    ensures
        f.start_subnet_manager(node, program, polled) is Go <==> {
            &&& seen_alive(f, polled)
            &&& !f.managed
            &&& f.graph.nodes.contains_key(node)
            &&& f.graph.nodes[node].kind == IbNodeKind::Hca
        },
{
}

/// A UMAD program at a node runs in the fabric's directory; the library to preload, the node and the
/// name of the sockets are in its environment, and these three variables are set and no other;
/// three others are taken away. A subnet manager has its cache besides, sweeps every second and
/// logs to its standard output.
pub proof fn law_environment_of_a_node(
    f: FabricView,
    node: Seq<char>,
    program: Seq<u8>,
    polled: Seq<PolledView>,
    deadline: u128,
)
    ensures
        f.run(node, deadline, polled) matches FabricStepView::Go(e) ==> {
            let e = f.run(node, deadline, polled)->Go_0;
            &&& e.dir == f.options.state_dir
            &&& e.set.len() == 3
            &&& e.set.contains(("LD_PRELOAD"@, f.options.umad_library))
            &&& e.set.contains(("SIM_HOST"@, encode_utf8(node)))
            &&& e.set.contains(("IBSIM_SOCKNAME"@, encode_utf8(f.base)))
            &&& e.removed.len() == 3
            &&& e.removed.contains("SIM_SET_ISSM"@)
            &&& e.removed.contains("IBSIM_SERVER_NAME"@)
            &&& e.removed.contains("IBSIM_SERVER_PORT"@)
        },
        f.start_subnet_manager(node, program, polled) matches FabricStepView::Go(m) ==> {
            let m = f.start_subnet_manager(node, program, polled)->Go_0;
            let e = m.launch.environment;
            let args = m.launch.args;
            &&& m.launch.program == program
            &&& m.cache == path_in(f.options.state_dir, "opensm-cache"@)
            &&& m.stdout == path_in(f.options.state_dir, "opensm.stdout.log"@)
            &&& m.stderr == path_in(f.options.state_dir, "opensm.stderr.log"@)
            &&& args.len() == 4
            &&& decode_utf8(args[0]) == "-s"@ && bytes_read_as(args[1], 1)
            &&& decode_utf8(args[2]) == "-f"@ && decode_utf8(args[3]) == "/dev/stdout"@
            &&& e.dir == f.options.state_dir
            &&& e.set.len() == 5
            &&& e.set.contains(("LD_PRELOAD"@, f.options.umad_library))
            &&& e.set.contains(("SIM_HOST"@, encode_utf8(node)))
            &&& e.set.contains(("IBSIM_SOCKNAME"@, encode_utf8(f.base)))
            &&& e.set.contains(("OSM_CACHE_DIR"@, m.cache))
            &&& e.set.contains(("OSM_TMP_DIR"@, m.cache))
            &&& e.removed == f.environment(node).removed
        },
{
    let e = f.environment(node);
    assert(e.set[0].0 == "LD_PRELOAD"@ && e.set[1].0 == "SIM_HOST"@);
    assert(e.set[2].0 == "IBSIM_SOCKNAME"@);
    assert(e.removed[0] == "SIM_SET_ISSM"@ && e.removed[1] == "IBSIM_SERVER_NAME"@);
    assert(e.removed[2] == "IBSIM_SERVER_PORT"@);
    let m = f.manager_at(node, program);
    let set = m.launch.environment.set;
    assert(set[0] == e.set[0] && set[1] == e.set[1] && set[2] == e.set[2]);
    assert(set[3].0 == "OSM_CACHE_DIR"@ && set[4].0 == "OSM_TMP_DIR"@);
    encode_utf8_decode_utf8("-s"@);
    encode_utf8_decode_utf8("1"@);
    encode_utf8_decode_utf8("-f"@);
    encode_utf8_decode_utf8("/dev/stdout"@);
    reveal_strlit("1");
    law_decimals_are_read_back(1);
    assert(decimal(1) =~= "1"@);
}

/// The answer to the `k`-th thing that a start asks for is one that it goes on with: a path where a
/// path was asked for, without white space and colons in that of the library; a number where one
/// was to be taken; and otherwise that it was done.
pub open spec fn goes_on(k: int, answer: StartAnswerView) -> bool {
    if k == 0 || k == 3 {
        answer is Path
    } else if k == 1 {
        answer matches StartAnswerView::Path(library) && forall|i: int|
            0 <= i < library.len() ==> {
                let b = #[trigger] library[i];
                b != 9 && b != 10 && b != 12 && b != 13 && b != 32 && b != 58
            }
    } else if k == 5 {
        answer is Serial
    } else {
        answer is Done
    }
}

proof fn lemma_goes_on(k: int, answer: StartAnswerView)
    requires
        0 <= k < 9,
    ensures
        start_refusal(k, answer) is None <==> goes_on(k, answer),
{
    if let StartAnswerView::Path(library) = answer {
        if k == 1 {
            if is_preloadable(library) {
                assert forall|i: int| 0 <= i < library.len() implies {
                    let b = #[trigger] library[i];
                    b != 9 && b != 10 && b != 12 && b != 13 && b != 32 && b != 58
                } by {
                    assert(!separates(library[i]));
                }
            }
            if goes_on(k, answer) {
                assert forall|i: int| 0 <= i < library.len() implies !separates(
                    #[trigger] library[i],
                ) by {}
            }
        }
    }
}

proof fn lemma_starting(
    graph: TopologyView,
    options: OptionsView,
    pid: nat,
    answers: Seq<StartAnswerView>,
    k: nat,
)
    requires
        k <= 9,
        k <= answers.len(),
        forall|i: int| 0 <= i < k ==> goes_on(i, #[trigger] answers[i]),
    ensures
        starting(graph, options, pid, answers, k) is Running <==> answers.len() >= 9 && forall|
            i: int,
        |
            0 <= i < 9 ==> goes_on(i, #[trigger] answers[i]),
        starting(graph, options, pid, answers, k) matches StartView::Running { options: o, base }
            ==> o == canonical(answers) && base == socket_base(pid, serial_of(answers, 5)),
        starting(graph, options, pid, answers, k) is Ask <==> answers.len() < 9 && forall|i: int|
            0 <= i < answers.len() ==> goes_on(i, #[trigger] answers[i]),
        starting(graph, options, pid, answers, k) matches StartView::Ask(action) ==> action
            == start_action(graph, options, pid, answers, answers.len() as int),
    decreases 9 - k,
{
    if k < 9 && k < answers.len() {
        lemma_goes_on(k as int, answers[k as int]);
        if goes_on(k as int, answers[k as int]) {
            lemma_starting(graph, options, pid, answers, k + 1);
        }
    }
}

/// A start asks for one thing after another, and goes on while it is answered well. It resolves
/// both programs, creates the directory and resolves it, writes the topology text there, takes a
/// number, opens the log of errors, launches the simulator and opens the transcript; then the
/// fabric runs with what was resolved, under the name that tells the process and the number.
pub proof fn law_course_of_a_start(
    graph: TopologyView,
    options: OptionsView,
    pid: nat,
    answers: Seq<StartAnswerView>,
)
    requires
        graph.valid(),
    ensures
        start_view(graph, options, pid, answers) is Running <==> {
            &&& graph.nodes.len() > 0 && port_sum(graph.nodes) <= 32768
            &&& answers.len() >= 9
            &&& forall|i: int| 0 <= i < 9 ==> goes_on(i, #[trigger] answers[i])
        },
        start_view(graph, options, pid, answers) is Ask <==> {
            &&& graph.nodes.len() > 0 && port_sum(graph.nodes) <= 32768
            &&& answers.len() < 9
            &&& forall|i: int| 0 <= i < answers.len() ==> goes_on(i, #[trigger] answers[i])
        },
        start_view(graph, options, pid, answers) matches StartView::Running { options: o, base } ==> {
            &&& answers[0] == StartAnswerView::Path(o.binary)
            &&& answers[1] == StartAnswerView::Path(o.umad_library)
            &&& answers[3] == StartAnswerView::Path(o.state_dir)
            &&& answers[5] matches StartAnswerView::Serial(number) && tells_process(
                base,
                pid,
                number,
            )
        },
        start_view(graph, options, pid, answers) matches StartView::Ask(action) ==> {
            let n = answers.len() as int;
            &&& n == 0 ==> action == StartActionView::Canonicalize(options.binary)
            &&& n == 1 ==> action == StartActionView::Canonicalize(options.umad_library)
            &&& n == 2 ==> action == StartActionView::CreateDir(options.state_dir)
            &&& n == 3 ==> action == StartActionView::Canonicalize(options.state_dir)
            &&& n == 5 ==> action == StartActionView::TakeSerial
            &&& n >= 4 ==> (answers[3] matches StartAnswerView::Path(dir) && {
                &&& n == 4 ==> action == (StartActionView::Write {
                    path: path_in(dir, "topology.net"@),
                    text: graph.text(),
                })
                &&& n == 6 ==> action == StartActionView::CaptureErrors(
                    path_in(dir, "ibsim.stderr.log"@),
                )
                &&& n == 7 ==> action is Launch
                &&& n == 8 ==> action == StartActionView::OpenTranscript(
                    path_in(dir, "ibsim.console.log"@),
                )
            })
        },
{
    law_graphs_that_are_emitted(graph);
    lemma_starting(graph, options, pid, answers, 0);
    if start_view(graph, options, pid, answers) is Running {
        assert(goes_on(0, answers[0]) && goes_on(1, answers[1]));
        assert(goes_on(3, answers[3]) && goes_on(5, answers[5]));
        lemma_tells_process(pid, serial_of(answers, 5));
    }
    if start_view(graph, options, pid, answers) is Ask && answers.len() >= 4 {
        assert(goes_on(3, answers[3]));
    }
}

/// The name of sockets is `pb`, the number of the process and the number of the fabric, with hyphens
/// between them.
pub open spec fn tells_process(base: Seq<char>, pid: nat, number: nat) -> bool {
    &&& until(base, '-') == "pb"@
    &&& reads_as(between(base, '-', '-'), pid)
    &&& reads_as(beyond(base, '-', '-'), number)
}

proof fn lemma_tells_process(pid: nat, number: nat)
    ensures
        tells_process(socket_base(pid, number), pid, number),
{
    reveal_strlit("pb-");
    reveal_strlit("pb");
    reveal_strlit("-");
    let p = decimal(pid);
    let n = decimal(number);
    law_decimals_are_read_back(pid);
    law_decimals_are_read_back(number);
    lemma_decimal_free_of(pid, '-');
    assert(socket_base(pid, number) =~= "pb"@ + seq!['-'] + (p + seq!['-'] + n));
    assert(free_of("pb"@, '-'));
    lemma_divide("pb"@, '-', p + seq!['-'] + n);
    lemma_divide(p, '-', n);
}

/// The simulator that a start launches is the resolved program, on the topology text in the new
/// directory, with room for one node more than the graph has, and for one port more than all its
/// nodes have together, port zero of each included. It runs in that directory, under its own
/// socket name.
pub proof fn law_the_simulator_has_room(
    graph: TopologyView,
    options: OptionsView,
    pid: nat,
    answers: Seq<StartAnswerView>,
    l: LaunchView,
)
    requires
        graph.valid(),
        start_view(graph, options, pid, answers) == StartView::Ask(StartActionView::Launch(l)),
    ensures
        answers.len() == 7,
        answers[0] == StartAnswerView::Path(l.program),
        answers[3] == StartAnswerView::Path(l.environment.dir),
        l.args.len() == 8,
        decode_utf8(l.args[0]) == "-s"@,
        decode_utf8(l.args[1]) == "-N"@ && bytes_read_as(l.args[2], graph.nodes.len() + 1),
        decode_utf8(l.args[3]) == "-S"@ && bytes_read_as(l.args[4], graph.nodes.len() + 1),
        decode_utf8(l.args[5]) == "-P"@ && bytes_read_as(l.args[6], port_sum(graph.nodes) + 1),
        l.args[7] == path_in(l.environment.dir, "topology.net"@),
        l.environment.set.len() == 1,
        l.environment.set[0].0 == "IBSIM_SOCKNAME"@,
        answers[5] matches StartAnswerView::Serial(number) && tells_process(
            decode_utf8(l.environment.set[0].1),
            pid,
            number,
        ),
        l.environment.removed == seq!["LD_PRELOAD"@],
{
    law_graphs_that_are_emitted(graph);
    lemma_starting(graph, options, pid, answers, 0);
    assert(answers.len() == 7);
    assert(goes_on(0, answers[0]) && goes_on(3, answers[3]) && goes_on(5, answers[5]));
    let number = serial_of(answers, 5);
    let base = socket_base(pid, number);
    lemma_tells_process(pid, number);
    encode_utf8_decode_utf8(base);
    encode_utf8_decode_utf8("-s"@);
    encode_utf8_decode_utf8("-N"@);
    encode_utf8_decode_utf8("-S"@);
    encode_utf8_decode_utf8("-P"@);
    lemma_bytes_read_back((graph.nodes.len() + 1) as nat);
    lemma_bytes_read_back(graph.ports() + 1);
    law_ports_add_up(graph, seq![], NodeView { kind: IbNodeKind::Hca, ports: 1 });
    assert(l == server_launch(graph, canonical(answers), base));
}

/// Ending a fabric reports what the host reported: at once, if a program could not be stopped; after
/// the last log, if one was lost. It stops what runs, and what runs alone is the simulator.
pub proof fn law_course_of_an_end(f: FabricView, open_logs: nat, m: String, service: Service)
    ensures
        f.shutdown(Closed::Begin, open_logs) == (if f.managed {
            CloseView::Stop(Service::Manager)
        } else {
            CloseView::Stop(Service::Server)
        }),
        f.after_closed(Closed::Begin) == (FabricView {
            failed: true,
            pending: None,
            lost_log: None,
            ..f
        }),
        f.shutdown(Closed::Stopped { service, failure: Some(m) }, open_logs) == CloseView::Refused(
            FaultView { kind: FabricFault::Host, detail: m@ },
        ),
        f.after_closed(Closed::Stopped { service, failure: Some(m) }) == f,
        f.shutdown(Closed::LogFinished { failure: Some(m) }, open_logs) == (if open_logs > 0 {
            CloseView::FinishLog
        } else {
            CloseView::Refused(FaultView { kind: FabricFault::Host, detail: m@ })
        }),
        f.after_closed(Closed::LogFinished { failure: Some(m) }).lost_log == Some(m@),
{
}

/// Why an operation on a healthy fabric is refused, in the order in which it looks: at the deadline,
/// at the node, at the number of commands; and for a subnet manager, whether there is one already,
/// whether the node is there, and what it is.
pub proof fn law_why_operations_are_refused(
    f: FabricView,
    node: Seq<char>,
    program: Seq<u8>,
    deadline: u128,
    polled: Seq<PolledView>,
    port: IbPortStatus,
    elapsed: u128,
)
    requires
        seen_alive(f, polled),
    ensures
        ({
            let known = f.graph.nodes.contains_key(node);
            let timely = 1 <= deadline <= 600_000_000_000;
            let unknown = FaultView { kind: FabricFault::UnknownNode, detail: node };
            &&& timely && !known ==> f.run(node, deadline, polled) == FabricStepView::<
                EnvironmentView,
            >::Refused(unknown)
            &&& timely && known && f.commands >= 1024 ==> f.run(node, deadline, polled)
                == FabricStepView::<EnvironmentView>::Refused(fault(FabricFault::CommandLimit))
            &&& !known ==> f.port_status(node, polled) == FabricStepView::<QueryView>::Refused(
                unknown,
            )
            &&& !timely ==> f.wait_active(node, deadline, polled, None) == FabricStepView::<
                WaitView,
            >::Refused(fault(FabricFault::ReadinessDeadline))
            &&& timely && !known ==> f.wait_active(node, deadline, polled, None)
                == FabricStepView::<WaitView>::Refused(unknown)
            &&& timely && !(port.state == 4 && port.lid != 0) && elapsed >= deadline
                ==> f.wait_active(node, deadline, polled, Some((port, elapsed)))
                == FabricStepView::<WaitView>::Refused(
                FaultView {
                    kind: FabricFault::NotActive,
                    detail: node + " did not become Active: "@ + ("IbPortStatus { lid: "@ + decimal(
                        port.lid as nat,
                    ) + ", state: "@ + decimal(port.state as nat) + " }"@),
                },
            )
            &&& f.managed ==> f.start_subnet_manager(node, program, polled) == FabricStepView::<
                ManagerView,
            >::Refused(fault(FabricFault::ManagerRunning))
            &&& !f.managed && !known ==> f.start_subnet_manager(node, program, polled)
                == FabricStepView::<ManagerView>::Refused(fault(FabricFault::UnknownManagerNode))
            &&& !f.managed && known && f.graph.nodes[node].kind == IbNodeKind::Switch
                ==> f.start_subnet_manager(node, program, polled) == FabricStepView::<
                ManagerView,
            >::Refused(fault(FabricFault::NotHca))
        }),
{
}

/// An operation on a fabric that is not healthy is refused for that reason, or waits to look at the
/// programs, whatever it was to do.
pub proof fn law_health_comes_first(
    f: FabricView,
    node: Seq<char>,
    id: Seq<char>,
    up: bool,
    program: Seq<u8>,
    deadline: u128,
    polled: Seq<PolledView>,
)
    ensures
        f.health(polled) matches FabricStepView::Refused(e) ==> {
            &&& f.run(node, deadline, polled) == FabricStepView::<EnvironmentView>::Refused(e)
            &&& f.port_status(node, polled) == FabricStepView::<QueryView>::Refused(e)
            &&& f.set_link_up(id, up, polled) == FabricStepView::<ChangeView>::Refused(e)
            &&& f.start_subnet_manager(node, program, polled) == FabricStepView::<
                ManagerView,
            >::Refused(e)
            &&& f.readiness(polled, Try::NotYet) == FabricStepView::<ReadyView>::Refused(e)
        },
        f.health(polled) matches FabricStepView::Poll(service) ==> {
            &&& f.run(node, deadline, polled) == FabricStepView::<EnvironmentView>::Poll(service)
            &&& f.port_status(node, polled) == FabricStepView::<QueryView>::Poll(service)
            &&& f.set_link_up(id, up, polled) == FabricStepView::<ChangeView>::Poll(service)
            &&& f.start_subnet_manager(node, program, polled) == FabricStepView::<
                ManagerView,
            >::Poll(service)
            &&& f.readiness(polled, Try::NotYet) == FabricStepView::<ReadyView>::Poll(service)
        },
{
}

/// A start that fails at a step says at which of the first three it was, with what was reported; a
/// library that cannot be preloaded is refused as such.
pub proof fn law_why_starts_are_refused(
    graph: TopologyView,
    options: OptionsView,
    pid: nat,
    answers: Seq<StartAnswerView>,
    k: nat,
    m: Seq<char>,
)
    requires
        graph.valid(),
        graph.nodes.len() > 0 && port_sum(graph.nodes) <= 32768,
        k < answers.len(),
        k < 9,
        forall|i: int| 0 <= i < k ==> goes_on(i, #[trigger] answers[i]),
    ensures
        answers[k as int] == StartAnswerView::Failed(m) ==> start_view(graph, options, pid, answers)
            == StartView::Refused(
            FaultView {
                kind: if k == 0 {
                    FabricFault::Binary
                } else if k == 1 {
                    FabricFault::Library
                } else if k == 2 {
                    FabricFault::StateDir
                } else {
                    FabricFault::Host
                },
                detail: m,
            },
        ),
        k == 1 && answers[1] is Path && !goes_on(1, answers[1]) ==> start_view(
            graph,
            options,
            pid,
            answers,
        ) == StartView::Refused(fault(FabricFault::Preload)),
{
    law_graphs_that_are_emitted(graph);
    lemma_skip(graph, options, pid, answers, 0, k);
    lemma_goes_on(k as int, answers[k as int]);
}

proof fn lemma_skip(
    graph: TopologyView,
    options: OptionsView,
    pid: nat,
    answers: Seq<StartAnswerView>,
    i: nat,
    k: nat,
)
    requires
        i <= k <= 9,
        k <= answers.len(),
        forall|i: int| 0 <= i < k ==> goes_on(i, #[trigger] answers[i]),
    ensures
        starting(graph, options, pid, answers, i) == starting(graph, options, pid, answers, k),
    decreases k - i,
{
    if i < k {
        assert(goes_on(i as int, answers[i as int]));
        lemma_goes_on(i as int, answers[i as int]);
        lemma_skip(graph, options, pid, answers, i + 1, k);
    }
}

/// A new fabric has the graph, the paths and the name that it was given; it has not failed, has no
/// subnet manager, has run nothing and waits for nothing.
pub proof fn law_new_fabrics(graph: TopologyView, options: OptionsView, base: Seq<char>)
    ensures
        ({
            let f = FabricView::fresh(graph, options, base);
            &&& f.graph == graph && f.options == options && f.base == base
            &&& !f.failed && !f.managed && f.commands == 0
            &&& f.pending is None && f.lost_log is None
            &&& f.health(seq![]) == FabricStepView::<()>::Poll(Service::Server)
        }),
{
}

} // verus!

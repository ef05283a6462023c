//! What a cable operation asks of the host, and what comes back.

use crate::json::{parse, parsed, reading, Json, JsonTree};
use crate::text::{lossy, lossy_text};
use vstd::prelude::*;
use vstd::string::*;

verus! {

/// The views of a list of strings.
pub open spec fn texts(s: Seq<String>) -> Seq<Seq<char>> {
    s.map_values(|x: String| x@)
}

/// Something to be done on the host.
pub enum ActionView {
    /// Run `ip` with these arguments.
    Ip(Seq<Seq<char>>),
    /// Run `tc` with these arguments.
    Tc(Seq<Seq<char>>),
    /// Write `text` to the file `path`.
    Write { path: Seq<char>, text: Seq<char> },
}

impl ActionView {
    /// The arguments of `timeout` under which a command runs: ten seconds, then two more before
    /// it is killed. `None` for a file.
    pub open spec fn timeout_arguments(self) -> Option<Seq<Seq<char>>> {
        match self {
            ActionView::Ip(args) => Some(seq!["--kill-after=2"@, "10"@, "ip"@] + args),
            ActionView::Tc(args) => Some(seq!["--kill-after=2"@, "10"@, "tc"@] + args),
            ActionView::Write { .. } => None,
        }
    }
}

/// Something to be done on the host.
#[derive(Debug)]
pub enum Action {
    /// Run `ip` with these arguments.
    Ip(Vec<String>),
    /// Run `tc` with these arguments.
    Tc(Vec<String>),
    /// Write `text` to the file `path`.
    Write { path: String, text: String },
}

impl View for Action {
    type V = ActionView;

    open spec fn view(&self) -> ActionView {
        match self {
            Action::Ip(args) => ActionView::Ip(texts(args@)),
            Action::Tc(args) => ActionView::Tc(texts(args@)),
            Action::Write { path, text } => ActionView::Write { path: path@, text: text@ },
        }
    }
}

/// Copies a list of words.
pub fn words(parts: &[&str]) -> (r: Vec<String>)
    ensures
        texts(r@) == Seq::new(parts@.len(), |i: int| parts@[i]@),
{
    let mut out: Vec<String> = Vec::new();
    let mut i: usize = 0;
    while i < parts.len()
        invariant
            i <= parts@.len(),
            out@.len() == i,
            forall|k: int| 0 <= k < i ==> (#[trigger] out@[k])@ == parts@[k]@,
        decreases parts@.len() - i,
    {
        out.push(parts[i].to_owned());
        i = i + 1;
    }
    assert(texts(out@) =~= Seq::new(parts@.len(), |i: int| parts@[i]@));
    out
}

impl Action {
    /// The arguments of `timeout` under which a command runs; `None` for a file.
    pub fn timeout_arguments(&self) -> (r: Option<Vec<String>>)
        ensures
            match r {
                Some(args) => self@.timeout_arguments() == Some(texts(args@)),
                None => self@.timeout_arguments() is None,
            },
    {
        let (tool, args) = match self {
            Action::Ip(args) => ("ip", args),
            Action::Tc(args) => ("tc", args),
            Action::Write { .. } => {
                return None;
            },
        };
        let mut out = words(&["--kill-after=2", "10", tool]);
        let ghost head = texts(out@);
        assert(head =~= seq!["--kill-after=2"@, "10"@, tool@]);
        let mut i: usize = 0;
        while i < args.len()
            invariant
                i <= args@.len(),
                texts(out@) =~= head + texts(args@).take(i as int),
            decreases args@.len() - i,
        {
            let ghost before = out@;
            out.push(args[i].clone());
            proof {
                assert(texts(out@) =~= texts(before).push(args@[i as int]@));
                assert(texts(args@).take(i + 1) =~= texts(args@).take(i as int).push(
                    args@[i as int]@,
                ));
            }
            i = i + 1;
        }
        assert(texts(args@).take(i as int) =~= texts(args@));
        Some(out)
    }
}

/// What went wrong with a cable.
#[derive(Clone, Copy, Debug, PartialEq, Eq, Structural)]
pub enum FaultKind {
    /// The host could not start a command, or could not write a file.
    Host,
    /// `ip` reported a failure.
    IpFailed,
    /// `tc` reported a failure.
    TcFailed,
    /// `ip` printed something that is no JSON text; what is reported of it says why.
    NotJson,
    /// The host answered something other than what it was asked.
    Unexpected,
    InvalidName,
    NoLinkArray,
    AmbiguousLink,
    NotUnattachedVeth,
    MissingIfindex,
    NoAddressArray,
    Numbered,
    ChangedInPreparation,
    NotVeth,
    Attached,
    HasAddresses,
    GenerationChanged,
    KindChanged,
    BridgeName,
    OwnerMarker,
    SameEnds,
    Adopted,
    MissingBridgeIfindex,
    BridgeMismatch,
    NoMemberArray,
    ForeignMember,
    InvalidImpairment,
}

impl FaultKind {
    /// The fault in words.
    pub open spec fn says(self) -> Seq<char> {
        match self {
            FaultKind::Host => ""@,
            FaultKind::IpFailed => "ip failed: "@,
            FaultKind::TcFailed => "tc failed: "@,
            FaultKind::NotJson => ""@,
            FaultKind::Unexpected => "unexpected answer from the host"@,
            FaultKind::InvalidName => "invalid kernel interface name"@,
            FaultKind::NoLinkArray => "expected link array"@,
            FaultKind::AmbiguousLink => "ambiguous link identity"@,
            FaultKind::NotUnattachedVeth => "owned endpoint must be an unattached veth"@,
            FaultKind::MissingIfindex => "missing ifindex"@,
            FaultKind::NoAddressArray => "address array"@,
            FaultKind::Numbered => "refusing a numbered host endpoint"@,
            FaultKind::ChangedInPreparation => "endpoint changed during preparation"@,
            FaultKind::NotVeth => "endpoint must be a veth"@,
            FaultKind::Attached => "endpoint already belongs to a bridge"@,
            FaultKind::HasAddresses => "host endpoint has IP addresses"@,
            FaultKind::GenerationChanged => "endpoint generation changed"@,
            FaultKind::KindChanged => "endpoint kind changed"@,
            FaultKind::BridgeName => "bridge needs a pc prefix and <=15 bytes"@,
            FaultKind::OwnerMarker => "invalid owner marker"@,
            FaultKind::SameEnds => "endpoints must differ"@,
            FaultKind::Adopted => "endpoint was adopted by another bridge"@,
            FaultKind::MissingBridgeIfindex => "missing bridge ifindex"@,
            FaultKind::BridgeMismatch => "bridge ownership/generation mismatch"@,
            FaultKind::NoMemberArray => "members array"@,
            FaultKind::ForeignMember => "foreign or missing bridge member"@,
            FaultKind::InvalidImpairment => "invalid impairment"@,
        }
    }

    pub fn text(self) -> (r: &'static str)
        ensures
            r@ == self.says(),
    {
        match self {
            FaultKind::Host => "",
            FaultKind::IpFailed => "ip failed: ",
            FaultKind::TcFailed => "tc failed: ",
            FaultKind::NotJson => "",
            FaultKind::Unexpected => "unexpected answer from the host",
            FaultKind::InvalidName => "invalid kernel interface name",
            FaultKind::NoLinkArray => "expected link array",
            FaultKind::AmbiguousLink => "ambiguous link identity",
            FaultKind::NotUnattachedVeth => "owned endpoint must be an unattached veth",
            FaultKind::MissingIfindex => "missing ifindex",
            FaultKind::NoAddressArray => "address array",
            FaultKind::Numbered => "refusing a numbered host endpoint",
            FaultKind::ChangedInPreparation => "endpoint changed during preparation",
            FaultKind::NotVeth => "endpoint must be a veth",
            FaultKind::Attached => "endpoint already belongs to a bridge",
            FaultKind::HasAddresses => "host endpoint has IP addresses",
            FaultKind::GenerationChanged => "endpoint generation changed",
            FaultKind::KindChanged => "endpoint kind changed",
            FaultKind::BridgeName => "bridge needs a pc prefix and <=15 bytes",
            FaultKind::OwnerMarker => "invalid owner marker",
            FaultKind::SameEnds => "endpoints must differ",
            FaultKind::Adopted => "endpoint was adopted by another bridge",
            FaultKind::MissingBridgeIfindex => "missing bridge ifindex",
            FaultKind::BridgeMismatch => "bridge ownership/generation mismatch",
            FaultKind::NoMemberArray => "members array",
            FaultKind::ForeignMember => "foreign or missing bridge member",
            FaultKind::InvalidImpairment => "invalid impairment",
        }
    }
}

/// A fault, with what is reported of it.
pub struct Fault {
    pub kind: FaultKind,
    pub detail: Seq<char>,
}

/// A fault of which nothing is reported.
pub open spec fn plain(kind: FaultKind) -> Fault {
    Fault { kind, detail: seq![] }
}

/// Why a cable operation ended without success.
#[derive(Debug)]
pub struct CableError {
    pub kind: FaultKind,
    /// What is reported of the fault.
    pub detail: String,
}

impl View for CableError {
    type V = Fault;

    open spec fn view(&self) -> Fault {
        Fault { kind: self.kind, detail: self.detail@ }
    }
}

impl CableError {
    pub fn new(kind: FaultKind) -> (r: Self)
        ensures
            r@ == plain(kind),
    {
        let r = CableError { kind, detail: String::new() };
        assert(r@.detail =~= seq![]);
        r
    }

    pub fn copied(&self) -> (r: Self)
        ensures
            r@ == self@,
    {
        CableError { kind: self.kind, detail: self.detail.clone() }
    }

    /// The fault in words, with what is reported of it.
    pub fn message(&self) -> (r: String)
        ensures
            r@ == self.kind.says() + self.detail@,
    {
        let mut out = self.kind.text().to_owned();
        out.append(self.detail.as_str());
        out
    }
}

/// What came of an action.
#[derive(Debug)]
pub enum Reply {
    /// The command ran to its end.
    Exited { success: bool, stdout: Vec<u8>, stderr: Vec<u8> },
    /// The command could not be started.
    NotStarted(String),
    /// The file was written.
    Written,
    /// The file was not written; `not_found` if there is no such file.
    WriteFailed { not_found: bool, message: String },
}

/// What an action came to, as far as cable operations read it.
pub enum AnswerView {
    /// What `ip` printed; null if it printed nothing.
    Document(JsonTree),
    /// `tc` succeeded.
    Ran,
    /// The file was written.
    Written,
    /// There is no such file.
    Absent(Seq<char>),
    Failed(Fault),
}

/// What an action came to, as far as cable operations read it.
#[derive(Debug)]
pub enum Answer {
    /// What `ip` printed; null if it printed nothing.
    Document(Json),
    /// `tc` succeeded.
    Ran,
    /// The file was written.
    Written,
    /// There is no such file.
    Absent(String),
    Failed(CableError),
}

impl View for Answer {
    type V = AnswerView;

    open spec fn view(&self) -> AnswerView {
        match self {
            Answer::Document(json) => AnswerView::Document(json@),
            Answer::Ran => AnswerView::Ran,
            Answer::Written => AnswerView::Written,
            Answer::Absent(message) => AnswerView::Absent(message@),
            Answer::Failed(e) => AnswerView::Failed(e@),
        }
    }
}

/// What the reply to an action comes to, where `document` is what `ip` printed, or what is reported
/// of a text that is none.
pub open spec fn answer_with(
    action: ActionView,
    reply: Reply,
    document: Result<JsonTree, Seq<char>>,
) -> AnswerView {
    match (action, reply) {
        (_, Reply::NotStarted(m)) => AnswerView::Failed(
            Fault { kind: FaultKind::Host, detail: m@ },
        ),
        (ActionView::Ip(_), Reply::Exited { success, stdout, stderr }) => {
            if !success {
                AnswerView::Failed(Fault { kind: FaultKind::IpFailed, detail: lossy(stderr@) })
            } else if stdout@.len() == 0 {
                AnswerView::Document(JsonTree::Null)
            } else {
                match document {
                    Ok(tree) => AnswerView::Document(tree),
                    Err(report) => AnswerView::Failed(
                        Fault { kind: FaultKind::NotJson, detail: report },
                    ),
                }
            }
        },
        (ActionView::Tc(_), Reply::Exited { success, stdout, stderr }) => {
            if success {
                AnswerView::Ran
            } else {
                AnswerView::Failed(Fault { kind: FaultKind::TcFailed, detail: lossy(stderr@) })
            }
        },
        (ActionView::Write { .. }, Reply::Written) => AnswerView::Written,
        (ActionView::Write { .. }, Reply::WriteFailed { not_found, message }) => {
            if not_found {
                AnswerView::Absent(message@)
            } else {
                AnswerView::Failed(Fault { kind: FaultKind::Host, detail: message@ })
            }
        },
        _ => AnswerView::Failed(plain(FaultKind::Unexpected)),
    }
}

/// What the reply to an action comes to.
pub open spec fn answer_to(action: ActionView, reply: Reply) -> AnswerView {
    answer_with(
        action,
        reply,
        match reply {
            Reply::Exited { stdout, .. } => parsed(stdout@),
            _ => Err(seq![]),
        },
    )
}

/// Reads the reply to an action, where `document` is what `ip` printed, or what is reported of a
/// text that is none.
pub fn interpret(action: &Action, reply: Reply, document: Result<Json, String>) -> (r: Answer)
    ensures
        r@ == answer_with(action@, reply, reading(document)),
{
    match (action, reply) {
        (_, Reply::NotStarted(detail)) => Answer::Failed(
            CableError { kind: FaultKind::Host, detail },
        ),
        (Action::Ip(_), Reply::Exited { success, stdout, stderr }) => {
            if !success {
                Answer::Failed(
                    CableError { kind: FaultKind::IpFailed, detail: lossy_text(stderr.as_slice()) },
                )
            } else if stdout.len() == 0 {
                Answer::Document(Json::Null)
            } else {
                match document {
                    Ok(json) => Answer::Document(json),
                    Err(detail) => Answer::Failed(CableError { kind: FaultKind::NotJson, detail }),
                }
            }
        },
        (Action::Tc(_), Reply::Exited { success, stdout, stderr }) => {
            if success {
                Answer::Ran
            } else {
                Answer::Failed(
                    CableError { kind: FaultKind::TcFailed, detail: lossy_text(stderr.as_slice()) },
                )
            }
        },
        (Action::Write { .. }, Reply::Written) => Answer::Written,
        (Action::Write { .. }, Reply::WriteFailed { not_found, message }) => {
            if not_found {
                Answer::Absent(message)
            } else {
                Answer::Failed(CableError { kind: FaultKind::Host, detail: message })
            }
        },
        _ => Answer::Failed(CableError::new(FaultKind::Unexpected)),
    }
}

/// The answers that an operation has had so far, in the order of its actions.
#[derive(Debug)]
pub struct Transcript {
    answers: Vec<Answer>,
}

impl View for Transcript {
    type V = Seq<AnswerView>;

    closed spec fn view(&self) -> Seq<AnswerView> {
        self.answers@.map_values(|a: Answer| a@)
    }
}

impl Transcript {
    pub fn new() -> (r: Self)
        ensures
            r@ == Seq::<AnswerView>::empty(),
    {
        let r = Transcript { answers: Vec::new() };
        assert(r@ =~= Seq::<AnswerView>::empty());
        r
    }

    pub fn len(&self) -> (r: usize)
        ensures
            r == self@.len(),
    {
        self.answers.len()
    }

    pub fn at(&self, i: usize) -> (r: &Answer)
        requires
            i < self@.len(),
        ensures
            r@ == self@[i as int],
    {
        &self.answers[i]
    }

    /// Adds an answer.
    pub fn push(&mut self, answer: Answer)
        ensures
            final(self)@ == old(self)@.push(answer@),
    {
        self.answers.push(answer);
        assert(self@ =~= old(self)@.push(answer@));
    }

    /// Adds what the reply to an action comes to.
    pub fn record(&mut self, action: &Action, reply: Reply)
        ensures
            final(self)@ == old(self)@.push(answer_to(action@, reply)),
    {
        let document = match (action, &reply) {
            (Action::Ip(_), Reply::Exited { success, stdout, stderr }) => {
                if *success && stdout.len() > 0 {
                    parse(stdout.as_slice())
                } else {
                    Err(String::new())
                }
            },
            _ => Err(String::new()),
        };
        let answer = interpret(action, reply, document);
        self.push(answer);
    }
}

} // verus!

//! Why an operation on a fabric ended without success.

use super::topology::TopologyError;
use vstd::prelude::*;
use vstd::string::*;

verus! {

/// What went wrong with a fabric.
#[derive(Clone, Copy, Debug, PartialEq, Eq, Structural)]
pub enum FabricFault {
    /// The graph is refused.
    Graph(TopologyError),
    /// The host could not do what it was asked.
    Host,
    Binary,
    Library,
    Preload,
    StateDir,
    Startup,
    Readiness,
    Failed,
    ServerExited,
    ManagerExited,
    Console,
    UnknownLink,
    Rejected,
    UnknownNode,
    ManagerRunning,
    UnknownManagerNode,
    NotHca,
    ReadinessDeadline,
    NotActive,
    CommandDeadline,
    CommandLimit,
    TimedOut,
    /// An acknowledgement for which nothing was sent.
    NothingPending,
}

impl TopologyError {
    pub open spec fn says(self) -> Seq<char> {
        match self {
            TopologyError::InvalidNode =>
                "IB node needs a 1..31 byte alphanumeric/_/- name and 1..255 ports"@,
            TopologyError::DuplicateNode => "duplicate IB node "@,
            TopologyError::TooManyNodes => "IB topology supports at most 1024 nodes"@,
            TopologyError::InvalidLinkId => "empty or duplicate IB link ID"@,
            TopologyError::SelfLink => "IB self-links are unsupported"@,
            TopologyError::UnknownNode => "unknown IB node"@,
            TopologyError::PortOutOfRange => "IB port out of range"@,
            TopologyError::PortTaken => "IB port already cabled"@,
            TopologyError::Empty => "empty IB topology"@,
            TopologyError::TooManyPorts => "IB topology exceeds 32768 ports"@,
        }
    }

    /// The refusal in words; `message` has the name that follows those of a duplicate node.
    pub fn text(self) -> (r: &'static str)
        ensures
            r@ == self.says(),
    {
        match self {
            TopologyError::InvalidNode =>
                "IB node needs a 1..31 byte alphanumeric/_/- name and 1..255 ports",
            TopologyError::DuplicateNode => "duplicate IB node ",
            TopologyError::TooManyNodes => "IB topology supports at most 1024 nodes",
            TopologyError::InvalidLinkId => "empty or duplicate IB link ID",
            TopologyError::SelfLink => "IB self-links are unsupported",
            TopologyError::UnknownNode => "unknown IB node",
            TopologyError::PortOutOfRange => "IB port out of range",
            TopologyError::PortTaken => "IB port already cabled",
            TopologyError::Empty => "empty IB topology",
            TopologyError::TooManyPorts => "IB topology exceeds 32768 ports",
        }
    }

    /// The refusal of the node or cable `name` in words.
    pub fn message(self, name: &str) -> (r: String)
        ensures
            r@ == (if self == TopologyError::DuplicateNode {
                self.says() + name@
            } else {
                self.says()
            }),
    {
        let mut out = self.text().to_owned();
        if let TopologyError::DuplicateNode = self {
            out.append(name);
        }
        out
    }
}

impl FabricFault {
    /// The fault in words, which what is reported of it follows.
    pub open spec fn says(self) -> Seq<char> {
        match self {
            FabricFault::Graph(e) => e.says(),
            FabricFault::Host => ""@,
            FabricFault::Binary => "native ibsim binary; build vendor/ibsim first: "@,
            FabricFault::Library => "native umad2sim library: "@,
            FabricFault::Preload => "LD_PRELOAD path cannot contain whitespace or colon"@,
            FabricFault::StateDir => "ibsim state_dir must be new: "@,
            FabricFault::Startup => "native ibsim startup: "@,
            FabricFault::Readiness => "ibsim control socket readiness: "@,
            FabricFault::Failed =>
                "ibsim backend is failed; rebuild it before further operations"@,
            FabricFault::ServerExited => "native ibsim exited: "@,
            FabricFault::ManagerExited => "OpenSM exited: "@,
            FabricFault::Console => "ibsim console failed: "@,
            FabricFault::UnknownLink => "unknown IB link"@,
            FabricFault::Rejected => "ibsim rejected cable change: "@,
            FabricFault::UnknownNode => "unknown IB node "@,
            FabricFault::ManagerRunning => "OpenSM already started"@,
            FabricFault::UnknownManagerNode => "unknown SM node"@,
            FabricFault::NotHca => "attach OpenSM to an HCA"@,
            FabricFault::ReadinessDeadline => "IB readiness deadline must be in (0,600] seconds"@,
            FabricFault::NotActive => "IB port "@,
            FabricFault::CommandDeadline => "IB command deadline must be in (0,600] seconds"@,
            FabricFault::CommandLimit =>
                "IB command retention limit reached; start a new fabric"@,
            FabricFault::TimedOut => "native IB command timed out"@,
            FabricFault::NothingPending => "no cable change is pending"@,
        }
    }

    pub fn text(self) -> (r: &'static str)
        ensures
            r@ == self.says(),
    {
        match self {
            FabricFault::Graph(e) => e.text(),
            FabricFault::Host => "",
            FabricFault::Binary => "native ibsim binary; build vendor/ibsim first: ",
            FabricFault::Library => "native umad2sim library: ",
            FabricFault::Preload => "LD_PRELOAD path cannot contain whitespace or colon",
            FabricFault::StateDir => "ibsim state_dir must be new: ",
            FabricFault::Startup => "native ibsim startup: ",
            FabricFault::Readiness => "ibsim control socket readiness: ",
            FabricFault::Failed => "ibsim backend is failed; rebuild it before further operations",
            FabricFault::ServerExited => "native ibsim exited: ",
            FabricFault::ManagerExited => "OpenSM exited: ",
            FabricFault::Console => "ibsim console failed: ",
            FabricFault::UnknownLink => "unknown IB link",
            FabricFault::Rejected => "ibsim rejected cable change: ",
            FabricFault::UnknownNode => "unknown IB node ",
            FabricFault::ManagerRunning => "OpenSM already started",
            FabricFault::UnknownManagerNode => "unknown SM node",
            FabricFault::NotHca => "attach OpenSM to an HCA",
            FabricFault::ReadinessDeadline => "IB readiness deadline must be in (0,600] seconds",
            FabricFault::NotActive => "IB port ",
            FabricFault::CommandDeadline => "IB command deadline must be in (0,600] seconds",
            FabricFault::CommandLimit => "IB command retention limit reached; start a new fabric",
            FabricFault::TimedOut => "native IB command timed out",
            FabricFault::NothingPending => "no cable change is pending",
        }
    }
}

/// A fault, with what is reported of it.
pub struct FaultView {
    pub kind: FabricFault,
    pub detail: Seq<char>,
}

pub open spec fn fault(kind: FabricFault) -> FaultView {
    FaultView { kind, detail: seq![] }
}

/// Why an operation on a fabric ended without success.
#[derive(Debug)]
pub struct FabricError {
    pub kind: FabricFault,
    /// What is reported of the fault.
    pub detail: String,
}

impl View for FabricError {
    type V = FaultView;

    open spec fn view(&self) -> FaultView {
        FaultView { kind: self.kind, detail: self.detail@ }
    }
}

impl FabricError {
    pub fn new(kind: FabricFault) -> (r: Self)
        ensures
            r@ == fault(kind),
    {
        let r = FabricError { kind, detail: String::new() };
        assert(r@.detail =~= seq![]);
        r
    }

    pub fn about(kind: FabricFault, detail: &str) -> (r: Self)
        ensures
            r@ == (FaultView { kind, detail: detail@ }),
    {
        FabricError { kind, detail: detail.to_owned() }
    }

    /// The fault in words, with what is reported of it.
    pub fn message(&self) -> (r: String)
        ensures
            r@ == self.kind.says() + self.detail@,
    {
        let mut out = self.kind.text().to_owned();
        out.append(self.detail.as_str());
        out
    }
}

/// Each fault is told in its own words, which what is reported of it follows; a graph is refused in
/// the words of its own refusal.
pub proof fn law_words_of_faults(e: TopologyError)
    ensures
        FabricFault::Graph(e).says() == e.says(),
        FabricFault::Host.says() == ""@,
        FabricFault::Binary.says() == "native ibsim binary; build vendor/ibsim first: "@,
        FabricFault::Library.says() == "native umad2sim library: "@,
        FabricFault::Preload.says() == "LD_PRELOAD path cannot contain whitespace or colon"@,
        FabricFault::StateDir.says() == "ibsim state_dir must be new: "@,
        FabricFault::Startup.says() == "native ibsim startup: "@,
        FabricFault::Readiness.says() == "ibsim control socket readiness: "@,
        FabricFault::Failed.says()
            == "ibsim backend is failed; rebuild it before further operations"@,
        FabricFault::ServerExited.says() == "native ibsim exited: "@,
        FabricFault::ManagerExited.says() == "OpenSM exited: "@,
        FabricFault::Console.says() == "ibsim console failed: "@,
        FabricFault::UnknownLink.says() == "unknown IB link"@,
        FabricFault::Rejected.says() == "ibsim rejected cable change: "@,
        FabricFault::UnknownNode.says() == "unknown IB node "@,
        FabricFault::ManagerRunning.says() == "OpenSM already started"@,
        FabricFault::UnknownManagerNode.says() == "unknown SM node"@,
        FabricFault::NotHca.says() == "attach OpenSM to an HCA"@,
        FabricFault::ReadinessDeadline.says()
            == "IB readiness deadline must be in (0,600] seconds"@,
        FabricFault::NotActive.says() == "IB port "@,
        FabricFault::CommandDeadline.says() == "IB command deadline must be in (0,600] seconds"@,
        FabricFault::CommandLimit.says()
            == "IB command retention limit reached; start a new fabric"@,
        FabricFault::TimedOut.says() == "native IB command timed out"@,
        TopologyError::InvalidNode.says()
            == "IB node needs a 1..31 byte alphanumeric/_/- name and 1..255 ports"@,
        TopologyError::DuplicateNode.says() == "duplicate IB node "@,
        TopologyError::TooManyNodes.says() == "IB topology supports at most 1024 nodes"@,
        TopologyError::InvalidLinkId.says() == "empty or duplicate IB link ID"@,
        TopologyError::SelfLink.says() == "IB self-links are unsupported"@,
        TopologyError::UnknownNode.says() == "unknown IB node"@,
        TopologyError::PortOutOfRange.says() == "IB port out of range"@,
        TopologyError::PortTaken.says() == "IB port already cabled"@,
        TopologyError::Empty.says() == "empty IB topology"@,
        TopologyError::TooManyPorts.says() == "IB topology exceeds 32768 ports"@,
{
}

} // verus!

//! Native InfiniBand subnet management in a dedicated network namespace.
//!
//! The native simulator and UMAD consumers share an isolated transport namespace; `SIM_HOST`
//! selects their IB attachment. The IB graph is enforced by the simulator, independently of
//! Ethernet routes. This does not provide an RDMA verbs device, IPoIB, CUDA, NCCL, or
//! bandwidth/latency emulation.

pub mod command;
pub mod console;
pub mod control;
pub mod fabric;
pub mod fabric_laws;
pub mod fault;
pub mod graph_laws;
pub mod lab;
pub mod launch;
pub mod laws;
pub mod log;
pub mod manager;
pub mod process;
pub mod startup;
pub mod text_laws;
pub mod topology;

pub use self::fabric::{IbFabric, IbPortStatus};
pub use self::launch::IbOptions;
pub use self::topology::{IbEndpoint, IbLink, IbNode, IbNodeKind, IbTopology};

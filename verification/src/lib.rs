//! Network cables and InfiniBand fabrics for a network lab.

pub mod host_cable;
pub mod infiniband;
pub mod json;
pub mod reading;
pub mod registry;
pub mod text;

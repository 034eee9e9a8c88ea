//! Edge agent library: the configuration, the driver registry and the
//! decisions of the job loop that runs a machine driver at the edge and
//! reports back to the factory gateway.

pub mod agent;
pub mod config;
pub mod job_loop;
pub mod order;
pub mod registry;

//! Job bookkeeping for the builder job server and its workers: the job
//! model and its database rows, the parameters of the job queries, the
//! scheduler synchronisation decisions, the worker configuration and the
//! framing of streamed build logs.

pub mod job;
pub mod store;
pub mod sync;
pub mod config;
pub mod wire;
pub mod logger;

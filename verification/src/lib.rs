//! Job distribution for a pool of benchmark runners.
//!
//! An orchestrator accepts benchmark binaries, pairs each piece of work with a
//! runner of the requested machine type, and streams one outcome per benchmark
//! back to the submitter. This crate holds the decisions of that system as
//! verified functions over plain values:
//!
//! - the messages ([`orchestrator_protocol`], [`runner_protocol`]);
//! - the matching of waiting requests with waiting runners
//!   ([`connection_assigner`], [`assigner_laws`]) and the registration of a
//!   runner ([`request_job`]);
//! - the life cycle of a job ([`job_handler`], [`job_laws`]);
//! - the supervision of the two loops of a connection ([`networking`]);
//! - the command line of a sandboxed run ([`system`]) and the reading of what
//!   a benchmark binary prints ([`bench_output`], [`text`]);
//! - the runner's handling of one request and its reconnect loop ([`runner`]);
//! - the submitter's book-keeping ([`run_jobs`]) and the record of
//!   measurements ([`archive`]);
//! - the modes and settings of the programs ([`cli`], [`config`]) and what
//!   their installation writes ([`install`]).
//!
//! Sockets, processes, clocks and encodings are left to the caller, which
//! performs the actions these functions return and reports what happened. An
//! identifier is 128 bits, and a measurement is the bit pattern of a
//! single-precision number: the crate carries both and interprets neither.
pub mod archive;
pub mod assigner_laws;
pub mod bench_output;
pub mod cli;
pub mod config;
pub mod connection_assigner;
pub mod ids;
pub mod install;
pub mod job_handler;
pub mod job_laws;
pub mod networking;
pub mod orchestrator_protocol;
pub mod request_job;
pub mod run_jobs;
pub mod runner;
pub mod runner_protocol;
pub mod system;
pub mod text;

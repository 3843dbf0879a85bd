//! Verified building blocks of a concurrent SSH reconnaissance pipeline.
//!
//! The pipeline has three stages. A source turns delimited text into scan
//! targets and feeds them to a work queue. A pool of workers takes targets
//! from that queue, probes each one, and pushes a response per target onto
//! a convergence queue. A sink writes every response as one line of JSON. A
//! coordinator starts the stages and waits for them in a fixed order.
//!
//! This library holds what each stage decides and computes, with a proof
//! for each contract; threads, queues, sockets and the standard streams
//! belong to the program that uses it.
//!
//! - [`model`]: targets, probe metadata and responses.
//! - [`config`]: the settings of a scan.
//! - [`source`]: from input text to targets.
//! - [`probe`]: the steps of one probe and the response each ending gives.
//! - [`record`]: a response as a line of JSON, written and read back.
//! - [`coordinator`]: the order of starting and waiting.
//! - [`pipeline`]: the queues and stages as a whole, and why no target is
//!   lost or answered twice.
//! - [`json`] and [`text`]: the strings, numbers and digits underneath.

pub mod config;
pub mod coordinator;
pub mod json;
pub mod model;
pub mod pipeline;
pub mod probe;
pub mod record;
pub mod source;
pub mod text;

//! The verified core of a traceroute that runs on io_uring.
//!
//! A trace sends one probe for each hop, with that hop's number as its time to
//! live, and records who answers each of them. This crate decides what is sent,
//! reads what comes back, and keeps the books; it touches no socket and no ring.
//!
//! - [`method`]: the datagrams that a probing method sends, and what replies mean
//! - [`net`]: kernel address and error structures, and the Internet checksum
//! - [`received`]: the message that a completed read left in its buffer
//! - [`user_data`]: the tag that a request carries into its completion
//! - [`in_flight`]: the sends in flight
//! - [`trace`]: the probes of a trace, and what each completion does to them
//! - [`options`]: what the options of the program mean
//! - [`report`]: the lines that a trace is reported with
//! - [`bytes`], [`text`]: integers in buffers, numbers as text
//! - [`platform`]: constants of the kernel interface

pub mod bytes;
pub mod in_flight;
pub mod method;
pub mod net;
pub mod options;
pub mod platform;
pub mod received;
pub mod report;
pub mod text;
pub mod trace;
pub mod user_data;

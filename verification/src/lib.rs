//! Verified core of a microVM sandbox runtime.
//!
//! The library holds the rules of the runtime as functions on plain values: the egress policy
//! that is applied to every Ethernet frame, the session state machine, run budgets, the pool of
//! prepared sandboxes, the host diagnosis, and the plans by which a virtual machine is configured
//! and its agent is spoken to.  Sockets, files, processes and clocks stay with the caller.

pub mod backend;
pub mod budget;
pub mod bytes;
pub mod doctor;
pub mod helper;
pub mod keeping;
pub mod libkrun;
pub mod lifecycle;
pub mod net;
pub mod notation;
pub mod output;
pub mod paths;
pub mod policy;
pub mod pool;
pub mod process;
pub mod sdk;
pub mod session;
pub mod supervisor;
pub mod table;
pub mod text;
pub mod time;
pub mod trace;
pub mod wording;

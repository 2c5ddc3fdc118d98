//! Core of a distributed elevator control system.
//!
//! Each node runs one instance of this core: a replicated per-(floor, kind)
//! request table driven by peer-to-peer broadcast gossip, a deterministic
//! assignment function that picks exactly one cabin for every active hall
//! call, and a per-cabin motion state machine that turns assignments and
//! floor-sensor events into motor, door and light commands.
//!
//! The sockets, the hardware registers and the wall clock live outside this
//! crate; the core exchanges plain values with them: incoming events and
//! readings on one side, commands and messages to send on the other.

pub mod elev_io;
pub mod elevator_fsm;
pub mod order_handler;
pub mod peer;
pub mod request;
pub mod request_handler;
pub mod timer;

//! Packet-filter programs for a software router: a bounds-checked packet
//! view, bounded persistent stores, the built-in programs, and the controller
//! that swaps the program of a slot between two packets.

pub mod checksum;
pub mod control;
pub mod controller;
pub mod headers;
pub mod packet;
pub mod programs;
pub mod store;
pub mod verdict;

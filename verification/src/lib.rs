//! Sharing one mouse, keyboard and clipboard between machines on a network.
//!
//! [`input_event`] holds the events themselves and how they are shown, [`proto`] the datagrams
//! in which they travel, and [`libei`] what a machine decides when it replays them on its
//! desktop. [`wire`] and [`text`] are what these are built on: the fields of a datagram, and
//! the text of numbers and names.

pub mod input_event;
pub mod libei;
pub mod proto;
pub mod text;
pub mod wire;

//! Drivers for VirtIO devices: split virtqueues, the network card driver that
//! runs on top of them, and the choices a board makes when it brings them up.
//!
//! Everything here computes on plain values. Memory that a device reads or
//! writes, the doorbell behind a [`virtio::VirtIOTransport`] and the callbacks
//! into a client belong to the code around this crate: it hands in what the
//! device wrote, and carries out what is handed back.

pub mod board;
pub mod error;
pub mod virtio;

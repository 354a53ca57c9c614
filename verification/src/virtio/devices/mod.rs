//! VirtIO device drivers.
//!
//! Currently, the following types of VirtIO devices are supported:
//!
//! - [Network Card](virtio_net::VirtIONet)

pub mod virtio_net;

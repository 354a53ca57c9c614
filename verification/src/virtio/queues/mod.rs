//! Virtqueue implementations.

pub mod effects;
pub mod laws;
pub mod layout;
pub mod model;
pub mod ring;
pub mod split_queue;

mod lemmas;

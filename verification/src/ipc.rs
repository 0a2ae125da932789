//! The Talos hand-over: images, poses and gimbal commands exchanged through shared memory.
pub mod layout;
pub mod publisher;
pub mod triple_buffer;

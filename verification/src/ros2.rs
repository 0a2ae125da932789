//! The ROS 2 side: topics, the transform tree, what is published when, and what commands do.
pub mod image;
pub mod navigation;
pub mod plan;
pub mod state;
pub mod subscription;
pub mod tf;
pub mod topic;

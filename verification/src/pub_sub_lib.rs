//! The publish/subscribe side of the broker: topics, queue channels and
//! subscriptions over one shared state.
pub mod shared_memory;
pub mod topic_manager;
pub mod queue_manager;
pub mod subscription_manager;

//! A first-in first-out message queue with the producers that fill it and the
//! consumers that drain it.
pub mod queue;
pub mod producer;
pub mod consumer;

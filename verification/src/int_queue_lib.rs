//! A queue of integer messages that numbers every operation on it, with its
//! producers and consumers.
pub mod queue;
pub mod producer;
pub mod consumer;

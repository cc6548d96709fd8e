//! A publish/subscribe message broker: topics, per-subscriber queue
//! channels, and the HTTP requests that drive them.
pub mod text;
pub mod json_text;
pub mod regex_match;
pub mod http_comms_lib;
pub mod queue_lib;
pub mod int_queue_lib;
pub mod assoc;
pub mod pub_sub_lib;

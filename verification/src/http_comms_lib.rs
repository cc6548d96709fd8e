//! The HTTP side of the broker: reading requests and answering them.
pub mod http_request_extracter;
pub mod request_handler;
pub mod http_request_handler;

//! Subscribing to and unsubscribing from topics.
use vstd::prelude::*;
use crate::pub_sub_lib::queue_manager::QueueManager;
use crate::text::string_of;

verus! {

/// Answers subscription requests.
pub struct SubscriptionManager {
    queue_manager: QueueManager,
}

impl SubscriptionManager {
    pub fn new(queue_manager: QueueManager) -> (m: SubscriptionManager) {
        SubscriptionManager { queue_manager }
    }

    /// Acknowledges a subscription to `topic`; the broker state is not
    /// touched.
    pub fn subscribe(&self, topic: &String) -> (r: Result<String, String>)
        ensures
            r matches Ok(message) && message@ == "subscribe"@,
    {
        Ok(string_of("subscribe"))
    }

    /// Acknowledges the end of subscription `id` to `topic`; the broker state
    /// is not touched.
    pub fn unsubscribe(&self, topic: &String, id: i32) -> (r: Result<String, String>)
        ensures
            r matches Ok(message) && message@ == "unsubscribe"@,
    {
        Ok(string_of("unsubscribe"))
    }
}

} // verus!

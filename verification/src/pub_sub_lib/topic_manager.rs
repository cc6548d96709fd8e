//! Creating, removing and looking up topics.
use vstd::prelude::*;
use crate::pub_sub_lib::shared_memory::SharedMemory;
use crate::text::join3;

verus! {

/// The answer to creating a topic that exists already.
pub open spec fn topic_exists_message(topic: Seq<char>) -> Seq<char> {
    "Topic named "@ + topic + " already exists"@
}

/// The answer to creating a topic.
pub open spec fn topic_created_message(topic: Seq<char>) -> Seq<char> {
    "Successfully created the new topic "@ + topic + ""@
}

/// The answer to removing a topic.
pub open spec fn topic_deleted_message(topic: Seq<char>) -> Seq<char> {
    "Successfully deleted "@ + topic + " topic"@
}

/// The answer to any request about a topic that does not exist.
pub open spec fn no_topic_message(topic: Seq<char>) -> Seq<char> {
    "There is no topic named: "@ + topic + ""@
}

/// The error that any request about a missing topic gets.
pub fn no_topic_error(topic: &String) -> (e: String)
    ensures
        e@ == no_topic_message(topic@),
{
    join3("There is no topic named: ", topic.as_str(), "")
}

/// Creates and removes topics of a shared broker state.
pub struct TopicManager {}

impl TopicManager {
    pub fn new() -> (m: TopicManager) {
        TopicManager {  }
    }

    /// Creates `topic`, with no channel and next channel id 0; an error, with
    /// the state unchanged, when it exists.
    pub fn new_topic(&self, shared_memory: &mut SharedMemory, topic: &String) -> (r: Result<
        String,
        String,
    >)
        requires
            old(shared_memory).wf(),
        ensures
            final(shared_memory).wf(),
            match r {
                Ok(message) => {
                    &&& !old(shared_memory)@.topics.contains(topic@)
                    &&& message@ == topic_created_message(topic@)
                    &&& final(shared_memory)@ == old(shared_memory)@.with_topic(topic@)
                },
                Err(err) => {
                    &&& old(shared_memory)@.topics.contains(topic@)
                    &&& err@ == topic_exists_message(topic@)
                    &&& final(shared_memory)@ == old(shared_memory)@
                },
            },
    {
        if self.topic_exists(shared_memory, topic) {
            return Err(join3("Topic named ", topic.as_str(), " already exists"));
        }
        shared_memory.add_topic(topic);
        Ok(join3("Successfully created the new topic ", topic.as_str(), ""))
    }

    /// Removes `topic` with its channels and their messages; an error, with
    /// the state unchanged, when it does not exist.
    pub fn remove_topic(&self, shared_memory: &mut SharedMemory, topic: &String) -> (r: Result<
        String,
        String,
    >)
        requires
            old(shared_memory).wf(),
        ensures
            final(shared_memory).wf(),
            match r {
                Ok(message) => {
                    &&& old(shared_memory)@.topics.contains(topic@)
                    &&& message@ == topic_deleted_message(topic@)
                    &&& final(shared_memory)@ == old(shared_memory)@.without_topic(topic@)
                },
                Err(err) => {
                    &&& !old(shared_memory)@.topics.contains(topic@)
                    &&& err@ == no_topic_message(topic@)
                    &&& final(shared_memory)@ == old(shared_memory)@
                },
            },
    {
        if !self.topic_exists(shared_memory, topic) {
            return Err(no_topic_error(topic));
        }
        shared_memory.remove_topic_entries(topic);
        Ok(join3("Successfully deleted ", topic.as_str(), " topic"))
    }

    /// Whether `topic` exists.
    pub fn topic_exists(&self, shared_memory: &SharedMemory, topic: &String) -> (r: bool)
        ensures
            r == shared_memory@.topics.contains(topic@),
    {
        shared_memory.contains_topic(topic)
    }
}

} // verus!

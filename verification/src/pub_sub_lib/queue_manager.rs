//! Opening and closing the queue channels of topics, publishing to a topic
//! and retrieving from one of its channels.
use vstd::prelude::*;
use crate::pub_sub_lib::shared_memory::{SharedMemory, ChannelRead};
use crate::pub_sub_lib::topic_manager::{TopicManager, no_topic_message, no_topic_error};
use crate::text::{join3, join5, int_decimal, i32_to_string};

verus! {

/// The answer to closing a channel.
pub open spec fn unsubscribed_message(topic: Seq<char>, id: i32) -> Seq<char> {
    "Successfully unsubscribed id "@ + int_decimal(id as int) + " from "@ + topic + " topic"@
}

/// The answer to naming a channel that the topic does not have.
pub open spec fn no_id_message(id: i32) -> Seq<char> {
    "There is no id with specified value: "@ + int_decimal(id as int) + ""@
}

/// The answer to publishing.
pub open spec fn published_message(topic: Seq<char>) -> Seq<char> {
    "Successfully published your message to "@ + topic + " topic"@
}

fn no_id_error(id: i32) -> (e: String)
    ensures
        e@ == no_id_message(id),
{
    let digits = i32_to_string(id);
    join3("There is no id with specified value: ", digits.as_str(), "")
}

/// Manages the queue channels of the topics of a shared broker state.
pub struct QueueManager {
    topic_manager: TopicManager,
}

impl QueueManager {
    pub fn new(topic_manager: TopicManager) -> (m: QueueManager) {
        QueueManager { topic_manager }
    }

    /// Opens a new empty channel on `topic` and returns its id, the id the
    /// topic's next channel was to get; an error, with the state unchanged,
    /// when the topic does not exist.
    pub fn create_queue_channel(&self, shared_memory: &mut SharedMemory, topic: &String) -> (r:
        Result<i32, String>)
        requires
            old(shared_memory).wf(),
            old(shared_memory)@.topics.contains(topic@) ==> old(shared_memory)@.max_ids[topic@]
                < i32::MAX,
        ensures
            final(shared_memory).wf(),
            match r {
                Ok(id) => {
                    &&& old(shared_memory)@.topics.contains(topic@)
                    &&& id == old(shared_memory)@.max_ids[topic@]
                    &&& final(shared_memory)@ == old(shared_memory)@.with_new_channel(topic@)
                },
                Err(err) => {
                    &&& !old(shared_memory)@.topics.contains(topic@)
                    &&& err@ == no_topic_message(topic@)
                    &&& final(shared_memory)@ == old(shared_memory)@
                },
            },
    {
        if !self.topic_manager.topic_exists(shared_memory, topic) {
            return Err(no_topic_error(topic));
        }
        let id = shared_memory.open_channel(topic);
        Ok(id)
    }

    /// Closes channel `id` of `topic`, with the messages it held; an error,
    /// with the state unchanged, when the topic or the channel does not exist.
    pub fn remove_queue_channel(&self, shared_memory: &mut SharedMemory, topic: &String, id: i32)
        -> (r: Result<String, String>)
        requires
            old(shared_memory).wf(),
        ensures
            final(shared_memory).wf(),
            match r {
                Ok(message) => {
                    &&& old(shared_memory)@.topics.contains(topic@)
                    &&& old(shared_memory)@.channels[topic@].contains_key(id)
                    &&& message@ == unsubscribed_message(topic@, id)
                    &&& final(shared_memory)@ == old(shared_memory)@.without_channel(topic@, id)
                },
                Err(err) => {
                    &&& final(shared_memory)@ == old(shared_memory)@
                    &&& if old(shared_memory)@.topics.contains(topic@) {
                        &&& !old(shared_memory)@.channels[topic@].contains_key(id)
                        &&& err@ == no_id_message(id)
                    } else {
                        err@ == no_topic_message(topic@)
                    }
                },
            },
    {
        if !self.topic_manager.topic_exists(shared_memory, topic) {
            return Err(no_topic_error(topic));
        }
        if shared_memory.close_channel(topic, id) {
            let digits = i32_to_string(id);
            Ok(join5("Successfully unsubscribed id ", digits.as_str(), " from ", topic.as_str(), " topic"))
        } else {
            Err(no_id_error(id))
        }
    }

    /// Puts `message` at the back of every channel of `topic`; an error, with
    /// the state unchanged, when the topic does not exist.
    pub fn publish_message(&self, shared_memory: &mut SharedMemory, topic: &String, message: i32)
        -> (r: Result<String, String>)
        requires
            old(shared_memory).wf(),
        ensures
            final(shared_memory).wf(),
            match r {
                Ok(answer) => {
                    &&& old(shared_memory)@.topics.contains(topic@)
                    &&& answer@ == published_message(topic@)
                    &&& final(shared_memory)@ == old(shared_memory)@.with_published(topic@, message)
                },
                Err(err) => {
                    &&& !old(shared_memory)@.topics.contains(topic@)
                    &&& err@ == no_topic_message(topic@)
                    &&& final(shared_memory)@ == old(shared_memory)@
                },
            },
    {
        if !self.topic_manager.topic_exists(shared_memory, topic) {
            return Err(no_topic_error(topic));
        }
        shared_memory.publish_to_channels(topic, message);
        Ok(join3("Successfully published your message to ", topic.as_str(), " topic"))
    }

    /// Takes the oldest message of channel `id` of `topic` and answers it in
    /// decimal. `Ok(None)` means that the channel is empty: the state is
    /// unchanged and the caller waits for a publication and asks again. An
    /// error, with the state unchanged, when the topic or the channel does not
    /// exist.
    pub fn retrieve_message(&self, shared_memory: &mut SharedMemory, topic: &String, id: i32)
        -> (r: Result<Option<String>, String>)
        requires
            old(shared_memory).wf(),
        ensures
            final(shared_memory).wf(),
            match r {
                Ok(Some(item)) => {
                    &&& old(shared_memory)@.topics.contains(topic@)
                    &&& old(shared_memory)@.channels[topic@].contains_key(id)
                    &&& old(shared_memory)@.channels[topic@][id].len() > 0
                    &&& item@ == int_decimal(old(shared_memory)@.channels[topic@][id][0] as int)
                    &&& final(shared_memory)@ == old(shared_memory)@.with_taken(topic@, id)
                },
                Ok(None) => {
                    &&& old(shared_memory)@.topics.contains(topic@)
                    &&& old(shared_memory)@.channels[topic@].contains_key(id)
                    &&& old(shared_memory)@.channels[topic@][id].len() == 0
                    &&& final(shared_memory)@ == old(shared_memory)@
                },
                Err(err) => {
                    &&& final(shared_memory)@ == old(shared_memory)@
                    &&& if old(shared_memory)@.topics.contains(topic@) {
                        &&& !old(shared_memory)@.channels[topic@].contains_key(id)
                        &&& err@ == no_id_message(id)
                    } else {
                        err@ == no_topic_message(topic@)
                    }
                },
            },
    {
        if !self.topic_manager.topic_exists(shared_memory, topic) {
            return Err(no_topic_error(topic));
        }
        match shared_memory.take_message(topic, id) {
            ChannelRead::Message(item) => Ok(Some(i32_to_string(item))),
            ChannelRead::Empty => Ok(None),
            ChannelRead::NoChannel => Err(no_id_error(id)),
        }
    }
}

} // verus!

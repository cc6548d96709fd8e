//! Answering broker requests: each action is carried out on the shared
//! broker state and answered with an HTTP response text.
use vstd::prelude::*;
use crate::http_comms_lib::http_request_extracter::{ActionType, Request, strings_view};
use crate::pub_sub_lib::shared_memory::{SharedMemory, MemoryState};
use crate::pub_sub_lib::topic_manager::{TopicManager, topic_exists_message,
    topic_created_message, topic_deleted_message, no_topic_message};
use crate::pub_sub_lib::queue_manager::{QueueManager, no_id_message, published_message};
use crate::pub_sub_lib::subscription_manager::SubscriptionManager;
use crate::json_text::{json_member_text, member_text};
use crate::text::{join3, string_of, chars_of, parse_i32, parse_i32_spec, int_decimal};

verus! {

/// A successful answer carrying `message`.
pub open spec fn ok_response(message: Seq<char>) -> Seq<char> {
    "HTTP/1.1 200 OK\r\n\r\n"@ + message + "\r\n"@
}

/// A failed answer carrying `message`.
pub open spec fn not_found_response(message: Seq<char>) -> Seq<char> {
    "HTTP/1.1 404 NOT FOUND\r\n\r\n"@ + message + "\r\n"@
}

/// The answer to a path with the wrong number of parameters.
pub open spec fn invalid_path_response() -> Seq<char> {
    "HTTP/1.1 404 NOT FOUND\r\n\r\nInvalid path\r\n"@
}

/// The answer to a request that names no action.
pub open spec fn no_action_response() -> Seq<char> {
    "HTTP/1.1 404 NOT FOUND\r\n\r\n"@
}

/// The message that a publication carries: the member `item` of the JSON
/// body, read as an `i32`.
pub open spec fn publish_item(body: Option<Seq<char>>) -> Option<i32> {
    match body {
        Some(text) => match json_member_text(text, "item"@) {
            Some(item) => parse_i32_spec(item),
            None => None,
        },
        None => None,
    }
}

/// The characters of an optional string.
pub open spec fn body_view(body: Option<String>) -> Option<Seq<char>> {
    match body {
        Some(b) => Some(b@),
        None => None,
    }
}

/// The request can be answered: an id parameter, where one is read, is an
/// `i32`, and a publication carries an `i32` item.
pub open spec fn processable(action: ActionType, params: Seq<Seq<char>>, body: Option<Seq<char>>) -> bool {
    match action {
        ActionType::Unsubscribe | ActionType::Retrieve => params.len() == 2 ==> parse_i32_spec(
            params[1],
        ) is Some,
        ActionType::Publish => params.len() == 1 ==> publish_item(body) is Some,
        _ => true,
    }
}

/// The state after a request and its answer; no answer means that the
/// request waits for a message to arrive on the channel it reads.
pub open spec fn answer(
    s: MemoryState,
    action: ActionType,
    params: Seq<Seq<char>>,
    body: Option<Seq<char>>,
) -> (MemoryState, Option<Seq<char>>) {
    match action {
        ActionType::NewTopic => if params.len() != 1 {
            (s, Some(invalid_path_response()))
        } else if s.topics.contains(params[0]) {
            (s, Some(not_found_response(topic_exists_message(params[0]))))
        } else {
            (s.with_topic(params[0]), Some(ok_response(topic_created_message(params[0]))))
        },
        ActionType::RemoveTopic => if params.len() != 1 {
            (s, Some(invalid_path_response()))
        } else if !s.topics.contains(params[0]) {
            (s, Some(not_found_response(no_topic_message(params[0]))))
        } else {
            (s.without_topic(params[0]), Some(ok_response(topic_deleted_message(params[0]))))
        },
        ActionType::Subscribe => if params.len() != 1 {
            (s, Some(invalid_path_response()))
        } else {
            (s, Some(ok_response("subscribe"@)))
        },
        ActionType::Unsubscribe => if params.len() != 2 {
            (s, Some(invalid_path_response()))
        } else {
            (s, Some(ok_response("unsubscribe"@)))
        },
        ActionType::Publish => if params.len() != 1 {
            (s, Some(invalid_path_response()))
        } else if !s.topics.contains(params[0]) {
            (s, Some(not_found_response(no_topic_message(params[0]))))
        } else {
            (
                s.with_published(params[0], publish_item(body).unwrap()),
                Some(ok_response(published_message(params[0]))),
            )
        },
        ActionType::Retrieve => if params.len() != 2 {
            (s, Some(invalid_path_response()))
        } else {
            let topic = params[0];
            let id = parse_i32_spec(params[1]).unwrap();
            if !s.topics.contains(topic) {
                (s, Some(not_found_response(no_topic_message(topic))))
            } else if !s.channels[topic].contains_key(id) {
                (s, Some(not_found_response(no_id_message(id))))
            } else if s.channels[topic][id].len() == 0 {
                (s, None)
            } else {
                (
                    s.with_taken(topic, id),
                    Some(ok_response(int_decimal(s.channels[topic][id][0] as int))),
                )
            }
        },
        ActionType::NULL => (s, Some(no_action_response())),
    }
}

/// What handling a request comes to.
#[derive(Debug)]
pub enum Reply {
    /// Send this response.
    Respond(String),
    /// The channel read is empty: wait for a publication and handle the
    /// request again.
    Wait,
}

/// The response text of a reply, none for `Wait`.
pub open spec fn reply_view(r: Reply) -> Option<Seq<char>> {
    match r {
        Reply::Respond(s) => Some(s@),
        Reply::Wait => None,
    }
}

fn respond(r: Result<String, String>) -> (s: String)
    ensures
        s@ == match r {
            Ok(m) => ok_response(m@),
            Err(e) => not_found_response(e@),
        },
{
    match r {
        Ok(message) => join3("HTTP/1.1 200 OK\r\n\r\n", message.as_str(), "\r\n"),
        Err(err) => join3("HTTP/1.1 404 NOT FOUND\r\n\r\n", err.as_str(), "\r\n"),
    }
}

fn invalid_path() -> (s: String)
    ensures
        s@ == invalid_path_response(),
{
    string_of("HTTP/1.1 404 NOT FOUND\r\n\r\nInvalid path\r\n")
}

/// Answers broker requests on a shared broker state.
pub struct HttpRequestHandler {
    topic_manager: TopicManager,
    subscription_manager: SubscriptionManager,
    queue_manager: QueueManager,
}

impl HttpRequestHandler {
    pub fn new(
        topic_manager: TopicManager,
        subscription_manager: SubscriptionManager,
        queue_manager: QueueManager,
    ) -> (h: HttpRequestHandler) {
        HttpRequestHandler { topic_manager, subscription_manager, queue_manager }
    }

    /// The id parameter of `request`, read as an `i32`.
    fn id_param(request: &Request) -> (id: Option<i32>)
        requires
            request.params@.len() == 2,
        ensures
            id == parse_i32_spec(strings_view(request.params@)[1]),
    {
        let chars = chars_of(request.params[1].as_str());
        parse_i32(&chars)
    }

    /// The message that `request` publishes.
    fn item_param(request: &Request) -> (item: Option<i32>)
        ensures
            item == publish_item(body_view(request.body)),
    {
        match &request.body {
            Some(body) => match member_text(body.as_str(), "item") {
                Some(text) => {
                    let chars = chars_of(text.as_str());
                    parse_i32(&chars)
                },
                None => None,
            },
            None => None,
        }
    }

    /// Whether `request` can be answered (see `processable`).
    pub fn is_processable(&self, request: &Request) -> (r: bool)
        ensures
            r == processable(request.action, strings_view(request.params@), body_view(request.body)),
    {
        match request.action {
            ActionType::Unsubscribe | ActionType::Retrieve => {
                if request.params.len() == 2 {
                    Self::id_param(request).is_some()
                } else {
                    true
                }
            },
            ActionType::Publish => {
                if request.params.len() == 1 {
                    Self::item_param(request).is_some()
                } else {
                    true
                }
            },
            _ => true,
        }
    }

    fn new_topic(&self, shared_memory: &mut SharedMemory, request: &Request) -> (s: String)
        requires
            old(shared_memory).wf(),
            request.action == ActionType::NewTopic,
        ensures
            final(shared_memory).wf(),
            (final(shared_memory)@, Some(s@)) == answer(
                old(shared_memory)@,
                request.action,
                strings_view(request.params@),
                body_view(request.body),
            ),
    {
        if request.params.len() != 1 {
            return invalid_path();
        }
        let topic = &request.params[0];
        respond(self.topic_manager.new_topic(shared_memory, topic))
    }

    fn remove_topic(&self, shared_memory: &mut SharedMemory, request: &Request) -> (s: String)
        requires
            old(shared_memory).wf(),
            request.action == ActionType::RemoveTopic,
        ensures
            final(shared_memory).wf(),
            (final(shared_memory)@, Some(s@)) == answer(
                old(shared_memory)@,
                request.action,
                strings_view(request.params@),
                body_view(request.body),
            ),
    {
        if request.params.len() != 1 {
            return invalid_path();
        }
        let topic = &request.params[0];
        respond(self.topic_manager.remove_topic(shared_memory, topic))
    }

    fn subscribe(&self, shared_memory: &mut SharedMemory, request: &Request) -> (s: String)
        requires
            old(shared_memory).wf(),
            request.action == ActionType::Subscribe,
        ensures
            final(shared_memory).wf(),
            (final(shared_memory)@, Some(s@)) == answer(
                old(shared_memory)@,
                request.action,
                strings_view(request.params@),
                body_view(request.body),
            ),
    {
        if request.params.len() != 1 {
            return invalid_path();
        }
        let topic = &request.params[0];
        respond(self.subscription_manager.subscribe(topic))
    }

    fn unsubscribe(&self, shared_memory: &mut SharedMemory, request: &Request) -> (s: String)
        requires
            old(shared_memory).wf(),
            request.action == ActionType::Unsubscribe,
            processable(request.action, strings_view(request.params@), body_view(request.body)),
        ensures
            final(shared_memory).wf(),
            (final(shared_memory)@, Some(s@)) == answer(
                old(shared_memory)@,
                request.action,
                strings_view(request.params@),
                body_view(request.body),
            ),
    {
        if request.params.len() != 2 {
            return invalid_path();
        }
        let topic = &request.params[0];
        let id = match Self::id_param(request) {
            Some(id) => id,
            None => 0,
        };
        respond(self.subscription_manager.unsubscribe(topic, id))
    }

    fn publish(&self, shared_memory: &mut SharedMemory, request: &Request) -> (s: String)
        requires
            old(shared_memory).wf(),
            request.action == ActionType::Publish,
            processable(request.action, strings_view(request.params@), body_view(request.body)),
        ensures
            final(shared_memory).wf(),
            (final(shared_memory)@, Some(s@)) == answer(
                old(shared_memory)@,
                request.action,
                strings_view(request.params@),
                body_view(request.body),
            ),
    {
        if request.params.len() != 1 {
            return invalid_path();
        }
        let topic = &request.params[0];
        let message = match Self::item_param(request) {
            Some(item) => item,
            None => 0,
        };
        respond(self.queue_manager.publish_message(shared_memory, topic, message))
    }

    fn retrieve(&self, shared_memory: &mut SharedMemory, request: &Request) -> (r: Reply)
        requires
            old(shared_memory).wf(),
            request.action == ActionType::Retrieve,
            processable(request.action, strings_view(request.params@), body_view(request.body)),
        ensures
            final(shared_memory).wf(),
            (final(shared_memory)@, reply_view(r)) == answer(
                old(shared_memory)@,
                request.action,
                strings_view(request.params@),
                body_view(request.body),
            ),
    {
        if request.params.len() != 2 {
            return Reply::Respond(invalid_path());
        }
        let topic = &request.params[0];
        let id = match Self::id_param(request) {
            Some(id) => id,
            None => 0,
        };
        match self.queue_manager.retrieve_message(shared_memory, topic, id) {
            Ok(Some(item)) => Reply::Respond(respond(Ok(item))),
            Ok(None) => Reply::Wait,
            Err(err) => Reply::Respond(respond(Err(err))),
        }
    }

    /// Carries out `request` on the broker state and answers it as `answer`
    /// says.
    pub fn process_request(&self, shared_memory: &mut SharedMemory, request: &Request) -> (r: Reply)
        requires
            old(shared_memory).wf(),
            processable(request.action, strings_view(request.params@), body_view(request.body)),
        ensures
            final(shared_memory).wf(),
            (final(shared_memory)@, reply_view(r)) == answer(
                old(shared_memory)@,
                request.action,
                strings_view(request.params@),
                body_view(request.body),
            ),
    {
        match request.action {
            ActionType::NewTopic => Reply::Respond(self.new_topic(shared_memory, request)),
            ActionType::RemoveTopic => Reply::Respond(self.remove_topic(shared_memory, request)),
            ActionType::Subscribe => Reply::Respond(self.subscribe(shared_memory, request)),
            ActionType::Unsubscribe => Reply::Respond(self.unsubscribe(shared_memory, request)),
            ActionType::Publish => Reply::Respond(self.publish(shared_memory, request)),
            ActionType::Retrieve => self.retrieve(shared_memory, request),
            ActionType::NULL => Reply::Respond(string_of("HTTP/1.1 404 NOT FOUND\r\n\r\n")),
        }
    }

    /// Carries out `request` when it can be answered (see `processable`), as
    /// `process_request` says; `None`, with the state unchanged, when it
    /// cannot.
    pub fn handle_request(&self, shared_memory: &mut SharedMemory, request: &Request) -> (r: Option<Reply>)
        requires
            old(shared_memory).wf(),
        ensures
            final(shared_memory).wf(),
            r is None <==> !processable(request.action, strings_view(request.params@), body_view(request.body)),
            r is None ==> final(shared_memory)@ == old(shared_memory)@,
            r matches Some(reply) ==> (final(shared_memory)@, reply_view(reply)) == answer(
                old(shared_memory)@,
                request.action,
                strings_view(request.params@),
                body_view(request.body),
            ),
    {
        if !self.is_processable(request) {
            return None;
        }
        Some(self.process_request(shared_memory, request))
    }
}

} // verus!

verus! {

/// What a subscriber retrieves is what was published: when a channel of a
/// topic is empty, publishing a message to the topic and then retrieving from
/// that channel (its id written in decimal) answers the message in decimal and
/// leaves the channel empty again. Retrieving from the empty channel instead
/// waits and changes nothing.
pub proof fn lemma_retrieve_returns_published(
    s: MemoryState,
    topic: Seq<char>,
    id: i32,
    body: Option<Seq<char>>,
    message: i32,
)
    requires
        s.consistent(),
        s.topics.contains(topic),
        s.channels[topic].contains_key(id),
        s.channels[topic][id].len() == 0,
        publish_item(body) == Some(message),
    ensures
        answer(s, ActionType::Retrieve, seq![topic, int_decimal(id as int)], None) == (s, None::<Seq<char>>),
        ({
            let published = answer(s, ActionType::Publish, seq![topic], body);
            let retrieved = answer(
                published.0,
                ActionType::Retrieve,
                seq![topic, int_decimal(id as int)],
                None,
            );
            &&& published.1 == Some(ok_response(published_message(topic)))
            &&& retrieved.1 == Some(ok_response(int_decimal(message as int)))
            &&& retrieved.0.channels[topic][id].len() == 0
        }),
{
    crate::text::lemma_decimal_round_trip(id);
    crate::pub_sub_lib::shared_memory::lemma_channels_deliver_in_order(s, topic, id, message, topic);
    let p = s.with_published(topic, message);
    assert(p.channels[topic][id] =~= seq![message]);
}

} // verus!

verus! {

/// An id parameter is read as any `i32`: a two-parameter retrieval or
/// unsubscription can be answered exactly when its second parameter is an
/// `i32` in decimal, so every id written in decimal, `0` and negatives
/// included, is accepted.
pub proof fn lemma_any_i32_id_is_processable(
    topic: Seq<char>,
    id: i32,
    params: Seq<Seq<char>>,
    body: Option<Seq<char>>,
)
    ensures
        params.len() == 2 ==> (processable(ActionType::Retrieve, params, body) <==> parse_i32_spec(
            params[1],
        ) is Some),
        params.len() == 2 ==> (processable(ActionType::Unsubscribe, params, body)
            <==> parse_i32_spec(params[1]) is Some),
        processable(ActionType::Retrieve, seq![topic, int_decimal(id as int)], body),
        processable(ActionType::Unsubscribe, seq![topic, int_decimal(id as int)], body),
{
    crate::text::lemma_decimal_round_trip(id);
}

/// The message a publication carries is its `item` member read as an `i32`,
/// sign included: a body whose `item` writes as the decimal of `message`
/// publishes exactly `message`, and a request without a body carries none.
pub proof fn lemma_publish_item_reads_the_item(text: Seq<char>, message: i32)
    ensures
        json_member_text(text, "item"@) == Some(int_decimal(message as int)) ==> publish_item(
            Some(text),
        ) == Some(message),
        json_member_text(text, "item"@) is None ==> publish_item(Some(text)) is None,
        publish_item(None) is None,
{
    crate::text::lemma_decimal_round_trip(message);
}

/// Any existing topic can be removed, whatever channels and messages it
/// holds: the answer is the success text, the topic and its next id and
/// channels are gone, and every other topic is left as it was.
pub proof fn lemma_remove_topic_removes_any_topic(
    s: MemoryState,
    topic: Seq<char>,
    body: Option<Seq<char>>,
    other: Seq<char>,
)
    requires
        s.consistent(),
        s.topics.contains(topic),
    ensures
        ({
            let (after, reply) = answer(s, ActionType::RemoveTopic, seq![topic], body);
            &&& reply == Some("HTTP/1.1 200 OK\r\n\r\n"@ + ("Successfully deleted "@ + topic
                + " topic"@) + "\r\n"@)
            &&& after.topics == s.topics.remove(topic)
            &&& !after.max_ids.contains_key(topic)
            &&& !after.channels.contains_key(topic)
            &&& other != topic ==> (after.topics.contains(other) == s.topics.contains(other)
                && after.max_ids.contains_key(other) == s.max_ids.contains_key(other)
                && after.max_ids[other] == s.max_ids[other] && after.channels.contains_key(other)
                == s.channels.contains_key(other) && after.channels[other] == s.channels[other])
        }),
{
}

} // verus!

verus! {

/// What each request does to the broker, said over the state itself:
/// creating a missing topic adds it with next id 0 and no channel and leaves
/// the rest; creating an existing one changes nothing; publishing `message`
/// puts it at the back of every channel of the topic and of no other;
/// retrieving from a non-empty channel answers its oldest message in decimal
/// and takes it out; subscription requests and requests with the wrong number
/// of parameters change nothing.
pub proof fn lemma_requests_act_on_the_state(
    s: MemoryState,
    topic: Seq<char>,
    id: i32,
    body: Option<Seq<char>>,
    message: i32,
    other: Seq<char>,
    other_id: i32,
)
    requires
        s.consistent(),
        other != topic,
    ensures
        !s.topics.contains(topic) ==> ({
            let (after, reply) = answer(s, ActionType::NewTopic, seq![topic], body);
            &&& reply == Some("HTTP/1.1 200 OK\r\n\r\n"@ + ("Successfully created the new topic "@
                + topic + ""@) + "\r\n"@)
            &&& after.topics == s.topics.insert(topic)
            &&& after.max_ids[topic] == 0
            &&& after.channels[topic] == Map::<i32, Seq<i32>>::empty()
            &&& after.max_ids[other] == s.max_ids[other]
            &&& after.channels[other] == s.channels[other]
        }),
        s.topics.contains(topic) ==> answer(s, ActionType::NewTopic, seq![topic], body).0 == s,
        s.topics.contains(topic) && publish_item(body) == Some(message) ==> ({
            let (after, reply) = answer(s, ActionType::Publish, seq![topic], body);
            &&& reply == Some("HTTP/1.1 200 OK\r\n\r\n"@ + ("Successfully published your message to "@
                + topic + " topic"@) + "\r\n"@)
            &&& after.topics == s.topics
            &&& after.max_ids == s.max_ids
            &&& after.channels[topic].dom() == s.channels[topic].dom()
            &&& s.channels[topic].contains_key(id) ==> after.channels[topic][id]
                == s.channels[topic][id].push(message)
            &&& after.channels[other] == s.channels[other]
        }),
        s.topics.contains(topic) && s.channels[topic].contains_key(id)
            && s.channels[topic][id].len() > 0 ==> ({
            let (after, reply) = answer(
                s,
                ActionType::Retrieve,
                seq![topic, int_decimal(id as int)],
                body,
            );
            &&& reply == Some("HTTP/1.1 200 OK\r\n\r\n"@ + int_decimal(
                s.channels[topic][id][0] as int,
            ) + "\r\n"@)
            &&& after.channels[topic][id] == s.channels[topic][id].drop_first()
            &&& other_id != id && s.channels[topic].contains_key(other_id)
                ==> after.channels[topic][other_id] == s.channels[topic][other_id]
            &&& after.topics == s.topics
            &&& after.max_ids == s.max_ids
        }),
        answer(s, ActionType::Subscribe, seq![topic], body).0 == s,
        answer(s, ActionType::Unsubscribe, seq![topic, int_decimal(id as int)], body).0 == s,
        answer(s, ActionType::NewTopic, seq![], body) == (s, Some(
            "HTTP/1.1 404 NOT FOUND\r\n\r\nInvalid path\r\n"@,
        )),
        answer(s, ActionType::Retrieve, seq![topic], body) == (s, Some(
            "HTTP/1.1 404 NOT FOUND\r\n\r\nInvalid path\r\n"@,
        )),
{
    crate::text::lemma_decimal_round_trip(id);
    if s.topics.contains(topic) && publish_item(body) == Some(message) {
        let after = s.with_published(topic, message);
        assert(after.channels[topic].dom() =~= s.channels[topic].dom());
    }
}

} // verus!

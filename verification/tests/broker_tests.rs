use pubsub_broker::http_comms_lib::http_request_extracter::{ActionType, Request};
use pubsub_broker::http_comms_lib::http_request_handler::{HttpRequestHandler, Reply};
use pubsub_broker::pub_sub_lib::queue_manager::QueueManager;
use pubsub_broker::pub_sub_lib::shared_memory::SharedMemory;
use pubsub_broker::pub_sub_lib::subscription_manager::SubscriptionManager;
use pubsub_broker::pub_sub_lib::topic_manager::TopicManager;

fn s(x: &str) -> String {
    x.to_string()
}

fn handler() -> HttpRequestHandler {
    HttpRequestHandler::new(
        TopicManager::new(),
        SubscriptionManager::new(QueueManager::new(TopicManager::new())),
        QueueManager::new(TopicManager::new()),
    )
}

fn request(action: ActionType, params: &[&str], body: Option<&str>) -> Request {
    Request {
        action,
        params: params.iter().map(|p| p.to_string()).collect(),
        body: body.map(|b| b.to_string()),
    }
}

fn respond(h: &HttpRequestHandler, mem: &mut SharedMemory, r: Request) -> String {
    match h.process_request(mem, &r) {
        Reply::Respond(text) => text,
        Reply::Wait => panic!("unexpected wait"),
    }
}

#[test]
fn topics_are_created_once_and_removed_once() {
    let mut mem = SharedMemory::new();
    let tm = TopicManager::new();
    let topic = s("news");
    assert!(!tm.topic_exists(&mem, &topic));
    assert_eq!(tm.new_topic(&mut mem, &topic), Ok(s("Successfully created the new topic news")));
    assert!(tm.topic_exists(&mem, &topic));
    assert_eq!(tm.new_topic(&mut mem, &topic), Err(s("Topic named news already exists")));
    assert_eq!(tm.remove_topic(&mut mem, &topic), Ok(s("Successfully deleted news topic")));
    assert!(!tm.topic_exists(&mem, &topic));
    assert_eq!(tm.remove_topic(&mut mem, &topic), Err(s("There is no topic named: news")));
}

#[test]
fn channel_ids_count_up_and_are_not_reused() {
    let mut mem = SharedMemory::new();
    let tm = TopicManager::new();
    let qm = QueueManager::new(TopicManager::new());
    let topic = s("t");
    assert_eq!(qm.create_queue_channel(&mut mem, &topic), Err(s("There is no topic named: t")));
    tm.new_topic(&mut mem, &topic).unwrap();
    assert_eq!(qm.create_queue_channel(&mut mem, &topic), Ok(0));
    assert_eq!(qm.create_queue_channel(&mut mem, &topic), Ok(1));
    assert_eq!(qm.remove_queue_channel(&mut mem, &topic, 0), Ok(s("Successfully unsubscribed id 0 from t topic")));
    assert_eq!(qm.remove_queue_channel(&mut mem, &topic, 0), Err(s("There is no id with specified value: 0")));
    assert_eq!(qm.create_queue_channel(&mut mem, &topic), Ok(2));
    assert_eq!(qm.remove_queue_channel(&mut mem, &s("u"), 2), Err(s("There is no topic named: u")));
}

#[test]
fn a_channel_delivers_what_was_published_in_order() {
    let mut mem = SharedMemory::new();
    let tm = TopicManager::new();
    let qm = QueueManager::new(TopicManager::new());
    let topic = s("prices");
    tm.new_topic(&mut mem, &topic).unwrap();
    let a = qm.create_queue_channel(&mut mem, &topic).unwrap();
    assert_eq!(qm.retrieve_message(&mut mem, &topic, a), Ok(None));
    assert_eq!(qm.publish_message(&mut mem, &topic, 10), Ok(s("Successfully published your message to prices topic")));
    let b = qm.create_queue_channel(&mut mem, &topic).unwrap();
    qm.publish_message(&mut mem, &topic, -20).unwrap();
    assert_eq!(qm.retrieve_message(&mut mem, &topic, a), Ok(Some(s("10"))));
    assert_eq!(qm.retrieve_message(&mut mem, &topic, a), Ok(Some(s("-20"))));
    assert_eq!(qm.retrieve_message(&mut mem, &topic, a), Ok(None));
    // The channel opened later only holds what was published after it.
    assert_eq!(qm.retrieve_message(&mut mem, &topic, b), Ok(Some(s("-20"))));
    assert_eq!(qm.retrieve_message(&mut mem, &topic, b), Ok(None));
    assert_eq!(qm.retrieve_message(&mut mem, &topic, 7), Err(s("There is no id with specified value: 7")));
    assert_eq!(qm.publish_message(&mut mem, &s("other"), 1), Err(s("There is no topic named: other")));
    assert_eq!(qm.retrieve_message(&mut mem, &s("other"), 0), Err(s("There is no topic named: other")));
}

#[test]
fn publishing_reaches_only_its_topic() {
    let mut mem = SharedMemory::new();
    let tm = TopicManager::new();
    let qm = QueueManager::new(TopicManager::new());
    tm.new_topic(&mut mem, &s("a")).unwrap();
    tm.new_topic(&mut mem, &s("b")).unwrap();
    let ca = qm.create_queue_channel(&mut mem, &s("a")).unwrap();
    let cb = qm.create_queue_channel(&mut mem, &s("b")).unwrap();
    qm.publish_message(&mut mem, &s("a"), 1).unwrap();
    assert_eq!(qm.retrieve_message(&mut mem, &s("b"), cb), Ok(None));
    assert_eq!(qm.retrieve_message(&mut mem, &s("a"), ca), Ok(Some(s("1"))));
}

#[test]
fn removing_a_topic_drops_its_channels() {
    let mut mem = SharedMemory::new();
    let tm = TopicManager::new();
    let qm = QueueManager::new(TopicManager::new());
    tm.new_topic(&mut mem, &s("a")).unwrap();
    qm.create_queue_channel(&mut mem, &s("a")).unwrap();
    qm.publish_message(&mut mem, &s("a"), 5).unwrap();
    tm.remove_topic(&mut mem, &s("a")).unwrap();
    tm.new_topic(&mut mem, &s("a")).unwrap();
    assert_eq!(qm.retrieve_message(&mut mem, &s("a"), 0), Err(s("There is no id with specified value: 0")));
    assert_eq!(qm.create_queue_channel(&mut mem, &s("a")), Ok(0));
    assert_eq!(qm.retrieve_message(&mut mem, &s("a"), 0), Ok(None));
}

#[test]
fn subscriptions_are_acknowledged() {
    let sm = SubscriptionManager::new(QueueManager::new(TopicManager::new()));
    assert_eq!(sm.subscribe(&s("x")), Ok(s("subscribe")));
    assert_eq!(sm.unsubscribe(&s("x"), 3), Ok(s("unsubscribe")));
}

#[test]
fn http_requests_are_answered() {
    let h = handler();
    let mut mem = SharedMemory::new();
    assert_eq!(respond(&h, &mut mem, request(ActionType::NewTopic, &["news"], None)),
        "HTTP/1.1 200 OK\r\n\r\nSuccessfully created the new topic news\r\n");
    assert_eq!(respond(&h, &mut mem, request(ActionType::NewTopic, &["news"], None)),
        "HTTP/1.1 404 NOT FOUND\r\n\r\nTopic named news already exists\r\n");
    assert_eq!(respond(&h, &mut mem, request(ActionType::NewTopic, &[], None)),
        "HTTP/1.1 404 NOT FOUND\r\n\r\nInvalid path\r\n");
    assert_eq!(respond(&h, &mut mem, request(ActionType::Subscribe, &["news"], None)),
        "HTTP/1.1 200 OK\r\n\r\nsubscribe\r\n");
    assert_eq!(respond(&h, &mut mem, request(ActionType::Unsubscribe, &["news", "4"], None)),
        "HTTP/1.1 200 OK\r\n\r\nunsubscribe\r\n");
    assert_eq!(respond(&h, &mut mem, request(ActionType::Unsubscribe, &["news"], None)),
        "HTTP/1.1 404 NOT FOUND\r\n\r\nInvalid path\r\n");
    assert_eq!(respond(&h, &mut mem, request(ActionType::NULL, &[], None)),
        "HTTP/1.1 404 NOT FOUND\r\n\r\n");
    assert_eq!(respond(&h, &mut mem, request(ActionType::RemoveTopic, &["news"], None)),
        "HTTP/1.1 200 OK\r\n\r\nSuccessfully deleted news topic\r\n");
    assert_eq!(respond(&h, &mut mem, request(ActionType::RemoveTopic, &["news"], None)),
        "HTTP/1.1 404 NOT FOUND\r\n\r\nThere is no topic named: news\r\n");
}

#[test]
fn a_published_item_is_retrieved_over_http() {
    let h = handler();
    let qm = QueueManager::new(TopicManager::new());
    let mut mem = SharedMemory::new();
    respond(&h, &mut mem, request(ActionType::NewTopic, &["news"], None));
    let id = qm.create_queue_channel(&mut mem, &s("news")).unwrap();
    let retrieve = request(ActionType::Retrieve, &["news", &id.to_string()], None);
    assert!(matches!(h.process_request(&mut mem, &retrieve), Reply::Wait));
    assert_eq!(respond(&h, &mut mem, request(ActionType::Publish, &["news"], Some("{\"item\": 42}"))),
        "HTTP/1.1 200 OK\r\n\r\nSuccessfully published your message to news topic\r\n");
    assert_eq!(respond(&h, &mut mem, retrieve), "HTTP/1.1 200 OK\r\n\r\n42\r\n");
    assert_eq!(respond(&h, &mut mem, request(ActionType::Retrieve, &["news", "9"], None)),
        "HTTP/1.1 404 NOT FOUND\r\n\r\nThere is no id with specified value: 9\r\n");
    assert_eq!(respond(&h, &mut mem, request(ActionType::Publish, &["gone"], Some("{\"item\": 1}"))),
        "HTTP/1.1 404 NOT FOUND\r\n\r\nThere is no topic named: gone\r\n");
}

#[test]
fn requests_the_broker_cannot_read_are_refused() {
    let h = handler();
    let mut mem = SharedMemory::new();
    for r in [
        request(ActionType::Retrieve, &["news", "x"], None),
        request(ActionType::Unsubscribe, &["news", "99999999999"], None),
        request(ActionType::Publish, &["news"], None),
        request(ActionType::Publish, &["news"], Some("{\"other\": 1}")),
        request(ActionType::Publish, &["news"], Some("{\"item\": \"1\"}")),
        request(ActionType::Publish, &["news"], Some("{\"item\": 1.5}")),
    ] {
        assert!(!h.is_processable(&r));
        assert!(h.handle_request(&mut mem, &r).is_none());
    }
    let fine = request(ActionType::Publish, &["news"], Some("{\"item\": -3}"));
    assert!(h.is_processable(&fine));
    assert!(matches!(h.handle_request(&mut mem, &fine), Some(Reply::Respond(_))));
}

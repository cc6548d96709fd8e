use pubsub_broker::http_comms_lib::http_request_extracter::Request as ExtractedRequest;
use pubsub_broker::http_comms_lib::http_request_extracter::{
    action_row_is_well_formed, clear_trash_from_buffer, extract_action, ActionType,
    ExtractionStep, RequestExtractor,
};
use pubsub_broker::http_comms_lib::request_handler;

fn run(text: &str, extra: &[&[u8]]) -> (Vec<ExtractionStep>, pubsub_broker::http_comms_lib::http_request_extracter::Request) {
    let mut ex = RequestExtractor::new(text);
    let mut steps = Vec::new();
    let mut bodies = extra.iter();
    loop {
        assert!(ex.next_row_is_well_formed());
        let step = ex.step();
        steps.push(step);
        match step {
            ExtractionStep::Finished => break,
            ExtractionStep::ReadBody(_) => {
                let bytes = bodies.next().expect("a body to hand over");
                ex.supply_additional_body(bytes.to_vec());
            }
            ExtractionStep::Continue => {}
        }
    }
    (steps, ex.finish())
}

#[test]
fn buffer_text_stops_at_the_first_zero_byte() {
    assert_eq!(clear_trash_from_buffer(vec![72, 105, 0, 65, 66]), "Hi");
    assert_eq!(clear_trash_from_buffer(vec![72, 105]), "Hi");
    assert_eq!(clear_trash_from_buffer(vec![0, 72]), "");
    assert_eq!(clear_trash_from_buffer(vec![]), "");
    assert_eq!(clear_trash_from_buffer(vec![0xE9, 0x41]), "\u{e9}A");
}

#[test]
fn request_lines_name_actions_and_parameters() {
    assert_eq!(extract_action("POST /topic/news HTTP/1.1"), (ActionType::NewTopic, vec!["news".to_string()]));
    assert_eq!(extract_action("DELETE /topic/news HTTP/1.1"), (ActionType::RemoveTopic, vec!["news".to_string()]));
    assert_eq!(extract_action("POST /subscription/news HTTP/1.1"), (ActionType::Subscribe, vec!["news".to_string()]));
    assert_eq!(extract_action("DELETE /subscription/news/3 HTTP/1.1"),
        (ActionType::Unsubscribe, vec!["news".to_string(), "3".to_string()]));
    assert_eq!(extract_action("POST /publish/news HTTP/1.1"), (ActionType::Publish, vec!["news".to_string()]));
    assert_eq!(extract_action("GET /subscription/news/3 HTTP/1.1"),
        (ActionType::Retrieve, vec!["news".to_string(), "3".to_string()]));
    assert_eq!(extract_action("GET /topic/news HTTP/1.1"), (ActionType::NULL, vec![]));
    assert_eq!(extract_action("PUT /topic/news HTTP/1.1"), (ActionType::NULL, vec![]));
}

#[test]
fn every_piece_that_names_an_action_adds_its_parameters() {
    assert_eq!(extract_action("POST /topic/a /publish/b"),
        (ActionType::Publish, vec!["a".to_string(), "b".to_string()]));
    assert_eq!(extract_action("POST /topics/x"), (ActionType::NewTopic, vec!["x".to_string()]));
}

#[test]
fn short_paths_are_not_well_formed() {
    let ok: Vec<char> = "POST /topic/news HTTP/1.1".chars().collect();
    let short: Vec<char> = "POST /topic HTTP/1.1".chars().collect();
    let short_id: Vec<char> = "GET /subscription/news HTTP/1.1".chars().collect();
    let other: Vec<char> = "GET /topic HTTP/1.1".chars().collect();
    assert!(action_row_is_well_formed(&ok));
    assert!(!action_row_is_well_formed(&short));
    assert!(!action_row_is_well_formed(&short_id));
    assert!(action_row_is_well_formed(&other));
}

#[test]
fn a_request_with_an_inline_json_body() {
    let text = "POST /publish/news HTTP/1.1\r\nHost: localhost\r\nContent-Length: 11\r\n\r\n{\"item\": 5}";
    let (steps, request) = run(text, &[]);
    assert_eq!(steps.len(), 6);
    assert!(steps[..5].iter().all(|s| *s == ExtractionStep::Continue));
    assert_eq!(request.action, ActionType::Publish);
    assert_eq!(request.params, vec!["news".to_string()]);
    assert_eq!(request.body, Some("{\"item\": 5}".to_string()));
}

#[test]
fn null_and_invalid_json_lines_are_no_body() {
    let (_, request) = run("POST /topic/t HTTP/1.1\r\n\r\nnull", &[]);
    assert_eq!(request.body, None);
    let (_, request) = run("POST /topic/t HTTP/1.1\r\n\r\n{not json", &[]);
    assert_eq!(request.body, None);
    let (_, request) = run("POST /topic/t HTTP/1.1\r\n\r\n[1,2]\r\n7", &[]);
    assert_eq!(request.body, Some("7".to_string()));
}

#[test]
fn a_delete_line_sets_the_action_only_when_none_is_set() {
    let (_, request) = run("POST /topic/a HTTP/1.1\r\nDELETE /topic/b HTTP/1.1", &[]);
    assert_eq!(request.action, ActionType::NewTopic);
    assert_eq!(request.params, vec!["a".to_string()]);
    let (_, request) = run("DELETE /topic/b HTTP/1.1\r\nGET /subscription/c/1 HTTP/1.1", &[]);
    assert_eq!(request.action, ActionType::Retrieve);
    assert_eq!(request.params, vec!["c".to_string(), "1".to_string()]);
}

#[test]
fn a_body_announced_with_expect_continue_is_read_separately() {
    let text = "POST /publish/news HTTP/1.1\r\nContent-Length: 12\r\nExpect: 100-continue\r\n\r\n{\"item\": 9}";
    let (steps, request) = run(text, &[b"{\"item\": 41}"]);
    assert_eq!(steps[1], ExtractionStep::ReadBody(12));
    assert_eq!(request.action, ActionType::Publish);
    // The lines themselves are not read as a body in this mode.
    assert_eq!(request.body, Some("{\"item\": 41}".to_string()));
}

#[test]
fn a_separately_read_body_that_is_not_json_is_ignored() {
    let text = "POST /publish/news HTTP/1.1\r\nContent-Length: 3\r\nExpect: 100-continue\r\n\r\n";
    let (_, request) = run(text, &[&[0xff, 0xfe, 0x00]]);
    assert_eq!(request.body, None);
    let (_, request) = run(text, &[b"abc"]);
    assert_eq!(request.body, None);
}

#[test]
fn a_malformed_length_line_is_not_well_formed() {
    let text = "POST /publish/news HTTP/1.1\r\nContent-Length: many\r\nExpect: 100-continue\r\n\r\n";
    let mut ex = RequestExtractor::new(text);
    assert!(ex.next_row_is_well_formed());
    assert_eq!(ex.step(), ExtractionStep::Continue);
    assert!(!ex.next_row_is_well_formed());
}

#[test]
fn queue_requests_pop_and_push() {
    let get = b"GET /pop HTTP/1.1\r\nHost: x\r\n\r\n".to_vec();
    let request = request_handler::extract_request(get);
    assert_eq!(request.action, request_handler::ActionType::POP);
    assert_eq!(request.body, None);
    let mut post = b"POST /push HTTP/1.1\r\nHost: x\r\n\r\n{\"item\": 3}".to_vec();
    post.extend_from_slice(&[0, 0, 0, 99]);
    let request = request_handler::extract_request(post);
    assert_eq!(request.action, request_handler::ActionType::PUSH);
    assert_eq!(request.body, Some("{\"item\": 3}".to_string()));
    let other = b"GET /push HTTP/1.1\r\n\r\n".to_vec();
    assert_eq!(request_handler::extract_request(other).action, request_handler::ActionType::NULL);
}

#[test]
fn queue_request_lines() {
    assert_eq!(request_handler::extract_action("GET /pop HTTP/1.1"), request_handler::ActionType::POP);
    assert_eq!(request_handler::extract_action("POST /push HTTP/1.1"), request_handler::ActionType::PUSH);
    assert_eq!(request_handler::extract_action("POST /pop HTTP/1.1"), request_handler::ActionType::NULL);
    assert_eq!(request_handler::extract_action("GET /popped HTTP/1.1"), request_handler::ActionType::NULL);
    assert_eq!(request_handler::extract_request_low_level(vec![65, 0, 66]), "A");
}

#[test]
fn a_whole_request_compares_equal() {
    let (_, request) = run("DELETE /subscription/news/7 HTTP/1.1\r\nHost: h\r\n\r\n", &[]);
    assert_eq!(
        request,
        pubsub_broker::http_comms_lib::http_request_extracter::Request {
            action: ActionType::Unsubscribe,
            params: vec!["news".to_string(), "7".to_string()],
            body: None,
        }
    );
}

#[test]
fn requests_compare_bodies_as_json_values() {
    let a = ExtractedRequest { action: ActionType::Publish, params: vec!["t".to_string()], body: Some("{\"item\": 5}".to_string()) };
    let b = ExtractedRequest { action: ActionType::Publish, params: vec!["t".to_string()], body: Some("{ \"item\":5 }".to_string()) };
    let c = ExtractedRequest { action: ActionType::Publish, params: vec!["t".to_string()], body: Some("{\"item\": 6}".to_string()) };
    let null_text = ExtractedRequest { action: ActionType::Publish, params: vec!["t".to_string()], body: Some("null".to_string()) };
    let none = ExtractedRequest { action: ActionType::Publish, params: vec!["t".to_string()], body: None };
    let other_params = ExtractedRequest { action: ActionType::Publish, params: vec!["u".to_string()], body: None };
    assert_eq!(a, b);
    assert_ne!(a, c);
    assert_eq!(null_text, none);
    assert_ne!(a, none);
    assert_ne!(none, other_params);
    let q1 = request_handler::Request { action: request_handler::ActionType::PUSH, body: Some("[1, 2]".to_string()) };
    let q2 = request_handler::Request { action: request_handler::ActionType::PUSH, body: Some("[1,2]".to_string()) };
    let q3 = request_handler::Request { action: request_handler::ActionType::POP, body: Some("[1,2]".to_string()) };
    assert_eq!(q1, q2);
    assert_ne!(q2, q3);
}

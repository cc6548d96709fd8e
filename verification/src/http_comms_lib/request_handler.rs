//! Reading the requests of the plain queue service: `GET /pop` and
//! `POST /push` with a JSON body.
use vstd::prelude::*;
use crate::text::{starts_with, split_on, split_lines, chars_of, has_prefix, equals_str,
    split_chars, split_crlf, string_from_chars};
use crate::json_text::{json_non_null, parses_as_non_null_json};
use crate::http_comms_lib::http_request_extracter::{text_before_nul, clear_trash_from_buffer,
    bodies_equal, same_body, optional_view};

verus! {

/// What a queue request asks for.
#[allow(non_camel_case_types)]
#[derive(Debug, Clone, Copy, PartialEq, Eq, Structural)]
pub enum ActionType {
    POP,
    PUSH,
    NULL,
}

/// A queue request. `body` is the text of the JSON document the request
/// carries, or none when it carries no JSON value other than `null`. Two
/// requests are equal when their actions are and their bodies hold the same
/// JSON value (see `same_body`), however the texts are written.
#[derive(Debug)]
pub struct Request {
    pub action: ActionType,
    pub body: Option<String>,
}

impl PartialEq for Request {
    fn eq(&self, other: &Self) -> (r: bool) {
        self.action == other.action && bodies_equal(&self.body, &other.body)
    }
}

impl vstd::std_specs::cmp::PartialEqSpecImpl for Request {
    open spec fn obeys_eq_spec() -> bool {
        true
    }

    open spec fn eq_spec(&self, other: &Self) -> bool {
        &&& self.action == other.action
        &&& same_body(optional_view(self.body), optional_view(other.body))
    }
}

/// The action that the request line `row` names: `POP` for a `GET` line with
/// a piece `/pop`, `PUSH` for a `POST` line with a piece `/push`.
pub open spec fn action_of_row(row: Seq<char>) -> ActionType {
    let slices = split_on(row, ' ');
    if starts_with(row, "GET"@) && (exists|k: int|
        0 <= k < slices.len() && #[trigger] slices[k] == "/pop"@) {
        ActionType::POP
    } else if starts_with(row, "POST"@) && (exists|k: int|
        0 <= k < slices.len() && #[trigger] slices[k] == "/push"@) {
        ActionType::PUSH
    } else {
        ActionType::NULL
    }
}

/// The action and body read from the request lines `rows`: a line that
/// begins with `POST`, or with `GET` while no action is set, sets the action;
/// any other line that is a non-null JSON document becomes the body.
pub open spec fn read_rows(rows: Seq<Seq<char>>) -> (ActionType, Option<Seq<char>>)
    decreases rows.len(),
{
    if rows.len() == 0 {
        (ActionType::NULL, None)
    } else {
        let prev = read_rows(rows.drop_last());
        let row = rows.last();
        if starts_with(row, "POST"@) || (starts_with(row, "GET"@) && prev.0 == ActionType::NULL) {
            (action_of_row(row), prev.1)
        } else if json_non_null(row) {
            (prev.0, Some(row))
        } else {
            prev
        }
    }
}

/// The text of a request buffer: its bytes up to the first zero byte, each
/// read as the character of the same number.
pub fn extract_request_low_level(buffer: Vec<u8>) -> (http_request: String)
    ensures
        http_request@ == text_before_nul(buffer@),
{
    clear_trash_from_buffer(buffer)
}

fn action_from_chars(row: &Vec<char>) -> (action: ActionType)
    ensures
        action == action_of_row(row@),
{
    let is_get = has_prefix(row, "GET");
    let is_post = has_prefix(row, "POST");
    let slices = split_chars(row, ' ');
    let ghost sl = split_on(row@, ' ');
    let mut has_pop = false;
    let mut has_push = false;
    let mut k: usize = 0;
    while k < slices.len()
        invariant
            slices@.len() == sl.len(),
            forall|j: int| 0 <= j < slices@.len() ==> #[trigger] slices@[j]@ == sl[j],
            k <= slices.len(),
            has_pop == (exists|j: int| 0 <= j < k && #[trigger] sl[j] == "/pop"@),
            has_push == (exists|j: int| 0 <= j < k && #[trigger] sl[j] == "/push"@),
        decreases slices.len() - k,
    {
        assert(slices@[k as int]@ == sl[k as int]);
        if equals_str(&slices[k], "/pop") {
            has_pop = true;
        }
        if equals_str(&slices[k], "/push") {
            has_push = true;
        }
        k = k + 1;
    }
    if is_get && has_pop {
        ActionType::POP
    } else if is_post && has_push {
        ActionType::PUSH
    } else {
        ActionType::NULL
    }
}

/// The action that the request line `request_row` names (see
/// `action_of_row`).
pub fn extract_action(request_row: &str) -> (action: ActionType)
    ensures
        action == action_of_row(request_row@),
{
    let row = chars_of(request_row);
    action_from_chars(&row)
}

/// Reads a queue request out of a request buffer: its text up to the first
/// zero byte is cut into lines at `"\r\n"`, and the lines give the action and
/// the body as `read_rows` says.
pub fn extract_request(buffer: Vec<u8>) -> (request: Request)
    ensures
        request.action == read_rows(split_lines(text_before_nul(buffer@))).0,
        match request.body {
            Some(b) => read_rows(split_lines(text_before_nul(buffer@))).1 == Some(b@),
            None => read_rows(split_lines(text_before_nul(buffer@))).1 is None,
        },
{
    let http_request = extract_request_low_level(buffer);
    let text = chars_of(http_request.as_str());
    let rows = split_crlf(&text);
    let ghost rs = split_lines(text@);
    let mut body: Option<String> = None;
    let mut action: ActionType = ActionType::NULL;
    let mut k: usize = 0;
    while k < rows.len()
        invariant
            rows@.len() == rs.len(),
            forall|j: int| 0 <= j < rows@.len() ==> #[trigger] rows@[j]@ == rs[j],
            k <= rows.len(),
            action == read_rows(rs.take(k as int)).0,
            match body {
                Some(b) => read_rows(rs.take(k as int)).1 == Some(b@),
                None => read_rows(rs.take(k as int)).1 is None,
            },
        decreases rows.len() - k,
    {
        let request_row = &rows[k];
        assert(rows@[k as int]@ == rs[k as int]);
        assert(rs.take(k + 1).drop_last() == rs.take(k as int));
        assert(rs.take(k + 1).last() == rs[k as int]);
        if has_prefix(request_row, "POST") || (has_prefix(request_row, "GET") && action
            == ActionType::NULL) {
            action = action_from_chars(request_row);
        } else {
            let row_text = string_from_chars(request_row);
            if parses_as_non_null_json(row_text.as_str()) {
                body = Some(row_text);
            }
        }
        k = k + 1;
    }
    assert(rs.take(rows.len() as int) == rs);
    Request { action, body }
}

} // verus!

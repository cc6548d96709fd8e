//! Reading a broker request out of the raw text of an HTTP request: the
//! action named by the request line, its path parameters and its JSON body.
use vstd::prelude::*;
use vstd::utf8::{valid_utf8, decode_utf8};
use crate::text::{
    starts_with, split_on, split_lines, chars_of, has_prefix, split_chars, split_crlf,
    string_from_chars, contains_infix, parse_usize, parse_usize_spec, utf8_text,
};
use crate::json_text::{json_non_null, parses_as_non_null_json, json_null_test,
    json_null_test_of, json_same_value, json_values_equal};
use crate::regex_match::{plain_pattern, regex_is_match};

verus! {

/// What a request asks the broker to do.
#[allow(non_camel_case_types)]
#[derive(Debug, Clone, Copy, PartialEq, Eq, Structural)]
pub enum ActionType {
    NewTopic,
    RemoveTopic,
    Subscribe,
    Unsubscribe,
    Publish,
    Retrieve,
    NULL,
}

/// A request as the broker sees it. `body` is the text of the JSON document
/// the request carries, or none when it carries no JSON value other than
/// `null`. Two requests are equal when their actions and parameters are and
/// their bodies hold the same JSON value (see `same_body`), however the texts
/// are written.
#[derive(Debug)]
pub struct Request {
    pub action: ActionType,
    pub params: Vec<String>,
    pub body: Option<String>,
}

/// A body that stands for the JSON value `null`: none, or a `null` document.
pub open spec fn body_is_null(body: Option<Seq<char>>) -> bool {
    match body {
        Some(text) => json_null_test(text) == Some(true),
        None => true,
    }
}

/// Two bodies hold the same JSON value: both stand for `null`, or both are
/// documents with equal values; texts that are not JSON are equal only as
/// texts.
pub open spec fn same_body(a: Option<Seq<char>>, b: Option<Seq<char>>) -> bool {
    if body_is_null(a) || body_is_null(b) {
        body_is_null(a) && body_is_null(b)
    } else if json_null_test(a.unwrap()) is Some && json_null_test(b.unwrap()) is Some {
        json_same_value(a.unwrap(), b.unwrap())
    } else {
        a == b
    }
}

/// The characters of an optional string.
pub open spec fn optional_view(s: Option<String>) -> Option<Seq<char>> {
    match s {
        Some(t) => Some(t@),
        None => None,
    }
}

fn body_stands_for_null(body: &Option<String>) -> (r: bool)
    ensures
        r == body_is_null(optional_view(*body)),
{
    match body {
        Some(text) => match json_null_test_of(text.as_str()) {
            Some(is_null) => is_null,
            None => false,
        },
        None => true,
    }
}

/// Whether two bodies hold the same JSON value (see `same_body`).
pub fn bodies_equal(a: &Option<String>, b: &Option<String>) -> (r: bool)
    ensures
        r == same_body(optional_view(*a), optional_view(*b)),
{
    let a_null = body_stands_for_null(a);
    let b_null = body_stands_for_null(b);
    if a_null || b_null {
        return a_null && b_null;
    }
    match (a, b) {
        (Some(x), Some(y)) => match json_values_equal(x.as_str(), y.as_str()) {
            Some(same) => same,
            None => *x == *y,
        },
        _ => false,
    }
}

/// Whether two lists of strings hold the same strings in the same order.
pub fn strings_equal(a: &Vec<String>, b: &Vec<String>) -> (r: bool)
    ensures
        r == (strings_view(a@) == strings_view(b@)),
{
    if a.len() != b.len() {
        assert(strings_view(a@).len() != strings_view(b@).len());
        return false;
    }
    let mut i: usize = 0;
    while i < a.len()
        invariant
            a.len() == b.len(),
            i <= a.len(),
            forall|k: int| 0 <= k < i ==> a@[k]@ == b@[k]@,
        decreases a.len() - i,
    {
        if a[i] != b[i] {
            assert(strings_view(a@)[i as int] != strings_view(b@)[i as int]);
            return false;
        }
        i = i + 1;
    }
    assert(strings_view(a@) =~= strings_view(b@));
    true
}

impl PartialEq for Request {
    fn eq(&self, other: &Self) -> (r: bool) {
        self.action == other.action && strings_equal(&self.params, &other.params) && bodies_equal(
            &self.body,
            &other.body,
        )
    }
}

impl vstd::std_specs::cmp::PartialEqSpecImpl for Request {
    open spec fn obeys_eq_spec() -> bool {
        true
    }

    open spec fn eq_spec(&self, other: &Self) -> bool {
        &&& self.action == other.action
        &&& strings_view(self.params@) == strings_view(other.params@)
        &&& same_body(optional_view(self.body), optional_view(other.body))
    }
}

/// The characters of each string.
pub open spec fn strings_view(v: Seq<String>) -> Seq<Seq<char>> {
    v.map_values(|s: String| s@)
}

/// The action that one space-separated piece `slice` of the request line
/// `row` names, or `NULL` when it names none.
pub open spec fn slice_action(row: Seq<char>, slice: Seq<char>) -> ActionType {
    if starts_with(slice, "/topic"@) && starts_with(row, "POST"@) {
        ActionType::NewTopic
    } else if starts_with(slice, "/topic"@) && starts_with(row, "DELETE"@) {
        ActionType::RemoveTopic
    } else if starts_with(slice, "/subscription"@) && starts_with(row, "POST"@) {
        ActionType::Subscribe
    } else if starts_with(slice, "/subscription"@) && starts_with(row, "DELETE"@) {
        ActionType::Unsubscribe
    } else if starts_with(slice, "/publish"@) && starts_with(row, "POST"@) {
        ActionType::Publish
    } else if starts_with(slice, "/subscription"@) && starts_with(row, "GET"@) {
        ActionType::Retrieve
    } else {
        ActionType::NULL
    }
}

/// The number of `/`-separated parts a path must have for `action`: the
/// parameters sit at parts 2 (and 3 for the two actions that name an id).
pub open spec fn needed_parts(action: ActionType) -> nat {
    match action {
        ActionType::Unsubscribe | ActionType::Retrieve => 4,
        _ => 3,
    }
}

/// The parameters that the path `slice` gives for `action`.
pub open spec fn slice_params(action: ActionType, slice: Seq<char>) -> Seq<Seq<char>> {
    let parts = split_on(slice, '/');
    match action {
        ActionType::Unsubscribe | ActionType::Retrieve => seq![parts[2], parts[3]],
        _ => seq![parts[2]],
    }
}

/// The action and parameters gathered from the first pieces of a request line:
/// the last piece that names an action sets it, and every such piece adds its
/// parameters.
pub open spec fn fold_slices(row: Seq<char>, slices: Seq<Seq<char>>) -> (ActionType, Seq<Seq<char>>)
    decreases slices.len(),
{
    if slices.len() == 0 {
        (ActionType::NULL, Seq::<Seq<char>>::empty())
    } else {
        let prev = fold_slices(row, slices.drop_last());
        let a = slice_action(row, slices.last());
        if a == ActionType::NULL {
            prev
        } else {
            (a, prev.1 + slice_params(a, slices.last()))
        }
    }
}

/// The action and parameters that the request line `row` names.
pub open spec fn action_of_row(row: Seq<char>) -> (ActionType, Seq<Seq<char>>) {
    fold_slices(row, split_on(row, ' '))
}

/// Every piece of `row` that names an action has a path long enough for its
/// parameters (on other lines the reading fails).
pub open spec fn action_row_well_formed(row: Seq<char>) -> bool {
    let slices = split_on(row, ' ');
    forall|k: int|
        0 <= k < slices.len() && slice_action(row, #[trigger] slices[k]) != ActionType::NULL
            ==> split_on(slices[k], '/').len() >= needed_parts(slice_action(row, slices[k]))
}

/// The characters of `buffer` up to its first zero byte, each byte read as
/// the character of the same number.
pub open spec fn text_before_nul(buffer: Seq<u8>) -> Seq<char>
    decreases buffer.len(),
{
    if buffer.len() == 0 {
        Seq::<char>::empty()
    } else if buffer[0] == 0 {
        Seq::<char>::empty()
    } else {
        seq![buffer[0] as char] + text_before_nul(buffer.drop_first())
    }
}

proof fn lemma_text_before_nul_step(buffer: Seq<u8>, i: int)
    requires
        0 <= i < buffer.len(),
        forall|k: int| 0 <= k < i ==> buffer[k] != 0,
    ensures
        buffer[i] == 0 ==> text_before_nul(buffer) == buffer.take(i).map_values(|b: u8| b as char),
        buffer[i] != 0 ==> text_before_nul(buffer) == buffer.take(i + 1).map_values(
            |b: u8| b as char,
        ) + text_before_nul(buffer.skip(i + 1)),
    decreases i,
{
    if i > 0 {
        lemma_text_before_nul_step(buffer.drop_first(), i - 1);
        assert(buffer.drop_first().take(i - 1).map_values(|b: u8| b as char) =~= buffer.take(
            i,
        ).map_values(|b: u8| b as char).drop_first());
        assert(buffer.drop_first().take(i).map_values(|b: u8| b as char) =~= buffer.take(
            i + 1,
        ).map_values(|b: u8| b as char).drop_first());
        assert(buffer.drop_first().skip(i) =~= buffer.skip(i + 1));
        assert(buffer.take(i).map_values(|b: u8| b as char) =~= seq![buffer[0] as char]
            + buffer.take(i).map_values(|b: u8| b as char).drop_first());
        assert(buffer.take(i + 1).map_values(|b: u8| b as char) =~= seq![buffer[0] as char]
            + buffer.take(i + 1).map_values(|b: u8| b as char).drop_first());
    } else {
        assert(buffer.take(0).map_values(|b: u8| b as char) =~= Seq::<char>::empty());
        assert(buffer.take(1).map_values(|b: u8| b as char) =~= seq![buffer[0] as char]);
        assert(buffer.skip(1) =~= buffer.drop_first());
    }
}

/// The text of a request buffer: its bytes up to the first zero byte, each
/// read as the character of the same number.
pub fn clear_trash_from_buffer(buffer: Vec<u8>) -> (http_request: String)
    ensures
        http_request@ == text_before_nul(buffer@),
{
    let mut chars: Vec<char> = Vec::new();
    let mut i: usize = 0;
    while i < buffer.len()
        invariant
            i <= buffer.len(),
            forall|k: int| 0 <= k < i ==> buffer@[k] != 0,
            chars@ == buffer@.take(i as int).map_values(|b: u8| b as char),
        decreases buffer.len() - i,
    {
        let byte_as_u8 = buffer[i];
        if byte_as_u8 == 0 {
            proof {
                lemma_text_before_nul_step(buffer@, i as int);
            }
            return string_from_chars(&chars);
        }
        chars.push(byte_as_u8 as char);
        assert(buffer@.take(i + 1).map_values(|b: u8| b as char) =~= buffer@.take(
            i as int,
        ).map_values(|b: u8| b as char).push(byte_as_u8 as char));
        i = i + 1;
    }
    proof {
        assert(buffer@.take(i as int) =~= buffer@);
        if buffer@.len() > 0 {
            lemma_text_before_nul_step(buffer@, buffer@.len() - 1);
            assert(buffer@.skip(buffer@.len() as int) =~= Seq::<u8>::empty());
        }
    }
    string_from_chars(&chars)
}

/// The action `slice` names on the line with the given method prefixes.
fn slice_action_of(
    row: &Vec<char>,
    is_post: bool,
    is_delete: bool,
    is_get: bool,
    slice: &Vec<char>,
) -> (a: ActionType)
    requires
        is_post == starts_with(row@, "POST"@),
        is_delete == starts_with(row@, "DELETE"@),
        is_get == starts_with(row@, "GET"@),
    ensures
        a == slice_action(row@, slice@),
{
    let topic = has_prefix(slice, "/topic");
    let subscription = has_prefix(slice, "/subscription");
    let publish = has_prefix(slice, "/publish");
    if topic && is_post {
        ActionType::NewTopic
    } else if topic && is_delete {
        ActionType::RemoveTopic
    } else if subscription && is_post {
        ActionType::Subscribe
    } else if subscription && is_delete {
        ActionType::Unsubscribe
    } else if publish && is_post {
        ActionType::Publish
    } else if subscription && is_get {
        ActionType::Retrieve
    } else {
        ActionType::NULL
    }
}

/// Whether the request line `row` is one that `action_from_chars` can read.
pub fn action_row_is_well_formed(row: &Vec<char>) -> (r: bool)
    ensures
        r == action_row_well_formed(row@),
{
    let is_post = has_prefix(row, "POST");
    let is_delete = has_prefix(row, "DELETE");
    let is_get = has_prefix(row, "GET");
    let slices = split_chars(row, ' ');
    let ghost sl = split_on(row@, ' ');
    let mut k: usize = 0;
    while k < slices.len()
        invariant
            slices@.len() == sl.len(),
            forall|j: int| 0 <= j < slices@.len() ==> #[trigger] slices@[j]@ == sl[j],
            sl == split_on(row@, ' '),
            is_post == starts_with(row@, "POST"@),
            is_delete == starts_with(row@, "DELETE"@),
            is_get == starts_with(row@, "GET"@),
            k <= slices.len(),
            forall|j: int|
                0 <= j < k && slice_action(row@, #[trigger] sl[j]) != ActionType::NULL ==> split_on(
                    sl[j],
                    '/',
                ).len() >= needed_parts(slice_action(row@, sl[j])),
        decreases slices.len() - k,
    {
        let a = slice_action_of(row, is_post, is_delete, is_get, &slices[k]);
        assert(slices@[k as int]@ == sl[k as int]);
        if a != ActionType::NULL {
            let parts = split_chars(&slices[k], '/');
            let need: usize = match a {
                ActionType::Unsubscribe | ActionType::Retrieve => 4,
                _ => 3,
            };
            if parts.len() < need {
                return false;
            }
        }
        k = k + 1;
    }
    true
}

/// The action and parameters named by the request line `row`, given as
/// characters.
pub fn action_from_chars(row: &Vec<char>) -> (r: (ActionType, Vec<String>))
    requires
        action_row_well_formed(row@),
    ensures
        r.0 == action_of_row(row@).0,
        strings_view(r.1@) == action_of_row(row@).1,
{
    let is_post = has_prefix(row, "POST");
    let is_delete = has_prefix(row, "DELETE");
    let is_get = has_prefix(row, "GET");
    let slices = split_chars(row, ' ');
    let ghost sl = split_on(row@, ' ');
    let mut action: ActionType = ActionType::NULL;
    let mut params: Vec<String> = Vec::new();
    let mut k: usize = 0;
    while k < slices.len()
        invariant
            slices@.len() == sl.len(),
            forall|j: int| 0 <= j < slices@.len() ==> #[trigger] slices@[j]@ == sl[j],
            sl == split_on(row@, ' '),
            action_row_well_formed(row@),
            is_post == starts_with(row@, "POST"@),
            is_delete == starts_with(row@, "DELETE"@),
            is_get == starts_with(row@, "GET"@),
            k <= slices.len(),
            action == fold_slices(row@, sl.take(k as int)).0,
            strings_view(params@) == fold_slices(row@, sl.take(k as int)).1,
        decreases slices.len() - k,
    {
        let tiny_slice = &slices[k];
        assert(slices@[k as int]@ == sl[k as int]);
        assert(sl.take(k + 1).drop_last() == sl.take(k as int));
        assert(sl.take(k + 1).last() == sl[k as int]);
        let a = slice_action_of(row, is_post, is_delete, is_get, tiny_slice);
        if a != ActionType::NULL {
            action = a;
            let split_path = split_chars(tiny_slice, '/');
            let ghost parts = split_on(sl[k as int], '/');
            assert(split_path@[2]@ == parts[2]);
            let first = string_from_chars(&split_path[2]);
            let ghost before = params@;
            params.push(first);
            assert(strings_view(params@) =~= strings_view(before).push(parts[2]));
            if a == ActionType::Unsubscribe || a == ActionType::Retrieve {
                assert(split_path@[3]@ == parts[3]);
                let second = string_from_chars(&split_path[3]);
                let ghost mid = params@;
                params.push(second);
                assert(strings_view(params@) =~= strings_view(mid).push(parts[3]));
            }
            assert(strings_view(params@) =~= fold_slices(row@, sl.take(k as int)).1
                + slice_params(a, sl[k as int]));
        }
        k = k + 1;
    }
    assert(sl.take(slices.len() as int) == sl);
    (action, params)
}

/// The action and parameters named by the request line `request_row`.
pub fn extract_action(request_row: &str) -> (r: (ActionType, Vec<String>))
    requires
        action_row_well_formed(request_row@),
    ensures
        r.0 == action_of_row(request_row@).0,
        strings_view(r.1@) == action_of_row(request_row@).1,
{
    let row = chars_of(request_row);
    action_from_chars(&row)
}

} // verus!

verus! {

/// The pattern whose presence in a request announces a body that follows
/// separately (`Expect: 100-continue`).
pub open spec fn continue_marker() -> Seq<char> {
    "\nExpect: 100-continue\r\n"@
}

/// A line that sets the action: one that begins with `POST` or `GET`, or with
/// `DELETE` while no action is set yet.
pub open spec fn is_action_row(row: Seq<char>, action: ActionType) -> bool {
    starts_with(row, "POST"@) || starts_with(row, "GET"@) || (starts_with(row, "DELETE"@)
        && action == ActionType::NULL)
}

/// A `Content-Length:` line of a request whose body follows separately.
pub open spec fn is_length_row(row: Seq<char>, read_additional_body: bool) -> bool {
    read_additional_body && starts_with(row, "Content-Length:"@)
}

/// The length that a `Content-Length:` line announces: its last
/// space-separated piece read as a number.
pub open spec fn announced_length(row: Seq<char>) -> Option<usize> {
    parse_usize_spec(split_on(row, ' ').last())
}

/// The state of reading one request, line by line.
pub struct ExtractionState {
    pub rows: Seq<Seq<char>>,
    pub next_row: int,
    pub read_additional_body: bool,
    pub action: ActionType,
    pub params: Seq<Seq<char>>,
    pub body: Option<Seq<char>>,
}

impl ExtractionState {
    /// All lines are read.
    pub open spec fn finished(self) -> bool {
        self.next_row >= self.rows.len()
    }

    /// The next line can be read: an action line with the parameters its
    /// action needs, or a `Content-Length:` line whose length is a number.
    pub open spec fn next_row_well_formed(self) -> bool {
        let row = self.rows[self.next_row];
        if is_action_row(row, self.action) {
            action_row_well_formed(row)
        } else if is_length_row(row, self.read_additional_body) {
            announced_length(row) is Some
        } else {
            true
        }
    }

    /// The state after reading the next line. An action line sets the action
    /// and parameters; when the body follows separately, other lines are
    /// skipped (a `Content-Length:` line waits for its body); else a line that
    /// is a non-null JSON document becomes the body.
    pub open spec fn after_next_row(self) -> ExtractionState {
        let row = self.rows[self.next_row];
        let moved = ExtractionState { next_row: self.next_row + 1, ..self };
        if is_action_row(row, self.action) {
            ExtractionState {
                action: action_of_row(row).0,
                params: action_of_row(row).1,
                ..moved
            }
        } else if self.read_additional_body {
            moved
        } else if json_non_null(row) {
            ExtractionState { body: Some(row), ..moved }
        } else {
            moved
        }
    }

    /// The state after the separately sent body `bytes` arrives: it becomes
    /// the body when it is UTF-8 text that is a non-null JSON document.
    pub open spec fn after_additional_body(self, bytes: Seq<u8>) -> ExtractionState {
        if valid_utf8(bytes) && json_non_null(decode_utf8(bytes)) {
            ExtractionState { body: Some(decode_utf8(bytes)), ..self }
        } else {
            self
        }
    }
}

/// What reading one line of a request leads to.
#[derive(Debug, Clone, Copy, PartialEq, Eq, Structural)]
pub enum ExtractionStep {
    /// The line is read; go on with the next one.
    Continue,
    /// The line announces a body of this many bytes that follows separately;
    /// read them and hand them over before going on.
    ReadBody(usize),
    /// There is no line left.
    Finished,
}

/// Reads a request out of its text one line at a time, so that the caller can
/// fetch a body that the request announces and sends separately.
pub struct RequestExtractor {
    rows: Vec<Vec<char>>,
    next_row: usize,
    read_additional_body: bool,
    action: ActionType,
    params: Vec<String>,
    body: Option<String>,
}

impl View for RequestExtractor {
    type V = ExtractionState;

    closed spec fn view(&self) -> ExtractionState {
        ExtractionState {
            rows: self.rows@.map_values(|r: Vec<char>| r@),
            next_row: self.next_row as int,
            read_additional_body: self.read_additional_body,
            action: self.action,
            params: strings_view(self.params@),
            body: match self.body {
                Some(b) => Some(b@),
                None => None,
            },
        }
    }
}

impl RequestExtractor {
    /// The reader is consistent: it has not gone past the last line.
    pub closed spec fn wf(&self) -> bool {
        self.next_row <= self.rows.len()
    }

    /// Starts reading the request text `request_as_str`: its lines are the
    /// pieces between `"\r\n"`, and its body follows separately exactly when
    /// the text holds `"\nExpect: 100-continue\r\n"`.
    pub fn new(request_as_str: &str) -> (r: RequestExtractor)
        ensures
            r.wf(),
            r@.rows == split_lines(request_as_str@),
            r@.next_row == 0,
            r@.read_additional_body == contains_infix(request_as_str@, continue_marker()),
            r@.action == ActionType::NULL,
            r@.params == Seq::<Seq<char>>::empty(),
            r@.body is None,
    {
        let pattern = "\nExpect: 100-continue\r\n";
        proof {
            reveal_strlit("\nExpect: 100-continue\r\n");
            assert(plain_pattern(pattern@));
        }
        let read_additional_body = match regex_is_match(pattern, request_as_str) {
            Some(found) => found,
            None => false,
        };
        let text = chars_of(request_as_str);
        let rows = split_crlf(&text);
        let r = RequestExtractor {
            rows,
            next_row: 0,
            read_additional_body,
            action: ActionType::NULL,
            params: Vec::new(),
            body: None,
        };
        assert(r@.rows =~= split_lines(request_as_str@));
        assert(r@.params =~= Seq::<Seq<char>>::empty());
        r
    }

    /// Whether the next line can be read (see
    /// `ExtractionState::next_row_well_formed`); true when no line is left.
    pub fn next_row_is_well_formed(&self) -> (r: bool)
        requires
            self.wf(),
        ensures
            r == (self@.finished() || self@.next_row_well_formed()),
    {
        if self.next_row >= self.rows.len() {
            return true;
        }
        let row = &self.rows[self.next_row];
        assert(self@.rows[self@.next_row] == row@);
        let is_action = has_prefix(row, "POST") || has_prefix(row, "GET") || (has_prefix(
            row,
            "DELETE",
        ) && self.action == ActionType::NULL);
        if is_action {
            action_row_is_well_formed(row)
        } else if self.read_additional_body && has_prefix(row, "Content-Length:") {
            let pieces = split_chars(row, ' ');
            proof {
                crate::text::lemma_split_on_nonempty(row@, ' ');
            }
            let last = &pieces[pieces.len() - 1];
            parse_usize(last).is_some()
        } else {
            true
        }
    }

    /// Reads the next line (see `ExtractionState::after_next_row`). Tells
    /// `ReadBody` with the announced length when the line is a `Content-Length:`
    /// line of a request whose body follows separately, `Finished` when no
    /// line was left.
    pub fn step(&mut self) -> (r: ExtractionStep)
        requires
            old(self).wf(),
            !old(self)@.finished() ==> old(self)@.next_row_well_formed(),
        ensures
            final(self).wf(),
            old(self)@.finished() ==> r == ExtractionStep::Finished && final(self)@ == old(self)@,
            !old(self)@.finished() ==> final(self)@ == old(self)@.after_next_row(),
            !old(self)@.finished() ==> (if is_length_row(
                old(self)@.rows[old(self)@.next_row],
                old(self)@.read_additional_body,
            ) && !is_action_row(old(self)@.rows[old(self)@.next_row], old(self)@.action) {
                r == ExtractionStep::ReadBody(
                    announced_length(old(self)@.rows[old(self)@.next_row]).unwrap(),
                )
            } else {
                r == ExtractionStep::Continue
            }),
    {
        if self.next_row >= self.rows.len() {
            return ExtractionStep::Finished;
        }
        let i = self.next_row;
        let ghost st = self@;
        assert(st.rows[i as int] == self.rows@[i as int]@);
        let is_action = has_prefix(&self.rows[i], "POST") || has_prefix(&self.rows[i], "GET") || (
        has_prefix(&self.rows[i], "DELETE") && self.action == ActionType::NULL);
        let mut outcome = ExtractionStep::Continue;
        if is_action {
            let (action, params) = action_from_chars(&self.rows[i]);
            self.action = action;
            self.params = params;
        } else if self.read_additional_body {
            if has_prefix(&self.rows[i], "Content-Length:") {
                let pieces = split_chars(&self.rows[i], ' ');
                proof {
                    crate::text::lemma_split_on_nonempty(st.rows[i as int], ' ');
                }
                let last = &pieces[pieces.len() - 1];
                match parse_usize(last) {
                    Some(n) => {
                        outcome = ExtractionStep::ReadBody(n);
                    },
                    None => {},
                }
            }
        } else {
            let row_text = string_from_chars(&self.rows[i]);
            if parses_as_non_null_json(row_text.as_str()) {
                self.body = Some(row_text);
            }
        }
        self.next_row = i + 1;
        assert(self@.rows =~= st.rows);
        outcome
    }

    /// Hands over the separately sent body (see
    /// `ExtractionState::after_additional_body`).
    pub fn supply_additional_body(&mut self, bytes: Vec<u8>)
        requires
            old(self).wf(),
        ensures
            final(self).wf(),
            final(self)@ == old(self)@.after_additional_body(bytes@),
    {
        match utf8_text(bytes) {
            Some(text) => {
                if parses_as_non_null_json(text.as_str()) {
                    self.body = Some(text);
                }
            },
            None => {},
        }
    }

    /// The request read so far.
    pub fn finish(self) -> (r: Request)
        ensures
            r.action == self@.action,
            strings_view(r.params@) == self@.params,
            match r.body {
                Some(b) => self@.body == Some(b@),
                None => self@.body is None,
            },
    {
        Request { action: self.action, params: self.params, body: self.body }
    }
}

} // verus!

verus! {

/// The body of a request is its last non-null JSON line: reading a line either
/// leaves the body read so far or, only for a line that is a non-null JSON
/// document, replaces it by that line. A line that is not one (an empty line,
/// a header, a `null`, broken JSON) and any action line leave it unchanged. A
/// separately sent body likewise replaces the body only when it is a non-null
/// JSON document, and otherwise leaves it.
pub proof fn lemma_body_is_last_json_line(st: ExtractionState, bytes: Seq<u8>)
    requires
        !st.finished(),
        0 <= st.next_row,
    ensures
        ({
            let row = st.rows[st.next_row];
            let after = st.after_next_row();
            &&& after.body == st.body || (after.body == Some(row) && json_non_null(row))
            &&& !json_non_null(row) ==> after.body == st.body
            &&& is_action_row(row, st.action) ==> after.body == st.body
            &&& st.read_additional_body ==> after.body == st.body
            &&& after.next_row == st.next_row + 1
            &&& after.rows == st.rows
        }),
        ({
            let after = st.after_additional_body(bytes);
            &&& after.body == st.body || (valid_utf8(bytes) && after.body == Some(decode_utf8(bytes))
                && json_non_null(decode_utf8(bytes)))
            &&& !(valid_utf8(bytes) && json_non_null(decode_utf8(bytes))) ==> after.body == st.body
        }),
{
}

} // verus!

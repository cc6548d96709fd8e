use pubsub_broker::text::{
    chars_of, i32_to_string, parse_i32, parse_usize, split_chars, split_crlf, string_from_chars,
};

fn chars(s: &str) -> Vec<char> {
    s.chars().collect()
}

fn pieces(v: Vec<Vec<char>>) -> Vec<String> {
    v.into_iter().map(|p| p.into_iter().collect()).collect()
}

#[test]
fn decimal_writing_of_integers() {
    assert_eq!(i32_to_string(0), "0");
    assert_eq!(i32_to_string(7), "7");
    assert_eq!(i32_to_string(-42), "-42");
    assert_eq!(i32_to_string(1234567), "1234567");
    assert_eq!(i32_to_string(i32::MAX), "2147483647");
    assert_eq!(i32_to_string(i32::MIN), "-2147483648");
}

#[test]
fn decimal_round_trip() {
    for i in [0, 1, -1, 9, 10, -10, 99, 100, 65535, i32::MAX, i32::MIN, -123456789] {
        let text = i32_to_string(i);
        assert_eq!(parse_i32(&chars(&text)), Some(i));
    }
}

#[test]
fn parse_i32_follows_the_standard_library() {
    for s in ["5", "+5", "-5", "007", "2147483647", "-2147483648", "2147483648", "-2147483649",
        "", "-", "+", "1a", " 1", "1 ", "--1", "99999999999999999999"] {
        assert_eq!(parse_i32(&chars(s)), s.parse::<i32>().ok(), "input {:?}", s);
    }
}

#[test]
fn parse_usize_follows_the_standard_library() {
    for s in ["0", "+12", "-12", "18446744073709551615", "18446744073709551616", "", "+", "4x",
        "123456789012"] {
        assert_eq!(parse_usize(&chars(s)), s.parse::<usize>().ok(), "input {:?}", s);
    }
}

#[test]
fn split_on_a_character_keeps_empty_pieces() {
    assert_eq!(pieces(split_chars(&chars("a  b"), ' ')), vec!["a", "", "b"]);
    assert_eq!(pieces(split_chars(&chars(""), ' ')), vec![""]);
    assert_eq!(pieces(split_chars(&chars("/topic/news"), '/')), vec!["", "topic", "news"]);
    let text = "GET /x HTTP/1.1";
    assert_eq!(pieces(split_chars(&chars(text), ' ')), text.split(' ').collect::<Vec<_>>());
}

#[test]
fn split_on_line_ends_follows_the_standard_library() {
    for text in ["a\r\nb\r\n", "", "\r\n", "a\rb\nc", "a\r\r\nb", "x\r\n\r\n{\"item\": 1}", "\r"] {
        assert_eq!(pieces(split_crlf(&chars(text))), text.split("\r\n").collect::<Vec<_>>(),
            "input {:?}", text);
    }
}

#[test]
fn characters_and_strings_convert_both_ways() {
    let v = chars_of("héllo");
    assert_eq!(v, vec!['h', 'é', 'l', 'l', 'o']);
    assert_eq!(string_from_chars(&v), "héllo");
}

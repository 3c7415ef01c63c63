use logicx::connection::Connection;
use logicx::connection::Terminal;
use logicx::digits::parse_number;
use logicx::digits::push_decimal;
use logicx::error::DecodeError;

fn groups(kind: &str, instance: &str, index: &str) -> Option<(String, String, String)> {
    Some((kind.to_string(), instance.to_string(), index.to_string()))
}

#[test]
fn encode_output_endpoint() {
    assert_eq!(Connection::output(3, 2).encode(), "O3:2");
}

#[test]
fn encode_input_endpoint() {
    assert_eq!(Connection::input(0, 17).encode(), "I0:17");
}

#[test]
fn encode_largest_numbers() {
    let c = Connection::output(usize::MAX, u64::MAX);
    assert_eq!(c.encode(), format!("O{}:{}", usize::MAX, u64::MAX));
}

#[test]
fn constructors_set_both_fields() {
    assert_eq!(Connection::input(4, 9), Connection { instance: 4, terminal: Terminal::Input(9) });
    assert_eq!(Connection::output(4, 9), Connection { instance: 4, terminal: Terminal::Output(9) });
    assert_ne!(Connection::input(4, 9), Connection::output(4, 9));
}

#[test]
fn decode_is_case_insensitive() {
    assert_eq!(Connection::decode("o3:2"), Connection::decode("O3:2"));
    assert_eq!(Connection::decode("o3:2"), Ok(Connection::output(3, 2)));
    assert_eq!(Connection::decode("i3:2"), Connection::decode("I3:2"));
    assert_eq!(Connection::decode("i3:2"), Ok(Connection::input(3, 2)));
}

#[test]
fn decode_rejects_malformed_tokens() {
    assert_eq!(Connection::decode("X3:2"), Err(DecodeError::FormatError));
    assert_eq!(Connection::decode("I3-2"), Err(DecodeError::FormatError));
    assert_eq!(Connection::decode("I:2"), Err(DecodeError::FormatError));
}

#[test]
fn decode_rejects_text_around_a_token() {
    assert_eq!(Connection::decode(""), Err(DecodeError::FormatError));
    assert_eq!(Connection::decode("I3:"), Err(DecodeError::FormatError));
    assert_eq!(Connection::decode(" I3:2"), Err(DecodeError::FormatError));
    assert_eq!(Connection::decode("I3:2 "), Err(DecodeError::FormatError));
    assert_eq!(Connection::decode("I3:2\n"), Err(DecodeError::FormatError));
    assert_eq!(Connection::decode("II3:2"), Err(DecodeError::FormatError));
    assert_eq!(Connection::decode("I+3:2"), Err(DecodeError::FormatError));
    assert_eq!(Connection::decode("I-3:2"), Err(DecodeError::FormatError));
    assert_eq!(Connection::decode("I3:2:1"), Err(DecodeError::FormatError));
}

#[test]
fn decode_reports_numbers_that_do_not_fit() {
    assert_eq!(Connection::decode("O1:18446744073709551616"), Err(DecodeError::RangeError));
    assert_eq!(Connection::decode("I99999999999999999999999999:0"), Err(DecodeError::RangeError));
    assert_eq!(
        Connection::decode("O1:18446744073709551615"),
        Ok(Connection::output(1, u64::MAX))
    );
    let largest = format!("I{}:0", usize::MAX);
    assert_eq!(Connection::decode(&largest), Ok(Connection::input(usize::MAX, 0)));
}

#[test]
fn decode_reports_digits_outside_ascii_as_out_of_range() {
    assert_eq!(Connection::decode("I\u{0663}:2"), Err(DecodeError::RangeError));
    assert_eq!(Connection::decode("O3:\u{0662}"), Err(DecodeError::RangeError));
}

#[test]
fn decode_accepts_leading_zeros() {
    assert_eq!(Connection::decode("I007:02"), Ok(Connection::input(7, 2)));
    assert_eq!(Connection::decode("o0:0"), Ok(Connection::output(0, 0)));
}

#[test]
fn decode_inverts_encode() {
    let instances = [0usize, 1, 9, 10, 99, 100, 12345, usize::MAX];
    let indices = [0u64, 1, 9, 10, 255, 1000, u64::MAX];
    for instance in instances {
        for index in indices {
            let input = Connection::input(instance, index);
            let output = Connection::output(instance, index);
            assert_eq!(Connection::decode(&input.encode()), Ok(input));
            assert_eq!(Connection::decode(&output.encode()), Ok(output));
        }
    }
}

#[test]
fn equal_tokens_mean_equal_endpoints() {
    let a = Connection::output(12, 3);
    let b = Connection::output(1, 23);
    let c = Connection::input(12, 3);
    assert_ne!(a.encode(), b.encode());
    assert_ne!(a.encode(), c.encode());
    assert_eq!(a.encode(), Connection::output(12, 3).encode());
}

#[test]
fn encoding_a_lower_case_token_gives_upper_case() {
    let c = Connection::decode("o3:2").unwrap();
    assert_eq!(c.encode(), "O3:2");
}

#[test]
fn from_groups_without_a_match_is_a_format_error() {
    assert_eq!(Connection::from_groups(&None), Err(DecodeError::FormatError));
}

#[test]
fn from_groups_reads_the_fields() {
    assert_eq!(Connection::from_groups(&groups("I", "3", "2")), Ok(Connection::input(3, 2)));
    assert_eq!(Connection::from_groups(&groups("o", "30", "21")), Ok(Connection::output(30, 21)));
}

#[test]
fn from_groups_checks_the_numbers_before_the_letter() {
    assert_eq!(Connection::from_groups(&groups("X", "3", "2")), Err(DecodeError::FormatError));
    assert_eq!(Connection::from_groups(&groups("IO", "3", "2")), Err(DecodeError::FormatError));
    assert_eq!(Connection::from_groups(&groups("", "3", "2")), Err(DecodeError::FormatError));
    assert_eq!(Connection::from_groups(&groups("X", "", "2")), Err(DecodeError::RangeError));
    assert_eq!(Connection::from_groups(&groups("X", "3", "x")), Err(DecodeError::RangeError));
    assert_eq!(Connection::from_groups(&groups("I", "+3", "2")), Err(DecodeError::RangeError));
}

#[test]
fn parse_number_reads_digits_up_to_the_limit() {
    assert_eq!(parse_number("0", 10), Some(0));
    assert_eq!(parse_number("10", 10), Some(10));
    assert_eq!(parse_number("11", 10), None);
    assert_eq!(parse_number("0000000000000000000000010", 10), Some(10));
    assert_eq!(parse_number("", 10), None);
    assert_eq!(parse_number("1a", 10), None);
    assert_eq!(parse_number("-1", 10), None);
    assert_eq!(parse_number("18446744073709551615", u64::MAX), Some(u64::MAX));
    assert_eq!(parse_number("18446744073709551616", u64::MAX), None);
    assert_eq!(parse_number("5", 4), None);
    assert_eq!(parse_number("4", 4), Some(4));
}

#[test]
fn push_decimal_appends_the_shortest_numeral() {
    let mut out = String::from("n=");
    push_decimal(&mut out, 0);
    push_decimal(&mut out, 1907);
    assert_eq!(out, "n=01907");
    let mut out = String::new();
    push_decimal(&mut out, u64::MAX);
    assert_eq!(out, "18446744073709551615");
}

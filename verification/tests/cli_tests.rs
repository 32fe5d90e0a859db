use dht_core::cli::{parse_input_data, parse_input_line, InputCommand};
use dht_core::text::{contains_text, split_by_char};

fn pairs(v: &[(&str, &str)]) -> Vec<(String, String)> {
    v.iter().map(|(k, x)| (k.to_string(), x.to_string())).collect()
}

#[test]
fn parse_input_data_reads_pairs() {
    assert_eq!(parse_input_data("a=1;b=2".to_string()), pairs(&[("a", "1"), ("b", "2")]));
}

#[test]
fn parse_input_data_stops_at_piece_without_equals() {
    assert_eq!(parse_input_data("a=1;junk;b=2".to_string()), pairs(&[("a", "1")]));
}

#[test]
fn parse_input_data_empty_text_gives_nothing() {
    assert_eq!(parse_input_data(String::new()), pairs(&[]));
}

#[test]
fn parse_input_data_drops_text_after_second_equals() {
    assert_eq!(parse_input_data("k=v=w;x=".to_string()), pairs(&[("k", "v"), ("x", "")]));
}

#[test]
fn parse_input_data_trailing_separator_ends_reading() {
    assert_eq!(parse_input_data("a=1;".to_string()), pairs(&[("a", "1")]));
}

#[test]
fn parse_input_data_keeps_non_ascii_text() {
    assert_eq!(parse_input_data("clé=été;ß=∑".to_string()), pairs(&[("clé", "été"), ("ß", "∑")]));
}

#[test]
fn parse_input_data_round_trip_of_written_pairs() {
    let written = pairs(&[("alpha", "1"), ("", "x"), ("beta", "")]);
    let text = written.iter().map(|(k, v)| format!("{}={}", k, v)).collect::<Vec<_>>().join(";");
    assert_eq!(parse_input_data(text), written);
}

#[test]
fn input_line_get() {
    match parse_input_line("GET mykey") {
        InputCommand::Get { key } => assert_eq!(key, "mykey"),
        _ => panic!("expected a lookup"),
    }
}

#[test]
fn input_line_put() {
    match parse_input_line("PUT k v extra") {
        InputCommand::Put { key, value } => {
            assert_eq!(key, "k");
            assert_eq!(value, "v");
        }
        _ => panic!("expected a store"),
    }
}

#[test]
fn input_line_missing_words() {
    assert!(matches!(parse_input_line("GET"), InputCommand::ExpectedKey));
    assert!(matches!(parse_input_line("PUT"), InputCommand::ExpectedKey));
    assert!(matches!(parse_input_line("PUT key"), InputCommand::ExpectedKey));
}

#[test]
fn input_line_double_space_gives_empty_key() {
    match parse_input_line("GET  k") {
        InputCommand::Get { key } => assert_eq!(key, ""),
        _ => panic!("expected a lookup"),
    }
}

#[test]
fn input_line_other_words_ignored() {
    assert!(matches!(parse_input_line("get k"), InputCommand::Ignored));
    assert!(matches!(parse_input_line(""), InputCommand::Ignored));
    assert!(matches!(parse_input_line("DELETE k"), InputCommand::Ignored));
    assert!(matches!(parse_input_line(" GET k"), InputCommand::Ignored));
}

#[test]
fn split_matches_std() {
    for (s, sep) in [("a;b;;c", ';'), ("", ';'), (";", ';'), ("abc", '='), ("é=ü=", '=')] {
        let expected: Vec<String> = s.split(sep).map(|p| p.to_string()).collect();
        assert_eq!(split_by_char(s, sep), expected);
    }
}

#[test]
fn contains_matches_std() {
    for (h, n) in [("hello", "ll"), ("hello", ""), ("", ""), ("", "a"), ("abc", "abcd"), ("aab", "ab"), ("xyz", "q")] {
        assert_eq!(contains_text(h, n), h.contains(n));
    }
}

use data_profiler::error::EngineError;
use data_profiler::ndjson::{in_brackets, lines_or_text, to_ndjson};

#[test]
fn array_becomes_one_line_for_each_element() {
    let text = "[{\"name\": \"Alice\"}, {\"name\": \"Bob\"}, 3, \"x\", null, [1, 2]]";
    assert_eq!(
        to_ndjson(text),
        Ok("{\"name\":\"Alice\"}\n{\"name\":\"Bob\"}\n3\n\"x\"\nnull\n[1,2]".to_string())
    );
}

#[test]
fn array_is_trimmed_before_it_is_read() {
    assert_eq!(to_ndjson(" \t\n[ {\"a\" : 1} ]\r\n"), Ok("{\"a\":1}".to_string()));
    assert_eq!(to_ndjson("\u{a0}[1,2]\u{3000}"), Ok("1\n2".to_string()));
    assert_eq!(to_ndjson("[]"), Ok(String::new()));
}

#[test]
fn other_text_is_passed_on_trimmed() {
    assert_eq!(to_ndjson("  {\"a\": 1}\n{\"a\": 2}\n"), Ok("{\"a\": 1}\n{\"a\": 2}".to_string()));
    assert_eq!(to_ndjson("{not valid json"), Ok("{not valid json".to_string()));
    assert_eq!(to_ndjson("[1, 2"), Ok("[1, 2".to_string()));
    assert_eq!(to_ndjson(""), Ok(String::new()));
    assert_eq!(to_ndjson("   "), Ok(String::new()));
    assert_eq!(to_ndjson("x\u{200b}"), Ok("x\u{200b}".to_string()));
}

#[test]
fn bracketed_text_that_is_no_json_is_an_error() {
    assert_eq!(to_ndjson("[not json]"), Err(EngineError::InvalidJson));
    assert_eq!(to_ndjson("[1, 2] [3]"), Err(EngineError::InvalidJson));
    assert_eq!(to_ndjson("[1,]"), Err(EngineError::InvalidJson));
    assert_eq!(EngineError::InvalidJson.message(), "Invalid JSON");
}

#[test]
fn brackets_are_told_by_the_two_ends() {
    assert!(in_brackets("[]"));
    assert!(in_brackets("[\u{00e9}]"));
    assert!(!in_brackets("["));
    assert!(!in_brackets("]"));
    assert!(!in_brackets(""));
    assert!(!in_brackets(" []"));
    assert!(!in_brackets("{}"));
}

#[test]
fn lines_are_joined_or_the_text_is_kept() {
    assert_eq!(lines_or_text("[1]", Some(vec!["1".to_string(), "2".to_string()])), "1\n2");
    assert_eq!(lines_or_text("[1]", Some(vec![])), "");
    assert_eq!(lines_or_text("{\"a\":1}", None), "{\"a\":1}");
}

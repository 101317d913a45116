use vsh::error::Error;
use vsh::json::{number_field, parse_document, text_field, text_list_field};

fn doc(text: &str) -> serde_json::Value {
    parse_document(text).unwrap()
}

fn number(literal: &str) -> Result<u32, Error> {
    number_field(&doc(&format!("{{\"n\": {}}}", literal)), "n")
}

#[test]
fn a_document_is_read_as_serde_json_reads_it() {
    let v = doc("{\"a\": {\"b\": [true, 2]}}");
    let expected: serde_json::Value = serde_json::from_str("{\"a\":{\"b\":[true,2]}}").unwrap();
    assert_eq!(v, expected);
    assert_eq!(parse_document("[1, 2").err(), Some(Error::MalformedPayload));
    assert_eq!(parse_document("").err(), Some(Error::MalformedPayload));
    assert_eq!(parse_document("{'a': 1}").err(), Some(Error::MalformedPayload));
}

#[test]
fn a_text_field_is_the_string_under_its_key() {
    let v = doc("{\"a\": \"x y\", \"b\": \"\", \"c\": \"tab\\there \\u00e9\"}");
    assert_eq!(text_field(&v, "a"), Ok("x y".to_string()));
    assert_eq!(text_field(&v, "b"), Ok(String::new()));
    assert_eq!(text_field(&v, "c"), Ok("tab\there é".to_string()));
}

#[test]
fn a_text_field_must_be_there_and_be_a_string() {
    let v = doc("{\"a\": 1, \"b\": null, \"c\": [\"x\"], \"d\": {\"e\": \"x\"}, \"f\": true}");
    for key in ["a", "b", "c", "d", "f", "missing", "A", ""] {
        assert_eq!(text_field(&v, key), Err(Error::MalformedPayload));
    }
    assert_eq!(text_field(&doc("[\"a\"]"), "a"), Err(Error::MalformedPayload));
    assert_eq!(text_field(&doc("\"a\""), "a"), Err(Error::MalformedPayload));
}

#[test]
fn a_number_is_read_from_a_string_of_digits() {
    assert_eq!(number("\"120\""), Ok(120));
    assert_eq!(number("\"0\""), Ok(0));
    assert_eq!(number("\"007\""), Ok(7));
    assert_eq!(number("\"+39\""), Ok(39));
    assert_eq!(number("\"4294967295\""), Ok(4294967295));
    assert_eq!(number("\"00000000004294967295\""), Ok(4294967295));
}

#[test]
fn a_number_is_read_from_a_number() {
    assert_eq!(number("120"), Ok(120));
    assert_eq!(number("0"), Ok(0));
    assert_eq!(number("4294967295"), Ok(4294967295));
}

#[test]
fn a_string_that_is_no_number_is_refused() {
    for literal in [
        "\"\"", "\"+\"", "\"-\"", "\"-1\"", "\"-0\"", "\"12a\"", "\"a12\"", "\" 12\"", "\"12 \"",
        "\"1_000\"", "\"1.5\"", "\"1e2\"", "\"0x10\"", "\"++1\"", "\"4294967296\"",
        "\"99999999999999999999\"", "\"not advertised\"", "\"١٢\"",
    ] {
        assert_eq!(number(literal), Err(Error::MalformedPayload), "{}", literal);
    }
}

#[test]
fn a_value_that_is_no_number_is_refused() {
    for literal in [
        "-1", "4294967296", "1.5", "120.0", "1e2", "null", "true", "[120]", "{\"n\": 120}",
        "18446744073709551616",
    ] {
        assert_eq!(number(literal), Err(Error::MalformedPayload), "{}", literal);
    }
    assert_eq!(number_field(&doc("{\"m\": 1}"), "n"), Err(Error::MalformedPayload));
    assert_eq!(number_field(&doc("[1]"), "n"), Err(Error::MalformedPayload));
}

#[test]
fn a_list_of_texts_keeps_its_order() {
    let v = doc("{\"caps\": [\"Router\", \"Switch\", \"\", \"Router\"], \"none\": []}");
    assert_eq!(
        text_list_field(&v, "caps"),
        Ok(vec!["Router".to_string(), "Switch".to_string(), String::new(), "Router".to_string()])
    );
    assert_eq!(text_list_field(&v, "none"), Ok(Vec::new()));
}

#[test]
fn a_list_of_texts_holds_nothing_else() {
    let v = doc(
        "{\"a\": [\"x\", 1], \"b\": \"x\", \"c\": {\"0\": \"x\"}, \"d\": [[\"x\"]], \"e\": [null]}",
    );
    for key in ["a", "b", "c", "d", "e", "missing"] {
        assert_eq!(text_list_field(&v, key), Err(Error::MalformedPayload));
    }
}

use ai_memory::json::JsonShape;
use ai_memory::openai_compat::{
    extract, first_json_object, strip_reasoning_blocks, truncate, unwrap_fence, Extraction,
    LlmError, OpenAiCompatProvider,
};

fn provider() -> OpenAiCompatProvider {
    OpenAiCompatProvider::new(
        "http://localhost:11434/v1".to_string(),
        None,
        "qwen".to_string(),
    )
}

#[test]
fn first_json_object_finds_balanced_object() {
    assert_eq!(first_json_object("noise {\"k\":1} more"), Some("{\"k\":1}"));
    assert_eq!(
        first_json_object("text {\"a\":{\"b\":2}} trailing"),
        Some("{\"a\":{\"b\":2}}"),
    );
    assert_eq!(first_json_object("no json here"), None);
}

#[test]
fn first_json_object_skips_braces_in_strings() {
    assert_eq!(
        first_json_object("x {\"md\":\"if (a) { } }\"} y"),
        Some("{\"md\":\"if (a) { } }\"}"),
    );
    assert_eq!(
        first_json_object("{\"q\":\"a \\\" } b\"} tail"),
        Some("{\"q\":\"a \\\" } b\"}"),
    );
    assert_eq!(first_json_object("{\"q\":\"\\\\\"}}"), Some("{\"q\":\"\\\\\"}"));
    assert_eq!(first_json_object("} {\"a\":1}"), Some("{\"a\":1}"));
    assert_eq!(first_json_object("\" {é}\""), Some("{é}"));
    assert_eq!(first_json_object(""), None);
}

#[test]
fn an_unclosed_brace_hides_no_object() {
    assert_eq!(first_json_object("{ {\"a\":1}"), Some("{\"a\":1}"));
    assert_eq!(first_json_object("set {x: then {\"a\":{}} end"), Some("{\"a\":{}}"));
    assert_eq!(first_json_object("{\"never\":{\"closed\":1}"), Some("{\"closed\":1}"));
    assert_eq!(first_json_object("{{{}"), Some("{}"));
    assert_eq!(first_json_object("{ {} {\"b\":2}"), Some("{}"));
    assert_eq!(first_json_object("{ {} {} }"), Some("{ {} {} }"));
    assert_eq!(first_json_object("{\"x\":\"{}\""), None);
    assert_eq!(first_json_object("{ \"{}\" {\"a\":1}"), Some("{\"a\":1}"));
    assert_eq!(first_json_object("{ {"), None);
}

#[test]
fn a_text_field_may_hold_anything() {
    for text in ["}{", "\"}", "\\", "\\\"", "a\n}\u{1}", "```json\n{}\n```", "</think>"] {
        let mut fields = serde_json::Map::new();
        fields.insert("k{".to_string(), serde_json::Value::String(text.to_string()));
        let object = serde_json::Value::Object(fields).to_string();
        let answer = format!("Here: {object} }} and more {{");
        assert_eq!(first_json_object(&answer), Some(object.as_str()));
    }
}

#[test]
fn looking_in_the_object_finds_all_of_it() {
    let found = first_json_object("pre {\"a\":{}} post").unwrap();
    assert_eq!(first_json_object(found), Some(found));
}

#[test]
fn strip_think_block_with_braces_before_json() {
    let input = "<think>maybe {a:1} or {b:2}?</think>\n{\"findings\":[]}";
    let cleaned = strip_reasoning_blocks(input);
    let v: serde_json::Value =
        serde_json::from_str(&cleaned).expect("should parse to the real JSON object");
    assert!(v.is_object());
    assert_eq!(v["findings"], serde_json::Value::Array(Vec::new()));
}

#[test]
fn strip_analysis_block() {
    let input = "<analysis>I reviewed the pages.</analysis>\n{\"key\":\"value\"}";
    let cleaned = strip_reasoning_blocks(input);
    let v: serde_json::Value = serde_json::from_str(&cleaned).expect("parse");
    assert_eq!(v["key"], "value");
}

#[test]
fn strip_json_code_fence() {
    let input = "```json\n{\"answer\":42}\n```";
    let cleaned = strip_reasoning_blocks(input);
    let v: serde_json::Value = serde_json::from_str(&cleaned).expect("parse");
    assert_eq!(v["answer"], 42);
}

#[test]
fn plain_json_unchanged() {
    let input = "{\"hello\":\"world\"}";
    let cleaned = strip_reasoning_blocks(input);
    assert_eq!(cleaned, input);
}

#[test]
fn strip_is_case_insensitive() {
    let input = "<THINK>uppercase</THINK>\n{\"ok\":true}";
    let cleaned = strip_reasoning_blocks(input);
    let v: serde_json::Value = serde_json::from_str(&cleaned).expect("parse");
    assert_eq!(v["ok"], true);
}

#[test]
fn every_reasoning_tag_is_stripped() {
    for tag in ["think", "thinking", "analysis", "reasoning", "ThInKiNg"] {
        let input = format!("<{tag}>line\nline {{</{tag}>rest");
        assert_eq!(strip_reasoning_blocks(&input), "rest");
    }
    assert_eq!(
        strip_reasoning_blocks("a<think>1</think>b<analysis>2</analysis>c"),
        "abc",
    );
    assert_eq!(strip_reasoning_blocks("<think>a</analysis>b</think>c"), "c");
    assert_eq!(strip_reasoning_blocks("<think>a<think>b</think>c</think>"), "c</think>");
    assert_eq!(
        strip_reasoning_blocks("<think>1</think> <THINK>2</THINK>\n{\"a\":1}"),
        "{\"a\":1}",
    );
    assert_eq!(strip_reasoning_blocks("<think>not closed"), "<think>not closed");
    assert_eq!(strip_reasoning_blocks("a </b> ` <think> c"), "a </b> ` <think> c");
    assert_eq!(strip_reasoning_blocks("</think> <think>"), "</think> <think>");
    assert_eq!(strip_reasoning_blocks("<analysis> a<b <think>x</think>y"), "<analysis> a<b y");
    assert_eq!(strip_reasoning_blocks("<think>x</thinking>"), "<think>x</thinking>");
}

#[test]
fn a_fence_without_a_language_is_unwrapped() {
    assert_eq!(strip_reasoning_blocks("```\n{\"a\":1}\n```"), "{\"a\":1}");
    assert_eq!(
        strip_reasoning_blocks("  ```json  \n  {\"a\":1}  \n  ```  "),
        "{\"a\":1}",
    );
    assert_eq!(strip_reasoning_blocks("see ```json\n{}\n``` ok"), "see ```json\n{}\n``` ok");
}

#[test]
fn the_payload_is_the_fence_or_the_text() {
    assert_eq!(unwrap_fence(" text ", Some("\u{3000}inner\u{a0}")), "inner");
    assert_eq!(unwrap_fence(" text ", None), "text");
    assert_eq!(unwrap_fence(" \t\r\n ", None), "");
}

#[test]
fn truncation_counts_bytes_and_marks_the_cut() {
    assert_eq!(truncate("abc", 3), "abc");
    assert_eq!(truncate("abcd", 3), "abc…");
    assert_eq!(truncate("éa", 2), "é…");
    assert_eq!(truncate("", 0), "");
}

#[test]
fn the_object_is_the_text_or_stands_in_it() {
    assert!(matches!(extract("{}", Some(JsonShape::Object)), Extraction::Whole));
    assert!(matches!(extract("[{}]", Some(JsonShape::Array)), Extraction::Inner("{}")));
    assert!(matches!(extract("a {} b", None), Extraction::Inner("{}")));
    assert!(matches!(extract("[1]", Some(JsonShape::Array)), Extraction::Absent));
}

#[test]
fn a_structured_answer_is_found_in_noise() {
    let p = provider();
    assert_eq!(p.complete_structured_raw("{\"a\":1}").unwrap(), "{\"a\":1}");
    assert_eq!(
        p.complete_structured_raw("Sure! {\"a\":{\"b\":2}} Bye").unwrap(),
        "{\"a\":{\"b\":2}}",
    );
    assert_eq!(
        p.complete_structured_raw("<think>{x}</think>\n```json\n{\"a\":1}\n```").unwrap(),
        "{\"a\":1}",
    );
    assert_eq!(p.complete_structured_raw("[{\"a\":1}]").unwrap(), "{\"a\":1}");
    for object in ["{\"\\u0061\":1}", "{ \"$k\":[]}", "{}", "{\"\\\"q\":null}"] {
        assert_eq!(p.complete_structured_raw(&format!("so: {object}")).unwrap(), object);
    }
    assert_eq!(p.complete_structured_raw("in { we say {\"a\":1}").unwrap(), "{\"a\":1}");
}

#[test]
fn an_answer_without_an_object_is_refused() {
    let p = provider();
    match p.complete_structured_raw("no json here") {
        Err(LlmError::UnexpectedShape(message)) => assert_eq!(
            message,
            "openai-compat response did not contain a JSON object",
        ),
        other => panic!("{other:?}"),
    }
    assert!(matches!(
        p.complete_structured_raw("text {not json} text"),
        Err(LlmError::Json(_)),
    ));
}

#[test]
fn a_provider_has_a_name_and_a_key() {
    let p = provider();
    assert_eq!(p.name(), "openai-compat");
    assert_eq!(p.model(), "qwen");
    assert_eq!(p.base_url(), "http://localhost:11434/v1");
    assert_eq!(p.api_key(), "dummy");
    let q = OpenAiCompatProvider::new(String::new(), Some("k".to_string()), "m".to_string());
    assert_eq!(q.api_key(), "k");
}

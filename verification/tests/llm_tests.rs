use osdat::llm::{
    analysis_from_json, dataset_prompt, description_from_reply, extract_json_from_text,
    parse_llm_response, website_prompt, JsonDocument, JsonMember, WEBSITE_PROMPT_HEAD,
    WEBSITE_PROMPT_TAIL,
};

fn language(langs: &[(String, u8)], name: &str) -> Option<u8> {
    langs.iter().find(|(k, _)| k == name).map(|(_, v)| *v)
}

#[test]
fn test_extract_json_from_text() {
    let text = r#"Here is the analysis:
{"necessity_of_login": 0, "search_for_dataset": 1}
That's the result."#;
    let json = extract_json_from_text(text);
    assert_eq!(json, r#"{"necessity_of_login": 0, "search_for_dataset": 1}"#);
}

#[test]
fn test_extract_json_no_json() {
    let text = "No JSON here";
    let json = extract_json_from_text(text);
    assert_eq!(json, "No JSON here");
}

#[test]
fn test_parse_llm_response_valid() {
    let response = r#"{"necessity_of_login": 0, "multiple_language_support": 1, "request_for_datasets": 0, "languages": {"bangla": 1, "english": 1}, "browse_datasets_by_category": 1, "filter_sort_datasets": 0, "search_for_dataset": 1, "user_guideline": 0, "number_of_category": 5}"#;
    let analysis = parse_llm_response(response);

    assert_eq!(analysis.necessity_of_login, Some(0));
    assert_eq!(analysis.multiple_language_support, Some(1));
    assert_eq!(analysis.search_for_dataset, Some(1));
    assert_eq!(analysis.number_of_category, Some(5));
    assert!(analysis.languages.is_some());
    let langs = analysis.languages.unwrap();
    assert_eq!(language(&langs, "bangla"), Some(1));
    assert_eq!(language(&langs, "english"), Some(1));
}

#[test]
fn test_parse_llm_response_invalid() {
    let response = "This is not JSON at all";
    let analysis = parse_llm_response(response);
    // All fields should be None when parsing fails
    assert!(analysis.necessity_of_login.is_none());
    assert!(analysis.languages.is_none());
}

#[test]
fn test_parse_llm_response_partial() {
    let response = r#"{"necessity_of_login": 1}"#;
    let analysis = parse_llm_response(response);
    assert_eq!(analysis.necessity_of_login, Some(1));
    assert!(analysis.multiple_language_support.is_none());
}

#[test]
fn extract_json_edge_cases() {
    assert_eq!(extract_json_from_text("} before {"), "} before {");
    assert_eq!(extract_json_from_text("a {x} b {y} c"), "{x}");
    assert_eq!(extract_json_from_text(r#"{"a": 1} and {"b": 2}"#), r#"{"a": 1}"#);
    assert_eq!(extract_json_from_text(r#"x {"a": {"b": "}"}, "c": "\"}"} y }"#), r#"{"a": {"b": "}"}, "c": "\"}"}"#);
    assert_eq!(extract_json_from_text("open { never closed"), "open { never closed");
    assert_eq!(extract_json_from_text(""), "");
    // cutting twice changes nothing
    let once = extract_json_from_text("pre {\"a\": 1} post");
    assert_eq!(extract_json_from_text(&once), once);
}

#[test]
fn parse_llm_response_reads_numbers_as_the_model_wrote_them() {
    let a = parse_llm_response(r#"prose {"necessity_of_login": 300, "number_of_category": "five", "languages": {"bangla": 1, "english": -1, "french": 2}} prose"#);
    // `as u8` keeps the low byte
    assert_eq!(a.necessity_of_login, Some(44));
    assert_eq!(a.number_of_category, None);
    let langs = a.languages.unwrap();
    assert_eq!(language(&langs, "bangla"), Some(1));
    assert_eq!(language(&langs, "english"), None);
    assert_eq!(language(&langs, "french"), Some(2));
    let b = parse_llm_response(r#"{"languages": ["bangla"], "user_guideline": 1.5}"#);
    assert!(b.languages.is_none());
    assert!(b.user_guideline.is_none());
}

#[test]
fn analysis_from_json_without_a_document() {
    let a = analysis_from_json(None);
    assert!(a.necessity_of_login.is_none() && a.languages.is_none() && a.number_of_category.is_none());
    let doc = JsonDocument::Object(vec![
        ("user_guideline".to_string(), JsonMember::Unsigned(257)),
        ("languages".to_string(), JsonMember::Object(vec![("x".to_string(), Some(3)), ("y".to_string(), None)])),
        ("number_of_category".to_string(), JsonMember::Other),
    ]);
    let b = analysis_from_json(Some(&doc));
    assert_eq!(b.user_guideline, Some(1));
    assert_eq!(b.languages, Some(vec![("x".to_string(), 3)]));
    assert_eq!(b.number_of_category, None);
    let c = analysis_from_json(Some(&JsonDocument::Other));
    assert!(c.user_guideline.is_none());
}

#[test]
fn website_prompt_truncates_long_html() {
    let short = "<html>hi</html>";
    assert_eq!(website_prompt(short), format!("{}{}{}", WEBSITE_PROMPT_HEAD, short, WEBSITE_PROMPT_TAIL));
    let long = "x".repeat(5000);
    let p = website_prompt(&long);
    assert_eq!(p, format!("{}{}{}", WEBSITE_PROMPT_HEAD, "x".repeat(4000), WEBSITE_PROMPT_TAIL));
    assert!(WEBSITE_PROMPT_TAIL.contains("\"number_of_category\": 1"));
    // three-byte characters: cut back to the last whole character within 4000 bytes
    let bangla = "ব".repeat(1500);
    let q = website_prompt(&bangla);
    assert_eq!(q, format!("{}{}{}", WEBSITE_PROMPT_HEAD, "ব".repeat(1333), WEBSITE_PROMPT_TAIL));
    let exact = "ব".repeat(1333) + "x";
    assert_eq!(website_prompt(&exact), format!("{}{}{}", WEBSITE_PROMPT_HEAD, exact, WEBSITE_PROMPT_TAIL));
}

#[test]
fn dataset_prompt_names_columns() {
    let p = dataset_prompt("/tmp/a.csv", "CSV", &["x".to_string(), "y".to_string()]);
    assert_eq!(
        p,
        "This is a CSV data file at path \"/tmp/a.csv\".\nThe columns are: x, y.\nWrite a brief one-sentence description of what this dataset likely contains.\nRespond with ONLY the description, nothing else."
    );
    let q = dataset_prompt("f", "PDF", &[]);
    assert!(q.contains("The columns are: unknown."));
    assert_eq!(description_from_reply("  A table of rainfall.\n"), "A table of rainfall.");
}

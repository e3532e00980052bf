use graphrag::error::CommonError;
use graphrag::payload::{
    isolate_payload, remove_matches, strip_code_fence, strip_reasoning, REASONING_PATTERN,
};
use graphrag::text::{normalize_label, normalize_relation, split_paragraphs, trim};

#[test]
fn trim_removes_white_space_at_both_ends() {
    assert_eq!(trim("  \t alice \n"), "alice");
    assert_eq!(trim("alice"), "alice");
    assert_eq!(trim(" \n "), "");
    assert_eq!(trim(""), "");
    assert_eq!(trim("a b"), "a b");
}

#[test]
fn label_key_has_underscores_and_no_apostrophes() {
    assert_eq!(normalize_label("Alice Smith"), "Alice_Smith");
    assert_eq!(normalize_label("O'Neil's bar"), "ONeils_bar");
    assert_eq!(normalize_label("a  b"), "a__b");
    assert_eq!(normalize_label(""), "");
}

#[test]
fn label_key_is_stable_under_a_second_normalization() {
    let once = normalize_label("Bob's Burgers Inc");
    assert_eq!(normalize_label(&once), once);
}

#[test]
fn relation_key_is_lowercase() {
    assert_eq!(normalize_relation("Works At"), "works_at");
    assert_eq!(normalize_relation("IS Bob's FRIEND"), "is_bobs_friend");
}

#[test]
fn paragraphs_are_split_on_blank_lines_and_trimmed() {
    assert_eq!(split_paragraphs("one\n\ntwo"), vec!["one", "two"]);
    assert_eq!(split_paragraphs("  one \n\n two\nlines \n\nthree"), vec!["one", "two\nlines", "three"]);
    assert_eq!(split_paragraphs("no break"), vec!["no break"]);
    assert_eq!(split_paragraphs(""), vec![""]);
    assert_eq!(split_paragraphs("a\n\n"), vec!["a", ""]);
    assert_eq!(split_paragraphs("a\n\n\nb"), vec!["a", "b"]);
    assert_eq!(split_paragraphs("a\n\n\n\nb"), vec!["a", "", "b"]);
}

#[test]
fn paragraphs_agree_with_the_standard_split() {
    let text = "Alice works at Acme.\n\nBob works at Acme.\n\n\n  tail ";
    let expected: Vec<String> = text.split("\n\n").map(|s| s.trim().to_string()).collect();
    assert_eq!(split_paragraphs(text), expected);
}

#[test]
fn reasoning_blocks_are_removed() {
    let raw = "<think>first\nthought</think>{\"a\": 1}<think>second</think>";
    assert_eq!(strip_reasoning(raw).unwrap(), "{\"a\": 1}");
    assert_eq!(strip_reasoning("plain").unwrap(), "plain");
    assert_eq!(strip_reasoning("<think>open only").unwrap(), "<think>open only");
}

#[test]
fn reasoning_is_matched_across_lines_and_as_short_as_possible() {
    assert_eq!(REASONING_PATTERN, "(?s)<think>.*?</think>");
    let raw = "a<think>x</think>b</think>c<think>\n\n</think>d";
    assert_eq!(strip_reasoning(raw).unwrap(), "ab</think>cd");
}

#[test]
fn matches_of_a_pattern_are_removed() {
    assert_eq!(remove_matches("[0-9]+", "a1b22c333").unwrap(), "abc");
    assert_eq!(remove_matches("x", "").unwrap(), "");
    assert_eq!(remove_matches("", "abc").unwrap(), "abc");
}

#[test]
fn a_pattern_that_does_not_compile_is_refused() {
    match remove_matches("(unclosed", "text") {
        Err(CommonError::RegexError(m)) => assert!(m.contains("unclosed group")),
        other => panic!("unexpected outcome: {:?}", other),
    }
}

#[test]
fn code_fence_is_removed() {
    assert_eq!(strip_code_fence("```json\n{\"a\": 1}\n```"), "{\"a\": 1}\n");
    assert_eq!(strip_code_fence("  ```{}```  "), "{}");
    assert_eq!(strip_code_fence("{}"), "{}");
    assert_eq!(strip_code_fence("json {}"), "{}");
    assert_eq!(strip_code_fence("jso"), "jso");
    assert_eq!(strip_code_fence("``````"), "");
}

#[test]
fn payload_is_isolated_from_reasoning_and_fence() {
    let raw = "<think>Let me see.</think>\n```json\n{\"entities\": [], \"relations\": []}\n```\n";
    assert_eq!(isolate_payload(raw).unwrap(), "{\"entities\": [], \"relations\": []}\n");
}

#[test]
fn trimming_agrees_with_the_standard_library() {
    for text in ["\u{a0}x y\u{2003}", "\t\r\n a \u{3000}", "\u{85}\u{1680}", "plain", "", " \u{200b} "] {
        assert_eq!(trim(text), text.trim());
    }
}

#[test]
fn label_keys_agree_with_the_standard_replacements() {
    for label in ["Alice Smith", "it's a 'test'", "  two  spaces ", "tab\tstays", "\u{a0}stays", ""] {
        assert_eq!(normalize_label(label), label.replace(" ", "_").replace("'", ""));
        assert_eq!(
            normalize_relation(label),
            label.replace(" ", "_").replace("'", "").to_lowercase()
        );
    }
}

#[test]
fn fences_agree_with_the_standard_trimming() {
    for raw in ["```json\n{\"a\": 1}\n```", " `x` ", "json", "jsonjson x", "`` json\t{} ``", "j s o n", ""] {
        let mut expected = raw.trim().trim_matches('`').to_string();
        if expected.starts_with("json") {
            expected = expected.replacen("json", "", 1).trim_start().to_string();
        }
        assert_eq!(strip_code_fence(raw), expected);
    }
}

use dispatch::substitution::find_unmatched_placeholders;
use dispatch::substitution::substitute;
use dispatch::substitution::validate_text;
use dispatch::substitution::Substitutions;

fn row(pairs: &[(&str, &str)]) -> Substitutions {
    let mut row = Substitutions::new();
    for (k, v) in pairs {
        row.insert(k.to_string(), v.to_string());
    }
    row
}

#[test]
fn substitute_replaces_known_keys() {
    let r = row(&[("name", "Ann"), ("code", "42")]);
    let out = substitute("Hello {name}, your code is {code}", &r);
    assert_eq!(out, "Hello Ann, your code is 42");
}

#[test]
fn substitute_leaves_unknown_keys_literal() {
    let r = row(&[("name", "Ann")]);
    let out = substitute("Hello {name}, your code is {code}", &r);
    assert_eq!(out, "Hello Ann, your code is {code}");
}

#[test]
fn substitute_never_rescans_replacements() {
    let r = row(&[("k", "{other}"), ("other", "X")]);
    let out = substitute("{k}", &r);
    assert_eq!(out, "{other}");
}

#[test]
fn substitute_space_cancels_token() {
    let r = row(&[("no", "nope"), ("no key", "nope")]);
    let out = substitute("{no key} stays", &r);
    assert_eq!(out, "{no key} stays");
}

#[test]
fn substitute_brace_restarts_token() {
    let r = row(&[("b", "X")]);
    let out = substitute("{a{b}", &r);
    assert_eq!(out, "{aX");
}

#[test]
fn substitute_unterminated_token_is_literal() {
    let r = row(&[("name", "Ann")]);
    let out = substitute("Hello {name", &r);
    assert_eq!(out, "Hello {name");
}

#[test]
fn substitute_handles_adjacent_tokens() {
    let r = row(&[("a", "1"), ("b", "2")]);
    assert_eq!(substitute("{a}{b}{a}", &r), "121");
    assert_eq!(substitute("{a}{c}{b}", &r), "1{c}2");
}

#[test]
fn substitute_empty_template() {
    let r = row(&[("name", "Ann")]);
    assert_eq!(substitute("", &r), "");
}

#[test]
fn substitute_without_placeholders_is_identity() {
    let r = row(&[("name", "Ann")]);
    assert_eq!(substitute("plain text, no tokens", &r), "plain text, no tokens");
}

#[test]
fn insert_shadows_earlier_binding() {
    let mut r = Substitutions::new();
    r.insert("k".to_string(), "first".to_string());
    r.insert("k".to_string(), "second".to_string());
    assert_eq!(substitute("{k}", &r), "second");
    assert_eq!(r.get("k").unwrap().as_str(), "second");
    assert!(r.contains_key("k"));
    assert!(!r.contains_key("missing"));
}

#[test]
fn find_unmatched_reports_exactly_the_missing_key() {
    let r = row(&[("name", "Ann")]);
    let keys = find_unmatched_placeholders("Hello {name}, your code is {code}", &r);
    assert_eq!(keys, vec!["code".to_string()]);
}

#[test]
fn find_unmatched_ignores_token_cancelled_by_space() {
    let r = row(&[]);
    let keys = find_unmatched_placeholders("Hi {first last} {code}", &r);
    assert_eq!(keys, vec!["code".to_string()]);
}

#[test]
fn find_unmatched_reports_every_occurrence_in_order() {
    let r = row(&[("b", "1")]);
    let keys = find_unmatched_placeholders("{a}{b}{c}{a}", &r);
    assert_eq!(keys, vec!["a".to_string(), "c".to_string(), "a".to_string()]);
}

#[test]
fn validate_text_reports_like_the_finder() {
    let r = row(&[("name", "Ann")]);
    let keys = validate_text("Hello {name}, your code is {code}", &r);
    assert_eq!(keys, vec!["code".to_string()]);
}

//! The option resolver's plain computation: cursors, suggestions, and the
//! boolean default.

use tyedev::configuration::{
    enum_start_cursor, parse_bool_str, DevOptionPrompt, ProposalsAutocomplete,
};
use tyedev::init::FeaturesAutocomplete;
use tyedev::registry::{parse_devcontainer_index, BooleanDefaultType, DevOption};
use tyedev::textmatch::lowercase_contains;

#[test]
fn boolean_defaults_parse_as_bools() {
    assert_eq!(parse_bool_str("true"), Some(true));
    assert_eq!(parse_bool_str("false"), Some(false));
    assert_eq!(parse_bool_str("yes"), None);
}

#[test]
fn cursor_starts_at_the_default() {
    let values = vec!["a".to_string(), "b".to_string(), "c".to_string()];
    assert_eq!(enum_start_cursor(&values, "b"), 1);
    assert_eq!(enum_start_cursor(&values, "zzz"), 0);
}

#[test]
fn default_is_prepended_when_not_proposed() {
    let values = vec!["bookworm".to_string(), "jammy".to_string()];
    let ac = ProposalsAutocomplete::new(&"focal".to_string(), &values);
    let all = ac.get_suggestions("");
    assert_eq!(all, vec!["focal".to_string(), "bookworm".to_string(), "jammy".to_string()]);
    let ac = ProposalsAutocomplete::new(&"jammy".to_string(), &values);
    let all = ac.get_suggestions("");
    assert_eq!(all, vec!["bookworm".to_string(), "jammy".to_string()]);
}

#[test]
fn suggestions_are_case_insensitive_prefixes() {
    let values = vec!["Bookworm".to_string(), "bullseye".to_string(), "jammy".to_string()];
    let ac = ProposalsAutocomplete::new(&"".to_string(), &values);
    let hits = ac.get_suggestions("B");
    assert_eq!(hits, vec!["Bookworm".to_string(), "bullseye".to_string()]);
}

#[test]
fn completion_takes_the_unique_match() {
    let values = vec!["bookworm".to_string(), "bullseye".to_string()];
    let ac = ProposalsAutocomplete::new(&"".to_string(), &values);
    assert_eq!(ac.get_completion("book", None), Some("bookworm".to_string()));
    assert_eq!(ac.get_completion("b", None), None);
    assert_eq!(ac.get_completion("b", Some("bullseye".to_string())), Some("bullseye".to_string()));
}

#[test]
fn feature_ids_complete_by_containment() {
    let text = [
        r#"{"collections": [{"sourceInformation": {"name": "N", "maintainer": "m", "contact": "c", "repository": "r", "ociReference": "o"},"#,
        r#" "features": [{"id": "ghcr.io/devcontainers/git", "version": "1", "name": "G", "owner": "o", "majorVersion": "1"},"#,
        r#"              {"id": "ghcr.io/devcontainers/node", "version": "1", "name": "N", "owner": "o", "majorVersion": "1"}],"#,
        r#" "templates": []}]}"#,
    ]
    .join("");
    let load = parse_devcontainer_index(text.as_bytes()).unwrap();
    let ac = FeaturesAutocomplete::new(&load.index, true);
    let hits = ac.get_suggestions("git");
    assert_eq!(hits, vec!["ghcr.io/devcontainers/git".to_string()]);
    assert_eq!(ac.get_completion("node", None), Some("ghcr.io/devcontainers/node".to_string()));
}

#[test]
fn prompt_carries_name_and_option() {
    let o = DevOption::Boolean {
        default: BooleanDefaultType::Boolean(false),
        description: Some("Include it?".to_string()),
    };
    let p = DevOptionPrompt::new("moby", &o);
    assert_eq!(p.name, "moby");
    assert_eq!(p.inner.configured_default(), "false");
}

#[test]
fn lowercase_contains_lowers_both_sides() {
    assert!(lowercase_contains("DEPRECATED", "this one is Deprecated indeed"));
    assert!(!lowercase_contains("deprecated", "maintained"));
}

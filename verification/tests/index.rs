//! The tolerant two-level index decode, the query surface, and search.

use tyedev::registry::{parse_devcontainer_index, IndexError};
use tyedev::search::{search_index, CollectionCategory, SearchFields};

fn sample_index_text() -> String {
    [
        r#"{"collections": ["#,
        r#"{"sourceInformation": {"name": "First", "maintainer": "alice", "contact": "c", "repository": "r", "ociReference": "ghcr.io/first"},"#,
        r#" "features": ["#,
        r#"   {"id": "f1", "version": "1.0.0", "name": "Feature One", "owner": "alice", "majorVersion": "1"},"#,
        r#"   {"version": "broken, id missing"},"#,
        r#"   {"id": "f2", "version": "2.0.0", "name": "Feature Two", "owner": "alice", "majorVersion": "2", "deprecated": true}"#,
        r#" ],"#,
        r#" "templates": ["#,
        r#"   {"id": "t1", "version": "1.0.0", "name": "Template One", "owner": "alice", "type": "image", "fileCount": 3},"#,
        r#"   {"id": 42, "version": "broken"}"#,
        r#" ]},"#,
        r#"{"sourceInformation": {"name": "Second", "maintainer": "DEPRECATED bob", "contact": "c", "repository": "r", "ociReference": "ghcr.io/second"},"#,
        r#" "features": [],"#,
        r#" "templates": ["#,
        r#"   {"id": "t2", "version": "1.0.0", "name": "Template Two", "owner": "bob"}"#,
        r#" ]},"#,
        r#"{"sourceInformation": {"name": "Broken"}, "features": [], "templates": []}"#,
        r#"]}"#,
    ]
    .join("\n")
}

#[test]
fn malformed_entries_are_skipped_alone() {
    let text = sample_index_text();
    let load = parse_devcontainer_index(text.as_bytes()).unwrap();
    // The third collection has a malformed source block: skipped whole.
    assert_eq!(load.index.collections().len(), 2);
    assert_eq!(load.skipped_collections, 1);
    // One feature and one template element are malformed: skipped alone.
    assert_eq!(load.features_count, 2);
    assert_eq!(load.skipped_features, 1);
    assert_eq!(load.templates_count, 2);
    assert_eq!(load.skipped_templates, 1);
    let first = &load.index.collections()[0];
    assert_eq!(first.features.len(), 2);
    assert_eq!(first.features[0].id, "f1");
    assert_eq!(first.features[1].id, "f2");
    assert_eq!(first.templates.len(), 1);
    assert_eq!(first.templates[0].id, "t1");
    assert_eq!(first.templates[0].file_count, Some(3));
}

#[test]
fn missing_collections_key_is_fatal() {
    let r = parse_devcontainer_index(b"{\"other\": 1}");
    assert!(matches!(r, Err(IndexError::InvalidFormat)));
}

#[test]
fn unreadable_document_is_fatal() {
    let r = parse_devcontainer_index(b"{oops");
    assert!(matches!(r, Err(IndexError::InvalidJson)));
}

#[test]
fn feature_filter_is_per_item() {
    let text = sample_index_text();
    let load = parse_devcontainer_index(text.as_bytes()).unwrap();
    let visible = load.index.iter_features(false);
    assert_eq!(visible.len(), 1);
    assert_eq!(visible[0].id, "f1");
    let all = load.index.iter_features(true);
    assert_eq!(all.len(), 2);
}

#[test]
fn template_filter_is_per_collection() {
    let text = sample_index_text();
    let load = parse_devcontainer_index(text.as_bytes()).unwrap();
    // The second collection's maintainer marks it deprecated: its template
    // disappears wholesale from the filtered walk.
    let visible = load.index.iter_templates(false);
    assert_eq!(visible.len(), 1);
    assert_eq!(visible[0].id, "t1");
    let all = load.index.iter_templates(true);
    assert_eq!(all.len(), 2);
}

#[test]
fn lookups_always_include_deprecated() {
    let text = sample_index_text();
    let load = parse_devcontainer_index(text.as_bytes()).unwrap();
    assert!(load.index.get_feature("f2").is_some());
    assert!(load.index.get_template("t2").is_some());
    assert!(load.index.get_feature("nope").is_none());
    assert!(load.index.get_collection("ghcr.io/second").is_some());
    assert!(load.index.get_collection("ghcr.io/third").is_none());
}

#[test]
fn search_matches_case_insensitively() {
    let text = sample_index_text();
    let load = parse_devcontainer_index(text.as_bytes()).unwrap();
    let hits = search_index(&load.index, &CollectionCategory::Features, "FEATURE", &None, true);
    assert_eq!(hits.len(), 2);
    assert_eq!(hits[0].id, "f1");
    let hits = search_index(&load.index, &CollectionCategory::Templates, "one", &None, false);
    assert_eq!(hits.len(), 1);
    assert_eq!(hits[0].id, "t1");
}

#[test]
fn search_keywords_need_exact_membership() {
    let text = [
        r#"{"collections": [{"sourceInformation": {"name": "N", "maintainer": "m", "contact": "c", "repository": "r", "ociReference": "o"},"#,
        r#" "features": [{"id": "k1", "version": "1", "name": "KW", "owner": "o", "majorVersion": "1", "keywords": ["docker", "git"]}],"#,
        r#" "templates": []}]}"#,
    ]
    .join("");
    let load = parse_devcontainer_index(text.as_bytes()).unwrap();
    let fields = Some(vec![SearchFields::Keywords]);
    let hits = search_index(&load.index, &CollectionCategory::Features, "git", &fields, true);
    assert_eq!(hits.len(), 1);
    let hits = search_index(&load.index, &CollectionCategory::Features, "gi", &fields, true);
    assert_eq!(hits.len(), 0);
}

#[test]
fn vscode_extensions_are_read_from_customizations() {
    let text = [
        r#"{"collections": [{"sourceInformation": {"name": "N", "maintainer": "m", "contact": "c", "repository": "r", "ociReference": "o"},"#,
        r#" "features": [{"id": "c1", "version": "1", "name": "C", "owner": "o", "majorVersion": "1","#,
        r#"   "customizations": {"vscode": {"extensions": ["dbaeumer.vscode-eslint", 7, "esbenp.prettier-vscode"]}}}],"#,
        r#" "templates": []}]}"#,
    ]
    .join("");
    let load = parse_devcontainer_index(text.as_bytes()).unwrap();
    let feature = load.index.get_feature("c1").unwrap();
    let exts = feature.customizations.as_ref().unwrap().vscode_extensions().unwrap();
    assert_eq!(exts, vec!["dbaeumer.vscode-eslint".to_string(), "esbenp.prettier-vscode".to_string()]);
}

#[test]
fn string_option_shapes_are_told_apart() {
    let text = [
        r#"{"collections": [{"sourceInformation": {"name": "N", "maintainer": "m", "contact": "c", "repository": "r", "ociReference": "o"},"#,
        r#" "features": [{"id": "s1", "version": "1", "name": "S", "owner": "o", "majorVersion": "1","#,
        r#"   "options": {"kind": {"type": "string", "default": "a", "enum": ["a", "b"]},"#,
        r#"               "free": {"type": "string", "default": "x", "proposals": ["x", "y"]}}}],"#,
        r#" "templates": []}]}"#,
    ]
    .join("");
    let load = parse_devcontainer_index(text.as_bytes()).unwrap();
    let feature = load.index.get_feature("s1").unwrap();
    let options = feature.options.as_ref().unwrap();
    let kind = &options.iter().find(|(n, _)| n == "kind").unwrap().1;
    let free = &options.iter().find(|(n, _)| n == "free").unwrap().1;
    assert!(matches!(
        kind,
        tyedev::registry::DevOption::String(tyedev::registry::StringDevOption::EnumValues { .. })
    ));
    assert!(matches!(
        free,
        tyedev::registry::DevOption::String(tyedev::registry::StringDevOption::Proposals { .. })
    ));
}

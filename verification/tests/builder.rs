//! The feature accumulator and the configured defaults of options.

use tyedev::init::{DevOptionPromptValue, FeatureEntryBuilder};
use tyedev::json::{to_json_bytes_with_tabs, JsonValue};
use tyedev::registry::{BooleanDefaultType, DevOption, StringDevOption};

#[test]
fn test_feature_entry_builder_as_value() {
    let mut feature_entry_builder = FeatureEntryBuilder::new();

    let git_id = "ghcr.io/devcontainers/git:1";
    let git_options = JsonValue::Obj(vec![]);
    feature_entry_builder.insert_entry(git_id.to_owned(), git_options);

    let dind_id = "ghcr.io/devcontainers/docker-in-docker:2";
    let dind_options = JsonValue::Obj(vec![("moby".to_string(), JsonValue::Bool(false))]);
    feature_entry_builder.insert_entry(dind_id.to_owned(), dind_options);

    let value = feature_entry_builder.as_value();
    let json_str = String::from_utf8(to_json_bytes_with_tabs(&value)).unwrap();

    println!("{{\"features\": {json_str}\n}}");
}

#[test]
fn boolean_string_default_is_kept() {
    let o = DevOption::Boolean {
        default: BooleanDefaultType::String("true".to_string()),
        description: None,
    };
    assert_eq!(o.configured_default(), "true");
}

#[test]
fn boolean_bool_default_renders_as_text() {
    let o = DevOption::Boolean {
        default: BooleanDefaultType::Boolean(true),
        description: None,
    };
    assert_eq!(o.configured_default(), "true");
}

#[test]
fn proposals_fall_back_to_first_proposal() {
    let o = DevOption::String(StringDevOption::Proposals {
        default: None,
        description: None,
        proposals: Some(vec!["a".to_string(), "b".to_string()]),
    });
    assert_eq!(o.configured_default(), "a");
}

#[test]
fn proposals_without_anything_default_to_empty() {
    let o = DevOption::String(StringDevOption::Proposals {
        default: None,
        description: None,
        proposals: None,
    });
    assert_eq!(o.configured_default(), "");
}

#[test]
fn enum_default_is_kept() {
    let o = DevOption::String(StringDevOption::EnumValues {
        default: "lts".to_string(),
        description: None,
        enum_values: vec!["lts".to_string(), "latest".to_string()],
    });
    assert_eq!(o.configured_default(), "lts");
}

#[test]
fn non_default_values_alone_are_persisted() {
    let feature = tyedev::registry::Feature {
        id: "f".to_string(),
        version: "1".to_string(),
        name: "F".to_string(),
        description: None,
        documentation_url: None,
        license_url: None,
        keywords: None,
        options: Some(vec![
            (
                "moby".to_string(),
                DevOption::Boolean {
                    default: BooleanDefaultType::Boolean(true),
                    description: None,
                },
            ),
            (
                "variant".to_string(),
                DevOption::String(StringDevOption::Proposals {
                    default: Some("jammy".to_string()),
                    description: None,
                    proposals: None,
                }),
            ),
        ]),
        container_env: None,
        privileged: None,
        init: None,
        cap_add: None,
        security_opt: None,
        entrypoint: None,
        customizations: None,
        installs_after: None,
        lecagy_ids: None,
        deprecated: None,
        owner: "o".to_string(),
        major_version: "2".to_string(),
    };
    let mut builder = FeatureEntryBuilder::new();
    let resolved = vec![
        ("moby".to_string(), DevOptionPromptValue::Boolean(false)),
        ("variant".to_string(), DevOptionPromptValue::String("jammy".to_string())),
    ];
    builder.use_resolved_values(&feature, &resolved);
    let bytes = to_json_bytes_with_tabs(&builder.as_value());
    // Only the non-default value survives, under the id:majorVersion key.
    assert_eq!(
        bytes.as_slice(),
        b"{\n\t\"f:2\": {\n\t\t\"moby\": false\n\t}\n}"
    );
}

#[test]
fn default_values_make_an_empty_entry() {
    let feature = tyedev::registry::Feature {
        id: "f".to_string(),
        version: "1".to_string(),
        name: "F".to_string(),
        description: None,
        documentation_url: None,
        license_url: None,
        keywords: None,
        options: None,
        container_env: None,
        privileged: None,
        init: None,
        cap_add: None,
        security_opt: None,
        entrypoint: None,
        customizations: None,
        installs_after: None,
        lecagy_ids: None,
        deprecated: None,
        owner: "o".to_string(),
        major_version: "1".to_string(),
    };
    let mut builder = FeatureEntryBuilder::new();
    builder.use_default_values(&feature);
    assert_eq!(builder.len(), 1);
    let bytes = to_json_bytes_with_tabs(&builder.as_value());
    assert_eq!(bytes.as_slice(), b"{\n\t\"f:1\": {}\n}");
}

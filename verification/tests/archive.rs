//! The archive walk: the synthetic start point, substitution during
//! materialization, single-file retargeting, and the feature merge.

use tyedev::init::{FileAction, InitError, TemplateBuilder};
use tyedev::json::{push_bytes, JsonValue};
use tyedev::registry::{Template, TemplateType};
use tyedev::tarball::{push_tar_header, push_zeros};

const MTIME: u64 = 1700000000;

#[test]
fn test_create_empty_start_point() {
    let _template_builder = TemplateBuilder::create_empty_start_point(MTIME);
}

/// A small archive with one configuration file under `.devcontainer/`.
fn archive_with_config(config_body: &[u8]) -> Vec<u8> {
    let mut bytes: Vec<u8> = Vec::new();
    push_tar_header(&mut bytes, b".devcontainer/", 0o775, 1000, 1000, 0, MTIME, 0x35);
    push_tar_header(
        &mut bytes,
        b".devcontainer/devcontainer.json",
        0o664,
        1000,
        1000,
        config_body.len() as u64,
        MTIME,
        0x30,
    );
    push_bytes(&mut bytes, config_body);
    push_zeros(&mut bytes, (512 - config_body.len() % 512) % 512);
    push_zeros(&mut bytes, 1024);
    bytes
}

fn image_template(file_count: Option<i32>) -> Template {
    Template {
        id: "t".to_string(),
        version: "1".to_string(),
        name: "T".to_string(),
        description: None,
        documentation_url: None,
        license_url: None,
        options: None,
        platforms: None,
        publisher: None,
        keywords: None,
        template_type: Some(TemplateType::Image),
        file_count,
        feature_ids: None,
        owner: "o".to_string(),
    }
}

#[test]
fn synthetic_archive_round_trips() {
    let mut builder = TemplateBuilder::create_empty_start_point(MTIME);
    builder
        .use_resolved_values(&vec![("imageVariant".to_string(), "bookworm".to_string())])
        .unwrap();
    let plan = builder.apply_context_and_features(false).unwrap();
    assert!(plan.missing.is_empty());
    assert_eq!(plan.actions.len(), 2);
    match &plan.actions[0] {
        FileAction::Dir(p) => assert_eq!(p, ".devcontainer/"),
        _ => panic!("expected a directory"),
    }
    match &plan.actions[1] {
        FileAction::Write(p, content) => {
            assert_eq!(p, ".devcontainer/devcontainer.json");
            let text = String::from_utf8(content.clone()).unwrap();
            assert!(text.contains("mcr.microsoft.com/devcontainers/base:bookworm"));
            assert!(!text.contains("${templateOption"));
        },
        _ => panic!("expected the configuration file"),
    }
    // The template manifest is on the skip list: nothing writes it.
    for action in &plan.actions {
        let p = match action {
            FileAction::Dir(p) => p,
            FileAction::Write(p, _) => p,
        };
        assert!(!p.ends_with("devcontainer-template.json"));
    }
}

#[test]
fn synthetic_manifest_declares_the_image_variant() {
    let builder = TemplateBuilder::create_empty_start_point(MTIME);
    let config = builder.config.as_ref().unwrap();
    assert_eq!(config.options.as_ref().unwrap()[0].0, "imageVariant");
    assert_eq!(config.options.as_ref().unwrap()[0].1.configured_default(), "jammy");
    assert_eq!(config.file_count, Some(2));
}

#[test]
fn replace_config_reads_the_manifest_back() {
    let mut builder = TemplateBuilder::create_empty_start_point(MTIME);
    builder.config = None;
    builder.replace_config().unwrap();
    let config = builder.config.as_ref().unwrap();
    assert_eq!(config.id, "tyedev-base-template");
    assert_eq!(config.version, "1.0.0");
}

#[test]
fn missing_manifest_is_not_found() {
    let mut bytes: Vec<u8> = Vec::new();
    push_tar_header(&mut bytes, b"README.md", 0o664, 1000, 1000, 0, MTIME, 0x30);
    push_zeros(&mut bytes, 1024);
    let mut builder = TemplateBuilder::new(None, bytes);
    assert_eq!(builder.replace_config(), Err(InitError::NotFound));
}

#[test]
fn corrupt_archive_is_fatal() {
    let mut bytes = vec![0x51u8; 512];
    bytes[156] = 0x30;
    let mut builder = TemplateBuilder::new(None, bytes);
    assert_eq!(builder.replace_config(), Err(InitError::MalformedArchive));
}

#[test]
fn defaults_need_a_configuration() {
    let mut builder = TemplateBuilder::new(None, Vec::new());
    assert_eq!(builder.use_default_values(), Err(InitError::MissingConfig));
}

#[test]
fn large_image_template_keeps_its_path() {
    let body = b"{\n  \"name\": \"n\"\n}";
    let mut builder = TemplateBuilder::new(Some(image_template(Some(5))), archive_with_config(body));
    builder.use_default_values().unwrap();
    let plan = builder.apply_context_and_features(true).unwrap();
    assert!(plan.single_file_declined);
    match &plan.actions[1] {
        FileAction::Write(p, _) => assert_eq!(p, ".devcontainer/devcontainer.json"),
        _ => panic!("expected the configuration file"),
    }
}

#[test]
fn small_image_template_is_retargeted() {
    let body = b"{\n  \"name\": \"n\"\n}";
    let mut builder = TemplateBuilder::new(Some(image_template(Some(3))), archive_with_config(body));
    builder.use_default_values().unwrap();
    let plan = builder.apply_context_and_features(true).unwrap();
    assert!(!plan.single_file_declined);
    match &plan.actions[1] {
        FileAction::Write(p, _) => assert_eq!(p, ".devcontainer.json"),
        _ => panic!("expected the configuration file"),
    }
}

#[test]
fn compose_template_is_never_retargeted() {
    let body = b"{}";
    let mut template = image_template(None);
    template.template_type = Some(TemplateType::DockerCompose);
    let mut builder = TemplateBuilder::new(Some(template), archive_with_config(body));
    builder.use_default_values().unwrap();
    let plan = builder.apply_context_and_features(true).unwrap();
    assert!(plan.single_file_declined);
}

#[test]
fn empty_accumulator_leaves_bytes_verbatim() {
    let body = b"// a comment the merge would strip\n{\n    \"name\": \"kept\"\n}\n";
    let mut builder = TemplateBuilder::new(Some(image_template(None)), archive_with_config(body));
    builder.use_default_values().unwrap();
    let plan = builder.apply_context_and_features(false).unwrap();
    match &plan.actions[1] {
        FileAction::Write(_, content) => assert_eq!(content.as_slice(), &body[..]),
        _ => panic!("expected the configuration file"),
    }
}

#[test]
fn one_feature_entry_is_merged_tab_indented() {
    // Four-space indentation and a comment in the source; the merge
    // re-prints with tabs and drops the comment.
    let body = b"// will be stripped\n{\n    \"name\": \"x\"\n}";
    let mut builder = TemplateBuilder::new(Some(image_template(None)), archive_with_config(body));
    builder.use_default_values().unwrap();
    builder
        .features
        .insert_entry("ghcr.io/x/y:1".to_string(), JsonValue::Obj(vec![]));
    let plan = builder.apply_context_and_features(false).unwrap();
    match &plan.actions[1] {
        FileAction::Write(_, content) => {
            assert_eq!(
                content.as_slice(),
                b"{\n\t\"name\": \"x\",\n\t\"features\": {\n\t\t\"ghcr.io/x/y:1\": {}\n\t}\n}"
            );
        },
        _ => panic!("expected the configuration file"),
    }
}

#[test]
fn accumulated_entries_win_on_collision() {
    let body = b"{\"features\": {\"ghcr.io/x/y:1\": {\"old\": true}, \"ghcr.io/a/b:2\": {}}}";
    let mut builder = TemplateBuilder::new(Some(image_template(None)), archive_with_config(body));
    builder.use_default_values().unwrap();
    builder
        .features
        .insert_entry("ghcr.io/x/y:1".to_string(), JsonValue::Obj(vec![]));
    let plan = builder.apply_context_and_features(false).unwrap();
    match &plan.actions[1] {
        FileAction::Write(_, content) => {
            let text = String::from_utf8(content.clone()).unwrap();
            assert!(text.contains("\"ghcr.io/x/y:1\": {}"));
            assert!(!text.contains("old"));
            assert!(text.contains("ghcr.io/a/b:2"));
        },
        _ => panic!("expected the configuration file"),
    }
}

#[test]
fn unparseable_configuration_fails_the_merge() {
    let body = b"[1, 2";
    let mut builder = TemplateBuilder::new(Some(image_template(None)), archive_with_config(body));
    builder.use_default_values().unwrap();
    builder
        .features
        .insert_entry("ghcr.io/x/y:1".to_string(), JsonValue::Obj(vec![]));
    assert!(matches!(
        builder.apply_context_and_features(false),
        Err(InitError::InvalidData)
    ));
}

#[test]
fn feature_manifest_is_read_from_an_archive() {
    let manifest = br#"{"id": "git", "version": "1.1.0", "name": "Git", "owner": "devcontainers", "majorVersion": "1"}"#;
    let mut bytes: Vec<u8> = Vec::new();
    push_tar_header(
        &mut bytes,
        b"devcontainer-feature.json",
        0o664,
        1000,
        1000,
        manifest.len() as u64,
        MTIME,
        0x30,
    );
    push_bytes(&mut bytes, manifest);
    push_zeros(&mut bytes, (512 - manifest.len() % 512) % 512);
    push_zeros(&mut bytes, 1024);
    let feature = tyedev::init::feature_from_archive(&bytes).unwrap();
    assert_eq!(feature.id, "git");
    assert_eq!(feature.major_version, "1");
}

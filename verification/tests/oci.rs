//! Registry references, parsed through the registry client.

use tyedev::oci_ref::parse_oci_reference;

#[test]
fn test_parse() {
    let oci_ref = parse_oci_reference("ghcr.io/devcontainers/templates/rust").unwrap();
    assert_eq!(oci_ref.reference_string(), "ghcr.io/devcontainers/templates/rust:latest");
}

#[test]
fn test_id() {
    let oci_ref = parse_oci_reference("ghcr.io/devcontainers/templates/cpp:2").unwrap();
    assert_eq!(oci_ref.id(), "ghcr.io/devcontainers/templates/cpp");
}

#[test]
fn test_tag_name() {
    let oci_ref = parse_oci_reference("github-actions/templates/release:lts").unwrap();
    assert_eq!(oci_ref.tag_name(), "lts");
}

#[test]
fn empty_reference_does_not_parse() {
    assert!(parse_oci_reference("").is_none());
}

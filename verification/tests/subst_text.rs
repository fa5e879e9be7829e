//! Placeholder substitution at the byte level.

use tyedev::subst::{substitute, TemplateContext};

#[test]
fn placeholder_is_replaced() {
    let mut ctx = TemplateContext::new();
    ctx.insert("name", "World");
    let input = b"Hello ${templateOption: name }".to_vec();
    let (out, missing) = substitute(&input, &ctx);
    assert_eq!(out.as_slice(), b"Hello World");
    assert!(missing.is_empty());
}

#[test]
fn unresolved_placeholder_becomes_empty_with_warning() {
    let ctx = TemplateContext::new();
    let input = b"Hello ${templateOption: name }".to_vec();
    let (out, missing) = substitute(&input, &ctx);
    assert_eq!(out.as_slice(), b"Hello ");
    assert_eq!(missing.len(), 1);
    assert_eq!(missing[0].as_slice(), b"name");
}

#[test]
fn substitution_needs_no_valid_utf8() {
    let mut ctx = TemplateContext::new();
    ctx.insert("v", "x");
    let mut input = vec![0xffu8, 0xfe];
    input.extend_from_slice(b"${templateOption:v}");
    input.push(0xff);
    let (out, missing) = substitute(&input, &ctx);
    assert_eq!(out.as_slice(), &[0xffu8, 0xfe, b'x', 0xff][..]);
    assert!(missing.is_empty());
}

#[test]
fn malformed_placeholders_pass_through() {
    let mut ctx = TemplateContext::new();
    ctx.insert("name", "World");
    let input = b"${templateOption:} ${templateOption: name".to_vec();
    let (out, missing) = substitute(&input, &ctx);
    assert_eq!(out.as_slice(), b"${templateOption:} ${templateOption: name");
    assert!(missing.is_empty());
}

#[test]
fn several_placeholders_resolve_in_order() {
    let mut ctx = TemplateContext::new();
    ctx.insert("a", "1");
    ctx.insert("b", "2");
    let input = b"${templateOption:a}-${templateOption:b}-${templateOption:a}".to_vec();
    let (out, missing) = substitute(&input, &ctx);
    assert_eq!(out.as_slice(), b"1-2-1");
    assert!(missing.is_empty());
}

#[test]
fn later_insert_replaces_earlier_value() {
    let mut ctx = TemplateContext::new();
    ctx.insert("a", "old");
    ctx.insert("a", "new");
    let input = b"${templateOption:a}".to_vec();
    let (out, _) = substitute(&input, &ctx);
    assert_eq!(out.as_slice(), b"new");
}

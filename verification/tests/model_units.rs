//! Unit scenarios: the scalar analyzer, the document arena, and the events.

use yamlcore::analysis::analyze_scalar_value;
use yamlcore::document::{
    yaml_document_add_mapping, yaml_document_add_scalar, yaml_document_add_sequence,
    yaml_document_append_mapping_pair, yaml_document_append_sequence_item, yaml_document_delete,
    yaml_document_get_node, yaml_document_get_root_node, yaml_document_new, NodeData,
};
use yamlcore::event::{yaml_alias_event_new, yaml_scalar_event_new, EventData};
use yamlcore::types::{MappingStyle, ScalarStyle, SequenceStyle};

#[test]
fn plain_word_allows_every_style_but_needs_no_quoting() {
    let a = analyze_scalar_value("hello", false);
    assert!(!a.multiline);
    assert!(a.flow_plain_allowed);
    assert!(a.block_plain_allowed);
    assert!(a.single_quoted_allowed);
    assert!(a.block_allowed);
}

#[test]
fn empty_value_cannot_be_plain_in_flow() {
    let a = analyze_scalar_value("", false);
    assert!(!a.flow_plain_allowed);
    assert!(a.block_plain_allowed);
    assert!(a.single_quoted_allowed);
    assert!(!a.block_allowed);
}

#[test]
fn leading_dash_blocks_plain_styles() {
    let a = analyze_scalar_value("- item", false);
    assert!(!a.flow_plain_allowed);
    assert!(!a.block_plain_allowed);
    assert!(a.single_quoted_allowed);
}

#[test]
fn document_markers_block_plain_styles() {
    let a = analyze_scalar_value("--- x", false);
    assert!(!a.flow_plain_allowed);
    assert!(!a.block_plain_allowed);
}

#[test]
fn colon_space_blocks_plain_styles() {
    let a = analyze_scalar_value("a: b", false);
    assert!(!a.flow_plain_allowed);
    assert!(!a.block_plain_allowed);
    let b = analyze_scalar_value("a:b", false);
    assert!(!b.flow_plain_allowed, "a colon always blocks flow plain");
    assert!(b.block_plain_allowed, "a colon not followed by a blank is fine in block");
}

#[test]
fn breaks_make_a_scalar_multiline() {
    let a = analyze_scalar_value("x\ny", false);
    assert!(a.multiline);
    assert!(!a.flow_plain_allowed);
    assert!(!a.block_plain_allowed);
    assert!(a.single_quoted_allowed);
    assert!(a.block_allowed);
}

#[test]
fn non_ascii_needs_unicode_permission() {
    let a = analyze_scalar_value("caf\u{e9}", false);
    assert!(!a.single_quoted_allowed);
    assert!(!a.block_allowed);
    let b = analyze_scalar_value("caf\u{e9}", true);
    assert!(b.single_quoted_allowed);
    assert!(b.block_allowed);
}

#[test]
fn trailing_space_blocks_block_scalars() {
    let a = analyze_scalar_value("x ", false);
    assert!(!a.flow_plain_allowed);
    assert!(!a.block_plain_allowed);
    assert!(!a.block_allowed);
    assert!(a.single_quoted_allowed);
}

#[test]
fn document_arena_builds_a_graph() {
    let mut doc = yaml_document_new(None, &[], true, true);
    let map = yaml_document_add_mapping(&mut doc, None, MappingStyle::Block);
    let key = yaml_document_add_scalar(&mut doc, None, "k", ScalarStyle::Plain);
    let seq = yaml_document_add_sequence(&mut doc, None, SequenceStyle::Block);
    let item = yaml_document_add_scalar(&mut doc, None, "v", ScalarStyle::Plain);
    yaml_document_append_sequence_item(&mut doc, seq, item);
    yaml_document_append_mapping_pair(&mut doc, map, key, seq);
    assert_eq!(map, 1);
    assert_eq!(doc.nodes.len(), 4);
    let root = yaml_document_get_root_node(&doc).expect("root");
    match &root.data {
        NodeData::Mapping { pairs, .. } => {
            assert_eq!(pairs.len(), 1);
            assert_eq!(pairs[0].key, key);
            assert_eq!(pairs[0].value, seq);
        }
        _ => panic!("root should be a mapping"),
    }
    match &yaml_document_get_node(&doc, seq).expect("sequence node").data {
        NodeData::Sequence { items, .. } => assert_eq!(items.as_slice(), &[item]),
        _ => panic!("node should be a sequence"),
    }
    assert!(yaml_document_get_node(&doc, 0).is_none());
    assert!(yaml_document_get_node(&doc, 5).is_none());
    let scalar = yaml_document_get_node(&doc, key).expect("key node");
    assert_eq!(scalar.tag.as_deref(), Some("tag:yaml.org,2002:str"));
    yaml_document_delete(&mut doc);
    assert_eq!(doc.nodes.len(), 0);
}

#[test]
fn event_constructors_copy_their_arguments() {
    let ev = yaml_scalar_event_new(Some("a"), Some("!t"), "v", true, false, ScalarStyle::Plain);
    match ev.data {
        EventData::Scalar { anchor, tag, value, plain_implicit, quoted_implicit, style } => {
            assert_eq!(anchor.as_deref(), Some("a"));
            assert_eq!(tag.as_deref(), Some("!t"));
            assert_eq!(value, "v");
            assert!(plain_implicit);
            assert!(!quoted_implicit);
            assert_eq!(style, ScalarStyle::Plain);
        }
        _ => panic!("expected a scalar event"),
    }
    let al = yaml_alias_event_new("x");
    match al.data {
        EventData::Alias { anchor } => assert_eq!(anchor, "x"),
        _ => panic!("expected an alias event"),
    }
}

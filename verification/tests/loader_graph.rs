//! Composer scenarios: the node graph, anchors, and the per-document anchor
//! table.

use yamlcore::document::{yaml_document_new, NodeData};
use yamlcore::loader::yaml_parser_load;
use yamlcore::parser::{yaml_parser_new, yaml_parser_set_input_tokens};
use yamlcore::token::{Token, TokenData};
use yamlcore::types::{Encoding, ErrorKind, Mark, ScalarStyle};

fn tok(data: TokenData) -> Token {
    Token {
        data,
        start_mark: Mark { index: 0, line: 0, column: 0 },
        end_mark: Mark { index: 0, line: 0, column: 0 },
    }
}

fn scalar_tok(v: &str) -> Token {
    tok(TokenData::Scalar { value: v.to_string(), style: ScalarStyle::Plain })
}

#[test]
fn loads_a_mapping_document() {
    let mut p = yaml_parser_new();
    yaml_parser_set_input_tokens(
        &mut p,
        vec![
            tok(TokenData::StreamStart { encoding: Encoding::Utf8 }),
            tok(TokenData::BlockMappingStart),
            tok(TokenData::Key),
            scalar_tok("a"),
            tok(TokenData::Value),
            scalar_tok("1"),
            tok(TokenData::BlockEnd),
            tok(TokenData::StreamEnd),
        ],
    );
    let mut doc = yaml_document_new(None, &[], false, false);
    yaml_parser_load(&mut p, &mut doc).expect("load failed");
    assert_eq!(doc.nodes.len(), 3);
    match &doc.nodes[0].data {
        NodeData::Mapping { pairs, .. } => {
            assert_eq!(pairs.len(), 1);
            assert_eq!(pairs[0].key, 2);
            assert_eq!(pairs[0].value, 3);
        }
        _ => panic!("root should be a mapping"),
    }
    match &doc.nodes[1].data {
        NodeData::Scalar { value, .. } => assert_eq!(value, "a"),
        _ => panic!("key should be a scalar"),
    }
    assert_eq!(doc.nodes[0].tag.as_deref(), Some("tag:yaml.org,2002:map"));
    assert_eq!(doc.nodes[1].tag.as_deref(), Some("tag:yaml.org,2002:str"));
}

#[test]
fn anchor_table_is_reset_at_document_end() {
    let mut p = yaml_parser_new();
    yaml_parser_set_input_tokens(
        &mut p,
        vec![
            tok(TokenData::StreamStart { encoding: Encoding::Utf8 }),
            tok(TokenData::Anchor { value: "a".to_string() }),
            scalar_tok("1"),
            tok(TokenData::DocumentStart),
            tok(TokenData::Alias { value: "a".to_string() }),
            tok(TokenData::StreamEnd),
        ],
    );
    let mut doc1 = yaml_document_new(None, &[], false, false);
    yaml_parser_load(&mut p, &mut doc1).expect("first document must load");
    assert_eq!(doc1.nodes.len(), 1);

    let mut doc2 = yaml_document_new(None, &[], false, false);
    let err = yaml_parser_load(&mut p, &mut doc2)
        .expect_err("an alias must not resolve across documents");
    assert_eq!(err.kind, ErrorKind::Composer);
    assert_eq!(err.problem, "found undefined alias");
}

#[test]
fn alias_within_one_document_resolves() {
    let mut p = yaml_parser_new();
    yaml_parser_set_input_tokens(
        &mut p,
        vec![
            tok(TokenData::StreamStart { encoding: Encoding::Utf8 }),
            tok(TokenData::FlowSequenceStart),
            tok(TokenData::Anchor { value: "a".to_string() }),
            scalar_tok("1"),
            tok(TokenData::FlowEntry),
            tok(TokenData::Alias { value: "a".to_string() }),
            tok(TokenData::FlowSequenceEnd),
            tok(TokenData::StreamEnd),
        ],
    );
    let mut doc = yaml_document_new(None, &[], false, false);
    yaml_parser_load(&mut p, &mut doc).expect("load failed");
    assert_eq!(doc.nodes.len(), 2);
    match &doc.nodes[0].data {
        NodeData::Sequence { items, .. } => {
            assert_eq!(items.as_slice(), &[2, 2]);
        }
        _ => panic!("root should be a sequence"),
    }
}

#[test]
fn duplicate_anchor_is_rejected() {
    let mut p = yaml_parser_new();
    yaml_parser_set_input_tokens(
        &mut p,
        vec![
            tok(TokenData::StreamStart { encoding: Encoding::Utf8 }),
            tok(TokenData::FlowSequenceStart),
            tok(TokenData::Anchor { value: "a".to_string() }),
            scalar_tok("1"),
            tok(TokenData::FlowEntry),
            tok(TokenData::Anchor { value: "a".to_string() }),
            scalar_tok("2"),
            tok(TokenData::FlowSequenceEnd),
            tok(TokenData::StreamEnd),
        ],
    );
    let mut doc = yaml_document_new(None, &[], false, false);
    let err = yaml_parser_load(&mut p, &mut doc).expect_err("duplicate anchor must be rejected");
    assert_eq!(err.kind, ErrorKind::Composer);
    assert_eq!(err.problem, "second occurrence");
    assert_eq!(err.context, Some("found duplicate anchor; first occurrence"));
}

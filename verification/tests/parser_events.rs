//! Token-to-event scenarios for the parser state machine.

use yamlcore::event::EventData;
use yamlcore::parser::{
    yaml_parser_new, yaml_parser_parse, yaml_parser_reset, yaml_parser_set_input_tokens, Parser,
};
use yamlcore::token::{Token, TokenData};
use yamlcore::types::{Encoding, ErrorKind, Mark, ScalarStyle};

fn tok(data: TokenData) -> Token {
    Token {
        data,
        start_mark: Mark { index: 0, line: 0, column: 0 },
        end_mark: Mark { index: 0, line: 0, column: 0 },
    }
}

fn scalar_tok(v: &str) -> Token {
    tok(TokenData::Scalar { value: v.to_string(), style: ScalarStyle::Plain })
}

fn parser_with(tokens: Vec<Token>) -> Parser {
    let mut p = yaml_parser_new();
    yaml_parser_set_input_tokens(&mut p, tokens);
    p
}

fn drain(p: &mut Parser) -> Vec<EventData> {
    let mut out = Vec::new();
    loop {
        let ev = yaml_parser_parse(p).expect("parse failed");
        if matches!(ev.data, EventData::NoEvent) {
            break;
        }
        let done = matches!(ev.data, EventData::StreamEnd);
        out.push(ev.data);
        if done {
            break;
        }
    }
    out
}

#[test]
fn empty_input_yields_stream_start_and_end() {
    let mut p = parser_with(vec![
        tok(TokenData::StreamStart { encoding: Encoding::Utf8 }),
        tok(TokenData::StreamEnd),
    ]);
    let evs = drain(&mut p);
    assert_eq!(evs.len(), 2);
    assert!(matches!(evs[0], EventData::StreamStart { .. }));
    assert!(matches!(evs[1], EventData::StreamEnd));
}

#[test]
fn bare_scalar_yields_implicit_document() {
    let mut p = parser_with(vec![
        tok(TokenData::StreamStart { encoding: Encoding::Utf8 }),
        scalar_tok("x"),
        tok(TokenData::StreamEnd),
    ]);
    let evs = drain(&mut p);
    assert_eq!(evs.len(), 5);
    assert!(matches!(evs[0], EventData::StreamStart { .. }));
    match &evs[1] {
        EventData::DocumentStart { implicit, .. } => assert!(*implicit),
        other => panic!("expected document start, got {:?}", kind_name(other)),
    }
    match &evs[2] {
        EventData::Scalar { value, plain_implicit, .. } => {
            assert_eq!(value, "x");
            assert!(*plain_implicit);
        }
        other => panic!("expected scalar, got {:?}", kind_name(other)),
    }
    match &evs[3] {
        EventData::DocumentEnd { implicit } => assert!(*implicit),
        other => panic!("expected document end, got {:?}", kind_name(other)),
    }
    assert!(matches!(evs[4], EventData::StreamEnd));
}

fn kind_name(d: &EventData) -> &'static str {
    match d {
        EventData::NoEvent => "no event",
        EventData::StreamStart { .. } => "stream start",
        EventData::StreamEnd => "stream end",
        EventData::DocumentStart { .. } => "document start",
        EventData::DocumentEnd { .. } => "document end",
        EventData::Alias { .. } => "alias",
        EventData::Scalar { .. } => "scalar",
        EventData::SequenceStart { .. } => "sequence start",
        EventData::SequenceEnd => "sequence end",
        EventData::MappingStart { .. } => "mapping start",
        EventData::MappingEnd => "mapping end",
    }
}

fn scalar_value(d: &EventData) -> String {
    match d {
        EventData::Scalar { value, .. } => value.clone(),
        _ => panic!("not a scalar"),
    }
}

#[test]
fn block_mapping_two_pairs() {
    let mut p = parser_with(vec![
        tok(TokenData::StreamStart { encoding: Encoding::Utf8 }),
        tok(TokenData::BlockMappingStart),
        tok(TokenData::Key),
        scalar_tok("a"),
        tok(TokenData::Value),
        scalar_tok("1"),
        tok(TokenData::Key),
        scalar_tok("b"),
        tok(TokenData::Value),
        scalar_tok("2"),
        tok(TokenData::BlockEnd),
        tok(TokenData::StreamEnd),
    ]);
    let evs = drain(&mut p);
    assert_eq!(evs.len(), 10);
    assert!(matches!(evs[0], EventData::StreamStart { .. }));
    assert!(matches!(evs[1], EventData::DocumentStart { .. }));
    assert!(matches!(evs[2], EventData::MappingStart { .. }));
    assert_eq!(scalar_value(&evs[3]), "a");
    assert_eq!(scalar_value(&evs[4]), "1");
    assert_eq!(scalar_value(&evs[5]), "b");
    assert_eq!(scalar_value(&evs[6]), "2");
    assert!(matches!(evs[7], EventData::MappingEnd));
    assert!(matches!(evs[8], EventData::DocumentEnd { .. }));
    assert!(matches!(evs[9], EventData::StreamEnd));
}

#[test]
fn flow_sequence_three_items() {
    let mut p = parser_with(vec![
        tok(TokenData::StreamStart { encoding: Encoding::Utf8 }),
        tok(TokenData::FlowSequenceStart),
        scalar_tok("1"),
        tok(TokenData::FlowEntry),
        scalar_tok("2"),
        tok(TokenData::FlowEntry),
        scalar_tok("3"),
        tok(TokenData::FlowSequenceEnd),
        tok(TokenData::StreamEnd),
    ]);
    let evs = drain(&mut p);
    assert_eq!(evs.len(), 9);
    match &evs[2] {
        EventData::SequenceStart { style, .. } => {
            assert_eq!(*style, yamlcore::types::SequenceStyle::Flow)
        }
        other => panic!("expected sequence start, got {:?}", kind_name(other)),
    }
    assert_eq!(scalar_value(&evs[3]), "1");
    assert_eq!(scalar_value(&evs[4]), "2");
    assert_eq!(scalar_value(&evs[5]), "3");
    assert!(matches!(evs[6], EventData::SequenceEnd));
}

#[test]
fn indentless_sequence_in_mapping_value() {
    let mut p = parser_with(vec![
        tok(TokenData::StreamStart { encoding: Encoding::Utf8 }),
        tok(TokenData::BlockMappingStart),
        tok(TokenData::Key),
        scalar_tok("k"),
        tok(TokenData::Value),
        tok(TokenData::BlockEntry),
        scalar_tok("a"),
        tok(TokenData::BlockEntry),
        scalar_tok("b"),
        tok(TokenData::BlockEnd),
        tok(TokenData::StreamEnd),
    ]);
    let evs = drain(&mut p);
    // mapping start, key scalar, sequence start (block), two items, sequence
    // end, mapping end
    assert!(matches!(evs[2], EventData::MappingStart { .. }));
    assert_eq!(scalar_value(&evs[3]), "k");
    match &evs[4] {
        EventData::SequenceStart { style, .. } => {
            assert_eq!(*style, yamlcore::types::SequenceStyle::Block)
        }
        other => panic!("expected sequence start, got {:?}", kind_name(other)),
    }
    assert_eq!(scalar_value(&evs[5]), "a");
    assert_eq!(scalar_value(&evs[6]), "b");
    assert!(matches!(evs[7], EventData::SequenceEnd));
    assert!(matches!(evs[8], EventData::MappingEnd));
}

#[test]
fn incompatible_version_directive_is_rejected() {
    let mut p = parser_with(vec![
        tok(TokenData::StreamStart { encoding: Encoding::Utf8 }),
        tok(TokenData::VersionDirective { major: 2, minor: 0 }),
        tok(TokenData::DocumentStart),
        scalar_tok("x"),
        tok(TokenData::StreamEnd),
    ]);
    let ev = yaml_parser_parse(&mut p).expect("stream start");
    assert!(matches!(ev.data, EventData::StreamStart { .. }));
    let err = match yaml_parser_parse(&mut p) {
        Err(e) => e,
        Ok(_) => panic!("version 2.0 must be rejected"),
    };
    assert_eq!(err.kind, ErrorKind::Parser);
    assert_eq!(err.problem, "found incompatible YAML document");
    // The error is terminal: asking again reports the same problem.
    let again = match yaml_parser_parse(&mut p) {
        Err(e) => e,
        Ok(_) => panic!("the error must be terminal"),
    };
    assert_eq!(again.problem, "found incompatible YAML document");
}

#[test]
fn duplicate_version_directive_is_rejected() {
    let mut p = parser_with(vec![
        tok(TokenData::StreamStart { encoding: Encoding::Utf8 }),
        tok(TokenData::VersionDirective { major: 1, minor: 1 }),
        tok(TokenData::VersionDirective { major: 1, minor: 2 }),
        tok(TokenData::DocumentStart),
        scalar_tok("x"),
        tok(TokenData::StreamEnd),
    ]);
    let _ = yaml_parser_parse(&mut p).expect("stream start");
    let err = match yaml_parser_parse(&mut p) {
        Err(e) => e,
        Ok(_) => panic!("duplicate directives must be rejected"),
    };
    assert_eq!(err.problem, "found duplicate %YAML directive");
}

#[test]
fn events_are_well_balanced() {
    let mut p = parser_with(vec![
        tok(TokenData::StreamStart { encoding: Encoding::Utf8 }),
        tok(TokenData::BlockMappingStart),
        tok(TokenData::Key),
        scalar_tok("k"),
        tok(TokenData::Value),
        tok(TokenData::FlowSequenceStart),
        scalar_tok("1"),
        tok(TokenData::FlowEntry),
        scalar_tok("2"),
        tok(TokenData::FlowSequenceEnd),
        tok(TokenData::BlockEnd),
        tok(TokenData::StreamEnd),
    ]);
    let evs = drain(&mut p);
    let mut depth: i64 = 0;
    for e in &evs {
        match e {
            EventData::StreamStart { .. }
            | EventData::DocumentStart { .. }
            | EventData::SequenceStart { .. }
            | EventData::MappingStart { .. } => depth += 1,
            EventData::StreamEnd
            | EventData::DocumentEnd { .. }
            | EventData::SequenceEnd
            | EventData::MappingEnd => {
                depth -= 1;
                assert!(depth >= 0, "an end event closed nothing");
            }
            _ => {}
        }
    }
    assert_eq!(depth, 0, "unbalanced event stream");
}

#[test]
fn reset_clears_a_terminal_error() {
    let mut p = parser_with(vec![tok(TokenData::StreamEnd)]);
    let err = match yaml_parser_parse(&mut p) {
        Err(e) => e,
        Ok(_) => panic!("a missing stream start must be rejected"),
    };
    assert_eq!(err.problem, "did not find expected <stream-start>");
    yaml_parser_reset(&mut p);
    assert!(p.error.is_none());
}

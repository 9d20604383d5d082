//! Emitter scenarios: exact output text for the documented layouts.

use yamlcore::api::{
    yaml_emitter_new, yaml_emitter_set_canonical, yaml_emitter_set_indent,
    yaml_emitter_set_output_string, yaml_emitter_set_unicode,
};
use yamlcore::emitter::Emitter;
use yamlcore::event::{
    yaml_document_end_event_new, yaml_document_start_event_new, yaml_mapping_end_event_new,
    yaml_mapping_start_event_new, yaml_scalar_event_new, yaml_sequence_end_event_new,
    yaml_sequence_start_event_new,
};
use yamlcore::types::{MappingStyle, ScalarStyle, SequenceStyle};

fn output_text(e: &Emitter) -> String {
    String::from_utf8(e.output.clone()).expect("emitter output must be UTF-8")
}

fn plain_scalar(e: &mut Emitter, v: &str) {
    e.emit(yaml_scalar_event_new(None, None, v, true, false, ScalarStyle::Plain))
        .expect("emit scalar");
}

#[test]
fn one_plain_document() {
    let mut e = yaml_emitter_new();
    yaml_emitter_set_output_string(&mut e);
    e.open().expect("open");
    e.emit(yaml_document_start_event_new(None, &[], true)).expect("doc start");
    plain_scalar(&mut e, "hello");
    e.emit(yaml_document_end_event_new(true)).expect("doc end");
    e.close().expect("close");
    assert_eq!(output_text(&e), "hello\n");
}

#[test]
fn two_documents_get_a_marker_line() {
    let mut e = yaml_emitter_new();
    yaml_emitter_set_output_string(&mut e);
    e.open().expect("open");
    e.emit(yaml_document_start_event_new(None, &[], true)).expect("doc start");
    plain_scalar(&mut e, "one");
    e.emit(yaml_document_end_event_new(true)).expect("doc end");
    e.emit(yaml_document_start_event_new(None, &[], true)).expect("doc start");
    plain_scalar(&mut e, "two");
    e.emit(yaml_document_end_event_new(true)).expect("doc end");
    e.close().expect("close");
    let text = output_text(&e);
    assert!(text.starts_with("one"), "the first document has no leading marker: {text}");
    assert_eq!(text, "one\n--- two\n");
}

#[test]
fn block_mapping_text() {
    let mut e = yaml_emitter_new();
    yaml_emitter_set_output_string(&mut e);
    e.open().expect("open");
    e.emit(yaml_document_start_event_new(None, &[], true)).expect("doc start");
    e.emit(yaml_mapping_start_event_new(None, None, true, MappingStyle::Block))
        .expect("mapping start");
    plain_scalar(&mut e, "a");
    plain_scalar(&mut e, "1");
    plain_scalar(&mut e, "b");
    plain_scalar(&mut e, "2");
    e.emit(yaml_mapping_end_event_new()).expect("mapping end");
    e.emit(yaml_document_end_event_new(true)).expect("doc end");
    e.close().expect("close");
    assert_eq!(output_text(&e), "a: 1\nb: 2\n");
}

#[test]
fn flow_sequence_text() {
    let mut e = yaml_emitter_new();
    yaml_emitter_set_output_string(&mut e);
    e.open().expect("open");
    e.emit(yaml_document_start_event_new(None, &[], true)).expect("doc start");
    e.emit(yaml_sequence_start_event_new(None, None, true, SequenceStyle::Flow))
        .expect("sequence start");
    plain_scalar(&mut e, "1");
    plain_scalar(&mut e, "2");
    plain_scalar(&mut e, "3");
    e.emit(yaml_sequence_end_event_new()).expect("sequence end");
    e.emit(yaml_document_end_event_new(true)).expect("doc end");
    e.close().expect("close");
    assert_eq!(output_text(&e), "[1, 2, 3]\n");
}

#[test]
fn literal_scalar_text() {
    let mut e = yaml_emitter_new();
    yaml_emitter_set_output_string(&mut e);
    yaml_emitter_set_indent(&mut e, 2);
    e.open().expect("open");
    e.emit(yaml_document_start_event_new(None, &[], true)).expect("doc start");
    e.emit(yaml_scalar_event_new(
        None,
        None,
        "line1\nline2\n",
        false,
        true,
        ScalarStyle::Literal,
    ))
    .expect("emit literal");
    e.emit(yaml_document_end_event_new(true)).expect("doc end");
    e.close().expect("close");
    assert_eq!(output_text(&e), "|\n  line1\n  line2\n");
}

#[test]
fn literal_lone_break_keeps_chomping() {
    let mut e = yaml_emitter_new();
    yaml_emitter_set_output_string(&mut e);
    yaml_emitter_set_indent(&mut e, 2);
    e.open().expect("open");
    e.emit(yaml_document_start_event_new(None, &[], true)).expect("doc start");
    e.emit(yaml_scalar_event_new(None, None, "\n", false, true, ScalarStyle::Literal))
        .expect("emit literal");
    e.emit(yaml_document_end_event_new(true)).expect("doc end");
    e.close().expect("close");
    // A value that is one lone break needs the indent hint (it starts with a
    // break) and the keep hint: under clip chomping it would read back empty.
    // The keep hint leaves the stream open-ended, so closing it writes the
    // explicit end-of-document marker.
    assert_eq!(output_text(&e), "|2+\n\n...\n");
}

#[test]
fn canonical_mapping_text() {
    let mut e = yaml_emitter_new();
    yaml_emitter_set_output_string(&mut e);
    yaml_emitter_set_canonical(&mut e, true);
    e.open().expect("open");
    e.emit(yaml_document_start_event_new(None, &[], true)).expect("doc start");
    e.emit(yaml_mapping_start_event_new(
        None,
        Some("tag:yaml.org,2002:map"),
        true,
        MappingStyle::Block,
    ))
    .expect("mapping start");
    e.emit(yaml_scalar_event_new(
        None,
        Some("tag:yaml.org,2002:str"),
        "k",
        true,
        true,
        ScalarStyle::Any,
    ))
    .expect("key");
    e.emit(yaml_scalar_event_new(
        None,
        Some("tag:yaml.org,2002:str"),
        "v",
        true,
        true,
        ScalarStyle::Any,
    ))
    .expect("value");
    e.emit(yaml_mapping_end_event_new()).expect("mapping end");
    e.emit(yaml_document_end_event_new(false)).expect("doc end");
    e.close().expect("close");
    assert_eq!(output_text(&e), "---\n!!map {\n  ? !!str \"k\"\n  : !!str \"v\",\n}\n...\n");
}

#[test]
fn wide_character_is_escaped_without_unicode() {
    let mut e = yaml_emitter_new();
    yaml_emitter_set_output_string(&mut e);
    e.open().expect("open");
    e.emit(yaml_document_start_event_new(None, &[], true)).expect("doc start");
    e.emit(yaml_scalar_event_new(
        None,
        None,
        "\u{1F600}",
        false,
        true,
        ScalarStyle::DoubleQuoted,
    ))
    .expect("emit");
    e.emit(yaml_document_end_event_new(true)).expect("doc end");
    e.close().expect("close");
    assert_eq!(output_text(&e), "\"\\U0001F600\"\n");
}

#[test]
fn wide_character_stays_verbatim_with_unicode() {
    let mut e = yaml_emitter_new();
    yaml_emitter_set_output_string(&mut e);
    yaml_emitter_set_unicode(&mut e, true);
    e.open().expect("open");
    e.emit(yaml_document_start_event_new(None, &[], true)).expect("doc start");
    e.emit(yaml_scalar_event_new(
        None,
        None,
        "\u{1F600}",
        false,
        true,
        ScalarStyle::DoubleQuoted,
    ))
    .expect("emit");
    e.emit(yaml_document_end_event_new(true)).expect("doc end");
    e.close().expect("close");
    assert_eq!(output_text(&e), "\"\u{1F600}\"\n");
}

#[test]
fn named_escapes_in_double_quoted() {
    let mut e = yaml_emitter_new();
    yaml_emitter_set_output_string(&mut e);
    e.open().expect("open");
    e.emit(yaml_document_start_event_new(None, &[], true)).expect("doc start");
    e.emit(yaml_scalar_event_new(
        None,
        None,
        "a\tb\nc",
        false,
        true,
        ScalarStyle::DoubleQuoted,
    ))
    .expect("emit");
    e.emit(yaml_document_end_event_new(true)).expect("doc end");
    e.close().expect("close");
    assert_eq!(output_text(&e), "\"a\\tb\\nc\"\n");
}

#[test]
fn scalar_without_tag_or_implicit_flag_is_rejected() {
    let mut e = yaml_emitter_new();
    yaml_emitter_set_output_string(&mut e);
    e.open().expect("open");
    e.emit(yaml_document_start_event_new(None, &[], true)).expect("doc start");
    let err = e
        .emit(yaml_scalar_event_new(None, None, "x", false, false, ScalarStyle::Plain))
        .expect_err("a scalar needs a tag or an implicit flag");
    assert_eq!(err.problem, "neither tag nor implicit flags are specified");
}

//! Events: the vocabulary shared by the parser and the emitter, and the
//! constructors an application uses to build an event stream by hand.

use vstd::prelude::*;

use crate::types::{
    Encoding, MappingStyle, Mark, ScalarStyle, SequenceStyle, TagDirective, VersionDirective,
};

verus! {

/// The payload of an event.
pub enum EventData {
    /// The placeholder a finished parser hands back; never part of a stream.
    NoEvent,
    StreamStart { encoding: Encoding },
    StreamEnd,
    DocumentStart {
        version_directive: Option<VersionDirective>,
        tag_directives: Vec<TagDirective>,
        implicit: bool,
    },
    DocumentEnd { implicit: bool },
    Alias { anchor: String },
    Scalar {
        anchor: Option<String>,
        tag: Option<String>,
        value: String,
        plain_implicit: bool,
        quoted_implicit: bool,
        style: ScalarStyle,
    },
    SequenceStart {
        anchor: Option<String>,
        tag: Option<String>,
        implicit: bool,
        style: SequenceStyle,
    },
    SequenceEnd,
    MappingStart {
        anchor: Option<String>,
        tag: Option<String>,
        implicit: bool,
        style: MappingStyle,
    },
    MappingEnd,
}

/// An event together with the source region it covers.
pub struct Event {
    pub data: EventData,
    pub start_mark: Mark,
    pub end_mark: Mark,
}

/// The view of an optional borrowed string, for relating `Option<&str>`
/// arguments to the `Option<String>` fields they populate.
pub open spec fn opt_str_view(o: Option<&str>) -> Option<Seq<char>> {
    match o {
        None => None,
        Some(s) => Some(s@),
    }
}

/// The view of an optional owned string.
pub open spec fn opt_string_view(o: Option<String>) -> Option<Seq<char>> {
    match o {
        None => None,
        Some(s) => Some(s@),
    }
}

/// Copy an optional borrowed string into an owned one.
pub fn copy_opt_str(o: Option<&str>) -> (r: Option<String>)
    ensures
        opt_string_view(r) == opt_str_view(o),
{
    match o {
        None => None,
        Some(s) => Some(s.to_owned()),
    }
}

/// Copy a list of tag directives.
pub fn copy_tag_directives(input: &[TagDirective]) -> (r: Vec<TagDirective>)
    ensures
        r@.len() == input@.len(),
        forall|i: int|
            0 <= i < input@.len() ==> #[trigger] r@[i].handle@ == input@[i].handle@
                && r@[i].prefix@ == input@[i].prefix@,
{
    let mut out: Vec<TagDirective> = Vec::new();
    let n = input.len();
    let mut i: usize = 0;
    while i < n
        invariant
            n == input@.len(),
            i <= n,
            out@.len() == i,
            forall|j: int|
                0 <= j < i ==> #[trigger] out@[j].handle@ == input@[j].handle@
                    && out@[j].prefix@ == input@[j].prefix@,
        decreases n - i,
    {
        out.push(input[i].clone());
        i += 1;
    }
    out
}

impl Default for Event {
    fn default() -> (r: Event)
        ensures
            r.data is NoEvent,
            r.start_mark == (Mark { index: 0u64, line: 0u64, column: 0u64 }),
            r.end_mark == (Mark { index: 0u64, line: 0u64, column: 0u64 }),
    {
        Event { data: EventData::NoEvent, start_mark: Mark::zero(), end_mark: Mark::zero() }
    }
}

/// Create the STREAM-START event.
pub fn yaml_stream_start_event_new(encoding: Encoding) -> (r: Event)
    ensures
        r.data == (EventData::StreamStart { encoding }),
        r.start_mark == (Mark { index: 0u64, line: 0u64, column: 0u64 }),
        r.end_mark == (Mark { index: 0u64, line: 0u64, column: 0u64 }),
{
    Event { data: EventData::StreamStart { encoding }, ..Default::default() }
}

/// Create the STREAM-END event.
pub fn yaml_stream_end_event_new() -> (r: Event)
    ensures
        r.data is StreamEnd,
        r.start_mark == (Mark { index: 0u64, line: 0u64, column: 0u64 }),
        r.end_mark == (Mark { index: 0u64, line: 0u64, column: 0u64 }),
{
    Event { data: EventData::StreamEnd, ..Default::default() }
}

/// Create the DOCUMENT-START event.
///
/// The `implicit` argument is a stylistic hint; the emitter may override it.
pub fn yaml_document_start_event_new(
    version_directive: Option<VersionDirective>,
    tag_directives_in: &[TagDirective],
    implicit: bool,
) -> (r: Event)
    ensures
        r.data matches EventData::DocumentStart {
            version_directive: v,
            tag_directives: t,
            implicit: im,
        } && v == version_directive && im == implicit && t@.len() == tag_directives_in@.len()
            && (forall|i: int|
            0 <= i < t@.len() ==> #[trigger] t@[i].handle@ == tag_directives_in@[i].handle@
                && t@[i].prefix@ == tag_directives_in@[i].prefix@),
        r.start_mark == (Mark { index: 0u64, line: 0u64, column: 0u64 }),
        r.end_mark == (Mark { index: 0u64, line: 0u64, column: 0u64 }),
{
    let tag_directives = copy_tag_directives(tag_directives_in);
    Event {
        data: EventData::DocumentStart { version_directive, tag_directives, implicit },
        ..Default::default()
    }
}

/// Create the DOCUMENT-END event.
///
/// The `implicit` argument is a stylistic hint; the emitter may override it.
pub fn yaml_document_end_event_new(implicit: bool) -> (r: Event)
    ensures
        r.data == (EventData::DocumentEnd { implicit }),
        r.start_mark == (Mark { index: 0u64, line: 0u64, column: 0u64 }),
        r.end_mark == (Mark { index: 0u64, line: 0u64, column: 0u64 }),
{
    Event { data: EventData::DocumentEnd { implicit }, ..Default::default() }
}

/// Create an ALIAS event.
pub fn yaml_alias_event_new(anchor: &str) -> (r: Event)
    ensures
        r.data matches EventData::Alias { anchor: a } && a@ == anchor@,
        r.start_mark == (Mark { index: 0u64, line: 0u64, column: 0u64 }),
        r.end_mark == (Mark { index: 0u64, line: 0u64, column: 0u64 }),
{
    Event { data: EventData::Alias { anchor: anchor.to_owned() }, ..Default::default() }
}

/// Create a SCALAR event.
///
/// The `style` argument is a stylistic hint. Either the `tag` or one of the
/// `plain_implicit` and `quoted_implicit` flags must be set, or the emitter
/// will reject the event.
pub fn yaml_scalar_event_new(
    anchor: Option<&str>,
    tag: Option<&str>,
    value: &str,
    plain_implicit: bool,
    quoted_implicit: bool,
    style: ScalarStyle,
) -> (r: Event)
    ensures
        r.data matches EventData::Scalar {
            anchor: a,
            tag: t,
            value: v,
            plain_implicit: pi,
            quoted_implicit: qi,
            style: st,
        } && opt_string_view(a) == opt_str_view(anchor) && opt_string_view(t) == opt_str_view(tag)
            && v@ == value@ && pi == plain_implicit && qi == quoted_implicit && st == style,
        r.start_mark == (Mark { index: 0u64, line: 0u64, column: 0u64 }),
        r.end_mark == (Mark { index: 0u64, line: 0u64, column: 0u64 }),
{
    Event {
        data: EventData::Scalar {
            anchor: copy_opt_str(anchor),
            tag: copy_opt_str(tag),
            value: value.to_owned(),
            plain_implicit,
            quoted_implicit,
            style,
        },
        ..Default::default()
    }
}

/// Create a SEQUENCE-START event.
///
/// The `style` argument is a stylistic hint. Either the `tag` or the
/// `implicit` flag must be set.
pub fn yaml_sequence_start_event_new(
    anchor: Option<&str>,
    tag: Option<&str>,
    implicit: bool,
    style: SequenceStyle,
) -> (r: Event)
    ensures
        r.data matches EventData::SequenceStart { anchor: a, tag: t, implicit: im, style: st }
            && opt_string_view(a) == opt_str_view(anchor) && opt_string_view(t) == opt_str_view(tag)
            && im == implicit && st == style,
        r.start_mark == (Mark { index: 0u64, line: 0u64, column: 0u64 }),
        r.end_mark == (Mark { index: 0u64, line: 0u64, column: 0u64 }),
{
    Event {
        data: EventData::SequenceStart {
            anchor: copy_opt_str(anchor),
            tag: copy_opt_str(tag),
            implicit,
            style,
        },
        ..Default::default()
    }
}

/// Create a SEQUENCE-END event.
pub fn yaml_sequence_end_event_new() -> (r: Event)
    ensures
        r.data is SequenceEnd,
        r.start_mark == (Mark { index: 0u64, line: 0u64, column: 0u64 }),
        r.end_mark == (Mark { index: 0u64, line: 0u64, column: 0u64 }),
{
    Event { data: EventData::SequenceEnd, ..Default::default() }
}

/// Create a MAPPING-START event.
///
/// The `style` argument is a stylistic hint. Either the `tag` or the
/// `implicit` flag must be set.
pub fn yaml_mapping_start_event_new(
    anchor: Option<&str>,
    tag: Option<&str>,
    implicit: bool,
    style: MappingStyle,
) -> (r: Event)
    ensures
        r.data matches EventData::MappingStart { anchor: a, tag: t, implicit: im, style: st }
            && opt_string_view(a) == opt_str_view(anchor) && opt_string_view(t) == opt_str_view(tag)
            && im == implicit && st == style,
        r.start_mark == (Mark { index: 0u64, line: 0u64, column: 0u64 }),
        r.end_mark == (Mark { index: 0u64, line: 0u64, column: 0u64 }),
{
    Event {
        data: EventData::MappingStart {
            anchor: copy_opt_str(anchor),
            tag: copy_opt_str(tag),
            implicit,
            style,
        },
        ..Default::default()
    }
}

/// Create a MAPPING-END event.
pub fn yaml_mapping_end_event_new() -> (r: Event)
    ensures
        r.data is MappingEnd,
        r.start_mark == (Mark { index: 0u64, line: 0u64, column: 0u64 }),
        r.end_mark == (Mark { index: 0u64, line: 0u64, column: 0u64 }),
{
    Event { data: EventData::MappingEnd, ..Default::default() }
}

} // verus!

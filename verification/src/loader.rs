//! The composer: drives the parser over one document's events and
//! materializes the node graph, resolving aliases against the anchors seen
//! in the same document.

use vstd::prelude::*;

use vstd::string::StrSliceExecFns;
use vstd::string::StringExecFns;

use crate::document::{id_in_range, Document, Node, NodeData, NodePair};
use crate::event::{Event, EventData};
use crate::parser::{yaml_parser_parse, AliasData, Parser};
use crate::types::{Error, ErrorKind, MappingStyle, Mark, ScalarStyle, SequenceStyle};

verus! {

/// The default tags the composer gives to untagged nodes.
fn default_tag(tag: Option<String>, fallback: &str) -> (r: String)
    ensures
        match tag {
            Some(t) => (if t@ == seq!['!'] {
                r@ == fallback@
            } else {
                r@ == t@
            }),
            None => r@ == fallback@,
        },
{
    match tag {
        Some(t) => {
            let bang = t.as_str().unicode_len() == 1 && t.as_str().get_char(0) == '!';
            proof {
                if bang {
                    assert(t@ =~= seq!['!']);
                } else {
                    assert(t@ != seq!['!']);
                }
            }
            if bang {
                fallback.to_owned()
            } else {
                t
            }
        },
        None => fallback.to_owned(),
    }
}

/// Register the anchor of a freshly added node; a name already used in the
/// same document is an error.
fn register_anchor(parser: &mut Parser, index: i32, anchor: Option<String>, mark: Mark) -> (r:
    Result<(), Error>)
    ensures
        r is Err ==> final(parser).error is Some,
        r is Ok ==> final(parser).error == old(parser).error,
{
    let anchor = match anchor {
        Some(a) => a,
        None => {
            return Ok(());
        },
    };
    let n = parser.aliases.len();
    let mut i: usize = 0;
    while i < n
        invariant
            n == parser.aliases@.len(),
            i <= n,
            parser.error == old(parser).error,
        decreases n - i,
    {
        if anchor.eq(&parser.aliases[i].anchor) {
            let e = Error::composer_context(
                "found duplicate anchor; first occurrence",
                parser.aliases[i].mark,
                "second occurrence",
                mark,
            );
            parser.error = Some(e);
            return Err(e);
        }
        i += 1;
    }
    parser.aliases.push(AliasData { anchor, index, mark });
    Ok(())
}

/// Append a composed node to the collection being filled: the innermost open
/// sequence gets an item, the innermost open mapping fills its pending pair.
fn load_node_add(document: &mut Document, ctx: &Vec<i32>, index: i32) -> (r: Result<(), Error>)
    requires
        old(document).wf(),
        id_in_range(index, old(document).nodes@.len()),
    ensures
        final(document).wf(),
        final(document).nodes@.len() == old(document).nodes@.len(),
{
    if ctx.len() == 0 {
        return Ok(());
    }
    let parent_index = ctx[ctx.len() - 1];
    if !(parent_index >= 1 && (parent_index as usize) <= document.nodes.len()) {
        return Err(Error::composer("composer context is corrupt", Mark::zero()));
    }
    let pidx = (parent_index as usize) - 1;
    let node = &mut document.nodes[pidx];
    match &mut node.data {
        NodeData::Sequence { items, .. } => {
            items.push(index);
        },
        NodeData::Mapping { pairs, .. } => {
            let m = pairs.len();
            let mut filled = false;
            if m > 0 {
                let last = pairs[m - 1];
                if last.key != 0 && last.value == 0 {
                    pairs.set(m - 1, NodePair { key: last.key, value: index });
                    filled = true;
                }
            }
            if !filled {
                pairs.push(NodePair { key: index, value: 0 });
            }
        },
        NodeData::Scalar { .. } => {
            return Err(Error::composer("composer context is corrupt", Mark::zero()));
        },
    }
    Ok(())
}

/// Add one node to the arena, guarding the id range.
fn push_node(document: &mut Document, node: Node) -> (r: Result<i32, Error>)
    requires
        old(document).wf(),
        node.data matches NodeData::Sequence { items, .. } ==> items@.len() == 0,
        node.data matches NodeData::Mapping { pairs, .. } ==> pairs@.len() == 0,
    ensures
        final(document).wf(),
        r matches Ok(ix) ==> id_in_range(ix, final(document).nodes@.len())
            && final(document).nodes@.len() == old(document).nodes@.len() + 1,
        r is Err ==> final(document).nodes@.len() == old(document).nodes@.len(),
{
    if document.nodes.len() >= (i32::MAX as usize) {
        return Err(
            Error {
                kind: ErrorKind::Memory,
                problem: "too many nodes in the document",
                problem_mark: Mark::zero(),
                context: None,
                context_mark: Mark::zero(),
            },
        );
    }
    document.nodes.push(node);
    Ok(document.nodes.len() as i32)
}

/// Compose one node from an event; collection starts push onto the context.
fn load_event(parser: &mut Parser, document: &mut Document, ctx: &mut Vec<i32>, ev: Event) -> (r:
    Result<bool, Error>)
    requires
        old(document).wf(),
    ensures
        final(document).wf(),
        r matches Ok(done) && done ==> final(document).end_implicit == (ev.data matches
            EventData::DocumentEnd { implicit } && implicit),
        r is Ok ==> final(parser).error == old(parser).error,
{
    match ev.data {
        EventData::DocumentEnd { implicit } => {
            document.end_implicit = implicit;
            document.end_mark = ev.end_mark;
            return Ok(true);
        },
        EventData::Alias { anchor } => {
            let n = parser.aliases.len();
            let mut i: usize = 0;
            while i < n
                invariant
                    n == parser.aliases@.len(),
                    i <= n,
                    document.wf(),
                    parser.error == old(parser).error,
                decreases n - i,
            {
                if anchor.eq(&parser.aliases[i].anchor) {
                    let index = parser.aliases[i].index;
                    if !(index >= 1 && (index as usize) <= document.nodes.len()) {
                        return Err(
                            Error::composer("composer context is corrupt", ev.start_mark),
                        );
                    }
                    let a = load_node_add(document, ctx, index);
                    if let Err(e) = a {
                        return Err(e);
                    }
                    return Ok(false);
                }
                i += 1;
            }
            let e = Error::composer("found undefined alias", ev.start_mark);
            parser.error = Some(e);
            return Err(e);
        },
        EventData::Scalar { anchor, tag, value, style, .. } => {
            let tag = default_tag(tag, crate::document::DEFAULT_SCALAR_TAG);
            let node = Node {
                data: NodeData::Scalar { value, style },
                tag: Some(tag),
                start_mark: ev.start_mark,
                end_mark: ev.end_mark,
            };
            let index = match push_node(document, node) {
                Ok(ix) => ix,
                Err(e) => {
                    return Err(e);
                },
            };
            if let Err(e) = register_anchor(parser, index, anchor, ev.start_mark) {
                return Err(e);
            }
            if let Err(e) = load_node_add(document, ctx, index) {
                return Err(e);
            }
            return Ok(false);
        },
        EventData::SequenceStart { anchor, tag, style, .. } => {
            let tag = default_tag(tag, crate::document::DEFAULT_SEQUENCE_TAG);
            let node = Node {
                data: NodeData::Sequence { items: Vec::new(), style },
                tag: Some(tag),
                start_mark: ev.start_mark,
                end_mark: ev.end_mark,
            };
            let index = match push_node(document, node) {
                Ok(ix) => ix,
                Err(e) => {
                    return Err(e);
                },
            };
            if let Err(e) = register_anchor(parser, index, anchor, ev.start_mark) {
                return Err(e);
            }
            if let Err(e) = load_node_add(document, ctx, index) {
                return Err(e);
            }
            ctx.push(index);
            return Ok(false);
        },
        EventData::SequenceEnd => {
            match ctx.pop() {
                Some(index) => {
                    if index >= 1 && (index as usize) <= document.nodes.len() {
                        document.nodes[(index as usize) - 1].end_mark = ev.end_mark;
                    }
                },
                None => {},
            }
            return Ok(false);
        },
        EventData::MappingStart { anchor, tag, style, .. } => {
            let tag = default_tag(tag, crate::document::DEFAULT_MAPPING_TAG);
            let node = Node {
                data: NodeData::Mapping { pairs: Vec::new(), style },
                tag: Some(tag),
                start_mark: ev.start_mark,
                end_mark: ev.end_mark,
            };
            let index = match push_node(document, node) {
                Ok(ix) => ix,
                Err(e) => {
                    return Err(e);
                },
            };
            if let Err(e) = register_anchor(parser, index, anchor, ev.start_mark) {
                return Err(e);
            }
            if let Err(e) = load_node_add(document, ctx, index) {
                return Err(e);
            }
            ctx.push(index);
            return Ok(false);
        },
        EventData::MappingEnd => {
            match ctx.pop() {
                Some(index) => {
                    if index >= 1 && (index as usize) <= document.nodes.len() {
                        document.nodes[(index as usize) - 1].end_mark = ev.end_mark;
                    }
                },
                None => {},
            }
            return Ok(false);
        },
        _ => {
            let e = Error::composer("unexpected event while composing a document", ev.start_mark);
            parser.error = Some(e);
            return Err(e);
        },
    }
}

/// Parse the input and compose the next document of the stream.
///
/// A document with no root node signifies the end of the stream. The anchor
/// table lives for one document: it is reset here, so an alias never
/// resolves across document boundaries. The number of composing steps is
/// bounded by the input; a run past the bound reports an error instead of
/// looping.
pub fn yaml_parser_load(parser: &mut Parser, document: &mut Document) -> (r: Result<(), Error>)
    ensures
        final(document).wf(),
        r is Err ==> final(parser).error is Some,
        old(parser).error matches Some(e) ==> (!old(parser).stream_end_produced ==> (r matches
            Err(e2) && e2 == e)),
        r is Ok && old(parser).error is None && old(parser).stream_start_produced && old(
            parser,
        ).stream_end_produced ==> final(document).nodes@.len() == 0,
        r is Ok && final(document).nodes@.len() > 0 ==> final(parser).aliases@.len() == 0,
        r is Ok && old(parser).error is None ==> final(parser).error is None,
{
    document.nodes = Vec::new();
    document.version_directive = None;
    document.tag_directives = Vec::new();
    document.start_implicit = false;
    document.end_implicit = false;
    document.start_mark = Mark::zero();
    document.end_mark = Mark::zero();
    parser.aliases = Vec::new();

    if !parser.stream_start_produced {
        let ev = match yaml_parser_parse(parser) {
            Ok(ev) => ev,
            Err(e) => {
                return Err(e);
            },
        };
        let ok = match &ev.data {
            EventData::StreamStart { .. } => true,
            _ => false,
        };
        if !ok {
            let e = Error::composer("did not find expected <stream-start>", ev.start_mark);
            parser.error = Some(e);
            return Err(e);
        }
    }
    if parser.stream_end_produced {
        return Ok(());
    }
    let ev = match yaml_parser_parse(parser) {
        Ok(ev) => ev,
        Err(e) => {
            return Err(e);
        },
    };
    match &ev.data {
        EventData::StreamEnd => {
            return Ok(());
        },
        _ => {},
    }
    let start = match &ev.data {
        EventData::DocumentStart { version_directive, tag_directives, implicit } => Some(
            (
                *version_directive,
                crate::event::copy_tag_directives(tag_directives.as_slice()),
                *implicit,
            ),
        ),
        _ => None,
    };
    let (version_directive, tag_directives, implicit) = match start {
        Some(t) => t,
        None => {
            let e = Error::composer("did not find expected <document start>", ev.start_mark);
            parser.error = Some(e);
            return Err(e);
        },
    };
    document.version_directive = version_directive;
    document.tag_directives = tag_directives;
    document.start_implicit = implicit;
    document.start_mark = ev.start_mark;

    let mut ctx: Vec<i32> = Vec::new();
    let mut fuel: usize = crate::types::sat_add(
        crate::types::sat_add(parser.tokens.len(), parser.tokens.len()),
        64,
    );
    while fuel > 0
        invariant
            document.wf(),
            old(parser).error is None,
            parser.error is None,
            !(old(parser).stream_start_produced && old(parser).stream_end_produced),
        decreases fuel,
    {
        fuel = fuel - 1;
        let ev = match yaml_parser_parse(parser) {
            Ok(ev) => ev,
            Err(e) => {
                return Err(e);
            },
        };
        let done = match load_event(parser, document, &mut ctx, ev) {
            Ok(d) => d,
            Err(e) => {
                if parser.error.is_none() {
                    parser.error = Some(e);
                }
                return Err(e);
            },
        };
        if done {
            parser.aliases = Vec::new();
            return Ok(());
        }
    }
    let e = Error::composer(
        "the composing step bound was exceeded",
        Mark::zero(),
    );
    parser.error = Some(e);
    Err(e)
}

} // verus!

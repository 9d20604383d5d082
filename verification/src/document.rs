//! The node graph a composed document materializes: an arena of scalar,
//! sequence and mapping nodes addressed by 1-based ids.

use vstd::prelude::*;

use crate::event::copy_tag_directives;
use crate::types::{
    MappingStyle, Mark, ScalarStyle, SequenceStyle, TagDirective, VersionDirective,
};

verus! {

/// The tag given to scalar nodes composed without an explicit tag.
pub const DEFAULT_SCALAR_TAG: &'static str = "tag:yaml.org,2002:str";

/// The tag given to sequence nodes composed without an explicit tag.
pub const DEFAULT_SEQUENCE_TAG: &'static str = "tag:yaml.org,2002:seq";

/// The tag given to mapping nodes composed without an explicit tag.
pub const DEFAULT_MAPPING_TAG: &'static str = "tag:yaml.org,2002:map";

/// A key/value pair of a mapping node, as node ids.
#[derive(Clone, Copy, PartialEq, Eq, Structural, Debug)]
pub struct NodePair {
    pub key: i32,
    pub value: i32,
}

/// The payload of a node.
pub enum NodeData {
    Scalar { value: String, style: ScalarStyle },
    Sequence { items: Vec<i32>, style: SequenceStyle },
    Mapping { pairs: Vec<NodePair>, style: MappingStyle },
}

/// A node of the graph: payload, resolved tag, and the source region.
pub struct Node {
    pub data: NodeData,
    pub tag: Option<String>,
    pub start_mark: Mark,
    pub end_mark: Mark,
}

/// A document: the node arena (the first node is the root) and the
/// directives and boundary marks of the document it came from.
pub struct Document {
    pub nodes: Vec<Node>,
    pub version_directive: Option<VersionDirective>,
    pub tag_directives: Vec<TagDirective>,
    pub start_implicit: bool,
    pub end_implicit: bool,
    pub start_mark: Mark,
    pub end_mark: Mark,
}

/// A node id addresses a node of the arena: ids are 1-based.
pub open spec fn id_in_range(id: i32, n_nodes: nat) -> bool {
    1 <= id && id <= n_nodes
}

impl Document {
    /// Every edge of the graph addresses a node of the arena.
    pub open spec fn edges_in_range(self) -> bool {
        forall|i: int|
            0 <= i < self.nodes@.len() ==> match #[trigger] self.nodes@[i].data {
                NodeData::Scalar { .. } => true,
                NodeData::Sequence { items, .. } => forall|j: int|
                    0 <= j < items@.len() ==> id_in_range(#[trigger] items@[j], self.nodes@.len()),
                NodeData::Mapping { pairs, .. } => forall|j: int|
                    0 <= j < pairs@.len() ==> id_in_range((#[trigger] pairs@[j]).key, self.nodes@.len())
                        && (pairs@[j].value == 0 || id_in_range(pairs@[j].value, self.nodes@.len())),
            }
    }

    /// A well-formed arena: small enough for ids to fit an `i32`, with every
    /// edge in range.
    pub open spec fn wf(self) -> bool {
        self.nodes@.len() <= i32::MAX && self.edges_in_range()
    }
}

/// Create a YAML document.
pub fn yaml_document_new(
    version_directive: Option<VersionDirective>,
    tag_directives_in: &[TagDirective],
    start_implicit: bool,
    end_implicit: bool,
) -> (r: Document)
    ensures
        r.nodes@.len() == 0,
        r.version_directive == version_directive,
        r.tag_directives@.len() == tag_directives_in@.len(),
        forall|i: int|
            0 <= i < tag_directives_in@.len() ==> #[trigger] r.tag_directives@[i].handle@
                == tag_directives_in@[i].handle@
                && r.tag_directives@[i].prefix@ == tag_directives_in@[i].prefix@,
        r.start_implicit == start_implicit,
        r.end_implicit == end_implicit,
        r.start_mark == (Mark { index: 0u64, line: 0u64, column: 0u64 }),
        r.end_mark == (Mark { index: 0u64, line: 0u64, column: 0u64 }),
        r.wf(),
{
    Document {
        nodes: Vec::new(),
        version_directive,
        tag_directives: copy_tag_directives(tag_directives_in),
        start_implicit,
        end_implicit,
        start_mark: Mark::zero(),
        end_mark: Mark::zero(),
    }
}

/// Delete a YAML document and all its nodes.
pub fn yaml_document_delete(document: &mut Document)
    ensures
        final(document).nodes@.len() == 0,
        final(document).version_directive is None,
        final(document).tag_directives@.len() == 0,
        final(document).wf(),
{
    document.nodes.clear();
    document.version_directive = None;
    document.tag_directives.clear();
}

/// Get a node of a YAML document, or `None` if `index` is out of range.
pub fn yaml_document_get_node(document: &Document, index: i32) -> (r: Option<&Node>)
    ensures
        if id_in_range(index, document.nodes@.len()) {
            r matches Some(n) && *n == document.nodes@[index - 1]
        } else {
            r is None
        },
{
    if index >= 1 && (index as usize) <= document.nodes.len() {
        Some(&document.nodes[(index as usize) - 1])
    } else {
        None
    }
}

/// Get the root of a YAML document: the first node added to it.
///
/// An empty document produced by the loader signifies the end of the stream;
/// `None` is returned for it.
pub fn yaml_document_get_root_node(document: &Document) -> (r: Option<&Node>)
    ensures
        if document.nodes@.len() > 0 {
            r matches Some(n) && *n == document.nodes@[0]
        } else {
            r is None
        },
{
    if document.nodes.len() > 0 {
        Some(&document.nodes[0])
    } else {
        None
    }
}

/// Create a SCALAR node and attach it to the document. A missing tag becomes
/// the default scalar tag. Returns the id of the new node.
#[must_use]
pub fn yaml_document_add_scalar(
    document: &mut Document,
    tag: Option<&str>,
    value: &str,
    style: ScalarStyle,
) -> (r: i32)
    requires
        old(document).wf(),
        old(document).nodes@.len() < i32::MAX,
    ensures
        r == old(document).nodes@.len() + 1,
        final(document).nodes@.len() == old(document).nodes@.len() + 1,
        final(document).nodes@.subrange(0, old(document).nodes@.len() as int)
            == old(document).nodes@,
        final(document).nodes@.last().data matches NodeData::Scalar { value: v, style: st }
            && v@ == value@ && st == style,
        final(document).nodes@.last().tag matches Some(t) && t@ == match tag {
            Some(t0) => t0@,
            None => DEFAULT_SCALAR_TAG@,
        },
        final(document).version_directive == old(document).version_directive,
        final(document).wf(),
{
    let tag_str: &str = match tag {
        Some(t) => t,
        None => DEFAULT_SCALAR_TAG,
    };
    let node = Node {
        data: NodeData::Scalar { value: value.to_owned(), style },
        tag: Some(tag_str.to_owned()),
        start_mark: Mark::zero(),
        end_mark: Mark::zero(),
    };
    document.nodes.push(node);
    assert(final(document).nodes@.subrange(0, old(document).nodes@.len() as int) =~= old(
        document,
    ).nodes@);
    document.nodes.len() as i32
}

/// Create an empty SEQUENCE node and attach it to the document. A missing tag
/// becomes the default sequence tag. Returns the id of the new node.
#[must_use]
pub fn yaml_document_add_sequence(
    document: &mut Document,
    tag: Option<&str>,
    style: SequenceStyle,
) -> (r: i32)
    requires
        old(document).wf(),
        old(document).nodes@.len() < i32::MAX,
    ensures
        r == old(document).nodes@.len() + 1,
        final(document).nodes@.len() == old(document).nodes@.len() + 1,
        final(document).nodes@.subrange(0, old(document).nodes@.len() as int)
            == old(document).nodes@,
        final(document).nodes@.last().data matches NodeData::Sequence { items, style: st }
            && items@.len() == 0 && st == style,
        final(document).nodes@.last().tag matches Some(t) && t@ == match tag {
            Some(t0) => t0@,
            None => DEFAULT_SEQUENCE_TAG@,
        },
        final(document).wf(),
{
    let tag_str: &str = match tag {
        Some(t) => t,
        None => DEFAULT_SEQUENCE_TAG,
    };
    let node = Node {
        data: NodeData::Sequence { items: Vec::new(), style },
        tag: Some(tag_str.to_owned()),
        start_mark: Mark::zero(),
        end_mark: Mark::zero(),
    };
    document.nodes.push(node);
    assert(final(document).nodes@.subrange(0, old(document).nodes@.len() as int) =~= old(
        document,
    ).nodes@);
    document.nodes.len() as i32
}

/// Create an empty MAPPING node and attach it to the document. A missing tag
/// becomes the default mapping tag. Returns the id of the new node.
#[must_use]
pub fn yaml_document_add_mapping(
    document: &mut Document,
    tag: Option<&str>,
    style: MappingStyle,
) -> (r: i32)
    requires
        old(document).wf(),
        old(document).nodes@.len() < i32::MAX,
    ensures
        r == old(document).nodes@.len() + 1,
        final(document).nodes@.len() == old(document).nodes@.len() + 1,
        final(document).nodes@.subrange(0, old(document).nodes@.len() as int)
            == old(document).nodes@,
        final(document).nodes@.last().data matches NodeData::Mapping { pairs, style: st }
            && pairs@.len() == 0 && st == style,
        final(document).nodes@.last().tag matches Some(t) && t@ == match tag {
            Some(t0) => t0@,
            None => DEFAULT_MAPPING_TAG@,
        },
        final(document).wf(),
{
    let tag_str: &str = match tag {
        Some(t) => t,
        None => DEFAULT_MAPPING_TAG,
    };
    let node = Node {
        data: NodeData::Mapping { pairs: Vec::new(), style },
        tag: Some(tag_str.to_owned()),
        start_mark: Mark::zero(),
        end_mark: Mark::zero(),
    };
    document.nodes.push(node);
    assert(final(document).nodes@.subrange(0, old(document).nodes@.len() as int) =~= old(
        document,
    ).nodes@);
    document.nodes.len() as i32
}

/// Add an item to a SEQUENCE node.
pub fn yaml_document_append_sequence_item(document: &mut Document, sequence: i32, item: i32)
    requires
        old(document).wf(),
        id_in_range(sequence, old(document).nodes@.len()),
        old(document).nodes@[sequence - 1].data is Sequence,
        id_in_range(item, old(document).nodes@.len()),
    ensures
        final(document).nodes@.len() == old(document).nodes@.len(),
        final(document).nodes@[sequence - 1].data matches NodeData::Sequence { items, style }
            && (old(document).nodes@[sequence - 1].data matches NodeData::Sequence {
            items: old_items,
            style: old_style,
        } && items@ == old_items@.push(item) && style == old_style),
        forall|i: int|
            0 <= i < old(document).nodes@.len() && i != sequence - 1
                ==> final(document).nodes@[i] == #[trigger] old(document).nodes@[i],
        final(document).version_directive == old(document).version_directive,
        final(document).tag_directives@ == old(document).tag_directives@,
        final(document).start_implicit == old(document).start_implicit,
        final(document).end_implicit == old(document).end_implicit,
        final(document).start_mark == old(document).start_mark,
        final(document).end_mark == old(document).end_mark,
        final(document).wf(),
{
    let idx = (sequence as usize) - 1;
    let node = &mut document.nodes[idx];
    match &mut node.data {
        NodeData::Sequence { items, .. } => {
            items.push(item);
        },
        _ => {
            proof {
                assert(false);
            }
        },
    }
}

/// Add a pair of a key and a value to a MAPPING node.
pub fn yaml_document_append_mapping_pair(
    document: &mut Document,
    mapping: i32,
    key: i32,
    value: i32,
)
    requires
        old(document).wf(),
        id_in_range(mapping, old(document).nodes@.len()),
        old(document).nodes@[mapping - 1].data is Mapping,
        id_in_range(key, old(document).nodes@.len()),
        id_in_range(value, old(document).nodes@.len()),
    ensures
        final(document).nodes@.len() == old(document).nodes@.len(),
        final(document).nodes@[mapping - 1].data matches NodeData::Mapping { pairs, style }
            && (old(document).nodes@[mapping - 1].data matches NodeData::Mapping {
            pairs: old_pairs,
            style: old_style,
        } && pairs@ == old_pairs@.push(NodePair { key, value }) && style == old_style),
        forall|i: int|
            0 <= i < old(document).nodes@.len() && i != mapping - 1
                ==> final(document).nodes@[i] == #[trigger] old(document).nodes@[i],
        final(document).version_directive == old(document).version_directive,
        final(document).tag_directives@ == old(document).tag_directives@,
        final(document).start_implicit == old(document).start_implicit,
        final(document).end_implicit == old(document).end_implicit,
        final(document).start_mark == old(document).start_mark,
        final(document).end_mark == old(document).end_mark,
        final(document).wf(),
{
    let idx = (mapping as usize) - 1;
    let node = &mut document.nodes[idx];
    match &mut node.data {
        NodeData::Mapping { pairs, .. } => {
            pairs.push(NodePair { key, value });
        },
        _ => {
            proof {
                assert(false);
            }
        },
    }
}

} // verus!

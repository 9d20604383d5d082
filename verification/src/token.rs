//! Tokens: what a scanner produces and the parser state machine consumes.

use vstd::prelude::*;

use crate::types::{Encoding, Mark, ScalarStyle};

verus! {

/// The payload of a token.
pub enum TokenData {
    StreamStart { encoding: Encoding },
    StreamEnd,
    VersionDirective { major: i32, minor: i32 },
    TagDirective { handle: String, prefix: String },
    DocumentStart,
    DocumentEnd,
    BlockSequenceStart,
    BlockMappingStart,
    BlockEnd,
    FlowSequenceStart,
    FlowSequenceEnd,
    FlowMappingStart,
    FlowMappingEnd,
    BlockEntry,
    FlowEntry,
    Key,
    Value,
    Alias { value: String },
    Anchor { value: String },
    Tag { handle: String, suffix: String },
    Scalar { value: String, style: ScalarStyle },
}

/// A token together with the source region it covers.
pub struct Token {
    pub data: TokenData,
    pub start_mark: Mark,
    pub end_mark: Mark,
}

impl Token {
    /// A token whose region is well-formed: it ends no earlier than it starts.
    pub open spec fn wf(self) -> bool {
        self.start_mark.le(self.end_mark)
    }

    /// Build a token over a given region.
    pub fn new(data: TokenData, start_mark: Mark, end_mark: Mark) -> (r: Token)
        ensures
            r.data == data,
            r.start_mark == start_mark,
            r.end_mark == end_mark,
    {
        Token { data, start_mark, end_mark }
    }
}

/// A well-formed token stream: every token's region is well-formed and the
/// regions do not overlap, in stream order.
pub open spec fn tokens_wf(toks: Seq<Token>) -> bool {
    &&& forall|i: int| 0 <= i < toks.len() ==> (#[trigger] toks[i]).wf()
    &&& forall|i: int|
        0 < i < toks.len() ==> (#[trigger] toks[i - 1]).end_mark.le(toks[i].start_mark)
}

} // verus!

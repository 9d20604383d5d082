//! The parser state machine: a pushdown automaton that turns a token stream
//! into an event stream, resolving directives, tags and empty scalars.
//!
//! The tokens come from the parser's queue, which the caller fills; marks on
//! the produced events are taken from the tokens they cover.

use vstd::prelude::*;

use std::collections::VecDeque;

use vstd::string::StrSliceExecFns;
use vstd::string::StringExecFns;

use crate::event::{Event, EventData};
use crate::token::{tokens_wf, Token, TokenData};
use crate::types::{
    Break, Encoding, Error, ErrorKind, Mark, ScalarStyle, SequenceStyle, MappingStyle,
    TagDirective, VersionDirective,
};

verus! {

/// The parser states, one per grammar production.
#[derive(Clone, Copy, PartialEq, Eq, Structural, Debug)]
pub enum ParserState {
    /// Expect STREAM-START.
    StreamStart,
    /// Expect the beginning of an implicit document.
    ImplicitDocumentStart,
    /// Expect DOCUMENT-START.
    DocumentStart,
    /// Expect the content of a document.
    DocumentContent,
    /// Expect DOCUMENT-END.
    DocumentEnd,
    /// Expect a block node.
    BlockNode,
    /// Expect a block node or an indentless sequence.
    BlockNodeOrIndentlessSequence,
    /// Expect a flow node.
    FlowNode,
    /// Expect the first entry of a block sequence.
    BlockSequenceFirstEntry,
    /// Expect an entry of a block sequence.
    BlockSequenceEntry,
    /// Expect an entry of an indentless sequence.
    IndentlessSequenceEntry,
    /// Expect the first key of a block mapping.
    BlockMappingFirstKey,
    /// Expect a key of a block mapping.
    BlockMappingKey,
    /// Expect a value of a block mapping.
    BlockMappingValue,
    /// Expect the first entry of a flow sequence.
    FlowSequenceFirstEntry,
    /// Expect an entry of a flow sequence.
    FlowSequenceEntry,
    /// Expect the key of an ordered mapping inside a flow sequence.
    FlowSequenceEntryMappingKey,
    /// Expect the value of an ordered mapping inside a flow sequence.
    FlowSequenceEntryMappingValue,
    /// Expect the end of an ordered mapping inside a flow sequence.
    FlowSequenceEntryMappingEnd,
    /// Expect the first key of a flow mapping.
    FlowMappingFirstKey,
    /// Expect a key of a flow mapping.
    FlowMappingKey,
    /// Expect a value of a flow mapping.
    FlowMappingValue,
    /// Expect an empty value of a flow mapping.
    FlowMappingEmptyValue,
    /// Expect nothing.
    End,
}

impl Default for ParserState {
    fn default() -> (r: ParserState)
        ensures
            r == ParserState::StreamStart,
    {
        ParserState::StreamStart
    }
}

/// An anchor registered while composing one document.
pub struct AliasData {
    pub anchor: String,
    pub index: i32,
    pub mark: Mark,
}

/// The parser structure.
pub struct Parser {
    /// The queue of tokens still to be consumed.
    pub tokens: VecDeque<Token>,
    /// How many tokens were consumed so far.
    pub tokens_parsed: usize,
    /// The declared source encoding.
    pub encoding: Encoding,
    /// Was STREAM-START produced already?
    pub stream_start_produced: bool,
    /// Was STREAM-END produced already?
    pub stream_end_produced: bool,
    /// The current parser state.
    pub state: ParserState,
    /// The stack of states to return to.
    pub states: Vec<ParserState>,
    /// The marks where open block collections began.
    pub marks: Vec<Mark>,
    /// The tag directives in force for the current document.
    pub tag_directives: Vec<TagDirective>,
    /// The anchors registered while loading the current document.
    pub aliases: Vec<AliasData>,
    /// A terminal error: once set, every later call reports it again.
    pub error: Option<Error>,
}

/// Create a parser with an empty token queue.
pub fn yaml_parser_new() -> (r: Parser)
    ensures
        r.tokens@.len() == 0,
        r.tokens_parsed == 0,
        r.encoding == Encoding::Any,
        !r.stream_start_produced,
        !r.stream_end_produced,
        r.state == ParserState::StreamStart,
        r.states@.len() == 0,
        r.marks@.len() == 0,
        r.tag_directives@.len() == 0,
        r.aliases@.len() == 0,
        r.error is None,
{
    Parser {
        tokens: VecDeque::new(),
        tokens_parsed: 0,
        encoding: Encoding::Any,
        stream_start_produced: false,
        stream_end_produced: false,
        state: ParserState::StreamStart,
        states: Vec::new(),
        marks: Vec::new(),
        tag_directives: Vec::new(),
        aliases: Vec::new(),
        error: None,
    }
}

/// Reset the parser: every field returns to its initial value.
pub fn yaml_parser_reset(parser: &mut Parser)
    ensures
        final(parser).tokens@.len() == 0,
        final(parser).tokens_parsed == 0,
        final(parser).encoding == Encoding::Any,
        !final(parser).stream_start_produced,
        !final(parser).stream_end_produced,
        final(parser).state == ParserState::StreamStart,
        final(parser).states@.len() == 0,
        final(parser).marks@.len() == 0,
        final(parser).tag_directives@.len() == 0,
        final(parser).aliases@.len() == 0,
        final(parser).error is None,
{
    *parser = yaml_parser_new();
}

/// Declare the source encoding, before any input is given.
pub fn yaml_parser_set_encoding(parser: &mut Parser, encoding: Encoding)
    requires
        old(parser).encoding == Encoding::Any,
    ensures
        *final(parser) == (Parser { encoding, ..*old(parser) }),
{
    parser.encoding = encoding;
}

/// Hand the parser the token stream of one input, appended to its queue.
pub fn yaml_parser_set_input_tokens(parser: &mut Parser, tokens: Vec<Token>)
    ensures
        final(parser).tokens@ == old(parser).tokens@ + tokens@,
        final(parser).state == old(parser).state,
        final(parser).error == old(parser).error,
        final(parser).stream_start_produced == old(parser).stream_start_produced,
        final(parser).stream_end_produced == old(parser).stream_end_produced,
        final(parser).encoding == old(parser).encoding,
        final(parser).states@ == old(parser).states@,
        final(parser).marks@ == old(parser).marks@,
        final(parser).tag_directives@ == old(parser).tag_directives@,
        final(parser).aliases@.len() == old(parser).aliases@.len(),
{
    let ghost all = tokens@;
    let mut rest = tokens;
    let mut i: usize = 0;
    let n = rest.len();
    while i < n
        invariant
            n == all.len(),
            i <= n,
            rest@ == all.skip(i as int),
            parser.tokens@ == old(parser).tokens@ + all.take(i as int),
            parser.state == old(parser).state,
            parser.error == old(parser).error,
            parser.stream_start_produced == old(parser).stream_start_produced,
            parser.stream_end_produced == old(parser).stream_end_produced,
            parser.encoding == old(parser).encoding,
            parser.states@ == old(parser).states@,
            parser.marks@ == old(parser).marks@,
            parser.tag_directives@ == old(parser).tag_directives@,
            parser.aliases@.len() == old(parser).aliases@.len(),
        decreases n - i,
    {
        let t = rest.remove(0);
        proof {
            assert(t == all[i as int]);
            assert(rest@ =~= all.skip(i as int + 1));
        }
        parser.tokens.push_back(t);
        proof {
            assert(parser.tokens@ =~= old(parser).tokens@ + all.take(i as int + 1));
        }
        i += 1;
    }
    proof {
        assert(all.take(n as int) =~= all);
    }
}


/// The state and stack that a step leaves when it pops its continuation: the
/// top of the stack, or the end state when the stack is empty.
pub open spec fn popped_to(states: Seq<ParserState>, st: ParserState, post: Seq<ParserState>) -> bool {
    if states.len() > 0 {
        st == states.last() && post == states.drop_last()
    } else {
        st == ParserState::End && post == states
    }
}

/// The empty plain scalar event that stands for an absent key or value.
pub open spec fn empty_scalar_event(ev: Event, mark: Mark) -> bool {
    &&& ev.start_mark == mark
    &&& ev.end_mark == mark
    &&& ev.data matches EventData::Scalar {
        anchor,
        tag,
        value,
        plain_implicit,
        quoted_implicit,
        style,
    } && anchor is None && tag is None && value@.len() == 0 && plain_implicit && !quoted_implicit
        && style == ScalarStyle::Plain
}

/// The tokens left after a step are some tail of the tokens given.
pub open spec fn is_tail_of(post: Seq<Token>, pre: Seq<Token>) -> bool {
    exists|k: int| 0 <= k <= pre.len() && post == pre.skip(k)
}

/// Every token stream is a tail of itself.
pub proof fn lemma_tail_refl(t: Seq<Token>)
    ensures
        is_tail_of(t, t),
{
    assert(t.skip(0) =~= t);
}

/// A tail of a tail is a tail.
pub proof fn lemma_tail_trans(a: Seq<Token>, b: Seq<Token>, c: Seq<Token>)
    requires
        is_tail_of(b, a),
        is_tail_of(c, b),
    ensures
        is_tail_of(c, a),
{
    let k1 = choose|k: int| 0 <= k <= a.len() && b == a.skip(k);
    let k2 = choose|k: int| 0 <= k <= b.len() && c == b.skip(k);
    assert(a.skip(k1).skip(k2) =~= a.skip(k1 + k2));
    assert(c == a.skip(k1 + k2));
}

/// Dropping consumed tokens keeps a well-formed stream well-formed.
pub proof fn lemma_consume(t: Seq<Token>, k: int)
    requires
        0 <= k <= t.len(),
    ensures
        is_tail_of(t.skip(k), t),
        tokens_wf(t) ==> tokens_wf(t.skip(k)),
{
    assert(t.skip(k) == t.skip(k));
    if tokens_wf(t) {
        assert forall|i: int| 0 <= i < t.skip(k).len() implies (#[trigger] t.skip(k)[i]).wf() by {
            assert(t.skip(k)[i] == t[i + k]);
        }
        assert forall|i: int|
            0 < i < t.skip(k).len() implies (#[trigger] t.skip(k)[i - 1]).end_mark.le(
            t.skip(k)[i].start_mark,
        ) by {
            let j = i + k;
            assert(t[j - 1].end_mark.le(t[j].start_mark));
            assert(t.skip(k)[i - 1] == t[j - 1]);
            assert(t.skip(k)[i] == t[j]);
        }
    }
}

/// In a well-formed stream, marks grow along the tokens: a later token's
/// marks lie no earlier than an earlier token's start, and strictly after
/// its end.
pub proof fn lemma_marks_span(t: Seq<Token>, i: int, j: int)
    requires
        tokens_wf(t),
        0 <= i <= j < t.len(),
    ensures
        t[i].start_mark.le(t[j].start_mark),
        t[i].start_mark.le(t[j].end_mark),
        i < j ==> t[i].end_mark.le(t[j].start_mark),
        t[i].wf(),
        t[j].wf(),
    decreases j - i,
{
    assert(t[i].wf());
    assert(t[j].wf());
    if i < j {
        lemma_marks_span(t, i, j - 1);
        assert(t[j - 1].wf());
        assert(t[j - 1].end_mark.le(t[j].start_mark));
    }
}

/// Two adjacent tokens of a well-formed stream do not overlap.
pub proof fn lemma_adjacent(t: Seq<Token>, i: int)
    requires
        tokens_wf(t),
        0 < i < t.len(),
    ensures
        t[i - 1].end_mark.le(t[i].start_mark),
        t[i - 1].wf(),
        t[i].wf(),
{
    assert(t[i - 1].wf());
    assert(t[i].wf());
}

/// The marks of one step under a well-formed token stream: the tokens left
/// are a well-formed tail of those given, and the produced event covers a
/// well-formed region that begins no earlier than the head token and no
/// later than the head token that is left. Chained over a run, the start
/// marks of the produced events never decrease.
pub open spec fn marks_ok(pre: Parser, post: Parser, r: Result<Event, Error>) -> bool {
    tokens_wf(pre.tokens@) ==> {
        &&& is_tail_of(post.tokens@, pre.tokens@)
        &&& tokens_wf(post.tokens@)
        &&& r matches Ok(ev) ==> (pre.tokens@.len() > 0 ==> ev.start_mark.le(ev.end_mark)
            && pre.tokens@[0].start_mark.le(ev.start_mark) && (post.tokens@.len() > 0
            ==> ev.start_mark.le(post.tokens@[0].start_mark)))
    }
}

/// In the stream-start state: a STREAM-START token yields the STREAM-START
/// event and is consumed; anything else is rejected.
pub open spec fn stream_start_step(pre: Parser, post: Parser, r: Result<Event, Error>) -> bool {
    &&& pre.tokens@.len() == 0 ==> r is Err
    &&& pre.tokens@.len() > 0 && !(pre.tokens@[0].data is StreamStart) ==> r is Err
    &&& pre.tokens@.len() > 0 ==> match pre.tokens@[0].data {
        TokenData::StreamStart { encoding } => {
            &&& r matches Ok(ev) && ev.data == (EventData::StreamStart { encoding })
                && ev.start_mark == pre.tokens@[0].start_mark && ev.end_mark
                == pre.tokens@[0].start_mark
            &&& post.tokens@ == pre.tokens@.drop_first()
            &&& post.state == ParserState::ImplicitDocumentStart
            &&& post.states@ == pre.states@
            &&& post.stream_start_produced
            &&& post.stream_end_produced == pre.stream_end_produced
            &&& post.error == pre.error
        },
        _ => true,
    }
}

/// A token that begins plain document content: anything but a directive, an
/// explicit document marker or the end of the stream.
pub open spec fn doc_head_plain(d: TokenData) -> bool {
    &&& !(d is VersionDirective)
    &&& !(d is TagDirective)
    &&& !(d is DocumentStart)
    &&& !(d is StreamEnd)
}

/// In a document-start state: plain content opens an implicit document; a
/// DOCUMENT-START token opens an explicit one; STREAM-END ends the stream;
/// an unsupported `%YAML` version is rejected.
pub open spec fn document_start_step(
    implicit: bool,
    pre: Parser,
    post: Parser,
    r: Result<Event, Error>,
) -> bool {
    &&& pre.tokens@.len() == 0 ==> r is Err
    &&& implicit && pre.tokens@.len() > 0 && doc_head_plain(pre.tokens@[0].data) ==> {
        &&& r matches Ok(ev) && (ev.data matches EventData::DocumentStart {
            version_directive,
            tag_directives,
            implicit: im,
        } && version_directive is None && tag_directives@.len() == 0 && im) && ev.start_mark
            == pre.tokens@[0].start_mark && ev.end_mark == pre.tokens@[0].start_mark
        &&& post.tokens@ == pre.tokens@
        &&& post.state == ParserState::BlockNode
        &&& post.states@ == pre.states@.push(ParserState::DocumentEnd)
        &&& post.stream_end_produced == pre.stream_end_produced
        &&& post.error == pre.error
    }
    &&& pre.tokens@.len() > 0 && pre.tokens@[0].data is StreamEnd ==> {
        &&& r matches Ok(ev) && ev.data is StreamEnd && ev.start_mark
            == pre.tokens@[0].start_mark && ev.end_mark == pre.tokens@[0].end_mark
        &&& post.tokens@ == pre.tokens@.drop_first()
        &&& post.state == ParserState::End
        &&& post.states@ == pre.states@
        &&& post.stream_end_produced
        &&& post.error == pre.error
    }
    &&& pre.tokens@.len() > 0 && pre.tokens@[0].data is DocumentStart ==> {
        &&& r matches Ok(ev) && (ev.data matches EventData::DocumentStart {
            version_directive,
            tag_directives,
            implicit: im,
        } && version_directive is None && tag_directives@.len() == 0 && !im) && ev.start_mark
            == pre.tokens@[0].start_mark && ev.end_mark == pre.tokens@[0].end_mark
        &&& post.tokens@ == pre.tokens@.drop_first()
        &&& post.state == ParserState::DocumentContent
        &&& post.states@ == pre.states@.push(ParserState::DocumentEnd)
        &&& post.stream_end_produced == pre.stream_end_produced
        &&& post.error == pre.error
    }
    &&& pre.tokens@.len() > 0 && (pre.tokens@[0].data matches TokenData::VersionDirective {
        major,
        minor,
    } && !(major == 1 && (minor == 1 || minor == 2))) ==> (r matches Err(e) && e.kind
        == ErrorKind::Parser && e.problem@ == "found incompatible YAML document"@
        && e.problem_mark == pre.tokens@[0].start_mark)
}

/// What `parse_node` produces for each head token when no anchor or tag
/// token precedes the content. `t` and `states` are the token queue and the
/// state stack at the step's start.
pub open spec fn node_step(
    block: bool,
    indentless: bool,
    t: Seq<Token>,
    states: Seq<ParserState>,
    post: Parser,
    r: Result<Event, Error>,
) -> bool {
    &&& t.len() == 0 ==> r is Err
    &&& t.len() > 0 ==> match t[0].data {
        TokenData::Alias { value } => {
            &&& r matches Ok(ev) && (ev.data matches EventData::Alias { anchor } && anchor@
                == value@) && ev.start_mark == t[0].start_mark && ev.end_mark == t[0].end_mark
            &&& post.tokens@ == t.drop_first()
            &&& popped_to(states, post.state, post.states@)
        },
        _ => true,
    }
    &&& t.len() > 0 && indentless && t[0].data is BlockEntry ==> {
        &&& r matches Ok(ev) && (ev.data matches EventData::SequenceStart {
            anchor,
            tag,
            implicit,
            style,
        } && anchor is None && tag is None && implicit && style == SequenceStyle::Block)
            && ev.start_mark == t[0].start_mark && ev.end_mark == t[0].end_mark
        &&& post.tokens@ == t
        &&& post.state == ParserState::IndentlessSequenceEntry
        &&& post.states@ == states
    }
    &&& t.len() > 0 ==> match t[0].data {
        TokenData::Scalar { value, style } => {
            &&& r matches Ok(ev) && (ev.data matches EventData::Scalar {
                anchor,
                tag,
                value: v,
                plain_implicit,
                quoted_implicit,
                style: st,
            } && anchor is None && tag is None && v@ == value@ && st == style && plain_implicit
                == (style is Plain) && quoted_implicit == !(style is Plain)) && ev.start_mark
                == t[0].start_mark && ev.end_mark == t[0].end_mark
            &&& post.tokens@ == t.drop_first()
            &&& popped_to(states, post.state, post.states@)
        },
        _ => true,
    }
    &&& t.len() > 0 && t[0].data is FlowSequenceStart ==> {
        &&& r matches Ok(ev) && (ev.data matches EventData::SequenceStart {
            anchor,
            tag,
            implicit,
            style,
        } && anchor is None && tag is None && implicit && style == SequenceStyle::Flow)
            && ev.start_mark == t[0].start_mark && ev.end_mark == t[0].end_mark
        &&& post.tokens@ == t
        &&& post.state == ParserState::FlowSequenceFirstEntry
        &&& post.states@ == states
    }
    &&& t.len() > 0 && t[0].data is FlowMappingStart ==> {
        &&& r matches Ok(ev) && (ev.data matches EventData::MappingStart {
            anchor,
            tag,
            implicit,
            style,
        } && anchor is None && tag is None && implicit && style == MappingStyle::Flow)
            && ev.start_mark == t[0].start_mark && ev.end_mark == t[0].end_mark
        &&& post.tokens@ == t
        &&& post.state == ParserState::FlowMappingFirstKey
        &&& post.states@ == states
    }
    &&& t.len() > 0 && block && t[0].data is BlockSequenceStart ==> {
        &&& r matches Ok(ev) && (ev.data matches EventData::SequenceStart {
            anchor,
            tag,
            implicit,
            style,
        } && anchor is None && tag is None && implicit && style == SequenceStyle::Block)
            && ev.start_mark == t[0].start_mark && ev.end_mark == t[0].end_mark
        &&& post.tokens@ == t
        &&& post.state == ParserState::BlockSequenceFirstEntry
        &&& post.states@ == states
    }
    &&& t.len() > 0 && block && t[0].data is BlockMappingStart ==> {
        &&& r matches Ok(ev) && (ev.data matches EventData::MappingStart {
            anchor,
            tag,
            implicit,
            style,
        } && anchor is None && tag is None && implicit && style == MappingStyle::Block)
            && ev.start_mark == t[0].start_mark && ev.end_mark == t[0].end_mark
        &&& post.tokens@ == t
        &&& post.state == ParserState::BlockMappingFirstKey
        &&& post.states@ == states
    }
    &&& t.len() > 0 && !(t[0].data is Alias) && !(t[0].data is Anchor) && !(t[0].data is Tag) && !(
        t[0].data is Scalar) && !(t[0].data is FlowSequenceStart) && !(
        t[0].data is FlowMappingStart) && !(block && t[0].data is BlockSequenceStart) && !(block
        && t[0].data is BlockMappingStart) && !(indentless && t[0].data is BlockEntry) ==> r is Err
}

/// In the document-content state: a token that cannot begin a node stands
/// for an empty document and yields the empty scalar; otherwise a block
/// node is parsed.
pub open spec fn content_empty_head(d: TokenData) -> bool {
    ||| d is VersionDirective
    ||| d is TagDirective
    ||| d is DocumentStart
    ||| d is DocumentEnd
    ||| d is StreamEnd
}

pub open spec fn document_content_step(pre: Parser, post: Parser, r: Result<Event, Error>) -> bool {
    &&& pre.tokens@.len() == 0 ==> r is Err
    &&& pre.tokens@.len() > 0 && content_empty_head(pre.tokens@[0].data) ==> {
        &&& r matches Ok(ev) && empty_scalar_event(ev, pre.tokens@[0].start_mark)
        &&& post.tokens@ == pre.tokens@
        &&& popped_to(pre.states@, post.state, post.states@)
    }
    &&& pre.tokens@.len() > 0 && !content_empty_head(pre.tokens@[0].data) ==> node_step(
        true,
        false,
        pre.tokens@,
        pre.states@,
        post,
        r,
    )
}

/// In the document-end state: an explicit DOCUMENT-END token is consumed,
/// an implicit end consumes nothing; either way the tag directives are
/// dropped and the next document may start.
pub open spec fn document_end_step(pre: Parser, post: Parser, r: Result<Event, Error>) -> bool {
    &&& pre.tokens@.len() == 0 ==> r is Err
    &&& pre.tokens@.len() > 0 && pre.tokens@[0].data is DocumentEnd ==> {
        &&& r matches Ok(ev) && ev.data == (EventData::DocumentEnd { implicit: false })
            && ev.start_mark == pre.tokens@[0].start_mark && ev.end_mark
            == pre.tokens@[0].end_mark
        &&& post.tokens@ == pre.tokens@.drop_first()
        &&& post.state == ParserState::DocumentStart
        &&& post.states@ == pre.states@
        &&& post.tag_directives@.len() == 0
        &&& post.error == pre.error
    }
    &&& pre.tokens@.len() > 0 && !(pre.tokens@[0].data is DocumentEnd) ==> {
        &&& r matches Ok(ev) && ev.data == (EventData::DocumentEnd { implicit: true })
            && ev.start_mark == pre.tokens@[0].start_mark && ev.end_mark
            == pre.tokens@[0].start_mark
        &&& post.tokens@ == pre.tokens@
        &&& post.state == ParserState::DocumentStart
        &&& post.states@ == pre.states@
        &&& post.tag_directives@.len() == 0
        &&& post.stream_end_produced == pre.stream_end_produced
        &&& post.error == pre.error
    }
}

/// The index of the head token once an entry handler has consumed the
/// collection-start token of a first entry.
pub open spec fn off(first: bool) -> int {
    if first {
        1int
    } else {
        0int
    }
}

/// In a block-sequence-entry state: `-` before content parses a node, `-`
/// before another `-` or the block end stands for an empty item, and the
/// block end closes the sequence.
pub open spec fn block_sequence_entry_step(
    first: bool,
    pre: Parser,
    post: Parser,
    r: Result<Event, Error>,
) -> bool {
    let t = pre.tokens@;
    let o = off(first);
    &&& t.len() <= o ==> r is Err
    &&& t.len() > o && t[o].data is BlockEnd ==> {
        &&& r matches Ok(ev) && ev.data is SequenceEnd && ev.start_mark == t[o].start_mark
            && ev.end_mark == t[o].end_mark
        &&& post.tokens@ == t.skip(o + 1)
        &&& popped_to(pre.states@, post.state, post.states@)
    }
    &&& t.len() > o && t[o].data is BlockEntry ==> {
        &&& t.len() == o + 1 ==> r is Err
        &&& t.len() > o + 1 && (t[o + 1].data is BlockEntry || t[o + 1].data is BlockEnd) ==> {
            &&& r matches Ok(ev) && empty_scalar_event(ev, t[o].end_mark)
            &&& post.tokens@ == t.skip(o + 1)
            &&& post.state == ParserState::BlockSequenceEntry
            &&& post.states@ == pre.states@
        }
        &&& t.len() > o + 1 && !(t[o + 1].data is BlockEntry) && !(t[o + 1].data is BlockEnd)
            ==> node_step(
            true,
            false,
            t.skip(o + 1),
            pre.states@.push(ParserState::BlockSequenceEntry),
            post,
            r,
        )
    }
    &&& t.len() > o && !(t[o].data is BlockEnd) && !(t[o].data is BlockEntry) ==> r is Err
}

/// In the indentless-sequence-entry state: like a block sequence, except
/// that any token other than `-` closes the sequence (there is no block-end
/// token to consume).
pub open spec fn indentless_sequence_entry_step(
    pre: Parser,
    post: Parser,
    r: Result<Event, Error>,
) -> bool {
    let t = pre.tokens@;
    &&& t.len() == 0 ==> r is Err
    &&& t.len() > 0 && t[0].data is BlockEntry ==> {
        &&& t.len() == 1 ==> r is Err
        &&& t.len() > 1 && (t[1].data is BlockEntry || t[1].data is Key || t[1].data is Value
            || t[1].data is BlockEnd) ==> {
            &&& r matches Ok(ev) && empty_scalar_event(ev, t[0].end_mark)
            &&& post.tokens@ == t.drop_first()
            &&& post.state == ParserState::IndentlessSequenceEntry
            &&& post.states@ == pre.states@
        }
        &&& t.len() > 1 && !(t[1].data is BlockEntry) && !(t[1].data is Key) && !(
            t[1].data is Value) && !(t[1].data is BlockEnd) ==> node_step(
            true,
            false,
            t.drop_first(),
            pre.states@.push(ParserState::IndentlessSequenceEntry),
            post,
            r,
        )
    }
    &&& t.len() > 0 && !(t[0].data is BlockEntry) ==> {
        &&& r matches Ok(ev) && ev.data is SequenceEnd && ev.start_mark == t[0].start_mark
            && ev.end_mark == t[0].start_mark
        &&& post.tokens@ == t
        &&& popped_to(pre.states@, post.state, post.states@)
    }
}

/// In a block-mapping-key state: a KEY token before content parses a node,
/// one before another KEY/VALUE or the block end stands for an empty key,
/// and the block end closes the mapping.
pub open spec fn block_mapping_key_step(
    first: bool,
    pre: Parser,
    post: Parser,
    r: Result<Event, Error>,
) -> bool {
    let t = pre.tokens@;
    let o = off(first);
    &&& t.len() <= o ==> r is Err
    &&& t.len() > o && t[o].data is BlockEnd ==> {
        &&& r matches Ok(ev) && ev.data is MappingEnd && ev.start_mark == t[o].start_mark
            && ev.end_mark == t[o].end_mark
        &&& post.tokens@ == t.skip(o + 1)
        &&& popped_to(pre.states@, post.state, post.states@)
    }
    &&& t.len() > o && t[o].data is Key ==> {
        &&& t.len() == o + 1 ==> r is Err
        &&& t.len() > o + 1 && (t[o + 1].data is Key || t[o + 1].data is Value || t[o
            + 1].data is BlockEnd) ==> {
            &&& r matches Ok(ev) && empty_scalar_event(ev, t[o].end_mark)
            &&& post.tokens@ == t.skip(o + 1)
            &&& post.state == ParserState::BlockMappingValue
            &&& post.states@ == pre.states@
        }
        &&& t.len() > o + 1 && !(t[o + 1].data is Key) && !(t[o + 1].data is Value) && !(t[o
            + 1].data is BlockEnd) ==> node_step(
            true,
            true,
            t.skip(o + 1),
            pre.states@.push(ParserState::BlockMappingValue),
            post,
            r,
        )
    }
    &&& t.len() > o && !(t[o].data is BlockEnd) && !(t[o].data is Key) ==> r is Err
}

/// In the block-mapping-value state: a VALUE token before content parses a
/// node; a VALUE before the next key or the block end, or a missing VALUE,
/// stands for an empty value.
pub open spec fn block_mapping_value_step(pre: Parser, post: Parser, r: Result<Event, Error>) -> bool {
    let t = pre.tokens@;
    &&& t.len() == 0 ==> r is Err
    &&& t.len() > 0 && t[0].data is Value ==> {
        &&& t.len() == 1 ==> r is Err
        &&& t.len() > 1 && (t[1].data is Key || t[1].data is Value || t[1].data is BlockEnd) ==> {
            &&& r matches Ok(ev) && empty_scalar_event(ev, t[0].end_mark)
            &&& post.tokens@ == t.drop_first()
            &&& post.state == ParserState::BlockMappingKey
            &&& post.states@ == pre.states@
        }
        &&& t.len() > 1 && !(t[1].data is Key) && !(t[1].data is Value) && !(t[1].data is BlockEnd)
            ==> node_step(
            true,
            true,
            t.drop_first(),
            pre.states@.push(ParserState::BlockMappingKey),
            post,
            r,
        )
    }
    &&& t.len() > 0 && !(t[0].data is Value) ==> {
        &&& r matches Ok(ev) && empty_scalar_event(ev, t[0].start_mark)
        &&& post.tokens@ == t
        &&& post.state == ParserState::BlockMappingKey
        &&& post.states@ == pre.states@
    }
}

/// In a flow-sequence-entry state: `]` closes the sequence; a `,` separates
/// entries after the first; a KEY token opens an ordered single-pair
/// mapping; anything else parses a flow node.
pub open spec fn flow_sequence_entry_step(
    first: bool,
    pre: Parser,
    post: Parser,
    r: Result<Event, Error>,
) -> bool {
    let t = pre.tokens@;
    let o = off(first);
    &&& t.len() <= o ==> r is Err
    &&& t.len() > o && t[o].data is FlowSequenceEnd ==> {
        &&& r matches Ok(ev) && ev.data is SequenceEnd && ev.start_mark == t[o].start_mark
            && ev.end_mark == t[o].end_mark
        &&& post.tokens@ == t.skip(o + 1)
        &&& popped_to(pre.states@, post.state, post.states@)
    }
    &&& first && t.len() > 1 && t[1].data is Key ==> {
        &&& r matches Ok(ev) && (ev.data matches EventData::MappingStart {
            anchor,
            tag,
            implicit,
            style,
        } && anchor is None && tag is None && implicit && style == MappingStyle::Flow)
            && ev.start_mark == t[1].start_mark && ev.end_mark == t[1].end_mark
        &&& post.tokens@ == t.skip(2)
        &&& post.state == ParserState::FlowSequenceEntryMappingKey
        &&& post.states@ == pre.states@
    }
    &&& first && t.len() > 1 && !(t[1].data is Key) && !(t[1].data is FlowSequenceEnd)
        ==> node_step(
        false,
        false,
        t.drop_first(),
        pre.states@.push(ParserState::FlowSequenceEntry),
        post,
        r,
    )
    &&& !first && t.len() > 0 && t[0].data is FlowEntry ==> {
        &&& t.len() == 1 ==> r is Err
        &&& t.len() > 1 && t[1].data is FlowSequenceEnd ==> {
            &&& r matches Ok(ev) && ev.data is SequenceEnd && ev.start_mark == t[1].start_mark
                && ev.end_mark == t[1].end_mark
            &&& post.tokens@ == t.skip(2)
            &&& popped_to(pre.states@, post.state, post.states@)
        }
        &&& t.len() > 1 && t[1].data is Key ==> {
            &&& r matches Ok(ev) && (ev.data matches EventData::MappingStart {
                anchor,
                tag,
                implicit,
                style,
            } && anchor is None && tag is None && implicit && style == MappingStyle::Flow)
                && ev.start_mark == t[1].start_mark && ev.end_mark == t[1].end_mark
            &&& post.tokens@ == t.skip(2)
            &&& post.state == ParserState::FlowSequenceEntryMappingKey
            &&& post.states@ == pre.states@
        }
        &&& t.len() > 1 && !(t[1].data is Key) && !(t[1].data is FlowSequenceEnd) ==> node_step(
            false,
            false,
            t.drop_first(),
            pre.states@.push(ParserState::FlowSequenceEntry),
            post,
            r,
        )
    }
    &&& !first && t.len() > 0 && !(t[0].data is FlowEntry) && !(t[0].data is FlowSequenceEnd)
        ==> r is Err
}

/// In the flow-sequence-entry-mapping-key state: a VALUE, `,` or `]` stands
/// for an empty key; anything else parses a flow node.
pub open spec fn flow_sequence_entry_mapping_key_step(
    pre: Parser,
    post: Parser,
    r: Result<Event, Error>,
) -> bool {
    let t = pre.tokens@;
    &&& t.len() == 0 ==> r is Err
    &&& t.len() > 0 && (t[0].data is Value || t[0].data is FlowEntry
        || t[0].data is FlowSequenceEnd) ==> {
        &&& r matches Ok(ev) && empty_scalar_event(ev, t[0].end_mark)
        &&& post.tokens@ == t.drop_first()
        &&& post.state == ParserState::FlowSequenceEntryMappingValue
        &&& post.states@ == pre.states@
    }
    &&& t.len() > 0 && !(t[0].data is Value) && !(t[0].data is FlowEntry) && !(
        t[0].data is FlowSequenceEnd) ==> node_step(
        false,
        false,
        t,
        pre.states@.push(ParserState::FlowSequenceEntryMappingValue),
        post,
        r,
    )
}

/// In the flow-sequence-entry-mapping-value state: a VALUE before content
/// parses a node; otherwise the value is the empty scalar.
pub open spec fn flow_sequence_entry_mapping_value_step(
    pre: Parser,
    post: Parser,
    r: Result<Event, Error>,
) -> bool {
    let t = pre.tokens@;
    &&& t.len() == 0 ==> r is Err
    &&& t.len() > 0 && t[0].data is Value ==> {
        &&& t.len() == 1 ==> r is Err
        &&& t.len() > 1 && (t[1].data is FlowEntry || t[1].data is FlowSequenceEnd) ==> {
            &&& r matches Ok(ev) && empty_scalar_event(ev, t[1].start_mark)
            &&& post.tokens@ == t.drop_first()
            &&& post.state == ParserState::FlowSequenceEntryMappingEnd
            &&& post.states@ == pre.states@
        }
        &&& t.len() > 1 && !(t[1].data is FlowEntry) && !(t[1].data is FlowSequenceEnd)
            ==> node_step(
            false,
            false,
            t.drop_first(),
            pre.states@.push(ParserState::FlowSequenceEntryMappingEnd),
            post,
            r,
        )
    }
    &&& t.len() > 0 && !(t[0].data is Value) ==> {
        &&& r matches Ok(ev) && empty_scalar_event(ev, t[0].start_mark)
        &&& post.tokens@ == t
        &&& post.state == ParserState::FlowSequenceEntryMappingEnd
        &&& post.states@ == pre.states@
    }
}

/// In the flow-sequence-entry-mapping-end state: the single pair's mapping
/// is closed without consuming a token.
pub open spec fn flow_sequence_entry_mapping_end_step(
    pre: Parser,
    post: Parser,
    r: Result<Event, Error>,
) -> bool {
    let t = pre.tokens@;
    &&& t.len() == 0 ==> r is Err
    &&& t.len() > 0 ==> {
        &&& r matches Ok(ev) && ev.data is MappingEnd && ev.start_mark == t[0].start_mark
            && ev.end_mark == t[0].start_mark
        &&& post.tokens@ == t
        &&& post.state == ParserState::FlowSequenceEntry
        &&& post.states@ == pre.states@
    }
}

/// In a flow-mapping-key state: `}` closes the mapping; a `,` separates
/// pairs after the first; a KEY token introduces a key; content without KEY
/// is a key whose value is empty.
pub open spec fn flow_mapping_key_step(
    first: bool,
    pre: Parser,
    post: Parser,
    r: Result<Event, Error>,
) -> bool {
    let t = pre.tokens@;
    &&& t.len() == 0 ==> r is Err
    &&& !first && t.len() > 0 && t[0].data is FlowMappingEnd ==> {
        &&& r matches Ok(ev) && ev.data is MappingEnd && ev.start_mark == t[0].start_mark
            && ev.end_mark == t[0].end_mark
        &&& post.tokens@ == t.drop_first()
        &&& popped_to(pre.states@, post.state, post.states@)
    }
    &&& !first && t.len() > 0 && !(t[0].data is FlowEntry) && !(t[0].data is FlowMappingEnd)
        ==> r is Err
    &&& (first || (t.len() > 0 && t[0].data is FlowEntry)) && t.len() == 1 ==> r is Err
    &&& (first || (t.len() > 0 && t[0].data is FlowEntry)) && t.len() > 1 ==> {
        &&& t[1].data is FlowMappingEnd ==> {
            &&& r matches Ok(ev) && ev.data is MappingEnd && ev.start_mark == t[1].start_mark
                && ev.end_mark == t[1].end_mark
            &&& post.tokens@ == t.skip(2)
            &&& popped_to(pre.states@, post.state, post.states@)
        }
        &&& t[1].data is Key ==> {
            &&& t.len() == 2 ==> r is Err
            &&& t.len() > 2 && (t[2].data is Value || t[2].data is FlowEntry
                || t[2].data is FlowMappingEnd) ==> {
                &&& r matches Ok(ev) && empty_scalar_event(ev, t[2].start_mark)
                &&& post.tokens@ == t.skip(2)
                &&& post.state == ParserState::FlowMappingValue
                &&& post.states@ == pre.states@
            }
            &&& t.len() > 2 && !(t[2].data is Value) && !(t[2].data is FlowEntry) && !(
                t[2].data is FlowMappingEnd) ==> node_step(
                false,
                false,
                t.skip(2),
                pre.states@.push(ParserState::FlowMappingValue),
                post,
                r,
            )
        }
        &&& !(t[1].data is FlowMappingEnd) && !(t[1].data is Key) ==> node_step(
            false,
            false,
            t.drop_first(),
            pre.states@.push(ParserState::FlowMappingEmptyValue),
            post,
            r,
        )
    }
}

/// In a flow-mapping-value state: a VALUE before content parses a node; a
/// missing VALUE, or the empty-value state, stands for the empty scalar.
pub open spec fn flow_mapping_value_step(
    empty: bool,
    pre: Parser,
    post: Parser,
    r: Result<Event, Error>,
) -> bool {
    let t = pre.tokens@;
    &&& t.len() == 0 ==> r is Err
    &&& empty && t.len() > 0 ==> {
        &&& r matches Ok(ev) && empty_scalar_event(ev, t[0].start_mark)
        &&& post.tokens@ == t
        &&& post.state == ParserState::FlowMappingKey
        &&& post.states@ == pre.states@
    }
    &&& !empty && t.len() > 0 && t[0].data is Value ==> {
        &&& t.len() == 1 ==> r is Err
        &&& t.len() > 1 && (t[1].data is FlowEntry || t[1].data is FlowMappingEnd) ==> {
            &&& r matches Ok(ev) && empty_scalar_event(ev, t[1].start_mark)
            &&& post.tokens@ == t.drop_first()
            &&& post.state == ParserState::FlowMappingKey
            &&& post.states@ == pre.states@
        }
        &&& t.len() > 1 && !(t[1].data is FlowEntry) && !(t[1].data is FlowMappingEnd)
            ==> node_step(
            false,
            false,
            t.drop_first(),
            pre.states@.push(ParserState::FlowMappingKey),
            post,
            r,
        )
    }
    &&& !empty && t.len() > 0 && !(t[0].data is Value) ==> {
        &&& r matches Ok(ev) && empty_scalar_event(ev, t[0].start_mark)
        &&& post.tokens@ == t
        &&& post.state == ParserState::FlowMappingKey
        &&& post.states@ == pre.states@
    }
}

/// A state whose handler consumes the collection-start token before the
/// head it dispatches on.
pub open spec fn first_entry_state(s: ParserState) -> bool {
    ||| s == ParserState::BlockSequenceFirstEntry
    ||| s == ParserState::BlockMappingFirstKey
    ||| s == ParserState::FlowSequenceFirstEntry
    ||| s == ParserState::FlowMappingFirstKey
}

/// A state whose handler leaves the document's tag directives alone.
pub open spec fn content_state(s: ParserState) -> bool {
    &&& s != ParserState::ImplicitDocumentStart
    &&& s != ParserState::DocumentStart
    &&& s != ParserState::DocumentEnd
}

/// One step of the state machine: the event produced and the successor
/// state, as a function of the state the parser is in and the head tokens.
pub open spec fn parse_step(pre: Parser, post: Parser, r: Result<Event, Error>) -> bool {
    match pre.state {
        ParserState::StreamStart => stream_start_step(pre, post, r),
        ParserState::ImplicitDocumentStart => document_start_step(true, pre, post, r),
        ParserState::DocumentStart => document_start_step(false, pre, post, r),
        ParserState::DocumentContent => document_content_step(pre, post, r),
        ParserState::DocumentEnd => document_end_step(pre, post, r),
        ParserState::BlockNode => node_step(true, false, pre.tokens@, pre.states@, post, r),
        ParserState::BlockNodeOrIndentlessSequence => node_step(
            true,
            true,
            pre.tokens@,
            pre.states@,
            post,
            r,
        ),
        ParserState::FlowNode => node_step(false, false, pre.tokens@, pre.states@, post, r),
        ParserState::BlockSequenceFirstEntry => block_sequence_entry_step(true, pre, post, r),
        ParserState::BlockSequenceEntry => block_sequence_entry_step(false, pre, post, r),
        ParserState::IndentlessSequenceEntry => indentless_sequence_entry_step(pre, post, r),
        ParserState::BlockMappingFirstKey => block_mapping_key_step(true, pre, post, r),
        ParserState::BlockMappingKey => block_mapping_key_step(false, pre, post, r),
        ParserState::BlockMappingValue => block_mapping_value_step(pre, post, r),
        ParserState::FlowSequenceFirstEntry => flow_sequence_entry_step(true, pre, post, r),
        ParserState::FlowSequenceEntry => flow_sequence_entry_step(false, pre, post, r),
        ParserState::FlowSequenceEntryMappingKey => flow_sequence_entry_mapping_key_step(
            pre,
            post,
            r,
        ),
        ParserState::FlowSequenceEntryMappingValue => flow_sequence_entry_mapping_value_step(
            pre,
            post,
            r,
        ),
        ParserState::FlowSequenceEntryMappingEnd => flow_sequence_entry_mapping_end_step(
            pre,
            post,
            r,
        ),
        ParserState::FlowMappingFirstKey => flow_mapping_key_step(true, pre, post, r),
        ParserState::FlowMappingKey => flow_mapping_key_step(false, pre, post, r),
        ParserState::FlowMappingValue => flow_mapping_value_step(false, pre, post, r),
        ParserState::FlowMappingEmptyValue => flow_mapping_value_step(true, pre, post, r),
        ParserState::End => r matches Ok(ev) && ev.data is NoEvent && post == pre,
    }
}

impl Parser {
    /// Record a terminal error: later calls keep reporting it.
    fn fail(&mut self, e: Error) -> (r: Result<Event, Error>)
        ensures
            final(self).error == Some(e),
            r matches Err(e2) && e2 == e,
            final(self).tokens@ == old(self).tokens@,
    {
        self.error = Some(e);
        Err(e)
    }

    /// Consume the head token.
    fn skip_token(&mut self) -> (t: Token)
        requires
            old(self).tokens@.len() > 0,
        ensures
            t == old(self).tokens@[0],
            final(self).tokens@ == old(self).tokens@.drop_first(),
            final(self).state == old(self).state,
            final(self).states@ == old(self).states@,
            final(self).marks@ == old(self).marks@,
            final(self).error == old(self).error,
            final(self).stream_start_produced == old(self).stream_start_produced,
            final(self).stream_end_produced == (old(self).stream_end_produced || old(
                self,
            ).tokens@[0].data is StreamEnd),
            final(self).tag_directives@ == old(self).tag_directives@,
    {
        let t = self.tokens.pop_front().unwrap();
        self.tokens_parsed = crate::types::sat_add(self.tokens_parsed, 1);
        let ended = match &t.data {
            TokenData::StreamEnd => true,
            _ => false,
        };
        if ended {
            self.stream_end_produced = true;
        }
        proof {
            assert(final(self).tokens@ =~= old(self).tokens@.drop_first());
        }
        t
    }

    /// Pop the continuation state; an empty stack falls back to the end
    /// state (it cannot occur in a run that began with STREAM-START).
    fn pop_state(&mut self) -> (r: ParserState)
        ensures
            popped_to(old(self).states@, r, final(self).states@),
            final(self).tokens@ == old(self).tokens@,
            final(self).error == old(self).error,
            final(self).state == old(self).state,
            final(self).stream_end_produced == old(self).stream_end_produced,
            final(self).tag_directives@ == old(self).tag_directives@,
    {
        match self.states.pop() {
            Some(s) => s,
            None => ParserState::End,
        }
    }

    /// Pop the mark of the innermost open block collection.
    fn pop_mark(&mut self) -> (r: Mark)
        ensures
            final(self).tokens@ == old(self).tokens@,
            final(self).error == old(self).error,
            final(self).state == old(self).state,
            final(self).states@ == old(self).states@,
            final(self).stream_end_produced == old(self).stream_end_produced,
            final(self).tag_directives@ == old(self).tag_directives@,
    {
        match self.marks.pop() {
            Some(m) => m,
            None => Mark { index: 0, line: 0, column: 0 },
        }
    }

    /// The empty scalar that stands for an absent key or value.
    fn process_empty_scalar(&mut self, mark: Mark) -> (r: Result<Event, Error>)
        ensures
            r matches Ok(ev) && ev.start_mark == mark && ev.end_mark == mark
                && (ev.data matches EventData::Scalar {
                anchor,
                tag,
                value,
                plain_implicit,
                quoted_implicit,
                style,
            } && anchor is None && tag is None && value@.len() == 0 && plain_implicit
                && !quoted_implicit && style == ScalarStyle::Plain),
            r matches Ok(ev) && empty_scalar_event(ev, mark),
            final(self).tokens@ == old(self).tokens@,
            final(self).state == old(self).state,
            final(self).states@ == old(self).states@,
            final(self).error == old(self).error,
            final(self).stream_end_produced == old(self).stream_end_produced,
            final(self).tag_directives@ == old(self).tag_directives@,
    {
        proof {
            reveal_strlit("");
        }
        Ok(
            Event {
                data: EventData::Scalar {
                    anchor: None,
                    tag: None,
                    value: "".to_owned(),
                    plain_implicit: true,
                    quoted_implicit: false,
                    style: ScalarStyle::Plain,
                },
                start_mark: mark,
                end_mark: mark,
            },
        )
    }

    /// Record one tag directive for the current document, rejecting a
    /// duplicated handle unless the directive is a built-in default.
    fn append_tag_directive(
        &mut self,
        value: TagDirective,
        allow_duplicates: bool,
        mark: Mark,
    ) -> (r: Result<(), Error>)
        ensures
            final(self).tokens@ == old(self).tokens@,
            final(self).state == old(self).state,
            final(self).states@ == old(self).states@,
            final(self).stream_end_produced == old(self).stream_end_produced,
            allow_duplicates ==> r is Ok,
            r is Ok ==> final(self).error == old(self).error,
            r is Err ==> final(self).error is Some,
    {
        let n = self.tag_directives.len();
        let mut i: usize = 0;
        while i < n
            invariant
                n == self.tag_directives@.len(),
                i <= n,
                self.tokens@ == old(self).tokens@,
                self.state == old(self).state,
                self.states@ == old(self).states@,
                self.stream_end_produced == old(self).stream_end_produced,
                self.error == old(self).error,
            decreases n - i,
        {
            if value.handle.eq(&self.tag_directives[i].handle) {
                if allow_duplicates {
                    return Ok(());
                }
                let e = Error::parser("found duplicate %TAG directive", mark);
                self.error = Some(e);
                return Err(e);
            }
            i += 1;
        }
        self.tag_directives.push(value);
        Ok(())
    }

    /// Read the `%YAML` and `%TAG` directives that begin a document, record
    /// them, and append the built-in `!` and `!!` defaults. Only version 1.1
    /// and 1.2 are accepted, and `%YAML` may be given once.
    fn process_directives(&mut self) -> (r: Result<
        (Option<VersionDirective>, Vec<TagDirective>),
        Error,
    >)
        ensures
            old(self).tokens@.len() > 0 && (old(self).tokens@[0].data matches
                TokenData::VersionDirective { major, minor } && !(major == 1 && (minor == 1
                || minor == 2))) ==> (r matches Err(e) && e.kind == ErrorKind::Parser && e.problem@
                == "found incompatible YAML document"@ && e.problem_mark
                == old(self).tokens@[0].start_mark),
            r is Err ==> final(self).error is Some,
            final(self).state == old(self).state,
            final(self).states@ == old(self).states@,
            final(self).stream_end_produced == old(self).stream_end_produced,
            is_tail_of(final(self).tokens@, old(self).tokens@),
            r is Ok ==> final(self).error == old(self).error,
            tokens_wf(old(self).tokens@) ==> tokens_wf(final(self).tokens@) && (old(
                self,
            ).tokens@.len() > 0 && final(self).tokens@.len() > 0
                ==> old(self).tokens@[0].start_mark.le(final(self).tokens@[0].start_mark)),
            old(self).tokens@.len() == 0 || (!(old(self).tokens@[0].data is VersionDirective) && !(
            old(self).tokens@[0].data is TagDirective)) ==> (r matches Ok(p) && p.0 is None
                && p.1@.len() == 0 && final(self).tokens@ == old(self).tokens@ && final(self).error
                == old(self).error),
    {
        let mut version_directive: Option<VersionDirective> = None;
        let mut tag_directives: Vec<TagDirective> = Vec::new();
        let ghost first_bad = old(self).tokens@.len() > 0 && (old(self).tokens@[0].data matches
            TokenData::VersionDirective { major, minor } && !(major == 1 && (minor == 1 || minor
            == 2)));
        let ghost hd_plain = old(self).tokens@.len() == 0 || (!(old(
            self,
        ).tokens@[0].data is VersionDirective) && !(old(self).tokens@[0].data is TagDirective));
        proof {
            lemma_tail_refl(old(self).tokens@);
        }
        loop
            invariant
                first_bad == (old(self).tokens@.len() > 0 && (old(self).tokens@[0].data matches
                    TokenData::VersionDirective { major, minor } && !(major == 1 && (minor == 1
                    || minor == 2)))),
                first_bad ==> self.tokens@ == old(self).tokens@ && version_directive is None,
                hd_plain == (old(self).tokens@.len() == 0 || (!(old(
                    self,
                ).tokens@[0].data is VersionDirective) && !(old(
                    self,
                ).tokens@[0].data is TagDirective))),
                hd_plain ==> self.tokens@ == old(self).tokens@ && version_directive is None
                    && tag_directives@.len() == 0,
                self.state == old(self).state,
                self.states@ == old(self).states@,
                self.stream_end_produced == old(self).stream_end_produced,
                self.error == old(self).error,
                is_tail_of(self.tokens@, old(self).tokens@),
                tokens_wf(old(self).tokens@) ==> tokens_wf(self.tokens@) && (old(
                    self,
                ).tokens@.len() > 0 && self.tokens@.len() > 0
                    ==> old(self).tokens@[0].start_mark.le(self.tokens@[0].start_mark)),
            ensures
                !first_bad,
            decreases self.tokens@.len(),
        {
            if self.tokens.len() == 0 {
                break;
            }
            let is_version = match &self.tokens[0].data {
                TokenData::VersionDirective { .. } => true,
                _ => false,
            };
            let is_tag = match &self.tokens[0].data {
                TokenData::TagDirective { .. } => true,
                _ => false,
            };
            if !is_version && !is_tag {
                break;
            }
            proof {
                if hd_plain {
                    assert(self.tokens@ == old(self).tokens@);
                    assert(self.tokens@[0] == old(self).tokens@[0]);
                    assert(false);
                }
            }
            let ghost pre_loop = self.tokens@;
            let tok = self.skip_token();
            proof {
                lemma_consume(pre_loop, 1);
                assert(self.tokens@ =~= pre_loop.skip(1));
                lemma_tail_trans(old(self).tokens@, pre_loop, self.tokens@);
                if tokens_wf(old(self).tokens@) {
                    lemma_marks_span(pre_loop, 0, 0);
                    if pre_loop.len() > 1 {
                        lemma_adjacent(pre_loop, 1);
                    }
                }
            }
            match tok.data {
                TokenData::VersionDirective { major, minor } => {
                    if version_directive.is_some() {
                        let e = Error::parser("found duplicate %YAML directive", tok.start_mark);
                        self.error = Some(e);
                        return Err(e);
                    }
                    if major != 1 || (minor != 1 && minor != 2) {
                        let e = Error::parser("found incompatible YAML document", tok.start_mark);
                        self.error = Some(e);
                        return Err(e);
                    }
                    version_directive = Some(VersionDirective { major, minor });
                },
                TokenData::TagDirective { handle, prefix } => {
                    let value = TagDirective { handle, prefix };
                    let copy = value.clone();
                    let a = self.append_tag_directive(value, false, tok.start_mark);
                    if let Err(e) = a {
                        return Err(e);
                    }
                    tag_directives.push(copy);
                },
                _ => {},
            }
        }
        let a1 = self.append_tag_directive(
            TagDirective::new("!", "!"),
            true,
            Mark { index: 0, line: 0, column: 0 },
        );
        if let Err(e) = a1 {
            return Err(e);
        }
        let a2 = self.append_tag_directive(
            TagDirective::new("!!", "tag:yaml.org,2002:"),
            true,
            Mark { index: 0, line: 0, column: 0 },
        );
        if let Err(e) = a2 {
            return Err(e);
        }
        Ok((version_directive, tag_directives))
    }

    /// The head token, or a terminal error when the stream ran dry.
    fn need_token(&mut self) -> (r: Result<(), Error>)
        ensures
            r is Ok <==> old(self).tokens@.len() > 0,
            r is Err ==> final(self).error is Some,
            final(self).tokens@ == old(self).tokens@,
            final(self).state == old(self).state,
            final(self).states@ == old(self).states@,
            final(self).marks@ == old(self).marks@,
            r is Ok ==> *final(self) == *old(self),
    {
        if self.tokens.len() == 0 {
            let e = Error::parser(
                "unexpected end of the token stream",
                Mark { index: 0, line: 0, column: 0 },
            );
            self.error = Some(e);
            return Err(e);
        }
        Ok(())
    }

    /// Handle the STREAM-START token: the stream begins.
    fn parse_stream_start(&mut self) -> (r: Result<Event, Error>)
        ensures
            stream_start_step(*old(self), *final(self), r),
            r is Ok ==> final(self).stream_end_produced == old(self).stream_end_produced
                && final(self).tag_directives@ == old(self).tag_directives@,
            marks_ok(*old(self), *final(self), r),
            r is Ok ==> final(self).error == old(self).error,
            r is Err ==> final(self).error is Some,
    {
        proof {
            lemma_tail_refl(old(self).tokens@);
        }
        if let Err(e) = self.need_token() {
            return Err(e);
        }
        let ok = match &self.tokens[0].data {
            TokenData::StreamStart { .. } => true,
            _ => false,
        };
        if !ok {
            let m = self.tokens[0].start_mark;
            return self.fail(Error::parser("did not find expected <stream-start>", m));
        }
        let tok = self.skip_token();
        let encoding = match tok.data {
            TokenData::StreamStart { encoding } => encoding,
            _ => Encoding::Any,
        };
        self.state = ParserState::ImplicitDocumentStart;
        self.stream_start_produced = true;
        proof {
            if tokens_wf(old(self).tokens@) {
                lemma_consume(old(self).tokens@, 1);
                assert(self.tokens@ =~= old(self).tokens@.skip(1));
                if old(self).tokens@.len() > 1 {
                    lemma_marks_span(old(self).tokens@, 0, 1);
                }
            }
        }
        Ok(
            Event {
                data: EventData::StreamStart { encoding },
                start_mark: tok.start_mark,
                end_mark: tok.start_mark,
            },
        )
    }

    /// Handle the beginning of a document, implicit or explicit, or the end
    /// of the stream.
    #[verifier::rlimit(100)]
    #[verifier::spinoff_prover]
    fn parse_document_start(&mut self, implicit: bool) -> (r: Result<Event, Error>)
        ensures
            document_start_step(implicit, *old(self), *final(self), r),
            marks_ok(*old(self), *final(self), r),
            r is Ok ==> final(self).error == old(self).error,
            r is Err ==> final(self).error is Some,
    {
        let ghost t = old(self).tokens@;
        proof {
            lemma_tail_refl(t);
        }
        if let Err(e) = self.need_token() {
            return Err(e);
        }
        if !implicit {
            loop
                invariant
                    !implicit,
                    t == old(self).tokens@,
                    self.tokens@.len() > 0,
                    self.state == old(self).state,
                    self.states@ == old(self).states@,
                    self.error == old(self).error,
                    self.stream_end_produced == old(self).stream_end_produced,
                    is_tail_of(self.tokens@, t),
                    t.len() > 0 && !(t[0].data is DocumentEnd) ==> self.tokens@ == t,
                    tokens_wf(t) ==> tokens_wf(self.tokens@) && (t.len() > 0
                        ==> t[0].start_mark.le(self.tokens@[0].start_mark)),
                decreases self.tokens@.len(),
            {
                let is_doc_end = match &self.tokens[0].data {
                    TokenData::DocumentEnd => true,
                    _ => false,
                };
                if !is_doc_end {
                    break;
                }
                let ghost pre_loop = self.tokens@;
                let _ = self.skip_token();
                proof {
                    lemma_consume(pre_loop, 1);
                    assert(self.tokens@ =~= pre_loop.skip(1));
                    lemma_tail_trans(t, pre_loop, self.tokens@);
                    if tokens_wf(t) {
                        lemma_marks_span(pre_loop, 0, 0);
                        if pre_loop.len() > 1 {
                            lemma_adjacent(pre_loop, 1);
                        }
                    }
                }
                if let Err(e) = self.need_token() {
                    return Err(e);
                }
            }
        }
        let ghost t2 = self.tokens@;
        proof {
            if implicit {
                assert(t2 == t);
            }
            if t.len() > 0 && !(t[0].data is DocumentEnd) {
                assert(t2 == t);
                assert(t2[0] == t[0]);
            }
            assert(t2.len() > 0);
        }
        let head_kind_plain = match &self.tokens[0].data {
            TokenData::VersionDirective { .. } => false,
            TokenData::TagDirective { .. } => false,
            TokenData::DocumentStart => false,
            TokenData::StreamEnd => false,
            _ => true,
        };
        if implicit && head_kind_plain {
            let start_mark = self.tokens[0].start_mark;
            proof {
                assert(self.tokens@ == t2);
                assert(doc_head_plain(t2[0].data));
                assert(!(self.tokens@[0].data is VersionDirective) && !(
                self.tokens@[0].data is TagDirective));
            }
            let d = self.process_directives();
            if let Err(e) = d {
                proof {
                    assert(false);
                }
                return Err(e);
            }
            self.states.push(ParserState::DocumentEnd);
            self.state = ParserState::BlockNode;
            return Ok(
                Event {
                    data: EventData::DocumentStart {
                        version_directive: None,
                        tag_directives: Vec::new(),
                        implicit: true,
                    },
                    start_mark,
                    end_mark: start_mark,
                },
            );
        }
        let at_stream_end = match &self.tokens[0].data {
            TokenData::StreamEnd => true,
            _ => false,
        };
        if !at_stream_end {
            let start_mark = self.tokens[0].start_mark;
            let d = self.process_directives();
            let ghost mid = self.tokens@;
            proof {
                lemma_tail_trans(t, t2, mid);
            }
            let (version_directive, tag_directives) = match d {
                Ok(p) => p,
                Err(e) => {
                    return Err(e);
                },
            };
            if let Err(e) = self.need_token() {
                return Err(e);
            }
            let at_doc_start = match &self.tokens[0].data {
                TokenData::DocumentStart => true,
                _ => false,
            };
            if !at_doc_start {
                let m = self.tokens[0].start_mark;
                return self.fail(Error::parser("did not find expected <document start>", m));
            }
            let tok = self.skip_token();
            self.states.push(ParserState::DocumentEnd);
            self.state = ParserState::DocumentContent;
            proof {
                lemma_consume(mid, 1);
                assert(self.tokens@ =~= mid.skip(1));
                lemma_tail_trans(t, mid, self.tokens@);
                assert(t.drop_first() =~= t.skip(1));
                if tokens_wf(t) {
                    lemma_marks_span(mid, 0, 0);
                    if mid.len() > 1 {
                        lemma_adjacent(mid, 1);
                    }
                }
            }
            return Ok(
                Event {
                    data: EventData::DocumentStart {
                        version_directive,
                        tag_directives,
                        implicit: false,
                    },
                    start_mark,
                    end_mark: tok.end_mark,
                },
            );
        }
        let tok = self.skip_token();
        self.state = ParserState::End;
        proof {
            lemma_consume(t2, 1);
            assert(self.tokens@ =~= t2.skip(1));
            lemma_tail_trans(t, t2, self.tokens@);
            assert(t.drop_first() =~= t.skip(1));
            if tokens_wf(t) {
                lemma_marks_span(t2, 0, 0);
                if t2.len() > 1 {
                    lemma_adjacent(t2, 1);
                }
            }
        }
        Ok(
            Event {
                data: EventData::StreamEnd,
                start_mark: tok.start_mark,
                end_mark: tok.end_mark,
            },
        )
    }

    /// Handle the content of a document: a node, or an empty document.
    fn parse_document_content(&mut self) -> (r: Result<Event, Error>)
        ensures
            document_content_step(*old(self), *final(self), r),
            r is Ok ==> final(self).stream_end_produced == old(self).stream_end_produced
                && final(self).tag_directives@ == old(self).tag_directives@,
            marks_ok(*old(self), *final(self), r),
            r is Ok ==> final(self).error == old(self).error,
            r is Err ==> final(self).error is Some,
    {
        proof {
            lemma_tail_refl(old(self).tokens@);
        }
        if let Err(e) = self.need_token() {
            return Err(e);
        }
        let empty_content = match &self.tokens[0].data {
            TokenData::VersionDirective { .. } => true,
            TokenData::TagDirective { .. } => true,
            TokenData::DocumentStart => true,
            TokenData::DocumentEnd => true,
            TokenData::StreamEnd => true,
            _ => false,
        };
        if empty_content {
            let m = self.tokens[0].start_mark;
            let st = self.pop_state();
            self.state = st;
            self.process_empty_scalar(m)
        } else {
            self.parse_node(true, false)
        }
    }

    /// Handle the end of a document; the tag directives are dropped.
    fn parse_document_end(&mut self) -> (r: Result<Event, Error>)
        ensures
            document_end_step(*old(self), *final(self), r),
            marks_ok(*old(self), *final(self), r),
            r matches Ok(ev) ==> ev.data is DocumentEnd && final(self).state
                == ParserState::DocumentStart && final(self).tag_directives@.len() == 0,
            r is Ok ==> final(self).error == old(self).error && final(self).stream_end_produced
                == old(self).stream_end_produced,
            r is Err ==> final(self).error is Some,
    {
        let ghost t = old(self).tokens@;
        proof {
            lemma_tail_refl(t);
        }
        if let Err(e) = self.need_token() {
            return Err(e);
        }
        let start_mark = self.tokens[0].start_mark;
        let mut end_mark = start_mark;
        let mut implicit = true;
        let at_doc_end = match &self.tokens[0].data {
            TokenData::DocumentEnd => true,
            _ => false,
        };
        if at_doc_end {
            let tok = self.skip_token();
            end_mark = tok.end_mark;
            implicit = false;
            proof {
                lemma_consume(t, 1);
                assert(self.tokens@ =~= t.skip(1));
                assert(t.drop_first() =~= t.skip(1));
                if tokens_wf(t) {
                    lemma_marks_span(t, 0, 0);
                    if t.len() > 1 {
                        lemma_adjacent(t, 1);
                    }
                }
            }
        }
        self.tag_directives.clear();
        self.state = ParserState::DocumentStart;
        Ok(Event { data: EventData::DocumentEnd { implicit }, start_mark, end_mark })
    }

    /// Resolve a tag handle and suffix against the directives in force.
    fn resolve_tag(
        &mut self,
        handle: String,
        suffix: String,
        start_mark: Mark,
        tag_mark: Mark,
    ) -> (r: Result<String, Error>)
        ensures
            final(self).tokens@ == old(self).tokens@,
            final(self).state == old(self).state,
            final(self).states@ == old(self).states@,
            final(self).stream_end_produced == old(self).stream_end_produced,
            final(self).tag_directives@ == old(self).tag_directives@,
            r is Ok ==> final(self).error == old(self).error,
            r is Err ==> final(self).error is Some,
    {
        if handle.as_str().unicode_len() == 0 {
            return Ok(suffix);
        }
        let n = self.tag_directives.len();
        let mut i: usize = 0;
        while i < n
            invariant
                n == self.tag_directives@.len(),
                i <= n,
                self.tokens@ == old(self).tokens@,
                self.state == old(self).state,
                self.states@ == old(self).states@,
                self.stream_end_produced == old(self).stream_end_produced,
                self.tag_directives@ == old(self).tag_directives@,
                self.error == old(self).error,
            decreases n - i,
        {
            if handle.eq(&self.tag_directives[i].handle) {
                let mut tag = self.tag_directives[i].prefix.clone();
                tag.append(suffix.as_str());
                return Ok(tag);
            }
            i += 1;
        }
        let e = Error::parser_context(
            "while parsing a node",
            start_mark,
            "found undefined tag handle",
            tag_mark,
        );
        self.error = Some(e);
        Err(e)
    }

    /// Parse a node: an alias, a scalar, or the start of a collection, with
    /// its optional anchor and tag in either order.
    #[verifier::rlimit(100)]
    #[verifier::spinoff_prover]
    fn parse_node(&mut self, block: bool, indentless_sequence: bool) -> (r: Result<Event, Error>)
        ensures
            node_step(block, indentless_sequence, old(self).tokens@, old(self).states@, *final(self), r),
            r is Ok ==> final(self).stream_end_produced == old(self).stream_end_produced
                && final(self).tag_directives@ == old(self).tag_directives@,
            marks_ok(*old(self), *final(self), r),
            r is Ok ==> final(self).error == old(self).error,
            r is Err ==> final(self).error is Some,
    {
        let ghost t = old(self).tokens@;
        proof {
            lemma_tail_refl(t);
        }
        if let Err(e) = self.need_token() {
            return Err(e);
        }
        let is_alias = match &self.tokens[0].data {
            TokenData::Alias { .. } => true,
            _ => false,
        };
        if is_alias {
            let tok = self.skip_token();
            let anchor = match tok.data {
                TokenData::Alias { value } => value,
                _ => String::new(),
            };
            let st = self.pop_state();
            self.state = st;
            proof {
                lemma_consume(t, 1);
                assert(self.tokens@ =~= t.skip(1));
                assert(t.drop_first() =~= t.skip(1));
                if tokens_wf(t) {
                    lemma_marks_span(t, 0, 0);
                    if t.len() > 1 {
                        lemma_adjacent(t, 1);
                    }
                }
            }
            return Ok(
                Event {
                    data: EventData::Alias { anchor },
                    start_mark: tok.start_mark,
                    end_mark: tok.end_mark,
                },
            );
        }
        let mut anchor: Option<String> = None;
        let mut tag_handle: Option<String> = None;
        let mut tag_suffix: Option<String> = None;
        let mut start_mark = self.tokens[0].start_mark;
        let mut end_mark = start_mark;
        let mut tag_mark = start_mark;
        let is_anchor = match &self.tokens[0].data {
            TokenData::Anchor { .. } => true,
            _ => false,
        };
        let is_tag = match &self.tokens[0].data {
            TokenData::Tag { .. } => true,
            _ => false,
        };
        let ghost mut k: int = 0;
        if is_anchor {
            let tok = self.skip_token();
            proof {
                k = 1;
                assert(self.tokens@ =~= t.skip(1));
            }
            anchor = match tok.data {
                TokenData::Anchor { value } => Some(value),
                _ => None,
            };
            start_mark = tok.start_mark;
            end_mark = tok.end_mark;
            if self.tokens.len() > 0 {
                let tag_next = match &self.tokens[0].data {
                    TokenData::Tag { .. } => true,
                    _ => false,
                };
                if tag_next {
                    let tok2 = self.skip_token();
                    proof {
                        k = 2;
                        assert(self.tokens@ =~= t.skip(2));
                    }
                    tag_mark = tok2.start_mark;
                    end_mark = tok2.end_mark;
                    match tok2.data {
                        TokenData::Tag { handle, suffix } => {
                            tag_handle = Some(handle);
                            tag_suffix = Some(suffix);
                        },
                        _ => {},
                    }
                }
            }
        } else if is_tag {
            let tok = self.skip_token();
            proof {
                k = 1;
                assert(self.tokens@ =~= t.skip(1));
            }
            tag_mark = tok.start_mark;
            start_mark = tag_mark;
            end_mark = tok.end_mark;
            match tok.data {
                TokenData::Tag { handle, suffix } => {
                    tag_handle = Some(handle);
                    tag_suffix = Some(suffix);
                },
                _ => {},
            }
            if self.tokens.len() > 0 {
                let anchor_next = match &self.tokens[0].data {
                    TokenData::Anchor { .. } => true,
                    _ => false,
                };
                if anchor_next {
                    let tok2 = self.skip_token();
                    proof {
                        k = 2;
                        assert(self.tokens@ =~= t.skip(2));
                    }
                    end_mark = tok2.end_mark;
                    anchor = match tok2.data {
                        TokenData::Anchor { value } => Some(value),
                        _ => None,
                    };
                }
            }
        }
        proof {
            assert(0 <= k <= 2);
            assert(k <= t.len());
            assert(self.tokens@ == t.skip(k));
            lemma_consume(t, k);
            assert(k == 0 ==> start_mark == t[0].start_mark);
            assert(k > 0 ==> start_mark == t[0].start_mark);
            if tokens_wf(t) {
                if k > 0 {
                    lemma_marks_span(t, 0, k - 1);
                }
            }
        }
        let mut tag: Option<String> = None;
        if let Some(handle) = tag_handle {
            let suffix = match tag_suffix {
                Some(sfx) => sfx,
                None => String::new(),
            };
            let t = self.resolve_tag(handle, suffix, start_mark, tag_mark);
            match t {
                Ok(t0) => {
                    tag = Some(t0);
                },
                Err(e) => {
                    return Err(e);
                },
            }
        }
        let implicit = match &tag {
            None => true,
            Some(t) => t.as_str().unicode_len() == 0,
        };
        if let Err(e) = self.need_token() {
            return Err(e);
        }
        proof {
            assert(self.tokens@[0] == t[k]);
            if k == 0 {
                assert(t.skip(0) =~= t);
            }
            if tokens_wf(t) {
                lemma_marks_span(t, 0, k);
                assert(t[k].wf());
            }
        }
        let head_start = self.tokens[0].start_mark;
        let head_end = self.tokens[0].end_mark;
        let is_block_entry = match &self.tokens[0].data {
            TokenData::BlockEntry => true,
            _ => false,
        };
        if indentless_sequence && is_block_entry {
            self.state = ParserState::IndentlessSequenceEntry;
            return Ok(
                Event {
                    data: EventData::SequenceStart {
                        anchor,
                        tag,
                        implicit,
                        style: SequenceStyle::Block,
                    },
                    start_mark,
                    end_mark: head_end,
                },
            );
        }
        let is_scalar = match &self.tokens[0].data {
            TokenData::Scalar { .. } => true,
            _ => false,
        };
        if is_scalar {
            let tok = self.skip_token();
            proof {
                lemma_consume(t, k + 1);
                assert(self.tokens@ =~= t.skip(k + 1));
                assert(t.drop_first() =~= t.skip(1));
                if tokens_wf(t) && self.tokens@.len() > 0 {
                    lemma_marks_span(t, 0, k + 1);
                }
            }
            let (value, style) = match tok.data {
                TokenData::Scalar { value, style } => (value, style),
                _ => (String::new(), ScalarStyle::Plain),
            };
            let mut plain_implicit = false;
            let mut quoted_implicit = false;
            let tag_is_bang = match &tag {
                Some(t) => t.as_str().unicode_len() == 1 && t.as_str().get_char(0) == '!',
                None => false,
            };
            if (style == ScalarStyle::Plain && tag.is_none()) || tag_is_bang {
                plain_implicit = true;
            } else if tag.is_none() {
                quoted_implicit = true;
            }
            let st = self.pop_state();
            self.state = st;
            return Ok(
                Event {
                    data: EventData::Scalar {
                        anchor,
                        tag,
                        value,
                        plain_implicit,
                        quoted_implicit,
                        style,
                    },
                    start_mark,
                    end_mark: tok.end_mark,
                },
            );
        }
        let is_flow_seq = match &self.tokens[0].data {
            TokenData::FlowSequenceStart => true,
            _ => false,
        };
        if is_flow_seq {
            self.state = ParserState::FlowSequenceFirstEntry;
            return Ok(
                Event {
                    data: EventData::SequenceStart {
                        anchor,
                        tag,
                        implicit,
                        style: SequenceStyle::Flow,
                    },
                    start_mark,
                    end_mark: head_end,
                },
            );
        }
        let is_flow_map = match &self.tokens[0].data {
            TokenData::FlowMappingStart => true,
            _ => false,
        };
        if is_flow_map {
            self.state = ParserState::FlowMappingFirstKey;
            return Ok(
                Event {
                    data: EventData::MappingStart {
                        anchor,
                        tag,
                        implicit,
                        style: MappingStyle::Flow,
                    },
                    start_mark,
                    end_mark: head_end,
                },
            );
        }
        let is_block_seq = match &self.tokens[0].data {
            TokenData::BlockSequenceStart => true,
            _ => false,
        };
        if block && is_block_seq {
            self.state = ParserState::BlockSequenceFirstEntry;
            return Ok(
                Event {
                    data: EventData::SequenceStart {
                        anchor,
                        tag,
                        implicit,
                        style: SequenceStyle::Block,
                    },
                    start_mark,
                    end_mark: head_end,
                },
            );
        }
        let is_block_map = match &self.tokens[0].data {
            TokenData::BlockMappingStart => true,
            _ => false,
        };
        if block && is_block_map {
            self.state = ParserState::BlockMappingFirstKey;
            return Ok(
                Event {
                    data: EventData::MappingStart {
                        anchor,
                        tag,
                        implicit,
                        style: MappingStyle::Block,
                    },
                    start_mark,
                    end_mark: head_end,
                },
            );
        }
        let has_anchor_or_tag = anchor.is_some() || tag.is_some();
        if has_anchor_or_tag {
            proof {
                reveal_strlit("");
            }
            let st = self.pop_state();
            self.state = st;
            return Ok(
                Event {
                    data: EventData::Scalar {
                        anchor,
                        tag,
                        value: "".to_owned(),
                        plain_implicit: implicit,
                        quoted_implicit: false,
                        style: ScalarStyle::Plain,
                    },
                    start_mark,
                    end_mark,
                },
            );
        }
        self.fail(
            Error::parser_context(
                if block {
                    "while parsing a block node"
                } else {
                    "while parsing a flow node"
                },
                start_mark,
                "did not find expected node content",
                head_start,
            ),
        )
    }

    /// Handle one entry of a block sequence.
    #[verifier::rlimit(100)]
    #[verifier::spinoff_prover]
    fn parse_block_sequence_entry(&mut self, first: bool) -> (r: Result<Event, Error>)
        ensures
            block_sequence_entry_step(first, *old(self), *final(self), r),
            r is Ok && (first ==> old(self).tokens@.len() > 0 && !(old(
            self,
            ).tokens@[0].data is StreamEnd)) ==> final(self).stream_end_produced == old(
                self,
            ).stream_end_produced,
            r is Ok ==> final(self).tag_directives@ == old(self).tag_directives@,
            marks_ok(*old(self), *final(self), r),
            r is Ok ==> final(self).error == old(self).error,
            r is Err ==> final(self).error is Some,
    {
        let ghost t = old(self).tokens@;
        let ghost o: int = if first {
            1int
        } else {
            0int
        };
        proof {
            lemma_tail_refl(t);
            assert(o == off(first));
        }
        if first {
            if let Err(e) = self.need_token() {
                return Err(e);
            }
            let m = self.tokens[0].start_mark;
            self.marks.push(m);
            let _ = self.skip_token();
            proof {
                lemma_consume(t, 1);
                assert(self.tokens@ =~= t.skip(1));
            }
        }
        proof {
            assert(self.tokens@ == t.skip(o));
        }
        if let Err(e) = self.need_token() {
            return Err(e);
        }
        proof {
            assert(self.tokens@[0] == t[o]);
            if tokens_wf(t) {
                lemma_marks_span(t, 0, o);
                assert(t[o].wf());
            }
        }
        let is_entry = match &self.tokens[0].data {
            TokenData::BlockEntry => true,
            _ => false,
        };
        if is_entry {
            let tok = self.skip_token();
            let mark = tok.end_mark;
            proof {
                lemma_consume(t, o + 1);
                assert(self.tokens@ =~= t.skip(o + 1));
            }
            if let Err(e) = self.need_token() {
                return Err(e);
            }
            proof {
                assert(self.tokens@[0] == t[o + 1]);
                if tokens_wf(t) {
                    lemma_marks_span(t, 0, o + 1);
                    assert(t[o].end_mark.le(t[o + 1].start_mark)) by {
                        lemma_marks_span(t, o, o + 1);
                    }
                }
            }
            let ends = match &self.tokens[0].data {
                TokenData::BlockEntry => true,
                TokenData::BlockEnd => true,
                _ => false,
            };
            if !ends {
                self.states.push(ParserState::BlockSequenceEntry);
                let ghost pre_call = *self;
                let r = self.parse_node(true, false);
                proof {
                    if tokens_wf(t) {
                        lemma_tail_trans(t, pre_call.tokens@, self.tokens@);
                    }
                }
                return r;
            }
            self.state = ParserState::BlockSequenceEntry;
            return self.process_empty_scalar(mark);
        }
        let is_end = match &self.tokens[0].data {
            TokenData::BlockEnd => true,
            _ => false,
        };
        if is_end {
            let tok = self.skip_token();
            let st = self.pop_state();
            self.state = st;
            let _ = self.pop_mark();
            proof {
                lemma_consume(t, o + 1);
                assert(self.tokens@ =~= t.skip(o + 1));
                if tokens_wf(t) && self.tokens@.len() > 0 {
                    lemma_marks_span(t, o, o + 1);
                    lemma_marks_span(t, 0, o + 1);
                }
            }
            return Ok(
                Event {
                    data: EventData::SequenceEnd,
                    start_mark: tok.start_mark,
                    end_mark: tok.end_mark,
                },
            );
        }
        let m = self.tokens[0].start_mark;
        let ctx = self.pop_mark();
        self.fail(
            Error::parser_context(
                "while parsing a block collection",
                ctx,
                "did not find expected '-' indicator",
                m,
            ),
        )
    }

    /// Handle one entry of an indentless sequence.
    #[verifier::rlimit(100)]
    #[verifier::spinoff_prover]
    fn parse_indentless_sequence_entry(&mut self) -> (r: Result<Event, Error>)
        ensures
            indentless_sequence_entry_step(*old(self), *final(self), r),
            r is Ok ==> final(self).stream_end_produced == old(self).stream_end_produced
                && final(self).tag_directives@ == old(self).tag_directives@,
            marks_ok(*old(self), *final(self), r),
            r is Ok ==> final(self).error == old(self).error,
            r is Err ==> final(self).error is Some,
    {
        let ghost t = old(self).tokens@;
        proof {
            lemma_tail_refl(t);
        }
        if let Err(e) = self.need_token() {
            return Err(e);
        }
        let is_entry = match &self.tokens[0].data {
            TokenData::BlockEntry => true,
            _ => false,
        };
        if is_entry {
            let tok = self.skip_token();
            let mark = tok.end_mark;
            proof {
                lemma_consume(t, 1);
                assert(self.tokens@ =~= t.skip(1));
                assert(t.drop_first() =~= t.skip(1));
            }
            if let Err(e) = self.need_token() {
                return Err(e);
            }
            proof {
                assert(self.tokens@[0] == t[1]);
                if tokens_wf(t) {
                    lemma_marks_span(t, 0, 1);
                }
            }
            let ends = match &self.tokens[0].data {
                TokenData::BlockEntry => true,
                TokenData::Key => true,
                TokenData::Value => true,
                TokenData::BlockEnd => true,
                _ => false,
            };
            if !ends {
                self.states.push(ParserState::IndentlessSequenceEntry);
                let ghost pre_call = *self;
                let r = self.parse_node(true, false);
                proof {
                    if tokens_wf(t) {
                        lemma_tail_trans(t, pre_call.tokens@, self.tokens@);
                    }
                }
                return r;
            }
            self.state = ParserState::IndentlessSequenceEntry;
            return self.process_empty_scalar(mark);
        }
        let m = self.tokens[0].start_mark;
        let st = self.pop_state();
        self.state = st;
        proof {
            if tokens_wf(t) {
                assert(t[0].wf());
            }
        }
        Ok(Event { data: EventData::SequenceEnd, start_mark: m, end_mark: m })
    }

    /// Handle one key of a block mapping.
    #[verifier::rlimit(100)]
    #[verifier::spinoff_prover]
    fn parse_block_mapping_key(&mut self, first: bool) -> (r: Result<Event, Error>)
        ensures
            block_mapping_key_step(first, *old(self), *final(self), r),
            r is Ok && (first ==> old(self).tokens@.len() > 0 && !(old(
            self,
            ).tokens@[0].data is StreamEnd)) ==> final(self).stream_end_produced == old(
                self,
            ).stream_end_produced,
            r is Ok ==> final(self).tag_directives@ == old(self).tag_directives@,
            marks_ok(*old(self), *final(self), r),
            r is Ok ==> final(self).error == old(self).error,
            r is Err ==> final(self).error is Some,
    {
        let ghost t = old(self).tokens@;
        let ghost o: int = if first {
            1int
        } else {
            0int
        };
        proof {
            lemma_tail_refl(t);
            assert(o == off(first));
        }
        if first {
            if let Err(e) = self.need_token() {
                return Err(e);
            }
            let m = self.tokens[0].start_mark;
            self.marks.push(m);
            let _ = self.skip_token();
            proof {
                lemma_consume(t, 1);
                assert(self.tokens@ =~= t.skip(1));
            }
        }
        proof {
            assert(self.tokens@ == t.skip(o));
        }
        if let Err(e) = self.need_token() {
            return Err(e);
        }
        proof {
            assert(self.tokens@[0] == t[o]);
            if tokens_wf(t) {
                lemma_marks_span(t, 0, o);
                assert(t[o].wf());
            }
        }
        let is_key = match &self.tokens[0].data {
            TokenData::Key => true,
            _ => false,
        };
        if is_key {
            let tok = self.skip_token();
            let mark = tok.end_mark;
            proof {
                lemma_consume(t, o + 1);
                assert(self.tokens@ =~= t.skip(o + 1));
            }
            if let Err(e) = self.need_token() {
                return Err(e);
            }
            proof {
                assert(self.tokens@[0] == t[o + 1]);
                if tokens_wf(t) {
                    lemma_marks_span(t, 0, o + 1);
                    lemma_marks_span(t, o, o + 1);
                }
            }
            let ends = match &self.tokens[0].data {
                TokenData::Key => true,
                TokenData::Value => true,
                TokenData::BlockEnd => true,
                _ => false,
            };
            if !ends {
                self.states.push(ParserState::BlockMappingValue);
                let ghost pre_call = *self;
                let r = self.parse_node(true, true);
                proof {
                    if tokens_wf(t) {
                        lemma_tail_trans(t, pre_call.tokens@, self.tokens@);
                    }
                }
                return r;
            }
            self.state = ParserState::BlockMappingValue;
            return self.process_empty_scalar(mark);
        }
        let is_end = match &self.tokens[0].data {
            TokenData::BlockEnd => true,
            _ => false,
        };
        if is_end {
            let tok = self.skip_token();
            let st = self.pop_state();
            self.state = st;
            let _ = self.pop_mark();
            proof {
                lemma_consume(t, o + 1);
                assert(self.tokens@ =~= t.skip(o + 1));
                if tokens_wf(t) && self.tokens@.len() > 0 {
                    lemma_marks_span(t, o, o + 1);
                    lemma_marks_span(t, 0, o + 1);
                }
            }
            return Ok(
                Event {
                    data: EventData::MappingEnd,
                    start_mark: tok.start_mark,
                    end_mark: tok.end_mark,
                },
            );
        }
        let m = self.tokens[0].start_mark;
        let ctx = self.pop_mark();
        self.fail(
            Error::parser_context(
                "while parsing a block mapping",
                ctx,
                "did not find expected key",
                m,
            ),
        )
    }

    /// Handle one value of a block mapping.
    #[verifier::rlimit(100)]
    #[verifier::spinoff_prover]
    fn parse_block_mapping_value(&mut self) -> (r: Result<Event, Error>)
        ensures
            block_mapping_value_step(*old(self), *final(self), r),
            r is Ok ==> final(self).stream_end_produced == old(self).stream_end_produced
                && final(self).tag_directives@ == old(self).tag_directives@,
            marks_ok(*old(self), *final(self), r),
            r is Ok ==> final(self).error == old(self).error,
            r is Err ==> final(self).error is Some,
    {
        let ghost t = old(self).tokens@;
        proof {
            lemma_tail_refl(t);
        }
        if let Err(e) = self.need_token() {
            return Err(e);
        }
        let is_value = match &self.tokens[0].data {
            TokenData::Value => true,
            _ => false,
        };
        if is_value {
            let tok = self.skip_token();
            let mark = tok.end_mark;
            proof {
                lemma_consume(t, 1);
                assert(self.tokens@ =~= t.skip(1));
                assert(t.drop_first() =~= t.skip(1));
            }
            if let Err(e) = self.need_token() {
                return Err(e);
            }
            proof {
                assert(self.tokens@[0] == t[1]);
                if tokens_wf(t) {
                    lemma_marks_span(t, 0, 1);
                }
            }
            let ends = match &self.tokens[0].data {
                TokenData::Key => true,
                TokenData::Value => true,
                TokenData::BlockEnd => true,
                _ => false,
            };
            if !ends {
                self.states.push(ParserState::BlockMappingKey);
                let ghost pre_call = *self;
                let r = self.parse_node(true, true);
                proof {
                    if tokens_wf(t) {
                        lemma_tail_trans(t, pre_call.tokens@, self.tokens@);
                    }
                }
                return r;
            }
            self.state = ParserState::BlockMappingKey;
            return self.process_empty_scalar(mark);
        }
        let m = self.tokens[0].start_mark;
        self.state = ParserState::BlockMappingKey;
        proof {
            if tokens_wf(t) {
                assert(t[0].wf());
            }
        }
        self.process_empty_scalar(m)
    }

    /// Handle one entry of a flow sequence.
    #[verifier::rlimit(100)]
    #[verifier::spinoff_prover]
    fn parse_flow_sequence_entry(&mut self, first: bool) -> (r: Result<Event, Error>)
        ensures
            flow_sequence_entry_step(first, *old(self), *final(self), r),
            r is Ok && (first ==> old(self).tokens@.len() > 0 && !(old(
            self,
            ).tokens@[0].data is StreamEnd)) ==> final(self).stream_end_produced == old(
                self,
            ).stream_end_produced,
            r is Ok ==> final(self).tag_directives@ == old(self).tag_directives@,
            marks_ok(*old(self), *final(self), r),
            r is Ok ==> final(self).error == old(self).error,
            r is Err ==> final(self).error is Some,
    {
        let ghost t = old(self).tokens@;
        let ghost mut c: int = 0;
        proof {
            lemma_tail_refl(t);
        }
        if first {
            if let Err(e) = self.need_token() {
                return Err(e);
            }
            let m = self.tokens[0].start_mark;
            self.marks.push(m);
            let _ = self.skip_token();
            proof {
                c = 1;
                lemma_consume(t, 1);
                assert(self.tokens@ =~= t.skip(1));
            }
        }
        proof {
            assert(self.tokens@ == t.skip(c));
        }
        if let Err(e) = self.need_token() {
            return Err(e);
        }
        proof {
            assert(self.tokens@[0] == t[c]);
            if tokens_wf(t) {
                lemma_marks_span(t, 0, c);
                assert(t[c].wf());
            }
        }
        let mut at_end = match &self.tokens[0].data {
            TokenData::FlowSequenceEnd => true,
            _ => false,
        };
        if !at_end {
            if !first {
                let is_comma = match &self.tokens[0].data {
                    TokenData::FlowEntry => true,
                    _ => false,
                };
                if is_comma {
                    let _ = self.skip_token();
                    proof {
                        c = 1;
                        lemma_consume(t, 1);
                        assert(self.tokens@ =~= t.skip(1));
                    }
                    if let Err(e) = self.need_token() {
                        return Err(e);
                    }
                    proof {
                        assert(self.tokens@[0] == t[1]);
                        if tokens_wf(t) {
                            lemma_marks_span(t, 0, 1);
                        }
                    }
                } else {
                    let m = self.tokens[0].start_mark;
                    let ctx = self.pop_mark();
                    return self.fail(
                        Error::parser_context(
                            "while parsing a flow sequence",
                            ctx,
                            "did not find expected ',' or ']'",
                            m,
                        ),
                    );
                }
            }
            let is_key = match &self.tokens[0].data {
                TokenData::Key => true,
                _ => false,
            };
            if is_key {
                let tok = self.skip_token();
                self.state = ParserState::FlowSequenceEntryMappingKey;
                proof {
                    lemma_consume(t, c + 1);
                    assert(self.tokens@ =~= t.skip(c + 1));
                    assert(t.skip(c + 1) =~= t.skip(2));
                    if tokens_wf(t) && self.tokens@.len() > 0 {
                        lemma_marks_span(t, c, c + 1);
                        lemma_marks_span(t, 0, c + 1);
                    }
                }
                return Ok(
                    Event {
                        data: EventData::MappingStart {
                            anchor: None,
                            tag: None,
                            implicit: true,
                            style: MappingStyle::Flow,
                        },
                        start_mark: tok.start_mark,
                        end_mark: tok.end_mark,
                    },
                );
            }
            at_end = match &self.tokens[0].data {
                TokenData::FlowSequenceEnd => true,
                _ => false,
            };
            if !at_end {
                self.states.push(ParserState::FlowSequenceEntry);
                let ghost pre_call = *self;
                let r = self.parse_node(false, false);
                proof {
                    assert(pre_call.tokens@ == t.skip(c));
                    assert(t.drop_first() =~= t.skip(1));
                    if tokens_wf(t) {
                        lemma_tail_trans(t, pre_call.tokens@, self.tokens@);
                    }
                }
                return r;
            }
        }
        let tok = self.skip_token();
        let st = self.pop_state();
        self.state = st;
        let _ = self.pop_mark();
        proof {
            lemma_consume(t, c + 1);
            assert(self.tokens@ =~= t.skip(c + 1));
            if tokens_wf(t) && self.tokens@.len() > 0 {
                lemma_marks_span(t, c, c + 1);
                lemma_marks_span(t, 0, c + 1);
            }
        }
        Ok(
            Event {
                data: EventData::SequenceEnd,
                start_mark: tok.start_mark,
                end_mark: tok.end_mark,
            },
        )
    }

    /// Handle the key of an ordered mapping inside a flow sequence.
    fn parse_flow_sequence_entry_mapping_key(&mut self) -> (r: Result<Event, Error>)
        ensures
            flow_sequence_entry_mapping_key_step(*old(self), *final(self), r),
            r is Ok ==> final(self).stream_end_produced == old(self).stream_end_produced
                && final(self).tag_directives@ == old(self).tag_directives@,
            marks_ok(*old(self), *final(self), r),
            r is Ok ==> final(self).error == old(self).error,
            r is Err ==> final(self).error is Some,
    {
        let ghost t = old(self).tokens@;
        proof {
            lemma_tail_refl(t);
        }
        if let Err(e) = self.need_token() {
            return Err(e);
        }
        let ends = match &self.tokens[0].data {
            TokenData::Value => true,
            TokenData::FlowEntry => true,
            TokenData::FlowSequenceEnd => true,
            _ => false,
        };
        if !ends {
            self.states.push(ParserState::FlowSequenceEntryMappingValue);
            return self.parse_node(false, false);
        }
        let tok = self.skip_token();
        self.state = ParserState::FlowSequenceEntryMappingValue;
        proof {
            lemma_consume(t, 1);
            assert(self.tokens@ =~= t.skip(1));
            assert(t.drop_first() =~= t.skip(1));
            if tokens_wf(t) {
                assert(t[0].wf());
                if self.tokens@.len() > 0 {
                    lemma_marks_span(t, 0, 1);
                }
            }
        }
        self.process_empty_scalar(tok.end_mark)
    }

    /// Handle the value of an ordered mapping inside a flow sequence.
    fn parse_flow_sequence_entry_mapping_value(&mut self) -> (r: Result<Event, Error>)
        ensures
            flow_sequence_entry_mapping_value_step(*old(self), *final(self), r),
            r is Ok ==> final(self).stream_end_produced == old(self).stream_end_produced
                && final(self).tag_directives@ == old(self).tag_directives@,
            marks_ok(*old(self), *final(self), r),
            r is Ok ==> final(self).error == old(self).error,
            r is Err ==> final(self).error is Some,
    {
        let ghost t = old(self).tokens@;
        proof {
            lemma_tail_refl(t);
        }
        if let Err(e) = self.need_token() {
            return Err(e);
        }
        let is_value = match &self.tokens[0].data {
            TokenData::Value => true,
            _ => false,
        };
        if is_value {
            let _ = self.skip_token();
            proof {
                lemma_consume(t, 1);
                assert(self.tokens@ =~= t.skip(1));
                assert(t.drop_first() =~= t.skip(1));
            }
            if let Err(e) = self.need_token() {
                return Err(e);
            }
            proof {
                assert(self.tokens@[0] == t[1]);
                if tokens_wf(t) {
                    lemma_marks_span(t, 0, 1);
                    assert(t[1].wf());
                }
            }
            let ends = match &self.tokens[0].data {
                TokenData::FlowEntry => true,
                TokenData::FlowSequenceEnd => true,
                _ => false,
            };
            if !ends {
                self.states.push(ParserState::FlowSequenceEntryMappingEnd);
                let ghost pre_call = *self;
                let r = self.parse_node(false, false);
                proof {
                    if tokens_wf(t) {
                        lemma_tail_trans(t, pre_call.tokens@, self.tokens@);
                    }
                }
                return r;
            }
        }
        let m = self.tokens[0].start_mark;
        self.state = ParserState::FlowSequenceEntryMappingEnd;
        proof {
            if tokens_wf(t) && self.tokens@.len() > 0 {
                assert(self.tokens@[0].wf());
            }
        }
        self.process_empty_scalar(m)
    }

    /// Handle the end of an ordered mapping inside a flow sequence.
    fn parse_flow_sequence_entry_mapping_end(&mut self) -> (r: Result<Event, Error>)
        ensures
            flow_sequence_entry_mapping_end_step(*old(self), *final(self), r),
            r is Ok ==> final(self).stream_end_produced == old(self).stream_end_produced
                && final(self).tag_directives@ == old(self).tag_directives@,
            marks_ok(*old(self), *final(self), r),
            r is Ok ==> final(self).error == old(self).error,
            r is Err ==> final(self).error is Some,
    {
        let ghost t = old(self).tokens@;
        proof {
            lemma_tail_refl(t);
        }
        if let Err(e) = self.need_token() {
            return Err(e);
        }
        let m = self.tokens[0].start_mark;
        self.state = ParserState::FlowSequenceEntry;
        Ok(Event { data: EventData::MappingEnd, start_mark: m, end_mark: m })
    }

    /// Handle one key of a flow mapping.
    #[verifier::rlimit(100)]
    #[verifier::spinoff_prover]
    fn parse_flow_mapping_key(&mut self, first: bool) -> (r: Result<Event, Error>)
        ensures
            flow_mapping_key_step(first, *old(self), *final(self), r),
            r is Ok && (first ==> old(self).tokens@.len() > 0 && !(old(
            self,
            ).tokens@[0].data is StreamEnd)) ==> final(self).stream_end_produced == old(
                self,
            ).stream_end_produced,
            r is Ok ==> final(self).tag_directives@ == old(self).tag_directives@,
            marks_ok(*old(self), *final(self), r),
            r is Ok ==> final(self).error == old(self).error,
            r is Err ==> final(self).error is Some,
    {
        let ghost t = old(self).tokens@;
        let ghost mut c: int = 0;
        proof {
            lemma_tail_refl(t);
        }
        if first {
            if let Err(e) = self.need_token() {
                return Err(e);
            }
            let m = self.tokens[0].start_mark;
            self.marks.push(m);
            let _ = self.skip_token();
            proof {
                c = 1;
                lemma_consume(t, 1);
                assert(self.tokens@ =~= t.skip(1));
            }
        }
        proof {
            assert(self.tokens@ == t.skip(c));
        }
        if let Err(e) = self.need_token() {
            return Err(e);
        }
        proof {
            assert(self.tokens@[0] == t[c]);
            if tokens_wf(t) {
                lemma_marks_span(t, 0, c);
                assert(t[c].wf());
            }
        }
        let at_end = match &self.tokens[0].data {
            TokenData::FlowMappingEnd => true,
            _ => false,
        };
        if !at_end {
            if !first {
                let is_comma = match &self.tokens[0].data {
                    TokenData::FlowEntry => true,
                    _ => false,
                };
                if is_comma {
                    let _ = self.skip_token();
                    proof {
                        c = 1;
                        lemma_consume(t, 1);
                        assert(self.tokens@ =~= t.skip(1));
                    }
                    if let Err(e) = self.need_token() {
                        return Err(e);
                    }
                    proof {
                        assert(self.tokens@[0] == t[1]);
                        if tokens_wf(t) {
                            lemma_marks_span(t, 0, 1);
                            assert(t[1].wf());
                        }
                    }
                } else {
                    let m = self.tokens[0].start_mark;
                    let ctx = self.pop_mark();
                    return self.fail(
                        Error::parser_context(
                            "while parsing a flow mapping",
                            ctx,
                            "did not find expected ',' or '}'",
                            m,
                        ),
                    );
                }
            }
            let is_key = match &self.tokens[0].data {
                TokenData::Key => true,
                _ => false,
            };
            if is_key {
                let _ = self.skip_token();
                proof {
                    lemma_consume(t, c + 1);
                    assert(self.tokens@ =~= t.skip(c + 1));
                    assert(t.skip(c + 1) =~= t.skip(2));
                }
                if let Err(e) = self.need_token() {
                    return Err(e);
                }
                proof {
                    assert(self.tokens@[0] == t[2]);
                    if tokens_wf(t) {
                        lemma_marks_span(t, 0, 2);
                        assert(t[2].wf());
                    }
                }
                let ends = match &self.tokens[0].data {
                    TokenData::Value => true,
                    TokenData::FlowEntry => true,
                    TokenData::FlowMappingEnd => true,
                    _ => false,
                };
                if !ends {
                    self.states.push(ParserState::FlowMappingValue);
                    let ghost pre_call = *self;
                    let r = self.parse_node(false, false);
                    proof {
                        if tokens_wf(t) {
                            lemma_tail_trans(t, pre_call.tokens@, self.tokens@);
                        }
                    }
                    return r;
                }
                let m = self.tokens[0].start_mark;
                self.state = ParserState::FlowMappingValue;
                return self.process_empty_scalar(m);
            }
            let still_open = match &self.tokens[0].data {
                TokenData::FlowMappingEnd => false,
                _ => true,
            };
            if still_open {
                self.states.push(ParserState::FlowMappingEmptyValue);
                let ghost pre_call = *self;
                let r = self.parse_node(false, false);
                proof {
                    assert(pre_call.tokens@ == t.skip(c));
                    assert(t.drop_first() =~= t.skip(1));
                    if tokens_wf(t) {
                        lemma_tail_trans(t, pre_call.tokens@, self.tokens@);
                    }
                }
                return r;
            }
        }
        let tok = self.skip_token();
        let st = self.pop_state();
        self.state = st;
        let _ = self.pop_mark();
        proof {
            lemma_consume(t, c + 1);
            assert(self.tokens@ =~= t.skip(c + 1));
            if tokens_wf(t) && self.tokens@.len() > 0 {
                lemma_marks_span(t, c, c + 1);
                lemma_marks_span(t, 0, c + 1);
            }
        }
        Ok(
            Event {
                data: EventData::MappingEnd,
                start_mark: tok.start_mark,
                end_mark: tok.end_mark,
            },
        )
    }

    /// Handle one value of a flow mapping; an empty value stands for a key
    /// that was given without one.
    fn parse_flow_mapping_value(&mut self, empty: bool) -> (r: Result<Event, Error>)
        ensures
            flow_mapping_value_step(empty, *old(self), *final(self), r),
            r is Ok ==> final(self).stream_end_produced == old(self).stream_end_produced
                && final(self).tag_directives@ == old(self).tag_directives@,
            marks_ok(*old(self), *final(self), r),
            r is Ok ==> final(self).error == old(self).error,
            r is Err ==> final(self).error is Some,
    {
        let ghost t = old(self).tokens@;
        proof {
            lemma_tail_refl(t);
        }
        if let Err(e) = self.need_token() {
            return Err(e);
        }
        if empty {
            let m = self.tokens[0].start_mark;
            self.state = ParserState::FlowMappingKey;
            return self.process_empty_scalar(m);
        }
        let is_value = match &self.tokens[0].data {
            TokenData::Value => true,
            _ => false,
        };
        if is_value {
            let _ = self.skip_token();
            proof {
                lemma_consume(t, 1);
                assert(self.tokens@ =~= t.skip(1));
                assert(t.drop_first() =~= t.skip(1));
            }
            if let Err(e) = self.need_token() {
                return Err(e);
            }
            proof {
                assert(self.tokens@[0] == t[1]);
                if tokens_wf(t) {
                    lemma_marks_span(t, 0, 1);
                    assert(t[1].wf());
                }
            }
            let ends = match &self.tokens[0].data {
                TokenData::FlowEntry => true,
                TokenData::FlowMappingEnd => true,
                _ => false,
            };
            if !ends {
                self.states.push(ParserState::FlowMappingKey);
                let ghost pre_call = *self;
                let r = self.parse_node(false, false);
                proof {
                    if tokens_wf(t) {
                        lemma_tail_trans(t, pre_call.tokens@, self.tokens@);
                    }
                }
                return r;
            }
        }
        let m = self.tokens[0].start_mark;
        self.state = ParserState::FlowMappingKey;
        self.process_empty_scalar(m)
    }

    /// Dispatch to the handler of the current state.
    fn state_machine_step(&mut self) -> (r: Result<Event, Error>)
        ensures
            parse_step(*old(self), *final(self), r),
            old(self).state != ParserState::End ==> marks_ok(*old(self), *final(self), r),
            r is Ok ==> final(self).error == old(self).error,
            r is Ok && content_state(old(self).state) ==> final(self).tag_directives@ == old(
                self,
            ).tag_directives@,
            r is Ok && content_state(old(self).state) && (first_entry_state(old(self).state)
                ==> old(self).tokens@.len() > 0 && !(old(self).tokens@[0].data is StreamEnd))
                ==> final(self).stream_end_produced == old(self).stream_end_produced,
            r is Err ==> final(self).error is Some,
    {
        match self.state {
            ParserState::StreamStart => self.parse_stream_start(),
            ParserState::ImplicitDocumentStart => self.parse_document_start(true),
            ParserState::DocumentStart => self.parse_document_start(false),
            ParserState::DocumentContent => self.parse_document_content(),
            ParserState::DocumentEnd => self.parse_document_end(),
            ParserState::BlockNode => self.parse_node(true, false),
            ParserState::BlockNodeOrIndentlessSequence => self.parse_node(true, true),
            ParserState::FlowNode => self.parse_node(false, false),
            ParserState::BlockSequenceFirstEntry => self.parse_block_sequence_entry(true),
            ParserState::BlockSequenceEntry => self.parse_block_sequence_entry(false),
            ParserState::IndentlessSequenceEntry => self.parse_indentless_sequence_entry(),
            ParserState::BlockMappingFirstKey => self.parse_block_mapping_key(true),
            ParserState::BlockMappingKey => self.parse_block_mapping_key(false),
            ParserState::BlockMappingValue => self.parse_block_mapping_value(),
            ParserState::FlowSequenceFirstEntry => self.parse_flow_sequence_entry(true),
            ParserState::FlowSequenceEntry => self.parse_flow_sequence_entry(false),
            ParserState::FlowSequenceEntryMappingKey => self
                .parse_flow_sequence_entry_mapping_key(),
            ParserState::FlowSequenceEntryMappingValue => self
                .parse_flow_sequence_entry_mapping_value(),
            ParserState::FlowSequenceEntryMappingEnd => self
                .parse_flow_sequence_entry_mapping_end(),
            ParserState::FlowMappingFirstKey => self.parse_flow_mapping_key(true),
            ParserState::FlowMappingKey => self.parse_flow_mapping_key(false),
            ParserState::FlowMappingValue => self.parse_flow_mapping_value(false),
            ParserState::FlowMappingEmptyValue => self.parse_flow_mapping_value(true),
            ParserState::End => Ok(Event::default()),
        }
    }
}

/// Produce the next event of the stream.
///
/// A parser whose error was set keeps returning that error, unchanged; a
/// parser that produced STREAM-END hands back an empty placeholder event.
/// Otherwise the parser takes one step of its state machine: `parse_step`
/// says, for every state and head token, which event comes back, which
/// tokens are consumed and which state follows, and `marks_ok` says that
/// under a well-formed token stream the events' marks grow and never run
/// backwards.
pub fn yaml_parser_parse(parser: &mut Parser) -> (r: Result<Event, Error>)
    ensures
        old(parser).error matches Some(e) ==> (r matches Err(e2) && e2 == e) && *final(parser)
            == *old(parser),
        r is Err ==> final(parser).error is Some,
        old(parser).error is None && (old(parser).stream_end_produced || old(parser).state
            == ParserState::End) ==> (r matches Ok(ev) && ev.data is NoEvent) && *final(parser)
            == *old(parser),
        old(parser).error is None && !old(parser).stream_end_produced && old(parser).state
            != ParserState::End ==> parse_step(*old(parser), *final(parser), r) && marks_ok(
            *old(parser),
            *final(parser),
            r,
        ),
        r is Ok ==> final(parser).error == old(parser).error,
        r is Ok && content_state(old(parser).state) ==> final(parser).tag_directives@ == old(
            parser,
        ).tag_directives@,
        r is Ok && content_state(old(parser).state) && (first_entry_state(old(parser).state)
            ==> old(parser).tokens@.len() > 0 && !(old(parser).tokens@[0].data is StreamEnd))
            ==> final(parser).stream_end_produced == old(parser).stream_end_produced,
{
    if let Some(e) = parser.error {
        return Err(e);
    }
    if parser.stream_end_produced {
        return Ok(Event::default());
    }
    match parser.state {
        ParserState::End => Ok(Event::default()),
        _ => parser.state_machine_step(),
    }
}

} // verus!


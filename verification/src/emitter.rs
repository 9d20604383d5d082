//! The emitter: consumes an event stream and writes YAML text.
//!
//! This file holds the emitter structure, its well-formedness invariant and
//! its configuration surface. The low-level text writers live in
//! `writer`, the state machine in `emitter_machine`.

use vstd::prelude::*;

use std::collections::VecDeque;

use crate::event::Event;
use crate::types::{Break, Encoding, TagDirective};

verus! {

/// The output buffer is flushed when it grows past this many bytes.
pub const OUTPUT_BUFFER_SIZE: usize = 16384;

/// The emitter states.
#[derive(Clone, Copy, PartialEq, Eq, Structural, Debug)]
pub enum EmitterState {
    /// Expect STREAM-START.
    StreamStart,
    /// Expect the first DOCUMENT-START or STREAM-END.
    FirstDocumentStart,
    /// Expect DOCUMENT-START or STREAM-END.
    DocumentStart,
    /// Expect the content of a document.
    DocumentContent,
    /// Expect DOCUMENT-END.
    DocumentEnd,
    /// Expect the first item of a flow sequence.
    FlowSequenceFirstItem,
    /// Expect an item of a flow sequence.
    FlowSequenceItem,
    /// Expect the first key of a flow mapping.
    FlowMappingFirstKey,
    /// Expect a key of a flow mapping.
    FlowMappingKey,
    /// Expect a value for a simple key of a flow mapping.
    FlowMappingSimpleValue,
    /// Expect a value of a flow mapping.
    FlowMappingValue,
    /// Expect the first item of a block sequence.
    BlockSequenceFirstItem,
    /// Expect an item of a block sequence.
    BlockSequenceItem,
    /// Expect the first key of a block mapping.
    BlockMappingFirstKey,
    /// Expect the key of a block mapping.
    BlockMappingKey,
    /// Expect a value for a simple key of a block mapping.
    BlockMappingSimpleValue,
    /// Expect a value of a block mapping.
    BlockMappingValue,
    /// Expect nothing.
    End,
}

impl Default for EmitterState {
    fn default() -> (r: EmitterState)
        ensures
            r == EmitterState::StreamStart,
    {
        EmitterState::StreamStart
    }
}

/// Reference bookkeeping for one document node during serialization.
#[derive(Clone, Copy, PartialEq, Eq, Structural, Debug)]
pub struct Anchors {
    /// The number of references to the node.
    pub references: i32,
    /// The anchor id assigned to it, or 0.
    pub anchor: i32,
    /// Has the node been emitted already?
    pub serialized: bool,
}

/// How many continuation states the stack must hold below the given state:
/// states inside an open document or collection were reached by pushing the
/// state to return to.
pub open spec fn state_stack_need(s: EmitterState) -> int {
    match s {
        EmitterState::FlowSequenceFirstItem => 1,
        EmitterState::FlowSequenceItem => 1,
        EmitterState::FlowMappingFirstKey => 1,
        EmitterState::FlowMappingKey => 1,
        EmitterState::FlowMappingSimpleValue => 1,
        EmitterState::FlowMappingValue => 1,
        EmitterState::BlockSequenceFirstItem => 1,
        EmitterState::BlockSequenceItem => 1,
        EmitterState::BlockMappingFirstKey => 1,
        EmitterState::BlockMappingKey => 1,
        EmitterState::BlockMappingSimpleValue => 1,
        EmitterState::BlockMappingValue => 1,
        _ => 0,
    }
}

/// How many open flow collections the given state implies.
pub open spec fn flow_need(s: EmitterState) -> int {
    match s {
        EmitterState::FlowSequenceItem => 1,
        EmitterState::FlowMappingKey => 1,
        EmitterState::FlowMappingSimpleValue => 1,
        EmitterState::FlowMappingValue => 1,
        _ => 0,
    }
}

/// How many indentation levels the given state implies on the indent stack.
pub open spec fn indent_need(s: EmitterState) -> int {
    match s {
        EmitterState::FlowSequenceItem => 1,
        EmitterState::FlowMappingKey => 1,
        EmitterState::FlowMappingSimpleValue => 1,
        EmitterState::FlowMappingValue => 1,
        EmitterState::BlockSequenceItem => 1,
        EmitterState::BlockMappingKey => 1,
        EmitterState::BlockMappingSimpleValue => 1,
        EmitterState::BlockMappingValue => 1,
        _ => 0,
    }
}

/// The continuation states stacked below the current one, weighted by
/// `state_stack_need`.
pub open spec fn sum_state_need(s: Seq<EmitterState>) -> int
    decreases s.len(),
{
    if s.len() == 0 {
        0
    } else {
        sum_state_need(s.drop_last()) + state_stack_need(s.last())
    }
}

pub open spec fn sum_flow_need(s: Seq<EmitterState>) -> int
    decreases s.len(),
{
    if s.len() == 0 {
        0
    } else {
        sum_flow_need(s.drop_last()) + flow_need(s.last())
    }
}

pub open spec fn sum_indent_need(s: Seq<EmitterState>) -> int
    decreases s.len(),
{
    if s.len() == 0 {
        0
    } else {
        sum_indent_need(s.drop_last()) + indent_need(s.last())
    }
}

/// No continuation on the stack is the initial state: only content states
/// are ever pushed.
pub open spec fn no_stream_start(s: Seq<EmitterState>) -> bool {
    forall|i: int| 0 <= i < s.len() ==> s[i] != EmitterState::StreamStart
}

/// Pushing a content state preserves `no_stream_start`.
pub proof fn lemma_no_ss_push(s: Seq<EmitterState>, x: EmitterState)
    requires
        no_stream_start(s),
        x != EmitterState::StreamStart,
    ensures
        no_stream_start(s.push(x)),
{
    assert forall|i: int| 0 <= i < s.push(x).len() implies s.push(x)[i]
        != EmitterState::StreamStart by {
        if i < s.len() {
            assert(s[i] != EmitterState::StreamStart);
        }
    }
}

/// Dropping the top preserves `no_stream_start`.
pub proof fn lemma_no_ss_drop(s: Seq<EmitterState>)
    requires
        no_stream_start(s),
        s.len() > 0,
    ensures
        no_stream_start(s.drop_last()),
        s.last() != EmitterState::StreamStart,
{
    assert forall|i: int| 0 <= i < s.drop_last().len() implies s.drop_last()[i]
        != EmitterState::StreamStart by {
        assert(s[i] != EmitterState::StreamStart);
    }
}

/// Every weight is 0 or 1, so a weighted sum never exceeds the length.
pub proof fn lemma_sums_bounded(s: Seq<EmitterState>)
    ensures
        0 <= sum_state_need(s) <= s.len(),
        0 <= sum_flow_need(s) <= s.len(),
        0 <= sum_indent_need(s) <= s.len(),
    decreases s.len(),
{
    if s.len() > 0 {
        lemma_sums_bounded(s.drop_last());
    }
}

/// The characters that one line break writes, for each break setting.
pub open spec fn break_chars(b: Break) -> Seq<char> {
    match b {
        Break::Any => Seq::<char>::empty(),
        Break::Cr => seq!['\r'],
        Break::Ln => seq!['\n'],
        Break::CrLn => seq!['\r', '\n'],
    }
}

/// A run of `n` spaces.
pub open spec fn seq_space(n: int) -> Seq<char> {
    Seq::new(if n >= 0 {
        n as nat
    } else {
        0
    }, |i: int| ' ')
}

/// The UTF-16 code units of one character.
pub open spec fn utf16_units_c(c: char) -> Seq<u16> {
    if (c as u32) < 0x10000 {
        seq![(c as u32) as u16]
    } else {
        seq![
            (0xD800 + ((c as u32 - 0x10000) / 0x400)) as u16,
            (0xDC00 + ((c as u32 - 0x10000) % 0x400)) as u16,
        ]
    }
}

/// The bytes of one UTF-16 code unit in the chosen byte order.
pub open spec fn unit_bytes(u: u16, big_endian: bool) -> Seq<u8> {
    if big_endian {
        seq![(u / 256) as u8, (u % 256) as u8]
    } else {
        seq![(u % 256) as u8, (u / 256) as u8]
    }
}

/// The UTF-16 encoding of a character sequence in the chosen byte order.
pub open spec fn utf16_bytes(s: Seq<char>, big_endian: bool) -> Seq<u8>
    decreases s.len(),
{
    if s.len() == 0 {
        Seq::<u8>::empty()
    } else {
        unit_bytes(utf16_units_c(s[0])[0], big_endian) + (if utf16_units_c(s[0]).len() == 2 {
            unit_bytes(utf16_units_c(s[0])[1], big_endian)
        } else {
            Seq::<u8>::empty()
        }) + utf16_bytes(s.drop_first(), big_endian)
    }
}

/// The bytes that a character stream encodes to in the given encoding.
pub open spec fn spec_encode(s: Seq<char>, enc: Encoding) -> Seq<u8> {
    match enc {
        Encoding::Utf16Le => utf16_bytes(s, false),
        Encoding::Utf16Be => utf16_bytes(s, true),
        _ => vstd::utf8::encode_utf8(s),
    }
}

/// A prefix of a sequence is a prefix of any extension of it.
pub proof fn lemma_prefix_extend(a: Seq<char>, b: Seq<char>, c: Seq<char>)
    requires
        a.is_prefix_of(b),
    ensures
        a.is_prefix_of(b + c),
{
    assert((b + c).subrange(0, a.len() as int) =~= b.subrange(0, a.len() as int));
}

/// A sequence is a prefix of itself with anything appended.
pub proof fn lemma_prefix_concat1(a: Seq<char>, b: Seq<char>)
    ensures
        a.is_prefix_of(a + b),
{
    assert((a + b).subrange(0, a.len() as int) =~= a);
}

/// A sequence is a prefix of itself with two pieces appended.
pub proof fn lemma_prefix_concat2(a: Seq<char>, b: Seq<char>, c: Seq<char>)
    ensures
        a.is_prefix_of(a + b + c),
{
    assert((a + b + c).subrange(0, a.len() as int) =~= a);
}

/// Being a prefix is transitive.
pub proof fn lemma_prefix_trans(a: Seq<char>, b: Seq<char>, c: Seq<char>)
    requires
        a.is_prefix_of(b),
        b.is_prefix_of(c),
    ensures
        a.is_prefix_of(c),
{
    assert(c.subrange(0, a.len() as int) =~= b.subrange(0, a.len() as int));
}

/// `encode_utf8` distributes over concatenation.
pub proof fn lemma_encode_utf8_concat(a: Seq<char>, b: Seq<char>)
    ensures
        vstd::utf8::encode_utf8(a + b) == vstd::utf8::encode_utf8(a) + vstd::utf8::encode_utf8(b),
    decreases a.len(),
{
    if a.len() == 0 {
        assert(a + b =~= b);
        assert(vstd::utf8::encode_utf8(a) =~= Seq::<u8>::empty());
        assert(vstd::utf8::encode_utf8(a) + vstd::utf8::encode_utf8(b) =~= vstd::utf8::encode_utf8(
            b,
        ));
    } else {
        assert((a + b).len() > 0);
        assert((a + b)[0] == a[0]);
        assert((a + b).drop_first() =~= a.drop_first() + b);
        lemma_encode_utf8_concat(a.drop_first(), b);
        assert(vstd::utf8::encode_utf8(a + b) == vstd::utf8::encode_scalar(a[0] as u32)
            + vstd::utf8::encode_utf8(a.drop_first() + b));
        assert(vstd::utf8::encode_utf8(a) + vstd::utf8::encode_utf8(b)
            == (vstd::utf8::encode_scalar(a[0] as u32) + vstd::utf8::encode_utf8(a.drop_first()))
            + vstd::utf8::encode_utf8(b));
        assert(vstd::utf8::encode_scalar(a[0] as u32) + vstd::utf8::encode_utf8(a.drop_first() + b)
            =~= (vstd::utf8::encode_scalar(a[0] as u32) + vstd::utf8::encode_utf8(a.drop_first()))
            + vstd::utf8::encode_utf8(b));
    }
}

/// `utf16_bytes` distributes over concatenation.
pub proof fn lemma_utf16_bytes_concat(a: Seq<char>, b: Seq<char>, big_endian: bool)
    ensures
        utf16_bytes(a + b, big_endian) == utf16_bytes(a, big_endian) + utf16_bytes(b, big_endian),
    decreases a.len(),
{
    if a.len() == 0 {
        assert(a + b =~= b);
        assert(utf16_bytes(a, big_endian) =~= Seq::<u8>::empty());
        assert(utf16_bytes(a, big_endian) + utf16_bytes(b, big_endian) =~= utf16_bytes(
            b,
            big_endian,
        ));
    } else {
        assert((a + b).len() > 0);
        assert((a + b)[0] == a[0]);
        assert((a + b).drop_first() =~= a.drop_first() + b);
        lemma_utf16_bytes_concat(a.drop_first(), b, big_endian);
        assert(utf16_bytes(a + b, big_endian) =~= utf16_bytes(a, big_endian) + utf16_bytes(
            b,
            big_endian,
        ));
    }
}

/// `spec_encode` distributes over concatenation.
pub proof fn lemma_spec_encode_concat(a: Seq<char>, b: Seq<char>, enc: Encoding)
    ensures
        spec_encode(a + b, enc) == spec_encode(a, enc) + spec_encode(b, enc),
{
    match enc {
        Encoding::Utf16Le => lemma_utf16_bytes_concat(a, b, false),
        Encoding::Utf16Be => lemma_utf16_bytes_concat(a, b, true),
        _ => lemma_encode_utf8_concat(a, b),
    }
}

/// The emitter structure.
///
/// The flushed output is captured in `output`; an application that writes to
/// a file or socket forwards `output` there after `flush`.
pub struct Emitter {
    /// The flushed output bytes, in the stream encoding.
    pub output: Vec<u8>,
    /// The working buffer, not yet flushed.
    pub buffer: String,
    /// The characters flushed so far (the model of `output`).
    pub flushed: Ghost<Seq<char>>,
    /// The stream encoding.
    pub encoding: Encoding,
    /// Emit in the canonical style?
    pub canonical: bool,
    /// The number of indentation spaces.
    pub best_indent: usize,
    /// The number of indentation spaces of indentless sequences, or 0.
    pub best_sequence_indent: usize,
    /// The preferred width of output lines; `usize::MAX` means unlimited.
    pub best_width: usize,
    /// Allow unescaped non-ASCII characters?
    pub unicode: bool,
    /// The preferred line break.
    pub line_break: Break,
    /// The stack of states to return to.
    pub states: Vec<EmitterState>,
    /// The current emitter state.
    pub state: EmitterState,
    /// The queue of events waiting for enough look-ahead.
    pub events: VecDeque<Event>,
    /// The stack of indentation levels.
    pub indents: Vec<i32>,
    /// The list of tag directives in force.
    pub tag_directives: Vec<TagDirective>,
    /// The current indentation level; -1 before the document root.
    pub indent: i32,
    /// The number of open flow collections.
    pub flow_level: usize,
    /// Is it the document root context?
    pub root_context: bool,
    /// Is it a sequence context?
    pub sequence_context: bool,
    /// Is it a mapping context?
    pub mapping_context: bool,
    /// Is it a simple mapping key context?
    pub simple_key_context: bool,
    /// The current line in the output.
    pub line: usize,
    /// The current column in the output.
    pub column: usize,
    /// Was the last character written a whitespace?
    pub whitespace: bool,
    /// Was the last character written an indentation character?
    pub indention: bool,
    /// Whether the stream needs `...` before more content can follow: 1 after
    /// an implicit document end, 2 after an open-ended block scalar.
    pub open_ended: i32,
    /// Was the stream opened with STREAM-START?
    pub opened: bool,
    /// Was the stream closed with STREAM-END?
    pub closed: bool,
    /// Reference bookkeeping per document node, used when serializing.
    pub anchors: Vec<Anchors>,
    /// The last anchor id that was assigned.
    pub last_anchor_id: i32,
}

impl Emitter {
    /// The characters the emitter has produced: flushed plus still buffered.
    pub open spec fn total_out(self) -> Seq<char> {
        self.flushed@ + self.buffer@
    }

    /// The flushed bytes are exactly the encoding of the flushed characters.
    pub open spec fn out_inv(self) -> bool {
        self.output@ == spec_encode(self.flushed@, self.encoding)
    }

    /// The stacks are deep enough for every pop the state machine makes, and
    /// the configuration is settled once the stream has started.
    pub open spec fn wf(self) -> bool {
        &&& self.out_inv()
        &&& self.states@.len() >= sum_state_need(self.states@) + state_stack_need(self.state)
        &&& no_stream_start(self.states@)
        &&& self.best_sequence_indent <= 9
        &&& self.state != EmitterState::StreamStart ==> {
            &&& self.encoding != Encoding::Any
            &&& 2 <= self.best_indent <= 9
        }
        &&& self.state == EmitterState::StreamStart ==> {
            &&& self.flushed@.len() == 0
            &&& self.buffer@.len() == 0
        }
    }

    /// What holds right after a handler pushed its continuation and hands the
    /// node to `emit_node`: the pushed continuation accounts for the level
    /// the current state opened.
    pub open spec fn dispatch_ok(self) -> bool {
        &&& self.out_inv()
        &&& self.states@.len() >= sum_state_need(self.states@) + 1
        &&& no_stream_start(self.states@)
        &&& self.state != EmitterState::StreamStart
        &&& self.encoding != Encoding::Any
        &&& 2 <= self.best_indent <= 9
        &&& self.best_sequence_indent <= 9
    }

    /// Fields a scalar writer never touches, at the view level: the machine
    /// configuration and stacks.
    pub open spec fn scalar_frame(self, o: Emitter) -> bool {
        &&& o.encoding == self.encoding
        &&& o.canonical == self.canonical
        &&& o.best_indent == self.best_indent
        &&& o.best_sequence_indent == self.best_sequence_indent
        &&& o.best_width == self.best_width
        &&& o.unicode == self.unicode
        &&& o.line_break == self.line_break
        &&& o.states@ == self.states@
        &&& o.state == self.state
        &&& o.events@ == self.events@
        &&& o.indents@ == self.indents@
        &&& o.tag_directives@ == self.tag_directives@
        &&& o.indent == self.indent
        &&& o.flow_level == self.flow_level
        &&& o.opened == self.opened
        &&& o.closed == self.closed
        &&& o.anchors@ == self.anchors@
        &&& o.last_anchor_id == self.last_anchor_id
    }

    /// Fields the low-level writers never touch: everything but the output
    /// stream fields (`output`, `buffer`, `flushed`, `column`, `line`).
    pub open spec fn stream_frame(self, o: Emitter) -> bool {
        &&& o.encoding == self.encoding
        &&& o.canonical == self.canonical
        &&& o.best_indent == self.best_indent
        &&& o.best_sequence_indent == self.best_sequence_indent
        &&& o.best_width == self.best_width
        &&& o.unicode == self.unicode
        &&& o.line_break == self.line_break
        &&& o.states@ == self.states@
        &&& o.state == self.state
        &&& o.events@ == self.events@
        &&& o.indents@ == self.indents@
        &&& o.tag_directives@ == self.tag_directives@
        &&& o.indent == self.indent
        &&& o.flow_level == self.flow_level
        &&& o.root_context == self.root_context
        &&& o.sequence_context == self.sequence_context
        &&& o.mapping_context == self.mapping_context
        &&& o.simple_key_context == self.simple_key_context
        &&& o.whitespace == self.whitespace
        &&& o.indention == self.indention
        &&& o.open_ended == self.open_ended
        &&& o.opened == self.opened
        &&& o.closed == self.closed
        &&& o.anchors@ == self.anchors@
        &&& o.last_anchor_id == self.last_anchor_id
    }

    /// Fields the mid-level text writers never touch: `stream_frame` less the
    /// `whitespace` and `indention` flags.
    pub open spec fn text_frame(self, o: Emitter) -> bool {
        &&& o.encoding == self.encoding
        &&& o.canonical == self.canonical
        &&& o.best_indent == self.best_indent
        &&& o.best_sequence_indent == self.best_sequence_indent
        &&& o.best_width == self.best_width
        &&& o.unicode == self.unicode
        &&& o.line_break == self.line_break
        &&& o.states@ == self.states@
        &&& o.state == self.state
        &&& o.events@ == self.events@
        &&& o.indents@ == self.indents@
        &&& o.tag_directives@ == self.tag_directives@
        &&& o.indent == self.indent
        &&& o.flow_level == self.flow_level
        &&& o.root_context == self.root_context
        &&& o.sequence_context == self.sequence_context
        &&& o.mapping_context == self.mapping_context
        &&& o.simple_key_context == self.simple_key_context
        &&& o.open_ended == self.open_ended
        &&& o.opened == self.opened
        &&& o.closed == self.closed
        &&& o.anchors@ == self.anchors@
        &&& o.last_anchor_id == self.last_anchor_id
    }

    /// Create an emitter.
    pub fn new() -> (r: Emitter)
        ensures
            r.output@.len() == 0,
            r.total_out().len() == 0,
            r.encoding == Encoding::Any,
            !r.canonical,
            r.best_indent == 0,
            r.best_sequence_indent == 0,
            r.best_width == 0,
            !r.unicode,
            r.line_break == Break::Any,
            r.state == EmitterState::StreamStart,
            r.states@.len() == 0,
            r.events@.len() == 0,
            r.indents@.len() == 0,
            r.tag_directives@.len() == 0,
            !r.opened,
            !r.closed,
            r.indent == 0,
            r.flow_level == 0,
            r.last_anchor_id == 0,
            r.open_ended == 0,
            r.anchors@.len() == 0,
            r.wf(),
    {
        let r = Emitter {
            output: Vec::new(),
            buffer: String::new(),
            flushed: Ghost(Seq::empty()),
            encoding: Encoding::Any,
            canonical: false,
            best_indent: 0,
            best_sequence_indent: 0,
            best_width: 0,
            unicode: false,
            line_break: Break::Any,
            states: Vec::new(),
            state: EmitterState::StreamStart,
            events: VecDeque::new(),
            indents: Vec::new(),
            tag_directives: Vec::new(),
            indent: 0,
            flow_level: 0,
            root_context: false,
            sequence_context: false,
            mapping_context: false,
            simple_key_context: false,
            line: 0,
            column: 0,
            whitespace: false,
            indention: false,
            open_ended: 0,
            opened: false,
            closed: false,
            anchors: Vec::new(),
            last_anchor_id: 0,
        };
        proof {
            assert(r.output@ =~= spec_encode(r.flushed@, r.encoding));
            assert(r.total_out() =~= Seq::<char>::empty());
        }
        r
    }

    /// Reset the emitter state.
    pub fn reset(&mut self)
        ensures
            final(self).wf(),
            final(self).state == EmitterState::StreamStart,
            final(self).total_out().len() == 0,
            !final(self).opened,
            !final(self).closed,
    {
        *self = Self::new();
    }

    /// Start capturing output. The emitter writes UTF-8 unless another
    /// encoding was chosen first; a UTF-16 encoding is kept as chosen.
    pub fn set_output_string(&mut self)
        ensures
            *final(self) == (Emitter {
                output: final(self).output,
                flushed: final(self).flushed,
                encoding: if old(self).encoding == Encoding::Any {
                    Encoding::Utf8
                } else {
                    old(self).encoding
                },
                ..*old(self)
            }),
            final(self).output@.len() == 0,
            final(self).flushed@.len() == 0,
            old(self).wf() ==> final(self).wf(),
    {
        if self.encoding == Encoding::Any {
            self.encoding = Encoding::Utf8;
        }
        self.output.clear();
        self.flushed = Ghost(Seq::empty());
        proof {
            assert(final(self).output@ =~= spec_encode(final(self).flushed@, final(self).encoding));
        }
    }

    /// Set the output encoding.
    pub fn set_encoding(&mut self, encoding: Encoding)
        requires
            old(self).encoding == Encoding::Any,
        ensures
            *final(self) == (Emitter { encoding, ..*old(self) }),
            old(self).wf() && old(self).flushed@.len() == 0 && old(self).state
                == EmitterState::StreamStart ==> final(self).wf(),
    {
        self.encoding = encoding;
        proof {
            if old(self).wf() && old(self).flushed@.len() == 0 {
                assert(final(self).output@ =~= spec_encode(final(self).flushed@, encoding));
            }
        }
    }

    /// Set if the output should be in the "canonical" format as in the YAML
    /// specification.
    pub fn set_canonical(&mut self, canonical: bool)
        ensures
            *final(self) == (Emitter { canonical, ..*old(self) }),
            old(self).wf() ==> final(self).wf(),
    {
        self.canonical = canonical;
    }

    /// Set the indentation increment: a value outside 2 to 9 selects the
    /// default of 2.
    pub fn set_indent(&mut self, indent: i32)
        ensures
            *final(self) == (Emitter {
                best_indent: if 1 < indent < 10 {
                    indent as usize
                } else {
                    2
                },
                ..*old(self)
            }),
            old(self).wf() && old(self).state == EmitterState::StreamStart ==> final(self).wf(),
    {
        self.best_indent = if 1 < indent && indent < 10 {
            indent as usize
        } else {
            2
        };
    }

    /// Set the indentation increment of indentless sequences: a value outside
    /// 2 to 9 switches the separate sequence indent off.
    pub fn set_sequence_indent(&mut self, indent: i32)
        ensures
            *final(self) == (Emitter {
                best_sequence_indent: if 1 < indent < 10 {
                    indent as usize
                } else {
                    0
                },
                ..*old(self)
            }),
            old(self).wf() && old(self).state == EmitterState::StreamStart ==> final(self).wf(),
    {
        self.best_sequence_indent = if 1 < indent && indent < 10 {
            indent as usize
        } else {
            0
        };
    }

    /// Set the preferred line width; a negative width means unlimited.
    pub fn set_width(&mut self, width: i32)
        ensures
            *final(self) == (Emitter {
                best_width: if width >= 0 {
                    width as usize
                } else {
                    usize::MAX
                },
                ..*old(self)
            }),
            old(self).wf() ==> final(self).wf(),
    {
        self.best_width = if width >= 0 {
            width as usize
        } else {
            usize::MAX
        };
    }

    /// Set if unescaped non-ASCII characters are allowed.
    pub fn set_unicode(&mut self, unicode: bool)
        ensures
            *final(self) == (Emitter { unicode, ..*old(self) }),
            old(self).wf() ==> final(self).wf(),
    {
        self.unicode = unicode;
    }

    /// Set the preferred line break.
    pub fn set_break(&mut self, line_break: Break)
        ensures
            *final(self) == (Emitter { line_break, ..*old(self) }),
            old(self).wf() ==> final(self).wf(),
    {
        self.line_break = line_break;
    }
}

} // verus!

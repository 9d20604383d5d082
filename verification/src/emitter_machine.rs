//! The emitter state machine: event analysis, look-ahead, style selection
//! and the per-state handlers that produce YAML text.

use vstd::prelude::*;

use vstd::string::StrSliceExecFns;

use crate::analysis::{
    analyze_scalar_value, anchor_name_ok, check_anchor_name, AnchorAnalysis, ScalarAnalysis,
    TagAnalysis,
};
use crate::emitter::{
    flow_need, indent_need, state_stack_need, sum_flow_need, sum_indent_need, sum_state_need,
    Emitter, EmitterState,
};
use crate::event::{Event, EventData};
use crate::types::{
    is_alpha, is_alpha_c, sat_add, Break, Encoding, Error, ScalarStyle, TagDirective,
    VersionDirective,
};

verus! {

/// What was analyzed of one event before it is emitted.
pub struct Analysis {
    pub anchor: Option<AnchorAnalysis>,
    pub tag: Option<TagAnalysis>,
    pub scalar: Option<ScalarAnalysis>,
}

/// Weighted stack sums grow by the weight of a pushed state.
pub proof fn lemma_sum_push(s: Seq<EmitterState>, x: EmitterState)
    ensures
        sum_state_need(s.push(x)) == sum_state_need(s) + state_stack_need(x),
        sum_flow_need(s.push(x)) == sum_flow_need(s) + flow_need(x),
        sum_indent_need(s.push(x)) == sum_indent_need(s) + indent_need(x),
{
    assert(s.push(x).drop_last() =~= s);
    assert(s.push(x).last() == x);
}

/// A well-formed `%YAML` directive names version 1.1 or 1.2.
pub open spec fn version_directive_ok(v: VersionDirective) -> bool {
    v.major == 1 && (v.minor == 1 || v.minor == 2)
}

/// A well-formed tag handle is `!`, `!!`, or `!word!`.
pub open spec fn tag_handle_ok(h: Seq<char>) -> bool {
    &&& h.len() > 0
    &&& h[0] == '!'
    &&& h[h.len() - 1] == '!'
    &&& forall|k: int| 1 <= k < h.len() - 1 ==> is_alpha_c(#[trigger] h[k])
}

/// Some directive in the list carries the given handle.
pub open spec fn has_handle(tds: Seq<TagDirective>, h: Seq<char>) -> bool {
    exists|i: int| 0 <= i < tds.len() && tds[i].handle@ == h
}

impl Emitter {
    /// Check a `%YAML` directive: only versions 1.1 and 1.2 are supported.
    pub(crate) fn analyze_version_directive(version_directive: VersionDirective) -> (r: Result<
        (),
        Error,
    >)
        ensures
            r is Ok <==> version_directive_ok(version_directive),
    {
        if version_directive.major != 1 || (version_directive.minor != 1
            && version_directive.minor != 2) {
            return Err(Error::emitter("incompatible %YAML directive"));
        }
        Ok(())
    }

    /// Check a `%TAG` directive: the handle must be `!`, `!!` or `!word!`,
    /// and the prefix nonempty.
    pub(crate) fn analyze_tag_directive(tag_directive: &TagDirective) -> (r: Result<(), Error>)
        ensures
            r is Ok <==> (tag_handle_ok(tag_directive.handle@) && tag_directive.prefix@.len() > 0),
    {
        let handle = tag_directive.handle.as_str();
        let len = handle.unicode_len();
        if len == 0 {
            return Err(Error::emitter("tag handle must not be empty"));
        }
        if handle.get_char(0) != '!' {
            return Err(Error::emitter("tag handle must start with '!'"));
        }
        if handle.get_char(len - 1) != '!' {
            return Err(Error::emitter("tag handle must end with '!'"));
        }
        let mut k: usize = 1;
        while k < len - 1
            invariant
                1 <= len == handle@.len(),
                handle@ == tag_directive.handle@,
                1 <= k <= len,
                forall|j: int| 1 <= j < k ==> is_alpha_c(#[trigger] handle@[j]),
            decreases len - k,
        {
            if !is_alpha(handle.get_char(k)) {
                proof {
                    assert(handle@ == tag_directive.handle@);
                    assert(!is_alpha_c(tag_directive.handle@[k as int]));
                    assert(1 <= (k as int) && (k as int) < tag_directive.handle@.len() - 1);
                    assert(!tag_handle_ok(tag_directive.handle@));
                }
                return Err(Error::emitter("tag handle must contain alphanumerical characters only"));
            }
            k += 1;
        }
        if tag_directive.prefix.as_str().unicode_len() == 0 {
            return Err(Error::emitter("tag prefix must not be empty"));
        }
        Ok(())
    }

    /// Check an anchor or alias name: a nonempty run of word characters.
    pub(crate) fn analyze_anchor(anchor: &str, alias: bool) -> (r: Result<AnchorAnalysis, Error>)
        ensures
            r is Ok <==> anchor_name_ok(anchor@),
            r matches Ok(a) ==> a.anchor@ == anchor@ && a.alias == alias,
    {
        if anchor.unicode_len() == 0 {
            return Err(
                Error::emitter(
                    if alias {
                        "alias value must not be empty"
                    } else {
                        "anchor value must not be empty"
                    },
                ),
            );
        }
        if !check_anchor_name(anchor) {
            return Err(
                Error::emitter(
                    if alias {
                        "alias value must contain alphanumerical characters only"
                    } else {
                        "anchor value must contain alphanumerical characters only"
                    },
                ),
            );
        }
        Ok(AnchorAnalysis { anchor: anchor.to_owned(), alias })
    }

    /// Split a tag at the first directive whose prefix is a proper prefix of
    /// it; with no match the whole tag becomes the suffix.
    pub(crate) fn analyze_tag(tag: &str, tag_directives: &Vec<TagDirective>) -> (r: Result<
        TagAnalysis,
        Error,
    >)
        ensures
            r is Ok <==> tag@.len() > 0,
            r matches Ok(t) ==> {
                if exists|i: int|
                    0 <= i < tag_directives@.len() && prefix_covers(#[trigger] tag_directives@[i],
                    tag@) {
                    exists|i: int|
                        {
                            &&& 0 <= i < tag_directives@.len()
                            &&& prefix_covers(#[trigger] tag_directives@[i], tag@)
                            &&& forall|j: int|
                                0 <= j < i ==> !prefix_covers(#[trigger] tag_directives@[j], tag@)
                            &&& t.handle@ == tag_directives@[i].handle@
                            &&& t.suffix@ == tag@.skip(tag_directives@[i].prefix@.len() as int)
                        }
                } else {
                    t.handle@.len() == 0 && t.suffix@ == tag@
                }
            },
    {
        let tag_len = tag.unicode_len();
        if tag_len == 0 {
            return Err(Error::emitter("tag value must not be empty"));
        }
        let n = tag_directives.len();
        let mut i: usize = 0;
        while i < n
            invariant
                n == tag_directives@.len(),
                i <= n,
                tag_len == tag@.len(),
                forall|j: int| 0 <= j < i ==> !prefix_covers(#[trigger] tag_directives@[j], tag@),
            decreases n - i,
        {
            let td = &tag_directives[i];
            if td_prefix_covers(td, tag, tag_len) {
                let prefix_len = td.prefix.as_str().unicode_len();
                let suffix = tag.substring_char(prefix_len, tag_len);
                return Ok(
                    TagAnalysis { handle: td.handle.clone(), suffix: suffix.to_owned() },
                );
            }
            i += 1;
        }
        Ok(TagAnalysis { handle: String::new(), suffix: tag.to_owned() })
    }

    /// Analyze one event: its anchor, its tag (where one will be written) and
    /// its scalar value.
    pub(crate) fn analyze_event(
        event: &Event,
        tag_directives: &Vec<TagDirective>,
        canonical: bool,
        unicode: bool,
    ) -> (r: Result<Analysis, Error>)
        ensures
            r matches Ok(a) ==> match event.data {
                EventData::Scalar { .. } => a.scalar matches Some(sc) && sc.accurate(unicode)
                    && (event.data matches EventData::Scalar { value, .. } && sc.value@ == value@),
                _ => a.scalar is None,
            },
            !(event.data is Alias) && !(event.data is Scalar) && !(event.data is SequenceStart)
                && !(event.data is MappingStart) ==> r is Ok,
    {
        let mut analysis = Analysis { anchor: None, tag: None, scalar: None };

        match &event.data {
            EventData::Alias { anchor } => {
                analysis.anchor = Some(Self::analyze_anchor(anchor.as_str(), true)?);
            },
            EventData::Scalar { anchor, tag, value, plain_implicit, quoted_implicit, .. } => {
                if let Some(anchor) = anchor {
                    analysis.anchor = Some(Self::analyze_anchor(anchor.as_str(), false)?);
                }
                if let Some(tag) = tag {
                    if canonical || (!*plain_implicit && !*quoted_implicit) {
                        analysis.tag = Some(Self::analyze_tag(tag.as_str(), tag_directives)?);
                    }
                }
                analysis.scalar = Some(analyze_scalar_value(value.as_str(), unicode));
            },
            EventData::SequenceStart { anchor, tag, implicit, .. } => {
                if let Some(anchor) = anchor {
                    analysis.anchor = Some(Self::analyze_anchor(anchor.as_str(), false)?);
                }
                if let Some(tag) = tag {
                    if canonical || !*implicit {
                        analysis.tag = Some(Self::analyze_tag(tag.as_str(), tag_directives)?);
                    }
                }
            },
            EventData::MappingStart { anchor, tag, implicit, .. } => {
                if let Some(anchor) = anchor {
                    analysis.anchor = Some(Self::analyze_anchor(anchor.as_str(), false)?);
                }
                if let Some(tag) = tag {
                    if canonical || !*implicit {
                        analysis.tag = Some(Self::analyze_tag(tag.as_str(), tag_directives)?);
                    }
                }
            },
            _ => {},
        }
        Ok(analysis)
    }

    /// Record a tag directive, rejecting a duplicated handle.
    pub(crate) fn append_tag_directive(&mut self, value: TagDirective, allow_duplicates: bool)
        -> (r: Result<(), Error>)
        ensures
            final(self).tag_directives@.len() >= old(self).tag_directives@.len(),
            *final(self) == (Emitter {
                tag_directives: final(self).tag_directives,
                ..*old(self)
            }),
            if has_handle(old(self).tag_directives@, value.handle@) {
                &&& (r is Ok <==> allow_duplicates)
                &&& final(self).tag_directives@ == old(self).tag_directives@
            } else {
                &&& r is Ok
                &&& final(self).tag_directives@.len() == old(self).tag_directives@.len() + 1
                &&& final(self).tag_directives@.drop_last() == old(self).tag_directives@
                &&& final(self).tag_directives@.last().handle@ == value.handle@
                &&& final(self).tag_directives@.last().prefix@ == value.prefix@
            },
    {
        let n = self.tag_directives.len();
        let mut i: usize = 0;
        while i < n
            invariant
                n == self.tag_directives@.len(),
                i <= n,
                forall|j: int| 0 <= j < i ==> self.tag_directives@[j].handle@ != value.handle@,
            decreases n - i,
        {
            if value.handle.eq(&self.tag_directives[i].handle) {
                if allow_duplicates {
                    return Ok(());
                }
                return Err(Error::emitter("duplicate %TAG directive"));
            }
            i += 1;
        }
        self.tag_directives.push(value);
        proof {
            assert(final(self).tag_directives@.drop_last() =~= old(self).tag_directives@);
        }
        Ok(())
    }

    /// Saturating indent step.
    pub open spec fn spec_indent_add(a: i32, b: int) -> int {
        if a + b <= i32::MAX {
            a + b
        } else {
            i32::MAX as int
        }
    }

    /// The indentation level after entering a nested context.
    pub open spec fn spec_next_indent(self, flow: bool, indentless: bool) -> int {
        if self.indent < 0 {
            if flow {
                self.best_indent as int
            } else {
                0
            }
        } else if !indentless {
            Self::spec_indent_add(self.indent, self.best_indent as int)
        } else if self.best_sequence_indent > 0 && (self.state
            == EmitterState::BlockSequenceFirstItem || self.state == EmitterState::BlockSequenceItem
            || self.state == EmitterState::FlowSequenceFirstItem || self.state
            == EmitterState::FlowSequenceItem) {
            Self::spec_indent_add(self.indent, self.best_sequence_indent as int)
        } else {
            self.indent as int
        }
    }

    /// Push the current indentation level and move one level deeper. An
    /// indentless sequence keeps the parent's level unless a separate
    /// sequence indent was configured.
    pub(crate) fn increase_indent(&mut self, flow: bool, indentless: bool)
        requires
            old(self).best_indent <= 9,
            old(self).best_sequence_indent <= 9,
        ensures
            *final(self) == (Emitter {
                indents: final(self).indents,
                indent: final(self).indent,
                ..*old(self)
            }),
            final(self).indents@ == old(self).indents@.push(old(self).indent),
            final(self).indent as int == old(self).spec_next_indent(flow, indentless),
            !indentless && old(self).indent < i32::MAX - 9 ==> final(self).indent > old(
                self,
            ).indent || (old(self).indent >= 0 && old(self).best_indent == 0),
    {
        self.indents.push(self.indent);
        if self.indent < 0 {
            self.indent = if flow {
                self.best_indent as i32
            } else {
                0
            };
        } else if !indentless {
            let bi = self.best_indent as i32;
            self.indent = if self.indent <= i32::MAX - bi {
                self.indent + bi
            } else {
                i32::MAX
            };
        } else {
            if self.best_sequence_indent > 0 {
                match self.state {
                    EmitterState::BlockSequenceFirstItem
                    | EmitterState::BlockSequenceItem
                    | EmitterState::FlowSequenceFirstItem
                    | EmitterState::FlowSequenceItem => {
                        let bi = self.best_sequence_indent as i32;
                        self.indent = if self.indent <= i32::MAX - bi {
                            self.indent + bi
                        } else {
                            i32::MAX
                        };
                    },
                    _ => {},
                }
            }
        }
    }

    /// Is the next queued event the matching end of an empty sequence?
    pub open spec fn spec_empty_sequence(self, event: &Event) -> bool {
        self.events@.len() > 0 && event.data is SequenceStart && self.events@[0].data
            is SequenceEnd
    }

    pub(crate) fn check_empty_sequence(&self, event: &Event) -> (r: bool)
        ensures
            r == self.spec_empty_sequence(event),
    {
        if self.events.len() == 0 {
            return false;
        }
        let start = match &event.data {
            EventData::SequenceStart { .. } => true,
            _ => false,
        };
        let end = match &self.events[0].data {
            EventData::SequenceEnd => true,
            _ => false,
        };
        start && end
    }

    /// Is the next queued event the matching end of an empty mapping?
    pub open spec fn spec_empty_mapping(self, event: &Event) -> bool {
        self.events@.len() > 0 && event.data is MappingStart && self.events@[0].data is MappingEnd
    }

    pub(crate) fn check_empty_mapping(&self, event: &Event) -> (r: bool)
        ensures
            r == self.spec_empty_mapping(event),
    {
        if self.events.len() == 0 {
            return false;
        }
        let start = match &event.data {
            EventData::MappingStart { .. } => true,
            _ => false,
        };
        let end = match &self.events[0].data {
            EventData::MappingEnd => true,
            _ => false,
        };
        start && end
    }

    /// The document-as-a-whole cannot be detected as empty here; libyaml
    /// reports false.
    pub(crate) fn check_empty_document() -> (r: bool)
        ensures
            !r,
    {
        false
    }

    /// May the node this event opens serve as a simple mapping key: short,
    /// on one line, and (for collections) empty?
    pub(crate) fn check_simple_key(&self, event: &Event, analysis: &Analysis) -> (r: bool)
    {
        let mut length: usize = 0;
        if let Some(anchor) = &analysis.anchor {
            length = sat_add(length, anchor.anchor.as_str().unicode_len());
        }
        if let Some(tag) = &analysis.tag {
            length = sat_add(length, tag.handle.as_str().unicode_len());
            length = sat_add(length, tag.suffix.as_str().unicode_len());
        }
        match &event.data {
            EventData::Alias { .. } => {
                length = match &analysis.anchor {
                    Some(anchor) => anchor.anchor.as_str().unicode_len(),
                    None => 0,
                };
            },
            EventData::Scalar { .. } => {
                match &analysis.scalar {
                    Some(scalar) => {
                        if scalar.multiline {
                            return false;
                        }
                        length = sat_add(length, scalar.value.as_str().unicode_len());
                    },
                    None => {
                        return false;
                    },
                }
            },
            EventData::SequenceStart { .. } => {
                if !self.check_empty_sequence(event) {
                    return false;
                }
            },
            EventData::MappingStart { .. } => {
                if !self.check_empty_mapping(event) {
                    return false;
                }
            },
            _ => {
                return false;
            },
        }
        if length > 128 {
            return false;
        }
        true
    }

}

/// How many events must be queued behind the given one before it can be
/// processed: enough look-ahead to detect an empty document, sequence or
/// mapping.
pub open spec fn accumulate_need(d: &EventData) -> Option<int> {
        match d {
            EventData::DocumentStart { .. } => Some(1),
            EventData::SequenceStart { .. } => Some(2),
            EventData::MappingStart { .. } => Some(3),
            _ => None,
        }
    }

    /// The nesting contribution of one event: starts open a level, ends
    /// close one.
    pub open spec fn level_delta(d: EventData) -> int {
        match d {
            EventData::StreamStart { .. } => 1,
            EventData::DocumentStart { .. } => 1,
            EventData::SequenceStart { .. } => 1,
            EventData::MappingStart { .. } => 1,
            EventData::StreamEnd => -1,
            EventData::DocumentEnd { .. } => -1,
            EventData::SequenceEnd => -1,
            EventData::MappingEnd => -1,
            _ => 0,
        }
    }

    /// The nesting level after the first `i` queued events.
    pub open spec fn level_at(evs: Seq<Event>, i: int) -> int
        decreases i,
    {
        if i <= 0 {
            0
        } else {
            level_at(evs, i - 1) + level_delta(evs[i - 1].data)
        }
    }

    /// Some prefix of the queue already closes the construct its first
    /// event opens.
    pub open spec fn has_balanced_prefix(evs: Seq<Event>) -> bool {
        exists|i: int| 1 <= i <= evs.len() && level_at(evs, i) == 0
    }

    /// The head of the queue has enough look-ahead behind it to be
    /// processed: it needs none, or more events are queued than it needs,
    /// or the queued events already close it.
    pub open spec fn can_process(evs: Seq<Event>) -> bool {
        evs.len() > 0 && match accumulate_need(&evs[0].data) {
            None => true,
            Some(n) => evs.len() > n || has_balanced_prefix(evs),
        }
    }

impl Emitter {
    /// Pop the next event if and only if enough look-ahead is queued behind
    /// it.
    #[verifier::rlimit(100)]
    #[verifier::spinoff_prover]
    pub(crate) fn needs_mode_events(&mut self) -> (r: Option<Event>)
        ensures
            *final(self) == (Emitter { events: final(self).events, ..*old(self) }),
            match r {
                Some(ev) => can_process(old(self).events@) && ev == old(self).events@[0]
                    && final(self).events@ == old(self).events@.drop_first(),
                None => !can_process(old(self).events@) && final(self).events@ == old(
                    self,
                ).events@,
            },
    {
        if self.events.len() == 0 {
            return None;
        }
        let accumulate: usize = match &self.events[0].data {
            EventData::DocumentStart { .. } => 1,
            EventData::SequenceStart { .. } => 2,
            EventData::MappingStart { .. } => 3,
            _ => 0,
        };
        if accumulate == 0 || self.events.len() > accumulate {
            let r = self.events.pop_front();
            proof {
                assert(r is Some);
                assert(self.events@ =~= old(self).events@.drop_first());
            }
            return r;
        }
        let n = self.events.len();
        let mut level: i128 = 0;
        let mut i: usize = 0;
        let mut balanced = false;
        while i < n && !balanced
            invariant
                n == self.events@.len(),
                self.events@ == old(self).events@,
                i <= n,
                -(i as int) <= level as int <= i as int,
                level as int == level_at(self.events@, i as int),
                !balanced ==> forall|j: int| 1 <= j <= i ==> level_at(self.events@, j) != 0,
                balanced ==> level_at(self.events@, i as int) == 0 && i >= 1,
            decreases n - i,
        {
            proof {
                assert(level_at(self.events@, i as int + 1) == level_at(self.events@, i as int)
                    + level_delta(self.events@[i as int].data));
            }
            match &self.events[i].data {
                EventData::StreamStart { .. }
                | EventData::DocumentStart { .. }
                | EventData::SequenceStart { .. }
                | EventData::MappingStart { .. } => {
                    level = level + 1;
                },
                EventData::StreamEnd
                | EventData::DocumentEnd { .. }
                | EventData::SequenceEnd
                | EventData::MappingEnd => {
                    level = level - 1;
                },
                _ => {},
            }
            if level == 0 {
                balanced = true;
            }
            i += 1;
        }
        if balanced {
            let r = self.events.pop_front();
            proof {
                assert(has_balanced_prefix(old(self).events@));
                assert(r is Some);
                assert(self.events@ =~= old(self).events@.drop_first());
            }
            return r;
        }
        proof {
            assert(i == n);
            assert(!has_balanced_prefix(old(self).events@));
        }
        None
    }
}

/// The directive's prefix is a proper prefix of the tag.
pub open spec fn prefix_covers(td: TagDirective, tag: Seq<char>) -> bool {
    td.prefix@.len() < tag.len() && td.prefix@ == tag.take(td.prefix@.len() as int)
}

/// Check whether a directive's prefix is a proper prefix of the tag.
fn td_prefix_covers(td: &TagDirective, tag: &str, tag_len: usize) -> (r: bool)
    requires
        tag_len == tag@.len(),
    ensures
        r == prefix_covers(*td, tag@),
{
    let prefix = td.prefix.as_str();
    let plen = prefix.unicode_len();
    if plen >= tag_len {
        return false;
    }
    let mut k: usize = 0;
    while k < plen
        invariant
            plen == prefix@.len(),
            plen < tag_len,
            tag_len == tag@.len(),
            k <= plen,
            prefix@ == td.prefix@,
            forall|j: int| 0 <= j < k ==> prefix@[j] == tag@[j],
        decreases plen - k,
    {
        if prefix.get_char(k) != tag.get_char(k) {
            proof {
                assert(td.prefix@[k as int] != tag.view().take(plen as int)[k as int]);
            }
            return false;
        }
        k += 1;
    }
    proof {
        assert(td.prefix@ =~= tag@.take(plen as int));
    }
    true
}

} // verus!

use crate::emitter::lemma_sums_bounded;
use crate::event::opt_string_view;

verus! {

/// The style hint a scalar event carries.
pub open spec fn scalar_hint(d: EventData) -> ScalarStyle {
    match d {
        EventData::Scalar { style, .. } => style,
        _ => ScalarStyle::Any,
    }
}

/// The `plain_implicit` flag of a scalar event.
pub open spec fn scalar_plain_implicit(d: EventData) -> bool {
    match d {
        EventData::Scalar { plain_implicit, .. } => plain_implicit,
        _ => false,
    }
}

/// The `quoted_implicit` flag of a scalar event.
pub open spec fn scalar_quoted_implicit(d: EventData) -> bool {
    match d {
        EventData::Scalar { quoted_implicit, .. } => quoted_implicit,
        _ => false,
    }
}

/// The style the emitter selects for a scalar, given the event's hint, the
/// context, and what the analyzer allowed.
pub open spec fn spec_select_style(
    hint: ScalarStyle,
    canonical: bool,
    in_flow: bool,
    simple_key: bool,
    multiline: bool,
    flow_plain_allowed: bool,
    block_plain_allowed: bool,
    single_quoted_allowed: bool,
    block_allowed: bool,
    empty: bool,
    no_tag: bool,
    plain_implicit: bool,
) -> ScalarStyle {
    let s1 = if hint == ScalarStyle::Any {
        ScalarStyle::Plain
    } else {
        hint
    };
    let s2 = if canonical {
        ScalarStyle::DoubleQuoted
    } else {
        s1
    };
    let s3 = if simple_key && multiline {
        ScalarStyle::DoubleQuoted
    } else {
        s2
    };
    let s4 = if s3 == ScalarStyle::Plain && ((in_flow && !flow_plain_allowed) || (!in_flow
        && !block_plain_allowed)) {
        ScalarStyle::SingleQuoted
    } else {
        s3
    };
    let s5 = if s4 == ScalarStyle::Plain && empty && (in_flow || simple_key) {
        ScalarStyle::SingleQuoted
    } else {
        s4
    };
    let s6 = if s5 == ScalarStyle::Plain && no_tag && !plain_implicit {
        ScalarStyle::SingleQuoted
    } else {
        s5
    };
    let s7 = if s6 == ScalarStyle::SingleQuoted && !single_quoted_allowed {
        ScalarStyle::DoubleQuoted
    } else {
        s6
    };
    if (s7 == ScalarStyle::Literal || s7 == ScalarStyle::Folded) && (!block_allowed || in_flow
        || simple_key) {
        ScalarStyle::DoubleQuoted
    } else {
        s7
    }
}

impl Emitter {
    /// Choose the presentation style of a scalar, honoring the event's hint
    /// where the analyzer allows it. A scalar with neither a tag nor an
    /// implicit flag is rejected. When a non-plain style is chosen for a
    /// scalar whose tag would not be written, the non-specific tag `!` is
    /// added so that the scalar reads back with the same meaning.
    pub(crate) fn select_scalar_style(
        &self,
        event: &Event,
        scalar_analysis: &mut ScalarAnalysis,
        tag_analysis: &mut Option<TagAnalysis>,
    ) -> (r: Result<(), Error>)
        requires
            event.data is Scalar,
    ensures
            ({
                let pi = scalar_plain_implicit(event.data);
                let qi = scalar_quoted_implicit(event.data);
                let hint = scalar_hint(event.data);
                let no_tag = (*old(tag_analysis)) is None;
                let chosen = spec_select_style(
                    hint,
                    self.canonical,
                    self.flow_level != 0,
                    self.simple_key_context,
                    old(scalar_analysis).multiline,
                    old(scalar_analysis).flow_plain_allowed,
                    old(scalar_analysis).block_plain_allowed,
                    old(scalar_analysis).single_quoted_allowed,
                    old(scalar_analysis).block_allowed,
                    old(scalar_analysis).value@.len() == 0,
                    no_tag,
                    pi,
                );
                &&& (r is Err <==> (no_tag && !pi && !qi))
                &&& (r is Ok ==> {
                    &&& final(scalar_analysis).style == chosen
                    &&& final(scalar_analysis).value@ == old(scalar_analysis).value@
                    &&& final(scalar_analysis).multiline == old(scalar_analysis).multiline
                    &&& final(scalar_analysis).flow_plain_allowed == old(
                        scalar_analysis,
                    ).flow_plain_allowed
                    &&& final(scalar_analysis).block_plain_allowed == old(
                        scalar_analysis,
                    ).block_plain_allowed
                    &&& final(scalar_analysis).single_quoted_allowed == old(
                        scalar_analysis,
                    ).single_quoted_allowed
                    &&& final(scalar_analysis).block_allowed == old(scalar_analysis).block_allowed
                    &&& (if no_tag && !qi && chosen != ScalarStyle::Plain {
                        (*final(tag_analysis)) matches Some(t) && t.handle@ == seq!['!']
                            && t.suffix@.len() == 0
                    } else {
                        *final(tag_analysis) == *old(tag_analysis)
                    })
                })
            }),
    {
        let (plain_implicit, quoted_implicit, hint) = match &event.data {
            EventData::Scalar { plain_implicit, quoted_implicit, style, .. } => (
                *plain_implicit,
                *quoted_implicit,
                *style,
            ),
            _ => (false, false, ScalarStyle::Any),
        };
        let mut style = hint;
        let no_tag = tag_analysis.is_none();
        if no_tag && !plain_implicit && !quoted_implicit {
            return Err(Error::emitter("neither tag nor implicit flags are specified"));
        }
        if style == ScalarStyle::Any {
            style = ScalarStyle::Plain;
        }
        if self.canonical {
            style = ScalarStyle::DoubleQuoted;
        }
        if self.simple_key_context && scalar_analysis.multiline {
            style = ScalarStyle::DoubleQuoted;
        }
        if style == ScalarStyle::Plain {
            if (self.flow_level != 0 && !scalar_analysis.flow_plain_allowed) || (self.flow_level
                == 0 && !scalar_analysis.block_plain_allowed) {
                style = ScalarStyle::SingleQuoted;
            }
            if scalar_analysis.value.as_str().unicode_len() == 0 && (self.flow_level != 0
                || self.simple_key_context) {
                style = ScalarStyle::SingleQuoted;
            }
            if no_tag && !plain_implicit {
                style = ScalarStyle::SingleQuoted;
            }
        }
        if style == ScalarStyle::SingleQuoted && !scalar_analysis.single_quoted_allowed {
            style = ScalarStyle::DoubleQuoted;
        }
        if (style == ScalarStyle::Literal || style == ScalarStyle::Folded) && (
        !scalar_analysis.block_allowed || self.flow_level != 0 || self.simple_key_context) {
            style = ScalarStyle::DoubleQuoted;
        }
        if no_tag && !quoted_implicit && style != ScalarStyle::Plain {
            proof {
                reveal_strlit("!");
                reveal_strlit("");
            }
            *tag_analysis = Some(TagAnalysis { handle: "!".to_owned(), suffix: "".to_owned() });
        }
        scalar_analysis.style = style;
        Ok(())
    }

    /// Write the `&name` or `*name` of an anchored node.
    pub(crate) fn process_anchor(&mut self, analysis: &Option<AnchorAnalysis>) -> (r: Result<
        (),
        Error,
    >)
        requires
            old(self).encoding != Encoding::Any,
            old(self).out_inv(),
        ensures
            r is Ok,
            old(self).scalar_frame(*final(self)),
            final(self).out_inv(),
            final(self).open_ended == old(self).open_ended,
            old(self).total_out().is_prefix_of(final(self).total_out()),
            match analysis {
                None => final(self).total_out() == old(self).total_out(),
                Some(a) => final(self).total_out() == old(self).total_out() + old(
                    self,
                ).indicator_space(true) + seq![(if a.alias { '*' } else { '&' })] + a.anchor@,
            },
    {
        let ghost base = self.total_out();
        proof {
            crate::emitter::lemma_prefix_extend(base, base, Seq::<char>::empty());
            assert(base + Seq::<char>::empty() =~= base);
        }
        match analysis {
            None => Ok(()),
            Some(a) => {
                proof {
                    reveal_strlit("*");
                    reveal_strlit("&");
                }
                if a.alias {
                    self.write_indicator("*", true, false, false);
                    proof {
                        assert("*"@ =~= seq!['*']);
                    }
                } else {
                    self.write_indicator("&", true, false, false);
                    proof {
                        assert("&"@ =~= seq!['&']);
                    }
                }
                self.write_anchor(a.anchor.as_str());
                proof {
                    assert(base.is_prefix_of(self.total_out()));
                    assert(final(self).total_out() =~= base + old(self).indicator_space(true)
                        + seq![(if a.alias { '*' } else { '&' })] + a.anchor@);
                }
                Ok(())
            },
        }
    }

    /// Write the tag of a node: `!handle!suffix`, `!<uri>`, or the bare `!`.
    pub(crate) fn process_tag(&mut self, analysis: &Option<TagAnalysis>) -> (r: Result<(), Error>)
        requires
            old(self).encoding != Encoding::Any,
            old(self).out_inv(),
        ensures
            r is Ok,
            old(self).scalar_frame(*final(self)),
            final(self).out_inv(),
            final(self).open_ended == old(self).open_ended,
            old(self).total_out().is_prefix_of(final(self).total_out()),
    {
        let ghost base = self.total_out();
        match analysis {
            None => Ok(()),
            Some(t) => {
                let hlen = t.handle.as_str().unicode_len();
                let slen = t.suffix.as_str().unicode_len();
                if hlen == 0 && slen == 0 {
                    return Ok(());
                }
                if hlen == 0 {
                    self.write_indicator("!<", true, false, false);
                    proof {
                        crate::emitter::lemma_prefix_concat2(
                            base,
                            old(self).indicator_space(true),
                            "!<"@,
                        );
                    }
                    let ghost mid = self.total_out();
                    self.write_tag_content(t.suffix.as_str(), false);
                    proof {
                        crate::emitter::lemma_prefix_trans(base, mid, self.total_out());
                    }
                    let ghost mid2 = self.total_out();
                    self.write_indicator(">", false, false, false);
                    proof {
                        crate::emitter::lemma_prefix_concat2(
                            mid2,
                            mid2.subrange(mid2.len() as int, mid2.len() as int),
                            ">"@,
                        );
                        assert(mid2 + mid2.subrange(mid2.len() as int, mid2.len() as int) + ">"@
                            =~= self.total_out());
                        crate::emitter::lemma_prefix_trans(base, mid2, self.total_out());
                    }
                } else {
                    self.write_tag_handle(t.handle.as_str());
                    proof {
                        crate::emitter::lemma_prefix_concat2(
                            base,
                            old(self).indicator_space(true),
                            t.handle@,
                        );
                    }
                    let ghost mid = self.total_out();
                    if slen != 0 {
                        self.write_tag_content(t.suffix.as_str(), false);
                        proof {
                            crate::emitter::lemma_prefix_trans(base, mid, self.total_out());
                        }
                    }
                    proof {
                        assert(base.is_prefix_of(self.total_out()));
                    }
                }
                Ok(())
            },
        }
    }
}

} // verus!

verus! {

impl Emitter {
    /// Handle the first event: settle the configuration and write the BOM
    /// for UTF-16 output.
    pub(crate) fn emit_stream_start(&mut self, event: &Event) -> (r: Result<(), Error>)
        requires
            old(self).wf(),
            old(self).state == EmitterState::StreamStart,
        ensures
            final(self).wf(),
            final(self).events@ == old(self).events@,
            final(self).opened == old(self).opened,
            final(self).closed == old(self).closed,
            r is Ok <==> event.data is StreamStart,
            r is Ok ==> final(self).state == EmitterState::FirstDocumentStart,
            r is Err ==> final(self).state == old(self).state,
    {
        self.open_ended = 0;
        if let EventData::StreamStart { encoding } = &event.data {
            if self.encoding == Encoding::Any {
                self.encoding = *encoding;
            }
            if self.encoding == Encoding::Any {
                self.encoding = Encoding::Utf8;
            }
            if self.best_indent < 2 || self.best_indent > 9 {
                self.best_indent = 2;
            }
            if self.best_width != usize::MAX && self.best_width <= self.best_indent * 2 {
                self.best_width = 80;
            }
            if self.line_break == Break::Any {
                self.line_break = Break::Ln;
            }
            self.indent = -1;
            self.line = 0;
            self.column = 0;
            self.whitespace = true;
            self.indention = true;
            proof {
                assert(self.flushed@.len() == 0);
                assert(crate::emitter::spec_encode(self.flushed@, old(self).encoding) =~= Seq::<
                    u8,
                >::empty());
                assert(self.output@ =~= Seq::<u8>::empty());
                assert(self.output@ =~= crate::emitter::spec_encode(self.flushed@, self.encoding));
            }
            if self.encoding != Encoding::Utf8 {
                self.write_bom();
            }
            self.state = EmitterState::FirstDocumentStart;
            return Ok(());
        }
        Err(Error::emitter("expected STREAM-START"))
    }

    /// Check and record the directives a DOCUMENT-START event carries, and
    /// append the built-in `!` and `!!` defaults.
    pub(crate) fn record_document_directives(&mut self, tag_directives: &Vec<TagDirective>) -> (r:
        Result<(), Error>)
        requires
            old(self).wf(),
            old(self).state != EmitterState::StreamStart,
        ensures
            final(self).wf(),
            final(self).state == old(self).state,
            final(self).states@ == old(self).states@,
            final(self).indents@ == old(self).indents@,
            final(self).events@ == old(self).events@,
            final(self).opened == old(self).opened,
            final(self).closed == old(self).closed,
            final(self).encoding == old(self).encoding,
            final(self).best_indent == old(self).best_indent,
            final(self).open_ended == old(self).open_ended,
            final(self).canonical == old(self).canonical,
            final(self).flushed@ == old(self).flushed@,
            final(self).buffer@ == old(self).buffer@,
            final(self).output@ == old(self).output@,
            final(self).whitespace == old(self).whitespace,
            final(self).indention == old(self).indention,
            final(self).column == old(self).column,
            final(self).indent == old(self).indent,
            final(self).line_break == old(self).line_break,
            tag_directives@.len() == 0 ==> r is Ok,
    {
        let n = tag_directives.len();
        let mut i: usize = 0;
        while i < n
            invariant
                n == tag_directives@.len(),
                i <= n,
                self.wf(),
                self.state == old(self).state,
                self.states@ == old(self).states@,
                self.indents@ == old(self).indents@,
                self.events@ == old(self).events@,
                self.opened == old(self).opened,
                self.closed == old(self).closed,
                self.encoding == old(self).encoding,
                self.best_indent == old(self).best_indent,
                self.open_ended == old(self).open_ended,
                self.canonical == old(self).canonical,
                self.flushed@ == old(self).flushed@,
                self.buffer@ == old(self).buffer@,
                self.output@ == old(self).output@,
                self.whitespace == old(self).whitespace,
                self.indention == old(self).indention,
                self.column == old(self).column,
                self.indent == old(self).indent,
                self.line_break == old(self).line_break,
            decreases n - i,
        {
            let td = &tag_directives[i];
            let c = Self::analyze_tag_directive(td);
            if let Err(e) = c {
                return Err(e);
            }
            let a = self.append_tag_directive(td.clone(), false);
            if let Err(e) = a {
                return Err(e);
            }
            i += 1;
        }
        let d1 = self.append_tag_directive(TagDirective::new("!", "!"), true);
        if let Err(e) = d1 {
            return Err(e);
        }
        let d2 = self.append_tag_directive(TagDirective::new("!!", "tag:yaml.org,2002:"), true);
        if let Err(e) = d2 {
            return Err(e);
        }
        Ok(())
    }

    /// Write the `%YAML` and `%TAG` lines of an explicit document start.
    pub(crate) fn write_document_directives(
        &mut self,
        version_directive: &Option<VersionDirective>,
        tag_directives: &Vec<TagDirective>,
    )
        requires
            old(self).wf(),
            old(self).state != EmitterState::StreamStart,
        ensures
            final(self).wf(),
            final(self).state == old(self).state,
            final(self).states@ == old(self).states@,
            final(self).indents@ == old(self).indents@,
            final(self).events@ == old(self).events@,
            final(self).opened == old(self).opened,
            final(self).closed == old(self).closed,
            final(self).encoding == old(self).encoding,
            final(self).best_indent == old(self).best_indent,
            final(self).canonical == old(self).canonical,
            (version_directive is None && tag_directives@.len() == 0) ==> ({
                &&& final(self).total_out() == old(self).total_out()
                &&& final(self).buffer@ == old(self).buffer@
                &&& final(self).flushed@ == old(self).flushed@
                &&& final(self).output@ == old(self).output@
                &&& final(self).open_ended == old(self).open_ended
                &&& final(self).whitespace == old(self).whitespace
                &&& final(self).indention == old(self).indention
                &&& final(self).column == old(self).column
                &&& final(self).indent == old(self).indent
                &&& final(self).line_break == old(self).line_break
            }),
    {
        if let Some(version_directive) = version_directive {
            self.write_indicator("%YAML", true, false, false);
            if version_directive.minor == 1 {
                self.write_indicator("1.1", true, false, false);
            } else {
                self.write_indicator("1.2", true, false, false);
            }
            self.write_indent();
        }
        let n = tag_directives.len();
        let mut j: usize = 0;
        while j < n
            invariant
                n == tag_directives@.len(),
                j <= n,
                self.wf(),
                self.state == old(self).state,
                self.states@ == old(self).states@,
                self.indents@ == old(self).indents@,
                self.events@ == old(self).events@,
                self.opened == old(self).opened,
                self.closed == old(self).closed,
                self.encoding == old(self).encoding,
                self.encoding != Encoding::Any,
                self.state != EmitterState::StreamStart,
                self.best_indent == old(self).best_indent,
                self.canonical == old(self).canonical,
                j == 0 && !(version_directive is Some) ==> self.total_out() == old(
                    self,
                ).total_out() && self.buffer@ == old(self).buffer@ && self.flushed@ == old(
                    self,
                ).flushed@ && self.output@ == old(self).output@ && self.open_ended == old(
                    self,
                ).open_ended && self.whitespace == old(self).whitespace && self.indention == old(
                    self,
                ).indention && self.column == old(self).column && self.indent == old(self).indent
                    && self.line_break == old(self).line_break,
            decreases n - j,
        {
            let td = &tag_directives[j];
            self.write_indicator("%TAG", true, false, false);
            self.write_tag_handle(td.handle.as_str());
            self.write_tag_content(td.prefix.as_str(), true);
            self.write_indent();
            j += 1;
        }
    }

    /// Handle a DOCUMENT-START or the final STREAM-END: write the directives
    /// and the `---` marker where one is needed.
    pub(crate) fn emit_document_start(&mut self, event: &Event, first: bool) -> (r: Result<
        (),
        Error,
    >)
        requires
            old(self).wf(),
            old(self).state == EmitterState::FirstDocumentStart || old(self).state
                == EmitterState::DocumentStart,
        ensures
            final(self).wf(),
            final(self).events@ == old(self).events@,
            final(self).opened == old(self).opened,
            final(self).closed == old(self).closed,
            r is Ok && event.data is DocumentStart ==> final(self).state
                == EmitterState::DocumentContent,
            r is Ok && event.data is StreamEnd ==> final(self).state == EmitterState::End,
            !(event.data is DocumentStart || event.data is StreamEnd) ==> r is Err,
            event.data is StreamEnd ==> r is Ok && final(self).buffer@.len() == 0 && (old(
                self,
            ).open_ended != 2 ==> final(self).total_out() == old(self).total_out()),
            match event.data {
                EventData::DocumentStart { version_directive, tag_directives, implicit } => {
                    (version_directive is None && tag_directives@.len() == 0) ==> ({
                        &&& r is Ok
                        &&& ((first && implicit && !old(self).canonical && old(self).open_ended
                            == 0) ==> final(self).total_out() == old(self).total_out())
                        &&& ((!(first && implicit) && !old(self).canonical) ==> final(
                        self).total_out() == old(self).total_out() + old(self).indent_text()
                            + seq!['-', '-', '-'])
                    })
                },
                _ => true,
            },
    {
        if let EventData::DocumentStart { version_directive, tag_directives, implicit } =
            &event.data {
            let mut implicit = *implicit;
            if let Some(version_directive) = version_directive {
                let c = Self::analyze_version_directive(*version_directive);
                if let Err(e) = c {
                    return Err(e);
                }
            }
            let r = self.record_document_directives(tag_directives);
            if let Err(e) = r {
                return Err(e);
            }
            if !first || self.canonical {
                implicit = false;
            }
            let has_version = match version_directive {
                Some(_) => true,
                None => false,
            };
            let n = tag_directives.len();
            if (has_version || n != 0) && self.open_ended != 0 {
                self.write_indicator("...", true, false, false);
                self.write_indent();
            }
            self.open_ended = 0;
            if has_version || n != 0 {
                implicit = false;
            }
            self.write_document_directives(version_directive, tag_directives);
            if Self::check_empty_document() {
                implicit = false;
            }
            if !implicit {
                let ghost pre_ind = *self;
                proof {
                    reveal_strlit("---");
                }
                self.write_indent();
                let ghost mid_ind = self.total_out();
                proof {
                    assert(mid_ind =~= pre_ind.total_out() + pre_ind.indent_text());
                }
                self.write_indicator("---", true, false, false);
                proof {
                    assert("---"@ =~= seq!['-', '-', '-']);
                    assert(self.total_out() =~= mid_ind + seq!['-', '-', '-']);
                }
                if self.canonical {
                    self.write_indent();
                }
            }
            self.state = EmitterState::DocumentContent;
            self.open_ended = 0;
            return Ok(());
        } else if let EventData::StreamEnd = &event.data {
            if self.open_ended == 2 {
                self.write_indicator("...", true, false, false);
                self.open_ended = 0;
                self.write_indent();
            }
            self.flush();
            self.state = EmitterState::End;
            return Ok(());
        }
        Err(Error::emitter("expected DOCUMENT-START or STREAM-END"))
    }

    /// Handle the root node of a document.
    pub(crate) fn emit_document_content(&mut self, event: &Event, analysis: &mut Analysis) -> (r:
        Result<(), Error>)
        requires
            old(self).wf(),
            old(self).state == EmitterState::DocumentContent,
        ensures
            final(self).wf(),
            final(self).events@ == old(self).events@,
            final(self).opened == old(self).opened,
            final(self).closed == old(self).closed,
    {
        self.states.push(EmitterState::DocumentEnd);
        proof {
            lemma_sum_push(old(self).states@, EmitterState::DocumentEnd);
                crate::emitter::lemma_no_ss_push(old(self).states@, EmitterState::DocumentEnd);
        }
        self.emit_node(event, true, false, false, false, analysis)
    }

    /// Handle a DOCUMENT-END: write the `...` marker when the end is
    /// explicit, and drop the document's tag directives.
    pub(crate) fn emit_document_end(&mut self, event: &Event) -> (r: Result<(), Error>)
        requires
            old(self).wf(),
            old(self).state == EmitterState::DocumentEnd,
        ensures
            final(self).wf(),
            final(self).events@ == old(self).events@,
            final(self).opened == old(self).opened,
            final(self).closed == old(self).closed,
            r is Ok <==> event.data is DocumentEnd,
            r is Ok ==> final(self).state == EmitterState::DocumentStart
                && final(self).tag_directives@.len() == 0,
            r is Ok ==> final(self).buffer@.len() == 0,
            match event.data {
                EventData::DocumentEnd { implicit } => {
                    &&& (implicit ==> final(self).open_ended == (if old(self).open_ended == 0 {
                        1int
                    } else {
                        old(self).open_ended as int
                    }))
                    &&& (!implicit ==> final(self).open_ended == 0)
                },
                _ => true,
            },
    {
        if let EventData::DocumentEnd { implicit } = &event.data {
            let implicit = *implicit;
            self.write_indent();
            if !implicit {
                self.write_indicator("...", true, false, false);
                self.open_ended = 0;
                self.write_indent();
            } else if self.open_ended == 0 {
                self.open_ended = 1;
            }
            self.flush();
            self.state = EmitterState::DocumentStart;
            self.tag_directives.clear();
            return Ok(());
        }
        Err(Error::emitter("expected DOCUMENT-END"))
    }

    /// Handle one item of a flow sequence.
    pub(crate) fn emit_flow_sequence_item(
        &mut self,
        event: &Event,
        first: bool,
        analysis: &mut Analysis,
    ) -> (r: Result<(), Error>)
        requires
            old(self).wf(),
            if first {
                old(self).state == EmitterState::FlowSequenceFirstItem
            } else {
                old(self).state == EmitterState::FlowSequenceItem
            },
        ensures
            final(self).wf(),
            final(self).events@ == old(self).events@,
            final(self).opened == old(self).opened,
            final(self).closed == old(self).closed,
    {
        proof {
            lemma_sums_bounded(old(self).states@);
        }
        if first {
            self.write_indicator("[", true, true, false);
            self.increase_indent(true, false);
            self.flow_level = sat_add(self.flow_level, 1);
        }
        if let EventData::SequenceEnd = &event.data {
            if self.flow_level > 0 {
                self.flow_level = self.flow_level - 1;
            }
            let popped = self.indents.pop();
            self.indent = match popped {
                Some(i) => i,
                None => -1,
            };
            if self.canonical && !first {
                self.write_indicator(",", false, false, false);
                self.write_indent();
            }
            self.write_indicator("]", false, false, false);
            let st = self.states.pop().unwrap();
            proof {
                crate::emitter::lemma_no_ss_drop(old(self).states@);
                assert(self.states@ =~= old(self).states@.drop_last());
                assert(sum_state_need(old(self).states@) == sum_state_need(self.states@)
                    + state_stack_need(st));
            }
            self.state = st;
            return Ok(());
        }
        if !first {
            self.write_indicator(",", false, false, false);
        }
        if self.canonical || self.column > self.best_width {
            self.write_indent();
        }
        self.states.push(EmitterState::FlowSequenceItem);
        proof {
            lemma_sum_push(old(self).states@, EmitterState::FlowSequenceItem);
                crate::emitter::lemma_no_ss_push(old(self).states@, EmitterState::FlowSequenceItem);
        }
        self.emit_node(event, false, true, false, false, analysis)
    }

    /// Handle one key of a flow mapping.
    pub(crate) fn emit_flow_mapping_key(
        &mut self,
        event: &Event,
        first: bool,
        analysis: &mut Analysis,
    ) -> (r: Result<(), Error>)
        requires
            old(self).wf(),
            if first {
                old(self).state == EmitterState::FlowMappingFirstKey
            } else {
                old(self).state == EmitterState::FlowMappingKey
            },
        ensures
            final(self).wf(),
            final(self).events@ == old(self).events@,
            final(self).opened == old(self).opened,
            final(self).closed == old(self).closed,
    {
        proof {
            lemma_sums_bounded(old(self).states@);
        }
        if first {
            self.write_indicator("{", true, true, false);
            self.increase_indent(true, false);
            self.flow_level = sat_add(self.flow_level, 1);
        }
        if let EventData::MappingEnd = &event.data {
            if self.flow_level > 0 {
                self.flow_level = self.flow_level - 1;
            }
            let popped = self.indents.pop();
            self.indent = match popped {
                Some(i) => i,
                None => -1,
            };
            if self.canonical && !first {
                self.write_indicator(",", false, false, false);
                self.write_indent();
            }
            self.write_indicator("}", false, false, false);
            let st = self.states.pop().unwrap();
            proof {
                crate::emitter::lemma_no_ss_drop(old(self).states@);
                assert(self.states@ =~= old(self).states@.drop_last());
                assert(sum_state_need(old(self).states@) == sum_state_need(self.states@)
                    + state_stack_need(st));
            }
            self.state = st;
            return Ok(());
        }
        if !first {
            self.write_indicator(",", false, false, false);
        }
        if self.canonical || self.column > self.best_width {
            self.write_indent();
        }
        if !self.canonical && self.check_simple_key(event, analysis) {
            self.states.push(EmitterState::FlowMappingSimpleValue);
            proof {
                lemma_sum_push(old(self).states@, EmitterState::FlowMappingSimpleValue);
                crate::emitter::lemma_no_ss_push(old(self).states@, EmitterState::FlowMappingSimpleValue);
            }
            self.emit_node(event, false, false, true, true, analysis)
        } else {
            self.write_indicator("?", true, false, false);
            self.states.push(EmitterState::FlowMappingValue);
            proof {
                lemma_sum_push(old(self).states@, EmitterState::FlowMappingValue);
                crate::emitter::lemma_no_ss_push(old(self).states@, EmitterState::FlowMappingValue);
            }
            self.emit_node(event, false, false, true, false, analysis)
        }
    }

    /// Handle one value of a flow mapping.
    pub(crate) fn emit_flow_mapping_value(
        &mut self,
        event: &Event,
        simple: bool,
        analysis: &mut Analysis,
    ) -> (r: Result<(), Error>)
        requires
            old(self).wf(),
            if simple {
                old(self).state == EmitterState::FlowMappingSimpleValue
            } else {
                old(self).state == EmitterState::FlowMappingValue
            },
        ensures
            final(self).wf(),
            final(self).events@ == old(self).events@,
            final(self).opened == old(self).opened,
            final(self).closed == old(self).closed,
    {
        if simple {
            self.write_indicator(":", false, false, false);
        } else {
            if self.canonical || self.column > self.best_width {
                self.write_indent();
            }
            self.write_indicator(":", true, false, false);
        }
        self.states.push(EmitterState::FlowMappingKey);
        proof {
            lemma_sum_push(old(self).states@, EmitterState::FlowMappingKey);
                crate::emitter::lemma_no_ss_push(old(self).states@, EmitterState::FlowMappingKey);
        }
        self.emit_node(event, false, false, true, false, analysis)
    }

    /// Handle one item of a block sequence.
    pub(crate) fn emit_block_sequence_item(
        &mut self,
        event: &Event,
        first: bool,
        analysis: &mut Analysis,
    ) -> (r: Result<(), Error>)
        requires
            old(self).wf(),
            if first {
                old(self).state == EmitterState::BlockSequenceFirstItem
            } else {
                old(self).state == EmitterState::BlockSequenceItem
            },
        ensures
            final(self).wf(),
            final(self).events@ == old(self).events@,
            final(self).opened == old(self).opened,
            final(self).closed == old(self).closed,
    {
        proof {
            lemma_sums_bounded(old(self).states@);
        }
        if first {
            let indentless = self.mapping_context && !self.indention;
            self.increase_indent(false, indentless);
        }
        if let EventData::SequenceEnd = &event.data {
            let popped = self.indents.pop();
            self.indent = match popped {
                Some(i) => i,
                None => -1,
            };
            let st = self.states.pop().unwrap();
            proof {
                crate::emitter::lemma_no_ss_drop(old(self).states@);
                assert(self.states@ =~= old(self).states@.drop_last());
                assert(sum_state_need(old(self).states@) == sum_state_need(self.states@)
                    + state_stack_need(st));
            }
            self.state = st;
            return Ok(());
        }
        self.write_indent();
        self.write_indicator("-", true, false, true);
        self.states.push(EmitterState::BlockSequenceItem);
        proof {
            lemma_sum_push(old(self).states@, EmitterState::BlockSequenceItem);
                crate::emitter::lemma_no_ss_push(old(self).states@, EmitterState::BlockSequenceItem);
        }
        self.emit_node(event, false, true, false, false, analysis)
    }

    /// Handle one key of a block mapping.
    pub(crate) fn emit_block_mapping_key(
        &mut self,
        event: &Event,
        first: bool,
        analysis: &mut Analysis,
    ) -> (r: Result<(), Error>)
        requires
            old(self).wf(),
            if first {
                old(self).state == EmitterState::BlockMappingFirstKey
            } else {
                old(self).state == EmitterState::BlockMappingKey
            },
        ensures
            final(self).wf(),
            final(self).events@ == old(self).events@,
            final(self).opened == old(self).opened,
            final(self).closed == old(self).closed,
    {
        proof {
            lemma_sums_bounded(old(self).states@);
        }
        if first {
            self.increase_indent(false, false);
        }
        if let EventData::MappingEnd = &event.data {
            let popped = self.indents.pop();
            self.indent = match popped {
                Some(i) => i,
                None => -1,
            };
            let st = self.states.pop().unwrap();
            proof {
                crate::emitter::lemma_no_ss_drop(old(self).states@);
                assert(self.states@ =~= old(self).states@.drop_last());
                assert(sum_state_need(old(self).states@) == sum_state_need(self.states@)
                    + state_stack_need(st));
            }
            self.state = st;
            return Ok(());
        }
        self.write_indent();
        if self.check_simple_key(event, analysis) {
            self.states.push(EmitterState::BlockMappingSimpleValue);
            proof {
                lemma_sum_push(old(self).states@, EmitterState::BlockMappingSimpleValue);
                crate::emitter::lemma_no_ss_push(old(self).states@, EmitterState::BlockMappingSimpleValue);
            }
            self.emit_node(event, false, false, true, true, analysis)
        } else {
            self.write_indicator("?", true, false, true);
            self.states.push(EmitterState::BlockMappingValue);
            proof {
                lemma_sum_push(old(self).states@, EmitterState::BlockMappingValue);
                crate::emitter::lemma_no_ss_push(old(self).states@, EmitterState::BlockMappingValue);
            }
            self.emit_node(event, false, false, true, false, analysis)
        }
    }

    /// Handle one value of a block mapping.
    pub(crate) fn emit_block_mapping_value(
        &mut self,
        event: &Event,
        simple: bool,
        analysis: &mut Analysis,
    ) -> (r: Result<(), Error>)
        requires
            old(self).wf(),
            if simple {
                old(self).state == EmitterState::BlockMappingSimpleValue
            } else {
                old(self).state == EmitterState::BlockMappingValue
            },
        ensures
            final(self).wf(),
            final(self).events@ == old(self).events@,
            final(self).opened == old(self).opened,
            final(self).closed == old(self).closed,
    {
        if simple {
            self.write_indicator(":", false, false, false);
        } else {
            self.write_indent();
            self.write_indicator(":", true, false, true);
        }
        self.states.push(EmitterState::BlockMappingKey);
        proof {
            lemma_sum_push(old(self).states@, EmitterState::BlockMappingKey);
                crate::emitter::lemma_no_ss_push(old(self).states@, EmitterState::BlockMappingKey);
        }
        self.emit_node(event, false, false, true, false, analysis)
    }

    /// Emit one node: dispatch on the event kind after recording the context.
    pub(crate) fn emit_node(
        &mut self,
        event: &Event,
        root: bool,
        sequence: bool,
        mapping: bool,
        simple_key: bool,
        analysis: &mut Analysis,
    ) -> (r: Result<(), Error>)
        requires
            old(self).dispatch_ok(),
        ensures
            final(self).wf(),
            final(self).events@ == old(self).events@,
            final(self).opened == old(self).opened,
            final(self).closed == old(self).closed,
            !(event.data is Alias || event.data is Scalar || event.data is SequenceStart
                || event.data is MappingStart) ==> r is Err,
    {
        self.root_context = root;
        self.sequence_context = sequence;
        self.mapping_context = mapping;
        self.simple_key_context = simple_key;

        match &event.data {
            EventData::Alias { .. } => self.emit_alias(event, analysis),
            EventData::Scalar { .. } => self.emit_scalar(event, analysis),
            EventData::SequenceStart { .. } => self.emit_sequence_start(event, analysis),
            EventData::MappingStart { .. } => self.emit_mapping_start(event, analysis),
            _ => Err(Error::emitter("expected SCALAR, SEQUENCE-START, MAPPING-START, or ALIAS")),
        }
    }

    /// Emit an alias node: its `*name` only.
    pub(crate) fn emit_alias(&mut self, event: &Event, analysis: &mut Analysis) -> (r: Result<
        (),
        Error,
    >)
        requires
            old(self).dispatch_ok(),
        ensures
            final(self).wf(),
            final(self).events@ == old(self).events@,
            final(self).opened == old(self).opened,
            final(self).closed == old(self).closed,
    {
        proof {
            lemma_sums_bounded(old(self).states@);
        }
        let c = self.process_anchor(&analysis.anchor);
        if let Err(e) = c {
            return Err(e);
        }
        if self.simple_key_context {
            self.put(' ');
        }
        let st = self.states.pop().unwrap();
        proof {
            crate::emitter::lemma_no_ss_drop(old(self).states@);
            assert(self.states@ =~= old(self).states@.drop_last());
            assert(sum_state_need(old(self).states@) == sum_state_need(self.states@)
                + state_stack_need(st));
        }
        self.state = st;
        Ok(())
    }

    /// Emit a scalar node: anchor, tag, then the value in its chosen style.
    pub(crate) fn emit_scalar(&mut self, event: &Event, analysis: &mut Analysis) -> (r: Result<
        (),
        Error,
    >)
        requires
            old(self).dispatch_ok(),
            event.data is Scalar,
        ensures
            final(self).wf(),
            final(self).events@ == old(self).events@,
            final(self).opened == old(self).opened,
            final(self).closed == old(self).closed,
    {
        proof {
            lemma_sums_bounded(old(self).states@);
        }
        let mut scalar = match analysis.scalar.take() {
            Some(s) => s,
            None => {
                return Err(Error::emitter("no scalar analysis"));
            },
        };
        let c = self.select_scalar_style(event, &mut scalar, &mut analysis.tag);
        if let Err(e) = c {
            return Err(e);
        }
        let a = self.process_anchor(&analysis.anchor);
        if let Err(e) = a {
            return Err(e);
        }
        let t = self.process_tag(&analysis.tag);
        if let Err(e) = t {
            return Err(e);
        }
        self.increase_indent(true, false);
        let p = self.process_scalar(&scalar);
        analysis.scalar = Some(scalar);
        let popped = self.indents.pop();
        self.indent = match popped {
            Some(i) => i,
            None => -1,
        };
        if let Err(e) = p {
            let st = self.states.pop().unwrap();
            proof {
                crate::emitter::lemma_no_ss_drop(old(self).states@);
                assert(self.states@ =~= old(self).states@.drop_last());
                assert(sum_state_need(old(self).states@) == sum_state_need(self.states@)
                    + state_stack_need(st));
            }
            self.state = st;
            return Err(e);
        }
        let st = self.states.pop().unwrap();
        proof {
            crate::emitter::lemma_no_ss_drop(old(self).states@);
            assert(self.states@ =~= old(self).states@.drop_last());
            assert(sum_state_need(old(self).states@) == sum_state_need(self.states@)
                + state_stack_need(st));
        }
        self.state = st;
        Ok(())
    }

    /// Emit the start of a sequence: anchor, tag, and the choice of flow or
    /// block layout.
    pub(crate) fn emit_sequence_start(&mut self, event: &Event, analysis: &mut Analysis) -> (r:
        Result<(), Error>)
        requires
            old(self).dispatch_ok(),
            event.data is SequenceStart,
        ensures
            final(self).wf(),
            final(self).events@ == old(self).events@,
            final(self).opened == old(self).opened,
            final(self).closed == old(self).closed,
    {
        let a = self.process_anchor(&analysis.anchor);
        if let Err(e) = a {
            return Err(e);
        }
        let t = self.process_tag(&analysis.tag);
        if let Err(e) = t {
            return Err(e);
        }
        let flow_style = match &event.data {
            EventData::SequenceStart { style, .. } => *style
                == crate::types::SequenceStyle::Flow,
            _ => false,
        };
        if self.flow_level != 0 || self.canonical || flow_style || self.check_empty_sequence(
            event,
        ) {
            self.state = EmitterState::FlowSequenceFirstItem;
        } else {
            self.state = EmitterState::BlockSequenceFirstItem;
        }
        Ok(())
    }

    /// Emit the start of a mapping: anchor, tag, and the choice of flow or
    /// block layout.
    pub(crate) fn emit_mapping_start(&mut self, event: &Event, analysis: &mut Analysis) -> (r:
        Result<(), Error>)
        requires
            old(self).dispatch_ok(),
            event.data is MappingStart,
        ensures
            final(self).wf(),
            final(self).events@ == old(self).events@,
            final(self).opened == old(self).opened,
            final(self).closed == old(self).closed,
    {
        let a = self.process_anchor(&analysis.anchor);
        if let Err(e) = a {
            return Err(e);
        }
        let t = self.process_tag(&analysis.tag);
        if let Err(e) = t {
            return Err(e);
        }
        let flow_style = match &event.data {
            EventData::MappingStart { style, .. } => *style == crate::types::MappingStyle::Flow,
            _ => false,
        };
        if self.flow_level != 0 || self.canonical || flow_style || self.check_empty_mapping(
            event,
        ) {
            self.state = EmitterState::FlowMappingFirstKey;
        } else {
            self.state = EmitterState::BlockMappingFirstKey;
        }
        Ok(())
    }

    /// Dispatch one event to the handler of the current state.
    pub(crate) fn state_machine(&mut self, event: &Event, analysis: &mut Analysis) -> (r: Result<
        (),
        Error,
    >)
        requires
            old(self).wf(),
        ensures
            final(self).wf(),
            final(self).events@ == old(self).events@,
            final(self).opened == old(self).opened,
            final(self).closed == old(self).closed,
            old(self).state == EmitterState::StreamStart ==> (r is Ok <==> event.data
                is StreamStart) && (r is Ok ==> final(self).state
                == EmitterState::FirstDocumentStart),
            old(self).state == EmitterState::End ==> r is Err,
            (old(self).state == EmitterState::FirstDocumentStart || old(self).state
                == EmitterState::DocumentStart) && event.data is StreamEnd ==> r is Ok && final(self).buffer@.len() == 0 && final(self).state == EmitterState::End,
    {
        match self.state {
            EmitterState::StreamStart => self.emit_stream_start(event),
            EmitterState::FirstDocumentStart => self.emit_document_start(event, true),
            EmitterState::DocumentStart => self.emit_document_start(event, false),
            EmitterState::DocumentContent => self.emit_document_content(event, analysis),
            EmitterState::DocumentEnd => self.emit_document_end(event),
            EmitterState::FlowSequenceFirstItem => self.emit_flow_sequence_item(
                event,
                true,
                analysis,
            ),
            EmitterState::FlowSequenceItem => self.emit_flow_sequence_item(event, false, analysis),
            EmitterState::FlowMappingFirstKey => self.emit_flow_mapping_key(event, true, analysis),
            EmitterState::FlowMappingKey => self.emit_flow_mapping_key(event, false, analysis),
            EmitterState::FlowMappingSimpleValue => self.emit_flow_mapping_value(
                event,
                true,
                analysis,
            ),
            EmitterState::FlowMappingValue => self.emit_flow_mapping_value(event, false, analysis),
            EmitterState::BlockSequenceFirstItem => self.emit_block_sequence_item(
                event,
                true,
                analysis,
            ),
            EmitterState::BlockSequenceItem => self.emit_block_sequence_item(
                event,
                false,
                analysis,
            ),
            EmitterState::BlockMappingFirstKey => self.emit_block_mapping_key(
                event,
                true,
                analysis,
            ),
            EmitterState::BlockMappingKey => self.emit_block_mapping_key(event, false, analysis),
            EmitterState::BlockMappingSimpleValue => self.emit_block_mapping_value(
                event,
                true,
                analysis,
            ),
            EmitterState::BlockMappingValue => self.emit_block_mapping_value(
                event,
                false,
                analysis,
            ),
            EmitterState::End => Err(Error::emitter("expected nothing after STREAM-END")),
        }
    }

    /// Submit an event. The emitter appends it to its queue, then processes
    /// queued events from the front for as long as the head has enough
    /// look-ahead behind it; on success the events left are exactly those
    /// that still wait for look-ahead. After STREAM-END nothing more is
    /// accepted.
    pub fn emit(&mut self, event: Event) -> (r: Result<(), Error>)
        requires
            old(self).wf(),
        ensures
            final(self).wf(),
            final(self).opened == old(self).opened,
            final(self).closed == old(self).closed,
            exists|k: int|
                0 <= k <= old(self).events@.len() + 1 && final(self).events@ == old(
                    self,
                ).events@.push(event).skip(k),
            r is Ok ==> !can_process(final(self).events@),
            old(self).state == EmitterState::End && can_process(old(self).events@.push(event))
                ==> r is Err,
            old(self).events@.len() == 0 && old(self).state == EmitterState::StreamStart
                && event.data is StreamStart ==> r is Ok && final(self).state
                == EmitterState::FirstDocumentStart && final(self).events@.len() == 0,
            old(self).events@.len() == 0 && (old(self).state == EmitterState::FirstDocumentStart
                || old(self).state == EmitterState::DocumentStart) && event.data is StreamEnd
                ==> r is Ok && final(self).state == EmitterState::End && final(self).buffer@.len()
                == 0 && final(self).events@.len() == 0,
    {
        let ghost q = old(self).events@.push(event);
        let ghost special = old(self).events@.len() == 0 && old(self).state
            == EmitterState::StreamStart && event.data is StreamStart;
        let ghost special2 = old(self).events@.len() == 0 && (old(self).state
            == EmitterState::FirstDocumentStart || old(self).state == EmitterState::DocumentStart)
            && event.data is StreamEnd;
        let ghost mut done: int = 0;
        self.events.push_back(event);
        proof {
            assert(self.events@ =~= q.skip(0));
        }
        loop
            invariant
                self.wf(),
                self.opened == old(self).opened,
                self.closed == old(self).closed,
                q == old(self).events@.push(event),
                special == (old(self).events@.len() == 0 && old(self).state
                    == EmitterState::StreamStart && event.data is StreamStart),
                special2 == (old(self).events@.len() == 0 && (old(self).state
                    == EmitterState::FirstDocumentStart || old(self).state
                    == EmitterState::DocumentStart) && event.data is StreamEnd),
                0 <= done <= q.len(),
                self.events@ == q.skip(done),
                done == 0 ==> self.state == old(self).state,
                old(self).state == EmitterState::End ==> done == 0,
                special && done >= 1 ==> done == 1 && self.state
                    == EmitterState::FirstDocumentStart,
                special2 && done >= 1 ==> done == 1 && self.state == EmitterState::End
                    && self.buffer@.len() == 0,
            decreases self.events@.len(),
        {
            let next = self.needs_mode_events();
            match next {
                None => {
                    proof {
                        assert(q.skip(0) =~= q);
                    }
                    return Ok(());
                },
                Some(ev) => {
                    proof {
                        assert(ev == q[done]);
                        assert(self.events@ =~= q.skip(done + 1));
                        if special || special2 {
                            assert(q.len() == 1);
                            assert(done == 0);
                            assert(ev == event);
                        }
                        done = done + 1;
                    }
                    let analyzed = Self::analyze_event(
                        &ev,
                        &self.tag_directives,
                        self.canonical,
                        self.unicode,
                    );
                    let mut analysis = match analyzed {
                        Ok(a) => a,
                        Err(e) => {
                            return Err(e);
                        },
                    };
                    let s = self.state_machine(&ev, &mut analysis);
                    if let Err(e) = s {
                        return Err(e);
                    }
                },
            }
        }
    }

    /// Start a YAML stream: emit the STREAM-START event. On a fresh
    /// emitter this settles the configuration and leaves the stream-start
    /// state, ready for the first document.
    pub fn open(&mut self) -> (r: Result<(), Error>)
        requires
            old(self).wf(),
            !old(self).opened,
        ensures
            final(self).wf(),
            final(self).opened == (r is Ok),
            final(self).closed == old(self).closed,
            old(self).events@.len() == 0 && old(self).state == EmitterState::StreamStart ==> r
                is Ok && final(self).state == EmitterState::FirstDocumentStart && final(self).events@.len() == 0,
    {
        let event = crate::event::yaml_stream_start_event_new(Encoding::Any);
        let c = self.emit(event);
        if let Err(e) = c {
            return Err(e);
        }
        self.opened = true;
        Ok(())
    }

    /// Finish a YAML stream: emit the STREAM-END event once. A closed
    /// emitter stays exactly as it is: a second close writes nothing.
    pub fn close(&mut self) -> (r: Result<(), Error>)
        requires
            old(self).wf(),
            old(self).opened,
        ensures
            final(self).wf(),
            final(self).closed == (old(self).closed || r is Ok),
            old(self).closed ==> r is Ok && *final(self) == *old(self),
            !old(self).closed && old(self).events@.len() == 0 && (old(self).state
                == EmitterState::FirstDocumentStart || old(self).state
                == EmitterState::DocumentStart) ==> r is Ok && final(self).state
                == EmitterState::End && final(self).buffer@.len() == 0,
    {
        if self.closed {
            return Ok(());
        }
        let event = crate::event::yaml_stream_end_event_new();
        let c = self.emit(event);
        if let Err(e) = c {
            return Err(e);
        }
        self.closed = true;
        Ok(())
    }

    /// Forget the anchor bookkeeping of the last serialized document.
    pub(crate) fn reset_anchors(&mut self)
        ensures
            final(self).anchors@.len() == 0,
            final(self).last_anchor_id == 0,
            old(self).wf() ==> final(self).wf(),
    {
        self.anchors.clear();
        self.last_anchor_id = 0;
    }

    /// Count one more reference to a node; the second reference assigns the
    /// next anchor id.
    pub(crate) fn anchor_node_sub(&mut self, index: i32)
        requires
            1 <= index,
            index <= old(self).anchors@.len(),
        ensures
            final(self).anchors@.len() == old(self).anchors@.len(),
            final(self).anchors@[index - 1].references == (if old(self).anchors@[index
                - 1].references < i32::MAX {
                old(self).anchors@[index - 1].references + 1
            } else {
                i32::MAX as int
            }),
            old(self).wf() ==> final(self).wf(),
    {
        let idx = (index as usize) - 1;
        let mut entry = self.anchors[idx];
        if entry.references < i32::MAX {
            entry.references = entry.references + 1;
        }
        if entry.references == 2 {
            if self.last_anchor_id < i32::MAX {
                self.last_anchor_id = self.last_anchor_id + 1;
            }
            entry.anchor = self.last_anchor_id;
        }
        self.anchors.set(idx, entry);
    }

    /// The generated name of the anchor with the given id: `id` followed by
    /// the id, padded to three digits.
    pub(crate) fn generate_anchor(anchor_id: i32) -> (r: String)
        requires
            0 <= anchor_id,
        ensures
            anchor_id < 1000 ==> r@ == seq![
                'i',
                'd',
                spec_hex_digit_dec((anchor_id as int) / 100),
                spec_hex_digit_dec(((anchor_id as int) / 10) % 10),
                spec_hex_digit_dec((anchor_id as int) % 10),
            ],
    {
        let mut s = String::new();
        crate::writer::push_char_pub(&mut s, 'i');
        crate::writer::push_char_pub(&mut s, 'd');
        if anchor_id < 1000 {
            let d1 = (anchor_id / 100) as u32;
            let d2 = ((anchor_id / 10) % 10) as u32;
            let d3 = (anchor_id % 10) as u32;
            crate::writer::push_char_pub(&mut s, dec_digit_char(d1));
            crate::writer::push_char_pub(&mut s, dec_digit_char(d2));
            crate::writer::push_char_pub(&mut s, dec_digit_char(d3));
            proof {
                assert(s@ =~= seq![
                    'i',
                    'd',
                    spec_hex_digit_dec((anchor_id as int) / 100),
                    spec_hex_digit_dec(((anchor_id as int) / 10) % 10),
                    spec_hex_digit_dec((anchor_id as int) % 10),
                ]);
            }
        } else {
            let mut digits: Vec<u32> = Vec::new();
            let mut n = anchor_id;
            while n > 0
                invariant
                    0 <= n,
                    forall|t: int| 0 <= t < digits@.len() ==> #[trigger] digits@[t] < 10,
                decreases n,
            {
                digits.push((n % 10) as u32);
                n = n / 10;
            }
            let mut j = digits.len();
            while j > 0
                invariant
                    j <= digits@.len(),
                    forall|t: int| 0 <= t < digits@.len() ==> #[trigger] digits@[t] < 10,
                decreases j,
            {
                j = j - 1;
                crate::writer::push_char_pub(&mut s, dec_digit_char(digits[j]));
            }
        }
        s
    }
}

/// The decimal digits (a reuse of the hex table's first ten entries).
pub open spec fn spec_hex_digit_dec(d: int) -> char {
    crate::scalar_writer::spec_hex_digit(d)
}

fn dec_digit_char(d: u32) -> (r: char)
    requires
        d < 10,
    ensures
        r == spec_hex_digit_dec(d as int),
{
    (48u8 + d as u8) as char
}

} // verus!

//! The function-style API: free functions over the emitter, mirroring the
//! method surface for callers that prefer it.

use vstd::prelude::*;

use crate::emitter::{Emitter, EmitterState};
use crate::types::{Break, Encoding};

verus! {

/// Create an emitter.
pub fn yaml_emitter_new() -> (r: Emitter)
    ensures
        r.wf(),
        r.state == EmitterState::StreamStart,
        r.total_out().len() == 0,
        !r.opened,
        !r.closed,
        r.encoding == Encoding::Any,
        r.states@.len() == 0,
        r.events@.len() == 0,
        r.indents@.len() == 0,
        r.tag_directives@.len() == 0,
        r.indent == 0,
        r.flow_level == 0,
        r.last_anchor_id == 0,
        r.open_ended == 0,
        !r.canonical,
        !r.unicode,
        r.best_indent == 0,
        r.best_width == 0,
        r.line_break == Break::Any,
{
    Emitter::new()
}

/// Reset the emitter state.
pub fn yaml_emitter_reset(emitter: &mut Emitter)
    ensures
        final(emitter).wf(),
        final(emitter).state == EmitterState::StreamStart,
        final(emitter).total_out().len() == 0,
        !final(emitter).opened,
        !final(emitter).closed,
{
    emitter.reset();
}

/// Start capturing output into the emitter's buffer; the encoding becomes
/// UTF-8 unless another was chosen first.
pub fn yaml_emitter_set_output_string(emitter: &mut Emitter)
    ensures
        final(emitter).output@.len() == 0,
        final(emitter).encoding == if old(emitter).encoding == Encoding::Any {
            Encoding::Utf8
        } else {
            old(emitter).encoding
        },
        old(emitter).wf() ==> final(emitter).wf(),
{
    emitter.set_output_string();
}

/// Set the output encoding.
pub fn yaml_emitter_set_encoding(emitter: &mut Emitter, encoding: Encoding)
    requires
        old(emitter).encoding == Encoding::Any,
    ensures
        final(emitter).encoding == encoding,
        old(emitter).wf() && old(emitter).flushed@.len() == 0 && old(emitter).state
            == EmitterState::StreamStart ==> final(emitter).wf(),
{
    emitter.set_encoding(encoding);
}

/// Set if the output should be in the "canonical" format as in the YAML
/// specification.
pub fn yaml_emitter_set_canonical(emitter: &mut Emitter, canonical: bool)
    ensures
        *final(emitter) == (Emitter { canonical, ..*old(emitter) }),
        old(emitter).wf() ==> final(emitter).wf(),
{
    emitter.set_canonical(canonical);
}

/// Set the indentation increment.
pub fn yaml_emitter_set_indent(emitter: &mut Emitter, indent: i32)
    ensures
        (*final(emitter) == Emitter {
            best_indent: if 1 < indent < 10 {
                indent as usize
            } else {
                2usize
            },
            ..*old(emitter)
        }),
        old(emitter).wf() && old(emitter).state == EmitterState::StreamStart
            ==> final(emitter).wf(),
{
    emitter.set_indent(indent);
}

/// Set the preferred line width; a negative width means unlimited.
pub fn yaml_emitter_set_width(emitter: &mut Emitter, width: i32)
    ensures
        (*final(emitter) == Emitter {
            best_width: if width >= 0 {
                width as usize
            } else {
                usize::MAX
            },
            ..*old(emitter)
        }),
        old(emitter).wf() ==> final(emitter).wf(),
{
    emitter.set_width(width);
}

/// Set if unescaped non-ASCII characters are allowed.
pub fn yaml_emitter_set_unicode(emitter: &mut Emitter, unicode: bool)
    ensures
        *final(emitter) == (Emitter { unicode, ..*old(emitter) }),
        old(emitter).wf() ==> final(emitter).wf(),
{
    emitter.set_unicode(unicode);
}

/// Set the preferred line break.
pub fn yaml_emitter_set_break(emitter: &mut Emitter, line_break: Break)
    ensures
        *final(emitter) == (Emitter { line_break, ..*old(emitter) }),
        old(emitter).wf() ==> final(emitter).wf(),
{
    emitter.set_break(line_break);
}

} // verus!

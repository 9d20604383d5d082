//! The scalar analyzer: for a scalar value, which presentation styles are
//! legal. The specification functions here state each property directly over
//! the character sequence; the executable analyzer is proved to return
//! exactly them.

use vstd::prelude::*;

use crate::types::{
    is_alpha, is_alpha_c, is_ascii_c, is_ascii_char, is_blank, is_blank_c, is_break, is_break_c,
    is_breakz_c, is_printable, is_printable_c, is_space, is_space_c, ScalarStyle,
};

verus! {

/// The value starts with a `---` or `...` document indicator.
pub open spec fn starts_with_doc_indicator(s: Seq<char>) -> bool {
    s.len() >= 3 && ((s[0] == '-' && s[1] == '-' && s[2] == '-') || (s[0] == '.' && s[1] == '.'
        && s[2] == '.'))
}

/// Characters that open a YAML construct when they begin a plain scalar.
pub open spec fn is_first_indicator(c: char) -> bool {
    ||| c == '#'
    ||| c == ','
    ||| c == '['
    ||| c == ']'
    ||| c == '{'
    ||| c == '}'
    ||| c == '&'
    ||| c == '*'
    ||| c == '!'
    ||| c == '|'
    ||| c == '>'
    ||| c == '\''
    ||| c == '"'
    ||| c == '%'
    ||| c == '@'
    ||| c == '`'
}

/// The position after `k` holds a blank, a break, or the end of the value.
pub open spec fn blankz_after(s: Seq<char>, k: int) -> bool {
    k + 1 >= s.len() || is_blank_c(s[k + 1]) || is_breakz_c(s[k + 1])
}

/// The character at `k - 1` is a blank or a break (positions before the value
/// count as whitespace).
pub open spec fn blankz_before(s: Seq<char>, k: int) -> bool {
    k == 0 || is_blank_c(s[k - 1]) || is_breakz_c(s[k - 1])
}

/// Position `k` forbids the flow plain style.
pub open spec fn flow_indicator_at(s: Seq<char>, k: int) -> bool {
    if k == 0 {
        ||| is_first_indicator(s[0])
        ||| s[0] == '?'
        ||| s[0] == ':'
        ||| (s[0] == '-' && blankz_after(s, 0))
    } else {
        ||| s[k] == ','
        ||| s[k] == '?'
        ||| s[k] == '['
        ||| s[k] == ']'
        ||| s[k] == '{'
        ||| s[k] == '}'
        ||| s[k] == ':'
        ||| (s[k] == '#' && blankz_before(s, k))
    }
}

/// Position `k` forbids the block plain style.
pub open spec fn block_indicator_at(s: Seq<char>, k: int) -> bool {
    if k == 0 {
        ||| is_first_indicator(s[0])
        ||| ((s[0] == '?' || s[0] == ':') && blankz_after(s, 0))
        ||| (s[0] == '-' && blankz_after(s, 0))
    } else {
        ||| (s[k] == ':' && blankz_after(s, k))
        ||| (s[k] == '#' && blankz_before(s, k))
    }
}

/// The value holds a flow indicator.
pub open spec fn has_flow_indicators(s: Seq<char>) -> bool {
    starts_with_doc_indicator(s) || exists|k: int| 0 <= k < s.len() && flow_indicator_at(s, k)
}

/// The value holds a block indicator.
pub open spec fn has_block_indicators(s: Seq<char>) -> bool {
    starts_with_doc_indicator(s) || exists|k: int| 0 <= k < s.len() && block_indicator_at(s, k)
}

/// The character at `k` cannot be written verbatim: it is unprintable, or it
/// is non-ASCII while unescaped non-ASCII output is not allowed.
pub open spec fn special_at(s: Seq<char>, k: int, unicode: bool) -> bool {
    !is_printable_c(s[k]) || (!is_ascii_c(s[k]) && !unicode)
}

pub open spec fn has_special(s: Seq<char>, unicode: bool) -> bool {
    exists|k: int| 0 <= k < s.len() && special_at(s, k, unicode)
}

/// The value holds a line break.
pub open spec fn has_breaks(s: Seq<char>) -> bool {
    exists|k: int| 0 <= k < s.len() && is_break_c(s[k])
}

/// A space immediately after a break.
pub open spec fn has_break_space(s: Seq<char>) -> bool {
    exists|k: int| 0 < k < s.len() && is_break_c(s[k - 1]) && is_space_c(s[k])
}

/// A break immediately after a space.
pub open spec fn has_space_break(s: Seq<char>) -> bool {
    exists|k: int| 0 < k < s.len() && is_space_c(s[k - 1]) && is_break_c(s[k])
}

pub open spec fn leading_ws(s: Seq<char>) -> bool {
    s.len() > 0 && (is_space_c(s[0]) || is_break_c(s[0]))
}

pub open spec fn trailing_ws(s: Seq<char>) -> bool {
    s.len() > 0 && (is_space_c(s[s.len() - 1]) || is_break_c(s[s.len() - 1]))
}

pub open spec fn trailing_space(s: Seq<char>) -> bool {
    s.len() > 0 && is_space_c(s[s.len() - 1])
}

/// The value contains a break: a scalar written on one line cannot hold it.
pub open spec fn spec_multiline(s: Seq<char>) -> bool {
    has_breaks(s)
}

/// The flow plain style is legal for the value.
pub open spec fn spec_flow_plain_allowed(s: Seq<char>, unicode: bool) -> bool {
    &&& s.len() > 0
    &&& !leading_ws(s)
    &&& !trailing_ws(s)
    &&& !has_break_space(s)
    &&& !has_space_break(s)
    &&& !has_special(s, unicode)
    &&& !has_breaks(s)
    &&& !has_flow_indicators(s)
}

/// The block plain style is legal for the value. The empty value may be
/// written plain in block context (as nothing at all).
pub open spec fn spec_block_plain_allowed(s: Seq<char>, unicode: bool) -> bool {
    s.len() == 0 || {
        &&& !leading_ws(s)
        &&& !trailing_ws(s)
        &&& !has_break_space(s)
        &&& !has_space_break(s)
        &&& !has_special(s, unicode)
        &&& !has_breaks(s)
        &&& !has_block_indicators(s)
    }
}

/// The single-quoted style is legal for the value.
pub open spec fn spec_single_quoted_allowed(s: Seq<char>, unicode: bool) -> bool {
    s.len() == 0 || {
        &&& !has_break_space(s)
        &&& !has_space_break(s)
        &&& !has_special(s, unicode)
    }
}

/// The literal and folded block styles are legal for the value.
pub open spec fn spec_block_allowed(s: Seq<char>, unicode: bool) -> bool {
    &&& s.len() > 0
    &&& !trailing_space(s)
    &&& !has_space_break(s)
    &&& !has_special(s, unicode)
}

/// What the analyzer reports of one scalar value.
pub struct ScalarAnalysis {
    /// The scalar value.
    pub value: String,
    /// Does the value contain line breaks?
    pub multiline: bool,
    /// May the value be written plain in flow context?
    pub flow_plain_allowed: bool,
    /// May the value be written plain in block context?
    pub block_plain_allowed: bool,
    /// May the value be written single-quoted?
    pub single_quoted_allowed: bool,
    /// May the value be written literal or folded?
    pub block_allowed: bool,
    /// The style the emitter selected for it.
    pub style: ScalarStyle,
}

impl ScalarAnalysis {
    /// The flags say of `self.value` exactly what the specification
    /// predicates say of it.
    pub open spec fn accurate(self, unicode: bool) -> bool {
        &&& self.multiline == spec_multiline(self.value@)
        &&& self.flow_plain_allowed == spec_flow_plain_allowed(self.value@, unicode)
        &&& self.block_plain_allowed == spec_block_plain_allowed(self.value@, unicode)
        &&& self.single_quoted_allowed == spec_single_quoted_allowed(self.value@, unicode)
        &&& self.block_allowed == spec_block_allowed(self.value@, unicode)
    }
}

/// Classify a scalar value: which styles may present it.
pub fn analyze_scalar_value(value: &str, unicode: bool) -> (r: ScalarAnalysis)
    ensures
        r.value@ == value@,
        r.accurate(unicode),
        r.style == ScalarStyle::Any,
{
    let ghost s = value@;
    let len = value.unicode_len();

    if len == 0 {
        return ScalarAnalysis {
            value: value.to_owned(),
            multiline: false,
            flow_plain_allowed: false,
            block_plain_allowed: true,
            single_quoted_allowed: true,
            block_allowed: false,
            style: ScalarStyle::Any,
        };
    }
    let mut block_indicators = false;
    let mut flow_indicators = false;
    let mut line_breaks = false;
    let mut special_characters = false;
    let mut leading_space = false;
    let mut leading_break = false;
    let mut trailing_space_f = false;
    let mut trailing_break_f = false;
    let mut break_space = false;
    let mut space_break = false;

    if len >= 3 {
        let c0 = value.get_char(0);
        let c1 = value.get_char(1);
        let c2 = value.get_char(2);
        if (c0 == '-' && c1 == '-' && c2 == '-') || (c0 == '.' && c1 == '.' && c2 == '.') {
            block_indicators = true;
            flow_indicators = true;
        }
    }
    assert(block_indicators == starts_with_doc_indicator(s));

    let mut i: usize = 0;
    while i < len
        invariant
            len == s.len(),
            value@ == s,
            i <= len,
            flow_indicators == (starts_with_doc_indicator(s) || exists|k: int|
                0 <= k < i && flow_indicator_at(s, k)),
            block_indicators == (starts_with_doc_indicator(s) || exists|k: int|
                0 <= k < i && block_indicator_at(s, k)),
            line_breaks == exists|k: int| 0 <= k < i && is_break_c(s[k]),
            special_characters == exists|k: int| 0 <= k < i && special_at(s, k, unicode),
            leading_space == (i > 0 && is_space_c(s[0])),
            leading_break == (i > 0 && is_break_c(s[0])),
            trailing_space_f == (i == len && is_space_c(s[len - 1])),
            trailing_break_f == (i == len && is_break_c(s[len - 1])),
            break_space == exists|k: int| 0 < k < i && is_break_c(s[k - 1]) && is_space_c(s[k]),
            space_break == exists|k: int| 0 < k < i && is_space_c(s[k - 1]) && is_break_c(s[k]),
        decreases len - i,
    {
        let ch = value.get_char(i);
        let next: Option<char> = if i + 1 < len {
            Some(value.get_char(i + 1))
        } else {
            None
        };
        let followed_by_blankz = match next {
            None => true,
            Some(n) => is_blank(n) || is_break(n) || n == '\0',
        };
        assert(followed_by_blankz == blankz_after(s, i as int));
        let preceded_by_blankz = if i == 0 {
            true
        } else {
            let p = value.get_char(i - 1);
            is_blank(p) || is_break(p) || p == '\0'
        };
        assert(preceded_by_blankz == blankz_before(s, i as int));

        if i == 0 {
            if ch == '#' || ch == ',' || ch == '[' || ch == ']' || ch == '{' || ch == '}'
                || ch == '&' || ch == '*' || ch == '!' || ch == '|' || ch == '>' || ch == '\''
                || ch == '"' || ch == '%' || ch == '@' || ch == '`' {
                flow_indicators = true;
                block_indicators = true;
                assert(flow_indicator_at(s, i as int));
                assert(block_indicator_at(s, i as int));
            } else if ch == '?' || ch == ':' {
                flow_indicators = true;
                assert(flow_indicator_at(s, i as int));
                if followed_by_blankz {
                    block_indicators = true;
                    assert(block_indicator_at(s, i as int));
                }
            } else if ch == '-' && followed_by_blankz {
                flow_indicators = true;
                block_indicators = true;
                assert(flow_indicator_at(s, i as int));
                assert(block_indicator_at(s, i as int));
            }
        } else {
            if ch == ',' || ch == '?' || ch == '[' || ch == ']' || ch == '{' || ch == '}' {
                flow_indicators = true;
                assert(flow_indicator_at(s, i as int));
            } else if ch == ':' {
                flow_indicators = true;
                assert(flow_indicator_at(s, i as int));
                if followed_by_blankz {
                    block_indicators = true;
                    assert(block_indicator_at(s, i as int));
                }
            } else if ch == '#' && preceded_by_blankz {
                flow_indicators = true;
                block_indicators = true;
                assert(flow_indicator_at(s, i as int));
                assert(block_indicator_at(s, i as int));
            }
        }
        if !is_printable(ch) || (!is_ascii_char(ch) && !unicode) {
            special_characters = true;
            assert(special_at(s, i as int, unicode));
        }
        if is_break(ch) {
            line_breaks = true;
        }
        if is_space(ch) {
            if i == 0 {
                leading_space = true;
            }
            if i + 1 == len {
                trailing_space_f = true;
            }
            if i > 0 {
                let p = value.get_char(i - 1);
                if is_break(p) {
                    break_space = true;
                    assert(0 < i && is_break_c(s[i as int - 1]) && is_space_c(s[i as int]));
                }
            }
        } else if is_break(ch) {
            if i == 0 {
                leading_break = true;
            }
            if i + 1 == len {
                trailing_break_f = true;
            }
            if i > 0 {
                let p = value.get_char(i - 1);
                if is_space(p) {
                    space_break = true;
                    assert(0 < i && is_space_c(s[i as int - 1]) && is_break_c(s[i as int]));
                }
            }
        }
        i += 1;
    }

    let flow_plain_allowed = !(leading_space || leading_break || trailing_space_f
        || trailing_break_f || break_space || space_break || special_characters || line_breaks
        || flow_indicators);
    let block_plain_allowed = !(leading_space || leading_break || trailing_space_f
        || trailing_break_f || break_space || space_break || special_characters || line_breaks
        || block_indicators);
    let single_quoted_allowed = !(break_space || space_break || special_characters);
    let block_allowed = !(trailing_space_f || space_break || special_characters);

    ScalarAnalysis {
        value: value.to_owned(),
        multiline: line_breaks,
        flow_plain_allowed,
        block_plain_allowed,
        single_quoted_allowed,
        block_allowed,
        style: ScalarStyle::Any,
    }
}

/// What the analyzer reports of an anchor or alias name.
pub struct AnchorAnalysis {
    /// The name, without its `&` or `*` indicator.
    pub anchor: String,
    /// An alias (`*`) rather than an anchor (`&`)?
    pub alias: bool,
}

/// A name is a nonempty run of YAML word characters.
pub open spec fn anchor_name_ok(s: Seq<char>) -> bool {
    s.len() > 0 && forall|k: int| 0 <= k < s.len() ==> is_alpha_c(#[trigger] s[k])
}

/// Check an anchor or alias name.
pub fn check_anchor_name(anchor: &str) -> (r: bool)
    ensures
        r == anchor_name_ok(anchor@),
{
    let len = anchor.unicode_len();
    if len == 0 {
        return false;
    }
    let mut i: usize = 0;
    while i < len
        invariant
            len == anchor@.len(),
            i <= len,
            forall|k: int| 0 <= k < i ==> is_alpha_c(#[trigger] anchor@[k]),
        decreases len - i,
    {
        if !is_alpha(anchor.get_char(i)) {
            return false;
        }
        i += 1;
    }
    true
}

/// What the analyzer reports of a tag: the directive handle that covers it
/// and the remaining suffix, or an empty handle and the whole tag.
pub struct TagAnalysis {
    pub handle: String,
    pub suffix: String,
}

} // verus!

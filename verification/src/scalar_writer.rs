//! The scalar writers: one per presentation style. The literal writer's
//! output is specified exactly; the styles whose layout depends on the line
//! width carry frame contracts, and the concrete outputs are pinned by tests.

use vstd::prelude::*;

use vstd::string::StrSliceExecFns;

use crate::emitter::{break_chars, seq_space, Emitter};
use crate::types::{
    is_blank, is_break, is_break_c, is_breakz_c, is_space, is_space_c, is_space_opt, Break,
    Encoding,
};
use crate::writer::char_utf8_bytes;

verus! {

/// The hex digits, uppercase.
pub open spec fn spec_hex_digit(d: int) -> char {
    if d == 0 {
        '0'
    } else if d == 1 {
        '1'
    } else if d == 2 {
        '2'
    } else if d == 3 {
        '3'
    } else if d == 4 {
        '4'
    } else if d == 5 {
        '5'
    } else if d == 6 {
        '6'
    } else if d == 7 {
        '7'
    } else if d == 8 {
        '8'
    } else if d == 9 {
        '9'
    } else if d == 10 {
        'A'
    } else if d == 11 {
        'B'
    } else if d == 12 {
        'C'
    } else if d == 13 {
        'D'
    } else if d == 14 {
        'E'
    } else {
        'F'
    }
}

fn hex_digit_char(d: u32) -> (r: char)
    requires
        d < 16,
    ensures
        r == spec_hex_digit(d as int),
{
    if d < 10 {
        (48u8 + d as u8) as char
    } else {
        (65u8 + (d as u8 - 10)) as char
    }
}

/// One text character of literal scalar content: a `\n` becomes the
/// configured break, another break character stands for itself.
pub open spec fn lit_break(ch: char, b: Break) -> Seq<char> {
    if ch == '\n' {
        break_chars(b)
    } else {
        seq![ch]
    }
}

/// The body of a literal block scalar from position `i` on: each break is
/// written as a break, and each line of content is indented to `ind`.
pub open spec fn literal_rest(s: Seq<char>, i: int, breaks: bool, ind: int, b: Break) -> Seq<char>
    decreases s.len() - i,
{
    if i < 0 || i >= s.len() {
        Seq::<char>::empty()
    } else if is_break_c(s[i]) {
        lit_break(s[i], b) + literal_rest(s, i + 1, true, ind, b)
    } else {
        (if breaks {
            seq_space(ind)
        } else {
            Seq::<char>::empty()
        }) + seq![s[i]] + literal_rest(s, i + 1, false, ind, b)
    }
}

/// The value's trailing break must be kept: it ends in a break that is
/// preceded by another break, or by nothing at all (a value that is one
/// lone break reads back empty under clip chomping, so it needs `+` too).
pub open spec fn chomp_keep(s: Seq<char>) -> bool {
    s.len() >= 1 && is_break_c(s[s.len() - 1]) && (s.len() == 1 || is_breakz_c(s[s.len() - 2]))
}

/// The chomping hint a block scalar needs: `-` when the value is empty or
/// does not end in a break, `+` when its trailing break must be kept,
/// nothing when it ends in exactly one break after other content.
pub open spec fn chomp_hint(s: Seq<char>) -> Seq<char> {
    if s.len() == 0 || !is_break_c(s[s.len() - 1]) {
        seq!['-']
    } else if chomp_keep(s) {
        seq!['+']
    } else {
        Seq::<char>::empty()
    }
}

/// The indentation hint a block scalar needs: the indent digit when the
/// value starts with a space or break, nothing otherwise.
pub open spec fn indent_hint(s: Seq<char>, best_indent: int) -> Seq<char> {
    if s.len() > 0 && (is_space_c(s[0]) || is_break_c(s[0])) {
        seq![spec_hex_digit(best_indent)]
    } else {
        Seq::<char>::empty()
    }
}

/// The uppercase hex digits of a code point, one nibble per digit, from
/// the nibble shifted by `k` bits down to the lowest.
pub open spec fn hex_from(u: u32, k: int) -> Seq<char>
    decreases (if k < 0 { 0int } else { k + 4 }),
{
    if k < 0 {
        Seq::<char>::empty()
    } else {
        seq![spec_hex_digit(((u >> (k as u32)) % 16) as int)] + hex_from(u, k - 4)
    }
}

/// The escape a double-quoted scalar writes for one escaped character: the
/// named escape where YAML has one, else `x`, `u` or `U` and the code
/// point in two, four or eight uppercase hex digits.
pub open spec fn dq_escape(ch: char) -> Seq<char> {
    let u = ch as u32;
    if u == 0 {
        seq!['\\', '0']
    } else if u == 0x07 {
        seq!['\\', 'a']
    } else if u == 0x08 {
        seq!['\\', 'b']
    } else if u == 0x09 {
        seq!['\\', 't']
    } else if u == 0x0A {
        seq!['\\', 'n']
    } else if u == 0x0B {
        seq!['\\', 'v']
    } else if u == 0x0C {
        seq!['\\', 'f']
    } else if u == 0x0D {
        seq!['\\', 'r']
    } else if u == 0x1B {
        seq!['\\', 'e']
    } else if u == 0x22 {
        seq!['\\', '"']
    } else if u == 0x5C {
        seq!['\\', '\\']
    } else if u == 0x85 {
        seq!['\\', 'N']
    } else if u == 0xA0 {
        seq!['\\', '_']
    } else if u == 0x2028 {
        seq!['\\', 'L']
    } else if u == 0x2029 {
        seq!['\\', 'P']
    } else if u <= 0xFF {
        seq!['\\', 'x'] + hex_from(u, 4)
    } else if u <= 0xFFFF {
        seq!['\\', 'u'] + hex_from(u, 12)
    } else {
        seq!['\\', 'U'] + hex_from(u, 28)
    }
}

/// A character a double-quoted scalar must escape: one that is not
/// printable, non-ASCII while unicode output is off, the byte-order mark,
/// a break, the quote or the backslash.
pub open spec fn dq_must_escape(ch: char, unicode: bool) -> bool {
    ||| !crate::types::is_printable_c(ch)
    ||| (!unicode && !crate::types::is_ascii_c(ch))
    ||| ch == '\u{feff}'
    ||| is_break_c(ch)
    ||| ch == '"'
    ||| ch == '\\'
}

/// What a double-quoted scalar writes for one character when no line is
/// folded: the escape where one is needed, the character itself otherwise.
pub open spec fn dq_char(ch: char, unicode: bool) -> Seq<char> {
    if dq_must_escape(ch, unicode) {
        dq_escape(ch)
    } else {
        seq![ch]
    }
}

/// A value without space characters: writing it double-quoted can never
/// fold a line, whatever the width.
pub open spec fn no_space(s: Seq<char>) -> bool {
    forall|j: int| 0 <= j < s.len() ==> !is_space_c(#[trigger] s[j])
}

/// A value without break characters.
pub open spec fn no_break(s: Seq<char>) -> bool {
    forall|j: int| 0 <= j < s.len() ==> !is_break_c(#[trigger] s[j])
}

/// A one-line value whose writing can never fold: it holds no break, and
/// either folding is off or it holds no space either.
pub open spec fn one_line(s: Seq<char>, allow_breaks: bool) -> bool {
    no_break(s) && (!allow_breaks || no_space(s))
}

/// The separating space a plain scalar starts with: one space unless the
/// output already ends in whitespace, or the value is empty outside a flow
/// context.
pub open spec fn plain_lead(whitespace: bool, len: int, flow_level: int) -> Seq<char> {
    if !whitespace && (len != 0 || flow_level != 0) {
        seq![' ']
    } else {
        Seq::<char>::empty()
    }
}

/// What a single-quoted scalar writes for one character when no line is
/// folded: a quote is doubled, anything else stands for itself.
pub open spec fn sq_char(ch: char) -> Seq<char> {
    if ch == '\'' {
        seq!['\'', '\'']
    } else {
        seq![ch]
    }
}

/// The text between the quotes of a single-quoted scalar when no line is
/// folded.
pub open spec fn sq_body(s: Seq<char>) -> Seq<char>
    decreases s.len(),
{
    if s.len() == 0 {
        Seq::<char>::empty()
    } else {
        sq_body(s.drop_last()) + sq_char(s.last())
    }
}

/// The text between the quotes of a double-quoted scalar when no line is
/// folded.
pub open spec fn dq_body(s: Seq<char>, unicode: bool) -> Seq<char>
    decreases s.len(),
{
    if s.len() == 0 {
        Seq::<char>::empty()
    } else {
        dq_body(s.drop_last(), unicode) + dq_char(s.last(), unicode)
    }
}

/// Taking one more element appends it at the back.
pub proof fn lemma_take_push(s: Seq<char>, i: int)
    requires
        0 <= i < s.len(),
    ensures
        s.take(i + 1) == s.take(i).push(s[i]),
{
    assert(s.take(i + 1) =~= s.take(i).push(s[i]));
}

/// Pushing onto the right half of a concatenation pushes onto the whole.
pub proof fn lemma_concat_push(a: Seq<char>, b: Seq<char>, c: char)
    ensures
        a + b.push(c) == (a + b).push(c),
{
    assert(a + b.push(c) =~= (a + b).push(c));
}

impl Emitter {
    /// Write the chomping hint alone, and record whether the stream ends
    /// open-ended.
    #[verifier::rlimit(100)]
    #[verifier::spinoff_prover]
    fn write_chomp_hint(&mut self, string: &str)
        requires
            old(self).encoding != Encoding::Any,
            old(self).out_inv(),
        ensures
            final(self).encoding == old(self).encoding,
            final(self).state == old(self).state,
            final(self).states@ == old(self).states@,
            final(self).events@ == old(self).events@,
            final(self).indents@ == old(self).indents@,
            final(self).indent == old(self).indent,
            final(self).flow_level == old(self).flow_level,
            final(self).best_indent == old(self).best_indent,
            final(self).best_sequence_indent == old(self).best_sequence_indent,
            final(self).best_width == old(self).best_width,
            final(self).canonical == old(self).canonical,
            final(self).unicode == old(self).unicode,
            final(self).line_break == old(self).line_break,
            final(self).tag_directives@ == old(self).tag_directives@,
            final(self).opened == old(self).opened,
            final(self).closed == old(self).closed,
            final(self).anchors@ == old(self).anchors@,
            final(self).last_anchor_id == old(self).last_anchor_id,
            final(self).out_inv(),
            final(self).total_out() == old(self).total_out() + chomp_hint(string@),
            final(self).line == old(self).line,
            final(self).open_ended == if chomp_keep(string@) {
                2int
            } else {
                0int
            },
    {
        let len = string.unicode_len();
        self.open_ended = 0;
        if len == 0 {
            self.put('-');
            self.whitespace = false;
            self.indention = false;
            proof {
                assert(!chomp_keep(string@));
                assert(chomp_hint(string@) =~= seq!['-']);
            }
        } else {
            let last = string.get_char(len - 1);
            if !is_break(last) {
                self.put('-');
                self.whitespace = false;
                self.indention = false;
                proof {
                    assert(!chomp_keep(string@));
                    assert(chomp_hint(string@) =~= seq!['-']);
                }
            } else {
                let keep = if len >= 2 {
                    let before = string.get_char(len - 2);
                    is_break(before) || before == '\0'
                } else {
                    true
                };
                proof {
                    assert(keep == chomp_keep(string@));
                }
                if keep {
                    self.put('+');
                    self.whitespace = false;
                    self.indention = false;
                    self.open_ended = 2;
                    proof {
                        assert(chomp_hint(string@) =~= seq!['+']);
                    }
                } else {
                    proof {
                        assert(chomp_hint(string@) =~= Seq::<char>::empty());
                    }
                }
            }
        }
        proof {
            assert(final(self).total_out() =~= old(self).total_out() + chomp_hint(string@));
        }
    }

    /// Write the indentation and chomping hints after a `|` or `>` indicator,
    /// and record whether the stream ends open-ended.
    #[verifier::rlimit(100)]
    #[verifier::spinoff_prover]
    pub(crate) fn write_block_scalar_hints(&mut self, string: &str)
        requires
            old(self).encoding != Encoding::Any,
            old(self).out_inv(),
            2 <= old(self).best_indent <= 9,
        ensures
            final(self).encoding == old(self).encoding,
            final(self).state == old(self).state,
            final(self).states@ == old(self).states@,
            final(self).events@ == old(self).events@,
            final(self).indents@ == old(self).indents@,
            final(self).indent == old(self).indent,
            final(self).flow_level == old(self).flow_level,
            final(self).best_indent == old(self).best_indent,
            final(self).best_sequence_indent == old(self).best_sequence_indent,
            final(self).best_width == old(self).best_width,
            final(self).canonical == old(self).canonical,
            final(self).unicode == old(self).unicode,
            final(self).line_break == old(self).line_break,
            final(self).tag_directives@ == old(self).tag_directives@,
            final(self).opened == old(self).opened,
            final(self).closed == old(self).closed,
            final(self).anchors@ == old(self).anchors@,
            final(self).last_anchor_id == old(self).last_anchor_id,
            final(self).out_inv(),
            final(self).total_out() == old(self).total_out() + indent_hint(
                string@,
                old(self).best_indent as int,
            ) + chomp_hint(string@),
            final(self).line == old(self).line,
            final(self).open_ended == if chomp_keep(string@) {
                2int
            } else {
                0int
            },
    {
        let len = string.unicode_len();
        if len > 0 {
            let first = string.get_char(0);
            if is_space(first) || is_break(first) {
                let digit = hex_digit_char(self.best_indent as u32);
                self.put(digit);
                self.whitespace = false;
                self.indention = false;
            }
        }
        let ghost mid = self.total_out();
        proof {
            assert(mid =~= old(self).total_out() + indent_hint(
                string@,
                old(self).best_indent as int,
            ));
        }
        self.write_chomp_hint(string);
        proof {
            assert(final(self).total_out() =~= old(self).total_out() + indent_hint(
                string@,
                old(self).best_indent as int,
            ) + chomp_hint(string@));
        }
    }

    /// Write a literal block scalar: `|`, the hints, a break, and the value
    /// with each content line indented.
    #[verifier::rlimit(100)]
    pub(crate) fn write_literal_scalar(&mut self, value: &str) -> (r: Result<(), crate::types::Error>)
        requires
            old(self).encoding != Encoding::Any,
            old(self).out_inv(),
            2 <= old(self).best_indent <= 9,
            old(self).indent >= 0,
        ensures
            r is Ok,
            final(self).out_inv(),
            final(self).encoding == old(self).encoding,
            final(self).state == old(self).state,
            final(self).states@ == old(self).states@,
            final(self).events@ == old(self).events@,
            final(self).indents@ == old(self).indents@,
            final(self).indent == old(self).indent,
            final(self).flow_level == old(self).flow_level,
            final(self).best_indent == old(self).best_indent,
            final(self).best_sequence_indent == old(self).best_sequence_indent,
            final(self).best_width == old(self).best_width,
            final(self).canonical == old(self).canonical,
            final(self).unicode == old(self).unicode,
            final(self).line_break == old(self).line_break,
            final(self).tag_directives@ == old(self).tag_directives@,
            final(self).opened == old(self).opened,
            final(self).closed == old(self).closed,
            final(self).anchors@ == old(self).anchors@,
            final(self).last_anchor_id == old(self).last_anchor_id,
            final(self).total_out() == old(self).total_out() + old(self).indicator_space(true)
                + seq!['|'] + indent_hint(value@, old(self).best_indent as int) + chomp_hint(value@)
                + break_chars(old(self).line_break) + literal_rest(
                value@,
                0,
                true,
                old(self).indent as int,
                old(self).line_break,
            ),
    {
        let ghost lb = self.line_break;
        let ghost ind = self.indent as int;
        proof {
            reveal_strlit("|");
        }
        self.write_indicator("|", true, false, false);
        self.write_block_scalar_hints(value);
        self.put_break();
        self.indention = true;
        self.whitespace = true;
        let ghost base = self.total_out();
        let len = value.unicode_len();
        let mut breaks = true;
        let mut i: usize = 0;
        while i < len
            invariant
                len == value@.len(),
                i <= len,
                self.encoding == old(self).encoding,
                self.encoding != Encoding::Any,
                self.out_inv(),
                self.line_break == lb,
                self.indent == old(self).indent,
                old(self).indent >= 0,
                ind == old(self).indent as int,
                self.best_indent == old(self).best_indent,
                self.best_sequence_indent == old(self).best_sequence_indent,
                self.best_width == old(self).best_width,
                self.canonical == old(self).canonical,
                self.unicode == old(self).unicode,
                self.state == old(self).state,
                self.states@ == old(self).states@,
                self.events@ == old(self).events@,
                self.indents@ == old(self).indents@,
                self.flow_level == old(self).flow_level,
                self.tag_directives@ == old(self).tag_directives@,
                self.opened == old(self).opened,
                self.closed == old(self).closed,
                self.anchors@ == old(self).anchors@,
                self.last_anchor_id == old(self).last_anchor_id,
                self.whitespace,
                breaks ==> self.indention && self.column == 0,
                self.total_out() + literal_rest(value@, i as int, breaks, ind, lb) == base
                    + literal_rest(value@, 0, true, ind, lb),
            decreases len - i,
        {
            let ch = value.get_char(i);
            let ghost pre = self.total_out();
            let ghost breaks0 = breaks;
            if is_break(ch) {
                self.write_break(ch);
                self.indention = true;
                breaks = true;
                proof {
                    assert(self.total_out() + literal_rest(value@, i as int + 1, true, ind, lb)
                        =~= pre + literal_rest(value@, i as int, breaks0, ind, lb));
                }
            } else {
                if breaks {
                    self.write_indent();
                    proof {
                        assert(self.total_out() =~= pre + seq_space(ind));
                    }
                }
                self.write_char(ch);
                self.indention = false;
                breaks = false;
                proof {
                    assert(self.total_out() + literal_rest(value@, i as int + 1, false, ind, lb)
                        =~= pre + literal_rest(value@, i as int, breaks0, ind, lb));
                }
            }
            proof {
                assert(self.total_out() + literal_rest(value@, i as int + 1, breaks, ind, lb)
                    == base + literal_rest(value@, 0, true, ind, lb));
            }
            i += 1;
        }
        proof {
            assert(literal_rest(value@, len as int, breaks, ind, lb) =~= Seq::<char>::empty());
            assert(final(self).total_out() =~= base + literal_rest(value@, 0, true, ind, lb));
            assert("|"@ =~= seq!['|']);
            assert(base =~= old(self).total_out() + old(self).indicator_space(true) + seq!['|']
                + indent_hint(value@, old(self).best_indent as int) + chomp_hint(value@)
                + break_chars(lb));
        }
        Ok(())
    }
}

} // verus!

use crate::emitter::lemma_prefix_extend;
use crate::analysis::ScalarAnalysis;
use crate::types::{Error, ScalarStyle};

verus! {

impl Emitter {
    /// Write the characters of a plain scalar, folding long lines at
    /// spaces. A one-line value is appended exactly as it stands.
    #[verifier::rlimit(100)]
    #[verifier::spinoff_prover]
    fn write_plain_chars(&mut self, value: &str, allow_breaks: bool)
        requires
            old(self).encoding != Encoding::Any,
            old(self).out_inv(),
        ensures
            old(self).scalar_frame(*final(self)),
            final(self).out_inv(),
            old(self).total_out().is_prefix_of(final(self).total_out()),
            final(self).open_ended == old(self).open_ended,
            one_line(value@, allow_breaks) ==> final(self).total_out() == old(self).total_out()
                + value@,
    {
        let ghost start = self.total_out();
        proof {
            assert(start.is_prefix_of(start));
            assert(start + value@.take(0int) =~= start);
        }
        let len = value.unicode_len();
        let mut spaces = false;
        let mut breaks = false;
        let mut i: usize = 0;
        while i < len
            invariant
                len == value@.len(),
                i <= len,
                old(self).encoding != Encoding::Any,
                self.encoding == old(self).encoding,
                self.out_inv(),
                old(self).scalar_frame(*self),
                self.open_ended == old(self).open_ended,
                start == old(self).total_out(),
                start.is_prefix_of(self.total_out()),
                one_line(value@, allow_breaks) ==> self.total_out() == start + value@.take(
                    i as int,
                ),
                one_line(value@, allow_breaks) ==> !breaks,
            decreases len - i,
        {
            let ch = value.get_char(i);
            let next: Option<char> = if i + 1 < len {
                Some(value.get_char(i + 1))
            } else {
                None
            };
            let ghost pre = self.total_out();
            if is_space(ch) {
                if allow_breaks && !spaces && self.column > self.best_width && !is_space_opt(next) {
                    proof {
                        if one_line(value@, allow_breaks) {
                            assert(!is_space_c(value@[i as int]));
                            assert(false);
                        }
                    }
                    self.write_indent();
                } else {
                    self.write_char(ch);
                    proof {
                        if one_line(value@, allow_breaks) {
                            lemma_take_push(value@, i as int);
                            lemma_concat_push(start, value@.take(i as int), value@[i as int]);
                        }
                    }
                }
                spaces = true;
            } else if is_break(ch) {
                proof {
                    if one_line(value@, allow_breaks) {
                        assert(!is_break_c(value@[i as int]));
                        assert(false);
                    }
                }
                if !breaks && ch == '\n' {
                    self.put_break();
                }
                self.write_break(ch);
                self.indention = true;
                breaks = true;
            } else {
                if breaks {
                    self.write_indent();
                }
                self.write_char(ch);
                proof {
                    if one_line(value@, allow_breaks) {
                        lemma_take_push(value@, i as int);
                        lemma_concat_push(start, value@.take(i as int), value@[i as int]);
                    }
                }
                self.indention = false;
                spaces = false;
                breaks = false;
            }
            proof {
                assert(pre.is_prefix_of(self.total_out()));
                assert(start.is_prefix_of(self.total_out()));
            }
            i += 1;
        }
        proof {
            assert(value@.take(len as int) =~= value@);
        }
    }

    /// Write a plain scalar, folding long lines at spaces. A one-line value
    /// is written exactly: the separating space where one is due, then the
    /// value itself.
    #[verifier::rlimit(100)]
    #[verifier::spinoff_prover]
    pub(crate) fn write_plain_scalar(&mut self, value: &str, allow_breaks: bool) -> (r: Result<
        (),
        Error,
    >)
        requires
            old(self).encoding != Encoding::Any,
            old(self).out_inv(),
        ensures
            r is Ok,
            old(self).scalar_frame(*final(self)),
            final(self).out_inv(),
            old(self).total_out().is_prefix_of(final(self).total_out()),
            final(self).open_ended == old(self).open_ended,
            !final(self).whitespace,
            !final(self).indention,
            one_line(value@, allow_breaks) ==> final(self).total_out() == old(self).total_out()
                + plain_lead(old(self).whitespace, value@.len() as int, old(self).flow_level as int)
                + value@,
    {
        let ghost base = self.total_out();
        proof {
            assert(base.is_prefix_of(base));
        }
        if !self.whitespace && (value.unicode_len() != 0 || self.flow_level != 0) {
            let ghost pre = self.total_out();
            self.put(' ');
            proof {
                lemma_prefix_extend(base, pre, seq![' ']);
                assert(pre + seq![' '] =~= pre.push(' '));
            }
        }
        let ghost start = self.total_out();
        proof {
            assert(start =~= base + plain_lead(
                old(self).whitespace,
                value@.len() as int,
                old(self).flow_level as int,
            ));
        }
        self.write_plain_chars(value, allow_breaks);
        self.whitespace = false;
        self.indention = false;
        proof {
            if one_line(value@, allow_breaks) {
                assert(final(self).total_out() =~= base + plain_lead(
                    old(self).whitespace,
                    value@.len() as int,
                    old(self).flow_level as int,
                ) + value@);
            }
        }
        Ok(())
    }

    /// Write a single-quoted scalar, doubling interior quotes. A one-line
    /// value is written exactly: the opening quote, `sq_char` of each
    /// character, and the closing quote.
    #[verifier::rlimit(100)]
    #[verifier::spinoff_prover]
    pub(crate) fn write_single_quoted_scalar(&mut self, value: &str, allow_breaks: bool) -> (r:
        Result<(), Error>)
        requires
            old(self).encoding != Encoding::Any,
            old(self).out_inv(),
        ensures
            r is Ok,
            old(self).scalar_frame(*final(self)),
            final(self).out_inv(),
            old(self).total_out().is_prefix_of(final(self).total_out()),
            final(self).open_ended == old(self).open_ended,
            !final(self).whitespace,
            !final(self).indention,
            one_line(value@, allow_breaks) ==> final(self).total_out() == old(self).total_out()
                + old(self).indicator_space(true) + seq!['\''] + sq_body(value@) + seq!['\''],
    {
        let ghost base = self.total_out();
        proof {
            reveal_strlit("'");
        }
        self.write_indicator("'", true, false, false);
        let ghost start = self.total_out();
        proof {
            assert(base.is_prefix_of(self.total_out()));
            assert(start =~= base + old(self).indicator_space(true) + seq!['\'']);
        }
        let len = value.unicode_len();
        let mut spaces = false;
        let mut breaks = false;
        let mut i: usize = 0;
        while i < len
            invariant
                len == value@.len(),
                i <= len,
                old(self).encoding != Encoding::Any,
                self.encoding == old(self).encoding,
                self.out_inv(),
                old(self).scalar_frame(*self),
                self.open_ended == old(self).open_ended,
                base.is_prefix_of(self.total_out()),
                one_line(value@, allow_breaks) ==> self.total_out() == start + sq_body(
                    value@.take(i as int),
                ),
                one_line(value@, allow_breaks) ==> !breaks,
            decreases len - i,
        {
            let ch = value.get_char(i);
            let next: Option<char> = if i + 1 < len {
                Some(value.get_char(i + 1))
            } else {
                None
            };
            let is_first = i == 0;
            let is_last = i + 1 == len;
            let ghost pre = self.total_out();
            proof {
                if one_line(value@, allow_breaks) {
                    assert(value@.take(i as int + 1).drop_last() =~= value@.take(i as int));
                    assert(value@.take(i as int + 1).last() == value@[i as int]);
                }
            }
            if is_space(ch) {
                if allow_breaks && !spaces && self.column > self.best_width && !is_first && !is_last
                    && !is_space_opt(next) {
                    proof {
                        if one_line(value@, allow_breaks) {
                            assert(!is_space_c(value@[i as int]));
                            assert(false);
                        }
                    }
                    self.write_indent();
                } else {
                    self.write_char(ch);
                    proof {
                        assert(self.total_out() =~= pre + sq_char(ch));
                    }
                }
                spaces = true;
            } else if is_break(ch) {
                proof {
                    if one_line(value@, allow_breaks) {
                        assert(!is_break_c(value@[i as int]));
                        assert(false);
                    }
                }
                if !breaks && ch == '\n' {
                    self.put_break();
                }
                self.write_break(ch);
                self.indention = true;
                breaks = true;
            } else {
                if breaks {
                    self.write_indent();
                }
                if ch == '\'' {
                    self.put('\'');
                }
                self.write_char(ch);
                self.indention = false;
                spaces = false;
                breaks = false;
                proof {
                    if one_line(value@, allow_breaks) {
                        assert(self.total_out() =~= pre + sq_char(ch));
                    }
                }
            }
            proof {
                assert(pre.is_prefix_of(self.total_out()));
                assert(base.is_prefix_of(self.total_out()));
                if one_line(value@, allow_breaks) {
                    assert(self.total_out() =~= start + sq_body(value@.take(i as int + 1)));
                }
            }
            i += 1;
        }
        if breaks {
            self.write_indent();
        }
        let ghost mid = self.total_out();
        proof {
            assert(value@.take(len as int) =~= value@);
        }
        self.write_indicator("'", false, false, false);
        self.whitespace = false;
        self.indention = false;
        proof {
            assert(base.is_prefix_of(self.total_out()));
            if one_line(value@, allow_breaks) {
                assert(self.total_out() =~= mid + seq!['\'']);
                assert(final(self).total_out() =~= base + old(self).indicator_space(true)
                    + seq!['\''] + sq_body(value@) + seq!['\'']);
            }
        }
        Ok(())
    }

    /// Write one escaped character of a double-quoted scalar: exactly the
    /// escape `dq_escape` describes.
    #[verifier::rlimit(100)]
    #[verifier::spinoff_prover]
    fn write_dq_escape(&mut self, ch: char)
        requires
            old(self).encoding != Encoding::Any,
            old(self).out_inv(),
        ensures
            old(self).stream_frame(*final(self)),
            final(self).out_inv(),
            final(self).total_out() == old(self).total_out() + dq_escape(ch),
            final(self).line == old(self).line,
    {
        let ghost base = self.total_out();
        self.put('\\');
        let u = ch as u32;
        if u == 0 {
            self.put('0');
            proof {
                assert(self.total_out() =~= base + dq_escape(ch));
            }
        } else if u == 0x07 {
            self.put('a');
            proof {
                assert(self.total_out() =~= base + dq_escape(ch));
            }
        } else if u == 0x08 {
            self.put('b');
            proof {
                assert(self.total_out() =~= base + dq_escape(ch));
            }
        } else if u == 0x09 {
            self.put('t');
            proof {
                assert(self.total_out() =~= base + dq_escape(ch));
            }
        } else if u == 0x0A {
            self.put('n');
            proof {
                assert(self.total_out() =~= base + dq_escape(ch));
            }
        } else if u == 0x0B {
            self.put('v');
            proof {
                assert(self.total_out() =~= base + dq_escape(ch));
            }
        } else if u == 0x0C {
            self.put('f');
            proof {
                assert(self.total_out() =~= base + dq_escape(ch));
            }
        } else if u == 0x0D {
            self.put('r');
            proof {
                assert(self.total_out() =~= base + dq_escape(ch));
            }
        } else if u == 0x1B {
            self.put('e');
            proof {
                assert(self.total_out() =~= base + dq_escape(ch));
            }
        } else if u == 0x22 {
            self.put('\"');
            proof {
                assert(self.total_out() =~= base + dq_escape(ch));
            }
        } else if u == 0x5C {
            self.put('\\');
            proof {
                assert(self.total_out() =~= base + dq_escape(ch));
            }
        } else if u == 0x85 {
            self.put('N');
            proof {
                assert(self.total_out() =~= base + dq_escape(ch));
            }
        } else if u == 0xA0 {
            self.put('_');
            proof {
                assert(self.total_out() =~= base + dq_escape(ch));
            }
        } else if u == 0x2028 {
            self.put('L');
            proof {
                assert(self.total_out() =~= base + dq_escape(ch));
            }
        } else if u == 0x2029 {
            self.put('P');
            proof {
                assert(self.total_out() =~= base + dq_escape(ch));
            }
        } else {
            let width: u32 = if u <= 0xFF {
                2
            } else if u <= 0xFFFF {
                4
            } else {
                8
            };
            let prefix = if width == 2 {
                'x'
            } else if width == 4 {
                'u'
            } else {
                'U'
            };
            self.put(prefix);
            let ghost shift0: int = (width - 1) as int * 4;
            let ghost start = self.total_out();
            proof {
                assert(start =~= base + seq!['\\', prefix]);
                assert(dq_escape(ch) =~= seq!['\\', prefix] + hex_from(u, shift0));
            }
            let mut k: u32 = (width - 1) * 4;
            let mut done = false;
            while !done
                invariant
                    old(self).encoding != Encoding::Any,
                    self.encoding == old(self).encoding,
                    self.out_inv(),
                    old(self).stream_frame(*self),
                    self.line == old(self).line,
                    k <= 28,
                    k % 4 == 0,
                    !done ==> self.total_out() + hex_from(u, k as int) == start + hex_from(
                        u,
                        shift0,
                    ),
                    done ==> self.total_out() == start + hex_from(u, shift0),
                decreases (if done { 0int } else { k + 1 }),
            {
                let digit = (u >> k) % 16;
                let ghost pre = self.total_out();
                proof {
                    assert(hex_from(u, k as int) =~= seq![spec_hex_digit(digit as int)]
                        + hex_from(u, k as int - 4));
                }
                self.put(hex_digit_char(digit));
                if k == 0 {
                    done = true;
                    proof {
                        assert(hex_from(u, k as int - 4) =~= Seq::<char>::empty());
                        assert(self.total_out() =~= pre + seq![spec_hex_digit(digit as int)]);
                        assert(self.total_out() + hex_from(u, k as int - 4) =~= self.total_out());
                        assert(self.total_out() == start + hex_from(u, shift0));
                    }
                } else {
                    proof {
                        assert(self.total_out() =~= pre + seq![spec_hex_digit(digit as int)]);
                        assert(self.total_out() + hex_from(u, k as int - 4) =~= pre + hex_from(
                            u,
                            k as int,
                        ));
                    }
                    k -= 4;
                }
            }
            proof {
                assert(final(self).total_out() =~= base + dq_escape(ch));
            }
        }
    }

    /// Write a double-quoted scalar, escaping what the style cannot hold.
    /// When no folding is allowed (a simple-key context) the text written is
    /// exactly the opening quote, `dq_char` of each character of the value,
    /// and the closing quote.
    #[verifier::rlimit(100)]
    #[verifier::spinoff_prover]
    pub(crate) fn write_double_quoted_scalar(&mut self, value: &str, allow_breaks: bool) -> (r:
        Result<(), Error>)
        requires
            old(self).encoding != Encoding::Any,
            old(self).out_inv(),
        ensures
            r is Ok,
            old(self).scalar_frame(*final(self)),
            final(self).out_inv(),
            old(self).total_out().is_prefix_of(final(self).total_out()),
            final(self).open_ended == old(self).open_ended,
            !final(self).whitespace,
            !final(self).indention,
            !allow_breaks || no_space(value@) ==> final(self).total_out() == old(
                self,
            ).total_out() + old(self).indicator_space(true) + seq!['"'] + dq_body(
                value@,
                old(self).unicode,
            ) + seq!['"'],
    {
        let ghost base = self.total_out();
        proof {
            reveal_strlit("\"");
        }
        self.write_indicator("\"", true, false, false);
        let ghost start = self.total_out();
        proof {
            assert(base.is_prefix_of(self.total_out()));
            assert(start =~= base + old(self).indicator_space(true) + seq!['"']);
        }
        let len = value.unicode_len();
        let mut spaces = false;
        let mut i: usize = 0;
        while i < len
            invariant
                len == value@.len(),
                i <= len,
                old(self).encoding != Encoding::Any,
                self.encoding == old(self).encoding,
                self.out_inv(),
                old(self).scalar_frame(*self),
                self.unicode == old(self).unicode,
                self.open_ended == old(self).open_ended,
                base.is_prefix_of(self.total_out()),
                !allow_breaks || no_space(value@) ==> self.total_out() == start + dq_body(
                    value@.take(i as int),
                    old(self).unicode,
                ),
            decreases len - i,
        {
            let ch = value.get_char(i);
            let first = i == 0;
            let ghost pre = self.total_out();
            proof {
                assert(value@.take(i as int + 1).drop_last() =~= value@.take(i as int));
                assert(value@.take(i as int + 1).last() == value@[i as int]);
            }
            if !crate::types::is_printable(ch) || (!self.unicode && !crate::types::is_ascii_char(
                ch,
            )) || ch == '\u{feff}' || is_break(ch) || ch == '"' || ch == '\\' {
                self.write_dq_escape(ch);
                spaces = false;
                proof {
                    assert(dq_char(ch, old(self).unicode) == dq_escape(ch));
                }
            } else if is_space(ch) {
                let has_more = i + 1 < len;
                if allow_breaks && !spaces && self.column > self.best_width && !first && has_more {
                    proof {
                        if no_space(value@) {
                            assert(!is_space_c(value@[i as int]));
                            assert(false);
                        }
                    }
                    self.write_indent();
                    let next_is_space = has_more && is_space(value.get_char(i + 1));
                    if next_is_space {
                        self.put('\\');
                    }
                } else {
                    self.write_char(ch);
                    proof {
                        assert(self.total_out() =~= pre + seq![ch]);
                        assert(dq_char(ch, old(self).unicode) == seq![ch]);
                    }
                }
                spaces = true;
            } else {
                self.write_char(ch);
                spaces = false;
                proof {
                    assert(self.total_out() =~= pre + seq![ch]);
                    assert(dq_char(ch, old(self).unicode) == seq![ch]);
                }
            }
            proof {
                assert(pre.is_prefix_of(self.total_out()));
                assert(base.is_prefix_of(self.total_out()));
            }
            i += 1;
        }
        let ghost mid = self.total_out();
        proof {
            assert(value@.take(len as int) =~= value@);
        }
        self.write_indicator("\"", false, false, false);
        self.whitespace = false;
        self.indention = false;
        proof {
            assert(base.is_prefix_of(self.total_out()));
            if !allow_breaks || no_space(value@) {
                assert(self.total_out() =~= mid + seq!['"']);
                assert(final(self).total_out() =~= base + old(self).indicator_space(true)
                    + seq!['"'] + dq_body(value@, old(self).unicode) + seq!['"']);
            }
        }
        Ok(())
    }

    /// Write a folded block scalar: `>`, the hints, and the value with its
    /// lines folded.
    #[verifier::rlimit(100)]
    pub(crate) fn write_folded_scalar(&mut self, value: &str) -> (r: Result<(), Error>)
        requires
            old(self).encoding != Encoding::Any,
            old(self).out_inv(),
            2 <= old(self).best_indent <= 9,
        ensures
            r is Ok,
            old(self).scalar_frame(*final(self)),
            final(self).out_inv(),
            old(self).total_out().is_prefix_of(final(self).total_out()),
    {
        let ghost base = self.total_out();
        self.write_indicator(">", true, false, false);
        self.write_block_scalar_hints(value);
        self.put_break();
        self.indention = true;
        self.whitespace = true;
        proof {
            assert(base.is_prefix_of(self.total_out()));
        }
        let len = value.unicode_len();
        let mut breaks = true;
        let mut leading_spaces = true;
        let mut i: usize = 0;
        while i < len
            invariant
                len == value@.len(),
                i <= len,
                old(self).encoding != Encoding::Any,
                self.encoding == old(self).encoding,
                self.out_inv(),
                old(self).scalar_frame(*self),
                base.is_prefix_of(self.total_out()),
            decreases len - i,
        {
            let ch = value.get_char(i);
            let ghost pre = self.total_out();
            if is_break(ch) {
                if !breaks && !leading_spaces && ch == '\n' {
                    let mut skip = i + 1;
                    while skip < len && is_break(value.get_char(skip))
                        invariant
                            len == value@.len(),
                            i < len,
                            i < skip <= len,
                        decreases len - skip,
                    {
                        skip += 1;
                    }
                    let at_blankz = if skip < len {
                        let c2 = value.get_char(skip);
                        is_blank(c2) || is_break(c2) || c2 == '\0'
                    } else {
                        true
                    };
                    if !at_blankz {
                        self.put_break();
                    }
                }
                self.write_break(ch);
                self.indention = true;
                breaks = true;
            } else {
                if breaks {
                    self.write_indent();
                    leading_spaces = is_blank(ch);
                }
                let next_space = if i + 1 < len {
                    is_space(value.get_char(i + 1))
                } else {
                    false
                };
                if !breaks && is_space(ch) && !next_space && self.column > self.best_width {
                    self.write_indent();
                } else {
                    self.write_char(ch);
                }
                self.indention = false;
                breaks = false;
            }
            proof {
                assert(pre.is_prefix_of(self.total_out()));
                assert(base.is_prefix_of(self.total_out()));
            }
            i += 1;
        }
        Ok(())
    }

    /// Write a scalar in the style its analysis selected.
    pub(crate) fn process_scalar(&mut self, analysis: &ScalarAnalysis) -> (r: Result<(), Error>)
        requires
            old(self).encoding != Encoding::Any,
            old(self).out_inv(),
            2 <= old(self).best_indent <= 9,
            analysis.style != ScalarStyle::Literal || old(self).indent >= 0,
        ensures
            old(self).scalar_frame(*final(self)),
            final(self).out_inv(),
            old(self).total_out().is_prefix_of(final(self).total_out()),
            r is Err ==> analysis.style == ScalarStyle::Any,
    {
        let ghost base = self.total_out();
        match analysis.style {
            ScalarStyle::Plain => {
                let allow = !self.simple_key_context;
                self.write_plain_scalar(analysis.value.as_str(), allow)
            },
            ScalarStyle::SingleQuoted => {
                let allow = !self.simple_key_context;
                self.write_single_quoted_scalar(analysis.value.as_str(), allow)
            },
            ScalarStyle::DoubleQuoted => {
                let allow = !self.simple_key_context;
                self.write_double_quoted_scalar(analysis.value.as_str(), allow)
            },
            ScalarStyle::Literal => {
                let r = self.write_literal_scalar(analysis.value.as_str());
                proof {
                    assert(base.is_prefix_of(self.total_out()));
                }
                r
            },
            ScalarStyle::Folded => self.write_folded_scalar(analysis.value.as_str()),
            ScalarStyle::Any => Err(Error::emitter("no scalar style was chosen")),
        }
    }
}

} // verus!

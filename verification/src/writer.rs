//! The low-level text writers of the emitter: buffered character output,
//! line breaks, indentation, indicators, and the flush that encodes the
//! buffer into the output bytes.

use vstd::prelude::*;

use vstd::string::StrSliceExecFns;
use vstd::string::StringExecFns;

use crate::emitter::{
    break_chars, lemma_spec_encode_concat, seq_space, spec_encode, utf16_bytes,
    Emitter, OUTPUT_BUFFER_SIZE,
};
use crate::scalar_writer::spec_hex_digit;
use crate::types::{sat_add, Encoding};

verus! {

/// Addition capped at the top of `usize`, at the specification level.
pub open spec fn sat_cap(x: int) -> int {
    if x <= usize::MAX as int {
        x
    } else {
        usize::MAX as int
    }
}

/// Relies on `String::push`: appends exactly the one character.
#[verifier::external_body]
pub(crate) fn push_char_pub(s: &mut String, c: char)
    ensures
        final(s)@ == old(s)@.push(c),
{
    s.push(c);
}

/// Relies on `char::encode_utf8`: the UTF-8 bytes of one character, which
/// vstd specifies as `encode_scalar` of its scalar value.
#[verifier::external_body]
pub(crate) fn char_utf8_bytes(c: char) -> (r: Vec<u8>)
    ensures
        r@ == vstd::utf8::encode_scalar(c as u32),
{
    let mut buf = [0u8; 4];
    c.encode_utf8(&mut buf).as_bytes().to_vec()
}

impl Emitter {
    /// Encode the buffered characters and move them to the output.
    pub fn flush(&mut self)
        requires
            old(self).encoding != Encoding::Any,
            old(self).out_inv(),
        ensures
            old(self).stream_frame(*final(self)),
            final(self).out_inv(),
            final(self).total_out() == old(self).total_out(),
            final(self).flushed@ == old(self).total_out(),
            final(self).buffer@.len() == 0,
            final(self).column == old(self).column,
            final(self).line == old(self).line,
            final(self).output@ == spec_encode(old(self).total_out(), old(self).encoding),
    {
        if self.encoding == Encoding::Utf8 {
            let bytes = self.buffer.as_str().as_bytes();
            proof {
                assert(bytes@ == vstd::utf8::encode_utf8(self.buffer@));
            }
            self.output.extend_from_slice(bytes);
            proof {
                lemma_spec_encode_concat(self.flushed@, self.buffer@, self.encoding);
                assert(self.output@ =~= spec_encode(self.flushed@ + self.buffer@, self.encoding));
            }
        } else {
            let big_endian = match self.encoding {
                Encoding::Utf16Be => true,
                _ => false,
            };
            let len = self.buffer.as_str().unicode_len();
            let mut i: usize = 0;
            while i < len
                invariant
                    len == self.buffer@.len(),
                    i <= len,
                    self.encoding == old(self).encoding,
                    self.encoding != Encoding::Any,
                    self.encoding != Encoding::Utf8,
                    big_endian == (self.encoding == Encoding::Utf16Be),
                    self.buffer@ == old(self).buffer@,
                    self.flushed@ == old(self).flushed@,
                    old(self).stream_frame(*self),
                    self.column == old(self).column,
                    self.line == old(self).line,
                    self.output@ == spec_encode(
                        self.flushed@ + self.buffer@.take(i as int),
                        self.encoding,
                    ),
                decreases len - i,
            {
                let c = self.buffer.as_str().get_char(i);
                proof {
                    vstd::utf8::char_is_scalar(c);
                    lemma_spec_encode_concat(
                        self.flushed@ + self.buffer@.take(i as int),
                        seq![c],
                        self.encoding,
                    );
                    assert(self.flushed@ + self.buffer@.take(i as int + 1) =~= (self.flushed@
                        + self.buffer@.take(i as int)) + seq![c]);
                }
                let u = c as u32;
                let mut chunk: Vec<u8> = Vec::new();
                if u < 0x10000 {
                    let unit = u as u16;
                    if big_endian {
                        chunk.push((unit / 256) as u8);
                        chunk.push((unit % 256) as u8);
                    } else {
                        chunk.push((unit % 256) as u8);
                        chunk.push((unit / 256) as u8);
                    }
                } else {
                    let v = u - 0x10000;
                    let hi = (0xD800 + v / 0x400) as u16;
                    let lo = (0xDC00 + v % 0x400) as u16;
                    if big_endian {
                        chunk.push((hi / 256) as u8);
                        chunk.push((hi % 256) as u8);
                        chunk.push((lo / 256) as u8);
                        chunk.push((lo % 256) as u8);
                    } else {
                        chunk.push((hi % 256) as u8);
                        chunk.push((hi / 256) as u8);
                        chunk.push((lo % 256) as u8);
                        chunk.push((lo / 256) as u8);
                    }
                }
                proof {
                    assert(seq![c].drop_first() =~= Seq::<char>::empty());
                    assert(utf16_bytes(seq![c].drop_first(), big_endian) =~= Seq::<u8>::empty());
                    assert(chunk@ =~= utf16_bytes(seq![c], big_endian));
                }
                let mut tmp = chunk;
                self.output.append(&mut tmp);
                proof {
                    assert(self.output@ =~= spec_encode(
                        self.flushed@ + self.buffer@.take(i as int + 1),
                        self.encoding,
                    ));
                }
                i += 1;
            }
            proof {
                assert(self.buffer@.take(len as int) =~= self.buffer@);
                assert(self.output@ =~= spec_encode(self.flushed@ + self.buffer@, self.encoding));
            }
        }
        proof {
            assert(old(self).total_out() =~= old(self).flushed@ + old(self).buffer@);
        }
        self.flushed = Ghost(self.flushed@ + self.buffer@);
        self.buffer = String::new();
        proof {
            assert(final(self).total_out() =~= final(self).flushed@);
            assert(final(self).output@ =~= spec_encode(final(self).flushed@, final(self).encoding));
        }
    }

    /// Flush when the buffer is near its size bound.
    pub(crate) fn flush_if_needed(&mut self)
        requires
            old(self).encoding != Encoding::Any,
            old(self).out_inv(),
        ensures
            old(self).stream_frame(*final(self)),
            final(self).out_inv(),
            final(self).total_out() == old(self).total_out(),
            final(self).column == old(self).column,
            final(self).line == old(self).line,
    {
        if self.buffer.as_str().len() >= OUTPUT_BUFFER_SIZE - 5 {
            self.flush();
        }
    }

    /// Write one character.
    pub(crate) fn put(&mut self, value: char)
        requires
            old(self).encoding != Encoding::Any,
            old(self).out_inv(),
        ensures
            old(self).stream_frame(*final(self)),
            final(self).out_inv(),
            final(self).total_out() == old(self).total_out().push(value),
            final(self).column as int == sat_cap(old(self).column as int + 1),
            final(self).line == old(self).line,
    {
        self.flush_if_needed();
        push_char_pub(&mut self.buffer, value);
        self.column = sat_add(self.column, 1);
        proof {
            assert(final(self).total_out() =~= old(self).total_out().push(value));
        }
    }

    /// Write a line break in the configured style.
    pub(crate) fn put_break(&mut self)
        requires
            old(self).encoding != Encoding::Any,
            old(self).out_inv(),
        ensures
            old(self).stream_frame(*final(self)),
            final(self).out_inv(),
            final(self).total_out() == old(self).total_out() + break_chars(old(self).line_break),
            final(self).column == 0,
            final(self).line as int == sat_cap(old(self).line as int + 1),
    {
        self.flush_if_needed();
        match self.line_break {
            crate::types::Break::Any => {},
            crate::types::Break::Cr => push_char_pub(&mut self.buffer, '\r'),
            crate::types::Break::Ln => push_char_pub(&mut self.buffer, '\n'),
            crate::types::Break::CrLn => self.buffer.append("\r\n"),
        }
        self.column = 0;
        self.line = sat_add(self.line, 1);
        proof {
            reveal_strlit("\r\n");
            assert(final(self).total_out() =~= old(self).total_out() + break_chars(
                old(self).line_break,
            ));
        }
    }

    /// Write a run of characters that holds no line break.
    pub(crate) fn write_str(&mut self, string: &str)
        requires
            old(self).encoding != Encoding::Any,
            old(self).out_inv(),
        ensures
            old(self).stream_frame(*final(self)),
            final(self).out_inv(),
            final(self).total_out() == old(self).total_out() + string@,
            final(self).column as int == sat_cap(old(self).column as int + string@.len()),
            final(self).line == old(self).line,
    {
        if sat_add(self.buffer.as_str().len(), string.len()) > OUTPUT_BUFFER_SIZE {
            self.flush();
        }
        self.column = sat_add(self.column, string.unicode_len());
        self.buffer.append(string);
        proof {
            assert(final(self).total_out() =~= old(self).total_out() + string@);
        }
    }

    /// Write one content character.
    pub(crate) fn write_char(&mut self, ch: char)
        requires
            old(self).encoding != Encoding::Any,
            old(self).out_inv(),
        ensures
            old(self).stream_frame(*final(self)),
            final(self).out_inv(),
            final(self).total_out() == old(self).total_out().push(ch),
            final(self).column as int == sat_cap(old(self).column as int + 1),
            final(self).line == old(self).line,
    {
        self.put(ch);
    }

    /// The characters one content break character writes: a `\n` becomes the
    /// configured break, any other break character stands for itself.
    pub open spec fn break_out(ch: char, b: crate::types::Break) -> Seq<char> {
        if ch == '\n' {
            break_chars(b)
        } else {
            seq![ch]
        }
    }

    /// Write one break character from scalar content.
    pub(crate) fn write_break(&mut self, ch: char)
        requires
            old(self).encoding != Encoding::Any,
            old(self).out_inv(),
        ensures
            old(self).stream_frame(*final(self)),
            final(self).out_inv(),
            final(self).total_out() == old(self).total_out() + Self::break_out(
                ch,
                old(self).line_break,
            ),
            final(self).column == 0,
            final(self).line as int == sat_cap(old(self).line as int + 1),
    {
        if ch == '\n' {
            self.put_break();
        } else {
            self.write_char(ch);
            self.column = 0;
            self.line = sat_add(self.line, 1);
            proof {
                assert(final(self).total_out() =~= old(self).total_out() + Self::break_out(
                    ch,
                    old(self).line_break,
                ));
            }
        }
    }

    /// Write the byte-order mark.
    pub(crate) fn write_bom(&mut self)
        requires
            old(self).encoding != Encoding::Any,
            old(self).out_inv(),
        ensures
            old(self).stream_frame(*final(self)),
            final(self).out_inv(),
            final(self).total_out() == old(self).total_out().push('\u{feff}'),
            final(self).column == old(self).column,
            final(self).line == old(self).line,
    {
        self.flush_if_needed();
        push_char_pub(&mut self.buffer, '\u{feff}');
        proof {
            assert(final(self).total_out() =~= old(self).total_out().push('\u{feff}'));
        }
    }

    /// The column the left edge of content sits at: the current indentation
    /// level, or 0 before the document root.
    pub open spec fn eff_indent(self) -> int {
        if self.indent >= 0 {
            self.indent as int
        } else {
            0
        }
    }

    /// Whether moving to the indentation column requires a fresh line.
    pub open spec fn indent_break_needed(self) -> bool {
        ||| !self.indention
        ||| self.column as int > self.eff_indent()
        ||| (self.column as int == self.eff_indent() && !self.whitespace)
    }

    /// The text one `write_indent` writes from this state: a break when the
    /// position demands a fresh line, then spaces up to the indentation
    /// column.
    pub open spec fn indent_text(self) -> Seq<char> {
        (if self.indent_break_needed() {
            break_chars(self.line_break)
        } else {
            Seq::<char>::empty()
        }) + seq_space(
            self.eff_indent() - (if self.indent_break_needed() {
                0
            } else {
                self.column as int
            }),
        )
    }

    /// Move to the indentation column, breaking the line when the position
    /// demands it and padding with spaces.
    pub(crate) fn write_indent(&mut self)
        requires
            old(self).encoding != Encoding::Any,
            old(self).out_inv(),
        ensures
            old(self).text_frame(*final(self)),
            final(self).out_inv(),
            final(self).total_out() == old(self).total_out() + (if old(
                self,
            ).indent_break_needed() {
                break_chars(old(self).line_break)
            } else {
                Seq::<char>::empty()
            }) + seq_space(
                old(self).eff_indent() - (if old(self).indent_break_needed() {
                    0
                } else {
                    old(self).column as int
                }),
            ),
            final(self).column as int == old(self).eff_indent(),
            final(self).whitespace,
            final(self).indention,
    {
        let indent: usize = if self.indent >= 0 {
            self.indent as usize
        } else {
            0
        };
        if !self.indention || self.column > indent || (self.column == indent && !self.whitespace) {
            self.put_break();
        }
        let ghost base = self.total_out();
        let ghost col0 = self.column as int;
        while self.column < indent
            invariant
                old(self).encoding != Encoding::Any,
                self.encoding == old(self).encoding,
                self.out_inv(),
                old(self).stream_frame(*self),
                self.column as int <= indent as int,
                self.line == old(self).line + (if old(self).indent_break_needed() {
                    1int
                } else {
                    0int
                }) || self.line == usize::MAX,
                self.total_out() == base + seq_space(self.column as int - col0),
                col0 <= self.column as int,
            decreases indent - self.column,
        {
            let ghost pre = self.total_out();
            let ghost prec = self.column as int;
            self.put(' ');
            proof {
                assert(self.total_out() =~= base + seq_space(prec - col0) + seq![' ']);
                assert(base + seq_space(prec - col0) + seq![' '] =~= base + seq_space(
                    prec + 1 - col0,
                ));
            }
        }
        self.whitespace = true;
        self.indention = true;
        proof {
            assert(seq_space(0) =~= Seq::<char>::empty());
            if old(self).indent_break_needed() {
                assert(col0 == 0);
            } else {
                assert(base =~= old(self).total_out() + Seq::<char>::empty() + seq_space(0));
            }
            assert(final(self).total_out() =~= old(self).total_out() + (if old(
                self,
            ).indent_break_needed() {
                break_chars(old(self).line_break)
            } else {
                Seq::<char>::empty()
            }) + seq_space(
                old(self).eff_indent() - (if old(self).indent_break_needed() {
                    0
                } else {
                    old(self).column as int
                }),
            ));
        }
    }

    /// The optional separating space an indicator writes first.
    pub open spec fn indicator_space(self, need_whitespace: bool) -> Seq<char> {
        if need_whitespace && !self.whitespace {
            seq![' ']
        } else {
            Seq::<char>::empty()
        }
    }

    /// Write an indicator such as `-`, `:`, `[` or `---`.
    pub(crate) fn write_indicator(
        &mut self,
        indicator: &str,
        need_whitespace: bool,
        is_whitespace: bool,
        is_indention: bool,
    )
        requires
            old(self).encoding != Encoding::Any,
            old(self).out_inv(),
        ensures
            old(self).text_frame(*final(self)),
            final(self).out_inv(),
            final(self).total_out() == old(self).total_out() + old(self).indicator_space(
                need_whitespace,
            ) + indicator@,
            final(self).whitespace == is_whitespace,
            final(self).indention == (old(self).indention && is_indention),
            final(self).line == old(self).line,
    {
        if need_whitespace && !self.whitespace {
            self.put(' ');
        }
        self.write_str(indicator);
        self.whitespace = is_whitespace;
        self.indention = self.indention && is_indention;
        proof {
            assert(final(self).total_out() =~= old(self).total_out() + old(self).indicator_space(
                need_whitespace,
            ) + indicator@);
        }
    }

    /// Write an anchor or alias name.
    pub(crate) fn write_anchor(&mut self, value: &str)
        requires
            old(self).encoding != Encoding::Any,
            old(self).out_inv(),
        ensures
            old(self).text_frame(*final(self)),
            final(self).out_inv(),
            final(self).total_out() == old(self).total_out() + value@,
            !final(self).whitespace,
            !final(self).indention,
            final(self).line == old(self).line,
    {
        self.write_str(value);
        self.whitespace = false;
        self.indention = false;
    }

    /// Write a tag handle.
    pub(crate) fn write_tag_handle(&mut self, value: &str)
        requires
            old(self).encoding != Encoding::Any,
            old(self).out_inv(),
        ensures
            old(self).text_frame(*final(self)),
            final(self).out_inv(),
            final(self).total_out() == old(self).total_out() + old(self).indicator_space(true)
                + value@,
            !final(self).whitespace,
            !final(self).indention,
            final(self).line == old(self).line,
    {
        if !self.whitespace {
            self.put(' ');
        }
        self.write_str(value);
        self.whitespace = false;
        self.indention = false;
        proof {
            assert(final(self).total_out() =~= old(self).total_out() + old(self).indicator_space(
                true,
            ) + value@);
        }
    }

    /// Write tag content, percent-escaping what a tag URI may not hold.
    pub(crate) fn write_tag_content(&mut self, value: &str, need_whitespace: bool)
        requires
            old(self).encoding != Encoding::Any,
            old(self).out_inv(),
        ensures
            old(self).text_frame(*final(self)),
            final(self).out_inv(),
            old(self).total_out().is_prefix_of(final(self).total_out()),
            !final(self).whitespace,
            !final(self).indention,
    {
        if need_whitespace && !self.whitespace {
            self.put(' ');
        }
        let len = value.unicode_len();
        let mut i: usize = 0;
        while i < len
            invariant
                len == value@.len(),
                old(self).encoding != Encoding::Any,
                self.encoding == old(self).encoding,
                self.out_inv(),
                old(self).text_frame(*self),
                old(self).total_out().is_prefix_of(self.total_out()),
            decreases len - i,
        {
            let ch = value.get_char(i);
            let plain = is_tag_uri_char(ch);
            let ghost pre = self.total_out();
            if plain {
                self.write_char(ch);
                proof {
                    assert(pre.is_prefix_of(self.total_out()));
                }
            } else {
                let bytes = char_utf8_bytes(ch);
                let n = bytes.len();
                let mut j: usize = 0;
                while j < n
                    invariant
                        n == bytes@.len(),
                        old(self).encoding != Encoding::Any,
                        self.encoding == old(self).encoding,
                        self.out_inv(),
                        old(self).text_frame(*self),
                        pre.is_prefix_of(self.total_out()),
                    decreases n - j,
                {
                    let b = bytes[j];
                    let ghost pre2 = self.total_out();
                    self.put('%');
                    self.put(hex_digit(b / 16));
                    self.put(hex_digit(b % 16));
                    proof {
                        assert(pre2.is_prefix_of(self.total_out()));
                        assert(pre.is_prefix_of(self.total_out()));
                    }
                    j += 1;
                }
            }
            proof {
                assert(old(self).total_out().is_prefix_of(self.total_out()));
            }
            i += 1;
        }
        self.whitespace = false;
        self.indention = false;
    }
}

/// Characters a tag URI holds unescaped: YAML word characters and URI marks.
pub open spec fn is_tag_uri_char_c(c: char) -> bool {
    ||| crate::types::is_alpha_c(c)
    ||| c == ';'
    ||| c == '/'
    ||| c == '?'
    ||| c == ':'
    ||| c == '@'
    ||| c == '&'
    ||| c == '='
    ||| c == '+'
    ||| c == '$'
    ||| c == ','
    ||| c == '.'
    ||| c == '~'
    ||| c == '*'
    ||| c == '\''
    ||| c == '('
    ||| c == ')'
    ||| c == '['
    ||| c == ']'
}

/// Uppercase hexadecimal digit of a value below 16.
fn hex_digit(d: u8) -> (r: char)
    requires
        d < 16,
    ensures
        r == spec_hex_digit(d as int),
{
    if d < 10 {
        (48u8 + d) as char
    } else {
        (65u8 + (d - 10)) as char
    }
}

fn is_tag_uri_char(c: char) -> (r: bool)
    ensures
        r == is_tag_uri_char_c(c),
{
    crate::types::is_alpha(c) || c == ';' || c == '/' || c == '?' || c == ':' || c == '@'
        || c == '&' || c == '=' || c == '+' || c == '$' || c == ',' || c == '.' || c == '~'
        || c == '*' || c == '\'' || c == '(' || c == ')' || c == '[' || c == ']'
}

} // verus!

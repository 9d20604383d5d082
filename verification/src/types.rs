//! Shared data model: marks, encodings, styles, directives, and errors.

use vstd::prelude::*;

verus! {

/// A position in a character stream: character offset, line and column,
/// all zero-based.
#[derive(Clone, Copy, PartialEq, Eq, Structural, Debug)]
pub struct Mark {
    pub index: u64,
    pub line: u64,
    pub column: u64,
}

impl Mark {
    /// Stream order of two marks: earlier means a smaller character offset.
    pub open spec fn le(self, other: Mark) -> bool {
        self.index <= other.index
    }

    pub fn zero() -> (r: Mark)
        ensures
            r == (Mark { index: 0u64, line: 0u64, column: 0u64 }),
    {
        Mark { index: 0, line: 0, column: 0 }
    }
}

impl Default for Mark {
    fn default() -> (r: Mark)
        ensures
            r == (Mark { index: 0u64, line: 0u64, column: 0u64 }),
    {
        Mark { index: 0, line: 0, column: 0 }
    }
}

/// The character encoding of a stream.
#[derive(Clone, Copy, PartialEq, Eq, Structural, Debug)]
pub enum Encoding {
    /// Let the engine choose.
    Any,
    Utf8,
    Utf16Le,
    Utf16Be,
}

/// The preferred style of line breaks in emitter output.
#[derive(Clone, Copy, PartialEq, Eq, Structural, Debug)]
pub enum Break {
    /// Let the emitter choose (it picks `Ln`).
    Any,
    /// Carriage return.
    Cr,
    /// Line feed.
    Ln,
    /// Carriage return followed by line feed.
    CrLn,
}

/// The presentation style of a scalar.
#[derive(Clone, Copy, PartialEq, Eq, Structural, Debug)]
pub enum ScalarStyle {
    /// Let the emitter choose.
    Any,
    Plain,
    SingleQuoted,
    DoubleQuoted,
    Literal,
    Folded,
}

/// The presentation style of a sequence.
#[derive(Clone, Copy, PartialEq, Eq, Structural, Debug)]
pub enum SequenceStyle {
    /// Let the emitter choose.
    Any,
    Block,
    Flow,
}

/// The presentation style of a mapping.
#[derive(Clone, Copy, PartialEq, Eq, Structural, Debug)]
pub enum MappingStyle {
    /// Let the emitter choose.
    Any,
    Block,
    Flow,
}

/// A `%YAML major.minor` directive.
#[derive(Clone, Copy, PartialEq, Eq, Structural, Debug)]
pub struct VersionDirective {
    pub major: i32,
    pub minor: i32,
}

/// A `%TAG handle prefix` directive.
pub struct TagDirective {
    pub handle: String,
    pub prefix: String,
}

impl TagDirective {
    pub fn new(handle: &str, prefix: &str) -> (r: TagDirective)
        ensures
            r.handle@ == handle@,
            r.prefix@ == prefix@,
    {
        TagDirective { handle: handle.to_owned(), prefix: prefix.to_owned() }
    }
}

impl Clone for TagDirective {
    fn clone(&self) -> (r: Self)
        ensures
            r.handle@ == self.handle@,
            r.prefix@ == self.prefix@,
    {
        TagDirective { handle: self.handle.clone(), prefix: self.prefix.clone() }
    }
}

/// Which engine detected an error.
#[derive(Clone, Copy, PartialEq, Eq, Structural, Debug)]
pub enum ErrorKind {
    Reader,
    Scanner,
    Parser,
    Composer,
    Emitter,
    Writer,
    Memory,
}

/// A terminal engine error: the kind, a description of the problem, where it
/// was detected, and optionally where the enclosing construct began.
#[derive(Clone, Copy, Debug)]
pub struct Error {
    pub kind: ErrorKind,
    pub problem: &'static str,
    pub problem_mark: Mark,
    pub context: Option<&'static str>,
    pub context_mark: Mark,
}

impl Error {
    /// An emitter error carries no marks: the emitter works on events, not text.
    pub fn emitter(problem: &'static str) -> (r: Error)
        ensures
            r.kind == ErrorKind::Emitter,
            r.problem@ == problem@,
            r.context is None,
    {
        Error {
            kind: ErrorKind::Emitter,
            problem,
            problem_mark: Mark::zero(),
            context: None,
            context_mark: Mark::zero(),
        }
    }

    pub fn parser(problem: &'static str, problem_mark: Mark) -> (r: Error)
        ensures
            r.kind == ErrorKind::Parser,
            r.problem@ == problem@,
            r.problem_mark == problem_mark,
            r.context is None,
    {
        Error {
            kind: ErrorKind::Parser,
            problem,
            problem_mark,
            context: None,
            context_mark: Mark::zero(),
        }
    }

    pub fn parser_context(
        context: &'static str,
        context_mark: Mark,
        problem: &'static str,
        problem_mark: Mark,
    ) -> (r: Error)
        ensures
            r.kind == ErrorKind::Parser,
            r.problem@ == problem@,
            r.problem_mark == problem_mark,
            r.context == Some(context),
            r.context_mark == context_mark,
    {
        Error { kind: ErrorKind::Parser, problem, problem_mark, context: Some(context), context_mark }
    }

    pub fn composer(problem: &'static str, problem_mark: Mark) -> (r: Error)
        ensures
            r.kind == ErrorKind::Composer,
            r.problem@ == problem@,
            r.problem_mark == problem_mark,
            r.context is None,
    {
        Error {
            kind: ErrorKind::Composer,
            problem,
            problem_mark,
            context: None,
            context_mark: Mark::zero(),
        }
    }

    pub fn composer_context(
        context: &'static str,
        context_mark: Mark,
        problem: &'static str,
        problem_mark: Mark,
    ) -> (r: Error)
        ensures
            r.kind == ErrorKind::Composer,
            r.problem@ == problem@,
            r.problem_mark == problem_mark,
            r.context == Some(context),
            r.context_mark == context_mark,
    {
        Error {
            kind: ErrorKind::Composer,
            problem,
            problem_mark,
            context: Some(context),
            context_mark,
        }
    }
}

/// Saturating addition; the emitter's line and column counters use it so that
/// bookkeeping never overflows.
pub fn sat_add(a: usize, b: usize) -> (r: usize)
    ensures
        r as int == if a as int + b as int <= usize::MAX as int {
            a as int + b as int
        } else {
            usize::MAX as int
        },
{
    if a <= usize::MAX - b {
        a + b
    } else {
        usize::MAX
    }
}

/// YAML "word" characters: ASCII letters, digits, `-` and `_`.
/// Anchor, alias and tag-handle names are limited to these.
pub open spec fn is_alpha_c(c: char) -> bool {
    ||| c == '-'
    ||| c == '_'
    ||| ('0' <= c && c <= '9')
    ||| ('A' <= c && c <= 'Z')
    ||| ('a' <= c && c <= 'z')
}

pub fn is_alpha(c: char) -> (r: bool)
    ensures
        r == is_alpha_c(c),
{
    c == '-' || c == '_' || ('0' <= c && c <= '9') || ('A' <= c && c <= 'Z') || ('a' <= c
        && c <= 'z')
}

pub open spec fn is_ascii_c(c: char) -> bool {
    c as u32 <= 0x7F
}

pub fn is_ascii_char(c: char) -> (r: bool)
    ensures
        r == is_ascii_c(c),
{
    c as u32 <= 0x7F
}

/// The characters YAML may emit unescaped: line feed, printable ASCII, and the
/// printable non-ASCII planes (excluding the surrogate gap, which `char` rules
/// out already).
pub open spec fn is_printable_c(c: char) -> bool {
    ||| c == '\n'
    ||| (0x20 <= c as u32 && c as u32 <= 0x7E)
    ||| c as u32 == 0x85
    ||| (0xA0 <= c as u32 && c as u32 <= 0xD7FF)
    ||| (0xE000 <= c as u32 && c as u32 <= 0xFFFD)
    ||| (0x10000 <= c as u32 && c as u32 <= 0x10FFFF)
}

pub fn is_printable(c: char) -> (r: bool)
    ensures
        r == is_printable_c(c),
{
    let u = c as u32;
    u == 0x0A || (0x20 <= u && u <= 0x7E) || u == 0x85 || (0xA0 <= u && u <= 0xD7FF) || (0xE000
        <= u && u <= 0xFFFD) || 0x10000 <= u
}

pub open spec fn is_space_c(c: char) -> bool {
    c == ' '
}

pub fn is_space(c: char) -> (r: bool)
    ensures
        r == is_space_c(c),
{
    c == ' '
}

pub open spec fn is_blank_c(c: char) -> bool {
    c == ' ' || c == '\t'
}

pub fn is_blank(c: char) -> (r: bool)
    ensures
        r == is_blank_c(c),
{
    c == ' ' || c == '\t'
}

pub open spec fn is_break_c(c: char) -> bool {
    c == '\r' || c == '\n' || c as u32 == 0x85 || c as u32 == 0x2028 || c as u32 == 0x2029
}

pub fn is_break(c: char) -> (r: bool)
    ensures
        r == is_break_c(c),
{
    let u = c as u32;
    u == 0x0D || u == 0x0A || u == 0x85 || u == 0x2028 || u == 0x2029
}

/// A break or the NUL terminator that libyaml treats as end of input.
pub open spec fn is_breakz_c(c: char) -> bool {
    is_break_c(c) || c == '\0'
}

pub fn is_breakz(c: char) -> (r: bool)
    ensures
        r == is_breakz_c(c),
{
    is_break(c) || c == '\0'
}

/// Whether the position after the current character is blank, a break, or the
/// end of the value: `None` stands for end of the value.
pub open spec fn is_blankz_opt_c(c: Option<char>) -> bool {
    match c {
        None => true,
        Some(ch) => is_blank_c(ch) || is_breakz_c(ch),
    }
}

pub fn is_blankz_opt(c: Option<char>) -> (r: bool)
    ensures
        r == is_blankz_opt_c(c),
{
    match c {
        None => true,
        Some(ch) => is_blank(ch) || is_breakz(ch),
    }
}

pub open spec fn is_space_opt_c(c: Option<char>) -> bool {
    c matches Some(ch) && is_space_c(ch)
}

pub fn is_space_opt(c: Option<char>) -> (r: bool)
    ensures
        r == is_space_opt_c(c),
{
    match c {
        None => false,
        Some(ch) => is_space(ch),
    }
}

pub open spec fn is_break_opt_c(c: Option<char>) -> bool {
    c matches Some(ch) && is_break_c(ch)
}

pub fn is_break_opt(c: Option<char>) -> (r: bool)
    ensures
        r == is_break_opt_c(c),
{
    match c {
        None => false,
        Some(ch) => is_break(ch),
    }
}

} // verus!

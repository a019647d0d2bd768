//! The tokens of Elm source text and the lexer that produces them.
//!
//! At each position the lexer takes the longest match among the token rules below; when two
//! rules match the same length, a fixed token (a keyword or a symbol) wins over a pattern, a
//! comment wins over an operator, and an integer wins over an operator. A position where no
//! rule matches yields an `Error` token for that one character.
use vstd::prelude::*;

use crate::ast::FloatLiteral;
use crate::text::{chars_of, string_from_range, owned, push_str, i64_text, u64_text};

verus! {

broadcast use vstd::string::group_string_axioms;

pub type Range = std::ops::Range<usize>;

pub type SrcToken = (Token, Range);

#[derive(Debug)]
pub enum Token {
    // Keywords
    Module,
    Port,
    Type,
    Alias,
    Exposing,
    As,
    Import,
    Case,
    Of,
    Let,
    In,
    If,
    Then,
    Else,
    Infix,
    // Open & Close
    OpenParen,
    CloseParen,
    OpenBracket,
    CloseBracket,
    OpenBrace,
    CloseBrace,
    // Whitespace
    Space(usize),
    NewLine,
    // Key symbols
    Bar,
    Comma,
    Point,
    Ellipsis,
    Equals,
    Colon,
    BackSlash,
    RightArrow,
    // Names
    /// Any number of capitalised names separated by dots, at least two of them.
    UpperPath(String),
    /// A single capitalised name, no dots.
    UpperName(String),
    /// Capitalised names followed by at least one lower-case-starting name, separated by dots.
    LowerPath(String),
    /// A single lower-case-starting name, no dots.
    LowerName(String),
    Operator(String),
    SingleLineComment(String),
    MultiLineComment(String),
    WebGL(String),
    LiteralInteger(i32),
    LiteralFloat(FloatLiteral),
    LiteralString(String),
    LiteralChar(String),
    Error,
}

/// Which token rule matched at a position.
#[derive(PartialEq, Eq, Structural, Clone, Copy, Debug)]
pub enum Kind {
    Module,
    Port,
    Type,
    Alias,
    Exposing,
    As,
    Import,
    Case,
    Of,
    Let,
    In,
    If,
    Then,
    Else,
    Infix,
    OpenParen,
    CloseParen,
    OpenBracket,
    CloseBracket,
    OpenBrace,
    CloseBrace,
    Space,
    NewLine,
    Bar,
    Comma,
    Point,
    Ellipsis,
    Equals,
    Colon,
    BackSlash,
    RightArrow,
    UpperPath,
    UpperName,
    LowerPath,
    LowerName,
    Operator,
    SingleLineComment,
    MultiLineComment,
    WebGL,
    LiteralInteger,
    LiteralFloat,
    LiteralString,
    LiteralChar,
    Error,
}

// ---------------------------------------------------------------------------------------------
// Character classes
// ---------------------------------------------------------------------------------------------
#[derive(PartialEq, Eq, Structural, Clone, Copy)]
pub enum Class {
    Ident,
    Digit,
    Space,
    OperatorChar,
    NotNewLine,
    NotQuote,
}

pub open spec fn is_upper(c: char) -> bool {
    'A' <= c && c <= 'Z'
}

pub open spec fn is_lower_start(c: char) -> bool {
    ('a' <= c && c <= 'z') || c == '_'
}

pub open spec fn is_digit(c: char) -> bool {
    '0' <= c && c <= '9'
}

pub open spec fn in_class(cls: Class, c: char) -> bool {
    match cls {
        Class::Ident => is_upper(c) || ('a' <= c && c <= 'z') || is_digit(c) || c == '_',
        Class::Digit => is_digit(c),
        Class::Space => c == ' ',
        Class::OperatorChar => c == '+' || c == '>' || c == '<' || c == '!' || c == '*' || c == '-'
            || c == ':' || c == '|',
        Class::NotNewLine => c != '\n',
        Class::NotQuote => c != '"',
    }
}

fn class_contains(cls: Class, c: char) -> (r: bool)
    ensures
        r == in_class(cls, c),
{
    match cls {
        Class::Ident => ('A' <= c && c <= 'Z') || ('a' <= c && c <= 'z') || ('0' <= c && c <= '9')
            || c == '_',
        Class::Digit => '0' <= c && c <= '9',
        Class::Space => c == ' ',
        Class::OperatorChar => c == '+' || c == '>' || c == '<' || c == '!' || c == '*' || c
            == '-' || c == ':' || c == '|',
        Class::NotNewLine => c != '\n',
        Class::NotQuote => c != '"',
    }
}

/// The number of consecutive characters of class `cls` starting at `i`.
pub open spec fn run(cs: Seq<char>, i: int, cls: Class) -> nat
    decreases cs.len() - i,
{
    if 0 <= i < cs.len() && in_class(cls, cs[i]) {
        1 + run(cs, i + 1, cls)
    } else {
        0
    }
}

proof fn lemma_run_bound(cs: Seq<char>, i: int, cls: Class)
    requires
        0 <= i <= cs.len(),
    ensures
        i + run(cs, i, cls) <= cs.len(),
    decreases cs.len() - i,
{
    if i < cs.len() && in_class(cls, cs[i]) {
        lemma_run_bound(cs, i + 1, cls);
    }
}

proof fn lemma_run_inside(cs: Seq<char>, i: int, cls: Class, k: int)
    requires
        0 <= i <= k < i + run(cs, i, cls),
    ensures
        in_class(cls, cs[k]),
    decreases cs.len() - i,
{
    if k > i {
        lemma_run_inside(cs, i + 1, cls, k);
    }
}

fn run_of(cs: &[char], i: usize, cls: Class) -> (r: usize)
    requires
        cs@.len() <= usize::MAX / 4,
        i <= cs@.len(),
    ensures
        r == run(cs@, i as int, cls),
        i + r <= cs@.len(),
{
    let mut j = i;
    while j < cs.len() && class_contains(cls, cs[j])
        invariant
            i <= j <= cs@.len(),
            run(cs@, i as int, cls) == (j - i) + run(cs@, j as int, cls),
        decreases cs@.len() - j,
    {
        j = j + 1;
    }
    j - i
}

// ---------------------------------------------------------------------------------------------
// Names
// ---------------------------------------------------------------------------------------------
/// The end of the identifier that starts at `i` (its first character is taken as given).
pub open spec fn segment_end(cs: Seq<char>, i: int) -> int {
    i + 1 + run(cs, i + 1, Class::Ident)
}

/// A dot followed by a segment start of the given case follows position `e`.
pub open spec fn continues_with(cs: Seq<char>, e: int, upper: bool) -> bool {
    e + 1 < cs.len() && cs[e] == '.' && (if upper {
        is_upper(cs[e + 1])
    } else {
        is_lower_start(cs[e + 1])
    })
}

/// The end of the chain of dot-separated segments of one case that starts at `i`.
pub open spec fn chain_end(cs: Seq<char>, i: int, upper: bool) -> int
    decreases cs.len() - i,
{
    let e = segment_end(cs, i);
    if 0 <= i < cs.len() && continues_with(cs, e, upper) {
        chain_end(cs, e + 1, upper)
    } else {
        e
    }
}

proof fn lemma_chain_end_bound(cs: Seq<char>, i: int, upper: bool)
    requires
        0 <= i < cs.len(),
    ensures
        i < chain_end(cs, i, upper) <= cs.len(),
    decreases cs.len() - i,
{
    lemma_run_bound(cs, i + 1, Class::Ident);
    let e = segment_end(cs, i);
    if continues_with(cs, e, upper) {
        lemma_chain_end_bound(cs, e + 1, upper);
    }
}

/// The kind and length of the name that starts with a capital letter at `i`.
pub open spec fn upper_name_scan(cs: Seq<char>, i: int) -> (Kind, int) {
    let e = chain_end(cs, i, true);
    if continues_with(cs, e, false) {
        (Kind::LowerPath, chain_end(cs, e + 1, false) - i)
    } else if e > segment_end(cs, i) {
        (Kind::UpperPath, e - i)
    } else {
        (Kind::UpperName, e - i)
    }
}

/// The keyword spelled by `s`, if any.
pub open spec fn keyword(s: Seq<char>) -> Option<Kind> {
    if s == "module"@ {
        Some(Kind::Module)
    } else if s == "port"@ {
        Some(Kind::Port)
    } else if s == "type"@ {
        Some(Kind::Type)
    } else if s == "alias"@ {
        Some(Kind::Alias)
    } else if s == "exposing"@ {
        Some(Kind::Exposing)
    } else if s == "as"@ {
        Some(Kind::As)
    } else if s == "import"@ {
        Some(Kind::Import)
    } else if s == "case"@ {
        Some(Kind::Case)
    } else if s == "of"@ {
        Some(Kind::Of)
    } else if s == "let"@ {
        Some(Kind::Let)
    } else if s == "in"@ {
        Some(Kind::In)
    } else if s == "if"@ {
        Some(Kind::If)
    } else if s == "then"@ {
        Some(Kind::Then)
    } else if s == "else"@ {
        Some(Kind::Else)
    } else if s == "infix"@ {
        Some(Kind::Infix)
    } else {
        None
    }
}

/// The kind and length of the name that starts with a lower-case letter or `_` at `i`.
pub open spec fn lower_name_scan(cs: Seq<char>, i: int) -> (Kind, int) {
    let e = segment_end(cs, i);
    match keyword(cs.subrange(i, e)) {
        Some(k) => (k, e - i),
        None => (Kind::LowerName, e - i),
    }
}

// ---------------------------------------------------------------------------------------------
// Numbers
// ---------------------------------------------------------------------------------------------
/// The length of an exponent `[eE][+-]?[0-9]+` at `j`, or 0.
pub open spec fn exponent_len(cs: Seq<char>, j: int) -> int {
    if 0 <= j < cs.len() && (cs[j] == 'e' || cs[j] == 'E') {
        let k = if j + 1 < cs.len() && (cs[j + 1] == '+' || cs[j + 1] == '-') {
            j + 2
        } else {
            j + 1
        };
        let d = run(cs, k, Class::Digit);
        if d > 0 {
            k + d - j
        } else {
            0
        }
    } else {
        0
    }
}

/// The length of a float literal at `i`, or 0.
pub open spec fn float_len(cs: Seq<char>, i: int) -> int {
    let d1 = run(cs, i, Class::Digit);
    let p = i + d1;
    if p < cs.len() && cs[p] == '.' && run(cs, p + 1, Class::Digit) > 0 {
        let q = p + 1 + run(cs, p + 1, Class::Digit);
        q + exponent_len(cs, q) - i
    } else if d1 > 0 && exponent_len(cs, p) > 0 {
        d1 + exponent_len(cs, p)
    } else {
        0
    }
}

/// The length of an integer literal `-?[0-9]+` at `i`, or 0.
pub open spec fn integer_len(cs: Seq<char>, i: int) -> int {
    if 0 <= i < cs.len() && cs[i] == '-' {
        let d = run(cs, i + 1, Class::Digit);
        if d > 0 {
            1 + d as int
        } else {
            0
        }
    } else {
        run(cs, i, Class::Digit) as int
    }
}

pub open spec fn digit_value(c: char) -> nat {
    (c as nat - '0' as nat) as nat
}

/// The value of a string of decimal digits.
pub open spec fn digits_value(s: Seq<char>) -> nat
    decreases s.len(),
{
    if s.len() == 0 {
        0
    } else {
        digits_value(s.drop_last()) * 10 + digit_value(s.last())
    }
}

/// The `i32` written as `-?[0-9]+` in `s`, when it is in range.
pub open spec fn integer_value(s: Seq<char>) -> Option<i32> {
    if s.len() > 0 && s[0] == '-' {
        let v = digits_value(s.drop_first());
        if v <= 2147483648 {
            Some((-v) as i32)
        } else {
            None
        }
    } else {
        let v = digits_value(s);
        if v <= 2147483647 {
            Some(v as i32)
        } else {
            None
        }
    }
}

// ---------------------------------------------------------------------------------------------
// Comments and literals
// ---------------------------------------------------------------------------------------------
/// The end of a block whose body ends with `stop` followed by `close`, scanning from `j`;
/// `pending` records that the character before `j` was an unpaired `stop`.
pub open spec fn block_end(cs: Seq<char>, j: int, stop: char, close: char, pending: bool) -> Option<
    int,
>
    decreases cs.len() - j,
{
    if j < 0 || j >= cs.len() {
        None
    } else if pending {
        if cs[j] == close {
            Some(j + 1)
        } else {
            block_end(cs, j + 1, stop, close, false)
        }
    } else {
        block_end(cs, j + 1, stop, close, cs[j] == stop)
    }
}

/// The length of a `{- ... -}` comment at `i`, or 0.
pub open spec fn multi_comment_len(cs: Seq<char>, i: int) -> int {
    if i + 1 < cs.len() && cs[i] == '{' && cs[i + 1] == '-' {
        match block_end(cs, i + 2, '-', '}', false) {
            Some(e) => e - i,
            None => 0,
        }
    } else {
        0
    }
}

pub open spec fn starts_glsl(cs: Seq<char>, i: int) -> bool {
    &&& 0 <= i
    &&& i + 6 <= cs.len()
    &&& cs.subrange(i, i + 6) == "[glsl|"@
}

/// The length of a `[glsl| ... |]` block at `i`, or 0.
pub open spec fn webgl_len(cs: Seq<char>, i: int) -> int {
    if starts_glsl(cs, i) {
        match block_end(cs, i + 6, '|', ']', false) {
            Some(e) => e - i,
            None => 0,
        }
    } else {
        0
    }
}

/// The length of a `"..."` literal at `i`, or 0.
pub open spec fn string_len(cs: Seq<char>, i: int) -> int {
    let r = run(cs, i + 1, Class::NotQuote);
    if i + 1 + r < cs.len() {
        2 + r as int
    } else {
        0
    }
}

/// Whether a `'c'` literal starts at `i`.
pub open spec fn is_char_literal(cs: Seq<char>, i: int) -> bool {
    &&& 0 <= i
    &&& i + 2 < cs.len()
    &&& cs[i] == '\''
    &&& cs[i + 1] != '\''
    &&& cs[i + 2] == '\''
}

// ---------------------------------------------------------------------------------------------
// The rule that matches at a position
// ---------------------------------------------------------------------------------------------
/// The kind and length (in characters) of the token that starts at `i`.
#[verifier::opaque]
pub open spec fn scan(cs: Seq<char>, i: int) -> (Kind, int) {
    let c = cs[i];
    let next = if i + 1 < cs.len() { cs[i + 1] } else { '\0' };
    if c == ' ' {
        (Kind::Space, run(cs, i, Class::Space) as int)
    } else if c == '\n' {
        (Kind::NewLine, 1)
    } else if c == '(' {
        (Kind::OpenParen, 1)
    } else if c == ')' {
        (Kind::CloseParen, 1)
    } else if c == '[' {
        if webgl_len(cs, i) > 0 {
            (Kind::WebGL, webgl_len(cs, i))
        } else {
            (Kind::OpenBracket, 1)
        }
    } else if c == ']' {
        (Kind::CloseBracket, 1)
    } else if c == '{' {
        if multi_comment_len(cs, i) > 0 {
            (Kind::MultiLineComment, multi_comment_len(cs, i))
        } else {
            (Kind::OpenBrace, 1)
        }
    } else if c == '}' {
        (Kind::CloseBrace, 1)
    } else if c == ',' {
        (Kind::Comma, 1)
    } else if c == '=' {
        (Kind::Equals, 1)
    } else if c == '\\' {
        (Kind::BackSlash, 1)
    } else if c == '.' {
        if float_len(cs, i) > 0 {
            (Kind::LiteralFloat, float_len(cs, i))
        } else if next == '.' {
            (Kind::Ellipsis, 2)
        } else {
            (Kind::Point, 1)
        }
    } else if c == '|' {
        let r = run(cs, i, Class::OperatorChar) as int;
        if r == 1 {
            (Kind::Bar, 1)
        } else {
            (Kind::Operator, r)
        }
    } else if c == ':' {
        let r = run(cs, i, Class::OperatorChar) as int;
        if r == 1 {
            (Kind::Colon, 1)
        } else {
            (Kind::Operator, r)
        }
    } else if c == '-' {
        let r = run(cs, i, Class::OperatorChar) as int;
        if next == '-' {
            (Kind::SingleLineComment, 2 + run(cs, i + 2, Class::NotNewLine) as int)
        } else if is_digit(next) {
            (Kind::LiteralInteger, integer_len(cs, i))
        } else if next == '>' && r == 2 {
            (Kind::RightArrow, 2)
        } else {
            (Kind::Operator, r)
        }
    } else if in_class(Class::OperatorChar, c) {
        (Kind::Operator, run(cs, i, Class::OperatorChar) as int)
    } else if is_digit(c) {
        if float_len(cs, i) > 0 {
            (Kind::LiteralFloat, float_len(cs, i))
        } else {
            (Kind::LiteralInteger, integer_len(cs, i))
        }
    } else if c == '"' {
        if string_len(cs, i) > 0 {
            (Kind::LiteralString, string_len(cs, i))
        } else {
            (Kind::Error, 1)
        }
    } else if c == '\'' {
        if is_char_literal(cs, i) {
            (Kind::LiteralChar, 3)
        } else {
            (Kind::Error, 1)
        }
    } else if is_upper(c) {
        upper_name_scan(cs, i)
    } else if is_lower_start(c) {
        lower_name_scan(cs, i)
    } else {
        (Kind::Error, 1)
    }
}

/// The token a rule yields for its matched text. Literal integers that do not fit in `i32`
/// yield `Error`.
#[verifier::opaque]
pub open spec fn denotes(t: Token, kind: Kind, text: Seq<char>) -> bool {
    match kind {
        Kind::Space => t == Token::Space(text.len() as usize),
        Kind::UpperPath => t matches Token::UpperPath(s) && s@ == text,
        Kind::UpperName => t matches Token::UpperName(s) && s@ == text,
        Kind::LowerPath => t matches Token::LowerPath(s) && s@ == text,
        Kind::LowerName => t matches Token::LowerName(s) && s@ == text,
        Kind::Operator => t matches Token::Operator(s) && s@ == text,
        Kind::SingleLineComment => t matches Token::SingleLineComment(s) && s@ == text,
        Kind::MultiLineComment => t matches Token::MultiLineComment(s) && s@ == text,
        Kind::WebGL => t matches Token::WebGL(s) && s@ == text,
        Kind::LiteralInteger => match integer_value(text) {
            Some(v) => t == Token::LiteralInteger(v),
            None => t is Error,
        },
        Kind::LiteralFloat => t matches Token::LiteralFloat(f) && f.0@ == text,
        Kind::LiteralString => t matches Token::LiteralString(s) && s@ == text.subrange(
            1,
            text.len() - 1,
        ),
        Kind::LiteralChar => t matches Token::LiteralChar(s) && s@ == text.subrange(
            1,
            text.len() - 1,
        ),
        _ => fixed_token(t, kind),
    }
}

/// The payload-free tokens and their kinds.
pub open spec fn fixed_token(t: Token, kind: Kind) -> bool {
    match kind {
        Kind::Module => t is Module,
        Kind::Port => t is Port,
        Kind::Type => t is Type,
        Kind::Alias => t is Alias,
        Kind::Exposing => t is Exposing,
        Kind::As => t is As,
        Kind::Import => t is Import,
        Kind::Case => t is Case,
        Kind::Of => t is Of,
        Kind::Let => t is Let,
        Kind::In => t is In,
        Kind::If => t is If,
        Kind::Then => t is Then,
        Kind::Else => t is Else,
        Kind::Infix => t is Infix,
        Kind::OpenParen => t is OpenParen,
        Kind::CloseParen => t is CloseParen,
        Kind::OpenBracket => t is OpenBracket,
        Kind::CloseBracket => t is CloseBracket,
        Kind::OpenBrace => t is OpenBrace,
        Kind::CloseBrace => t is CloseBrace,
        Kind::NewLine => t is NewLine,
        Kind::Bar => t is Bar,
        Kind::Comma => t is Comma,
        Kind::Point => t is Point,
        Kind::Ellipsis => t is Ellipsis,
        Kind::Equals => t is Equals,
        Kind::Colon => t is Colon,
        Kind::BackSlash => t is BackSlash,
        Kind::RightArrow => t is RightArrow,
        Kind::Error => t is Error,
        _ => false,
    }
}

/// The tokens of `cs` from character `i` on: kind, first character, end character.
pub open spec fn lex_from(cs: Seq<char>, i: int) -> Seq<(Kind, int, int)>
    decreases cs.len() - i,
{
    if 0 <= i < cs.len() {
        let n = scan(cs, i).1;
        if n > 0 {
            proof {
                lemma_scan_bounds(cs, i);
            }
            seq![(scan(cs, i).0, i, i + n)] + lex_from(cs, i + n)
        } else {
            Seq::empty()
        }
    } else {
        Seq::empty()
    }
}

/// The number of UTF-8 bytes that encode `c`.
pub open spec fn utf8_len(c: char) -> nat {
    if (c as u32) < 0x80 {
        1
    } else if (c as u32) < 0x800 {
        2
    } else if (c as u32) < 0x10000 {
        3
    } else {
        4
    }
}

/// The number of UTF-8 bytes that encode `s`.
pub open spec fn byte_len(s: Seq<char>) -> nat
    decreases s.len(),
{
    if s.len() == 0 {
        0
    } else {
        byte_len(s.drop_last()) + utf8_len(s.last())
    }
}

/// The byte offset of character `i` of `cs`.
pub open spec fn byte_offset(cs: Seq<char>, i: int) -> nat {
    byte_len(cs.take(i))
}

// ---------------------------------------------------------------------------------------------
// Laws of the token rules
// ---------------------------------------------------------------------------------------------
proof fn lemma_block_end_bound(cs: Seq<char>, j: int, stop: char, close: char, pending: bool)
    ensures
        block_end(cs, j, stop, close, pending) matches Some(e) ==> j < e <= cs.len(),
    decreases cs.len() - j,
{
    if 0 <= j < cs.len() {
        if pending && cs[j] == close {
        } else {
            lemma_block_end_bound(cs, j + 1, stop, close, !pending && cs[j] == stop);
        }
    }
}

proof fn lemma_exponent_bound(cs: Seq<char>, j: int)
    requires
        0 <= j <= cs.len(),
    ensures
        0 <= exponent_len(cs, j) <= cs.len() - j,
{
    if j < cs.len() && (cs[j] == 'e' || cs[j] == 'E') {
        let k = if j + 1 < cs.len() && (cs[j + 1] == '+' || cs[j + 1] == '-') {
            j + 2
        } else {
            j + 1
        };
        lemma_run_bound(cs, k, Class::Digit);
    }
}

proof fn lemma_float_bound(cs: Seq<char>, i: int)
    requires
        0 <= i < cs.len(),
    ensures
        0 <= float_len(cs, i) <= cs.len() - i,
{
    lemma_run_bound(cs, i, Class::Digit);
    let p = i + run(cs, i, Class::Digit);
    if p < cs.len() {
        lemma_run_bound(cs, p + 1, Class::Digit);
        lemma_exponent_bound(cs, p + 1 + run(cs, p + 1, Class::Digit));
    }
    lemma_exponent_bound(cs, p);
}

/// Every rule matches at least one character and no more than remain.
pub proof fn lemma_scan_bounds(cs: Seq<char>, i: int)
    requires
        0 <= i < cs.len(),
    ensures
        1 <= scan(cs, i).1 <= cs.len() - i,
{
    reveal(scan);
    lemma_run_bound(cs, i, Class::Space);
    lemma_run_bound(cs, i, Class::OperatorChar);
    lemma_run_bound(cs, i + 1, Class::Digit);
    lemma_run_bound(cs, i, Class::Digit);
    lemma_float_bound(cs, i);
    if i + 2 <= cs.len() {
        lemma_run_bound(cs, i + 2, Class::NotNewLine);
    }
    lemma_run_bound(cs, i + 1, Class::NotQuote);
    lemma_block_end_bound(cs, i + 2, '-', '}', false);
    lemma_block_end_bound(cs, i + 6, '|', ']', false);
    lemma_chain_end_bound(cs, i, true);
    lemma_run_bound(cs, i + 1, Class::Ident);
    let e = chain_end(cs, i, true);
    if continues_with(cs, e, false) {
        lemma_chain_end_bound(cs, e + 1, false);
    }
    let c = cs[i];
    if c == ' ' {
        assert(run(cs, i, Class::Space) >= 1);
    }
    if c == '-' || c == '|' || c == ':' || in_class(Class::OperatorChar, c) {
        assert(run(cs, i, Class::OperatorChar) >= 1);
    }
    if is_digit(c) {
        assert(run(cs, i, Class::Digit) >= 1);
    }
}

/// Lexing loses nothing: the tokens' character spans are non-empty, start at the position
/// lexing started from, follow one another without gap or overlap, and end at the end of the
/// text.
pub proof fn lemma_lex_spans_cover(cs: Seq<char>, i: int)
    requires
        0 <= i <= cs.len(),
    ensures
        (lex_from(cs, i).len() == 0) == (i == cs.len()),
        lex_from(cs, i).len() > 0 ==> lex_from(cs, i)[0].1 == i,
        lex_from(cs, i).len() > 0 ==> lex_from(cs, i).last().2 == cs.len(),
        forall|k: int|
            0 <= k < lex_from(cs, i).len() ==> #[trigger] lex_from(cs, i)[k].1 < lex_from(
                cs,
                i,
            )[k].2,
        forall|k: int|
            0 <= k < lex_from(cs, i).len() ==> i <= #[trigger] lex_from(cs, i)[k].1 && lex_from(
                cs,
                i,
            )[k].2 <= cs.len(),
        forall|k: int|
            0 <= k < lex_from(cs, i).len() - 1 ==> #[trigger] lex_from(cs, i)[k].2 == lex_from(
                cs,
                i,
            )[k + 1].1,
    decreases cs.len() - i,
{
    if i < cs.len() {
        lemma_scan_bounds(cs, i);
        let n = scan(cs, i).1;
        lemma_lex_spans_cover(cs, i + n);
        let rest = lex_from(cs, i + n);
        let all = lex_from(cs, i);
        assert(all == seq![(scan(cs, i).0, i, i + n)] + rest);
        assert forall|k: int| 0 <= k < all.len() - 1 implies #[trigger] all[k].2 == all[k + 1].1 by {
            if k > 0 {
                assert(all[k] == rest[k - 1]);
                assert(all[k + 1] == rest[k]);
            }
        }
        assert forall|k: int| 0 <= k < all.len() implies #[trigger] all[k].1 < all[k].2 by {
            if k > 0 {
                assert(all[k] == rest[k - 1]);
            }
        }
        assert forall|k: int| 0 <= k < all.len() implies i <= #[trigger] all[k].1 && all[k].2
            <= cs.len() by {
            if k > 0 {
                assert(all[k] == rest[k - 1]);
            }
        }
        if rest.len() > 0 {
            assert(all.last() == rest.last());
        }
    }
}

// ---------------------------------------------------------------------------------------------
// The lexer
// ---------------------------------------------------------------------------------------------
fn utf8_width(c: char) -> (r: usize)
    ensures
        r == utf8_len(c),
{
    let v = c as u32;
    if v < 0x80 {
        1
    } else if v < 0x800 {
        2
    } else if v < 0x10000 {
        3
    } else {
        4
    }
}

proof fn lemma_byte_len_bound(s: Seq<char>)
    ensures
        byte_len(s) <= 4 * s.len(),
    decreases s.len(),
{
    if s.len() > 0 {
        lemma_byte_len_bound(s.drop_last());
    }
}

fn segment_end_of(cs: &[char], i: usize) -> (r: usize)
    requires
        cs@.len() <= usize::MAX / 4,
        i < cs@.len(),
    ensures
        r == segment_end(cs@, i as int),
        i < r <= cs@.len(),
{
    let n = run_of(cs, i + 1, Class::Ident);
    i + 1 + n
}

fn continues_with_at(cs: &[char], e: usize, upper: bool) -> (r: bool)
    requires
        cs@.len() <= usize::MAX / 4,
        e <= cs@.len(),
    ensures
        r == continues_with(cs@, e as int, upper),
{
    if e + 1 < cs.len() && cs[e] == '.' {
        let c = cs[e + 1];
        if upper {
            'A' <= c && c <= 'Z'
        } else {
            ('a' <= c && c <= 'z') || c == '_'
        }
    } else {
        false
    }
}

fn chain_end_of(cs: &[char], i: usize, upper: bool) -> (r: usize)
    requires
        cs@.len() <= usize::MAX / 4,
        i < cs@.len(),
    ensures
        r == chain_end(cs@, i as int, upper),
        i < r <= cs@.len(),
{
    let mut j = i;
    let mut e = segment_end_of(cs, j);
    while continues_with_at(cs, e, upper)
        invariant
            cs@.len() <= usize::MAX / 4,
            i <= j < e <= cs@.len(),
            e == segment_end(cs@, j as int),
            chain_end(cs@, i as int, upper) == chain_end(cs@, j as int, upper),
        decreases cs@.len() - j,
    {
        j = e + 1;
        e = segment_end_of(cs, j);
    }
    e
}

fn upper_name_scan_of(cs: &[char], i: usize) -> (r: (Kind, usize))
    requires
        cs@.len() <= usize::MAX / 4,
        i < cs@.len(),
    ensures
        (r.0, r.1 as int) == upper_name_scan(cs@, i as int),
{
    let e = chain_end_of(cs, i, true);
    if continues_with_at(cs, e, false) {
        let f = chain_end_of(cs, e + 1, false);
        (Kind::LowerPath, f - i)
    } else if e > segment_end_of(cs, i) {
        (Kind::UpperPath, e - i)
    } else {
        (Kind::UpperName, e - i)
    }
}

fn range_is(cs: &[char], start: usize, end: usize, word: &str) -> (r: bool)
    requires
        cs@.len() <= usize::MAX / 4,
        start <= end <= cs@.len(),
    ensures
        r == (cs@.subrange(start as int, end as int) == word@),
{
    let w = chars_of(word);
    if end - start != w.len() {
        assert(cs@.subrange(start as int, end as int).len() != word@.len());
        return false;
    }
    let mut k: usize = 0;
    while k < w.len()
        invariant
            w@ == word@,
            end - start == w@.len(),
            start <= end <= cs@.len(),
            k <= w@.len(),
            forall|m: int| 0 <= m < k ==> cs@[start + m] == w@[m],
        decreases w@.len() - k,
    {
        if cs[start + k] != w[k] {
            assert(cs@.subrange(start as int, end as int)[k as int] != word@[k as int]);
            return false;
        }
        k = k + 1;
    }
    assert(cs@.subrange(start as int, end as int) =~= word@);
    true
}

fn keyword_of(cs: &[char], start: usize, end: usize) -> (r: Option<Kind>)
    requires
        cs@.len() <= usize::MAX / 4,
        start <= end <= cs@.len(),
    ensures
        r == keyword(cs@.subrange(start as int, end as int)),
{
    if range_is(cs, start, end, "module") {
        Some(Kind::Module)
    } else if range_is(cs, start, end, "port") {
        Some(Kind::Port)
    } else if range_is(cs, start, end, "type") {
        Some(Kind::Type)
    } else if range_is(cs, start, end, "alias") {
        Some(Kind::Alias)
    } else if range_is(cs, start, end, "exposing") {
        Some(Kind::Exposing)
    } else if range_is(cs, start, end, "as") {
        Some(Kind::As)
    } else if range_is(cs, start, end, "import") {
        Some(Kind::Import)
    } else if range_is(cs, start, end, "case") {
        Some(Kind::Case)
    } else if range_is(cs, start, end, "of") {
        Some(Kind::Of)
    } else if range_is(cs, start, end, "let") {
        Some(Kind::Let)
    } else if range_is(cs, start, end, "in") {
        Some(Kind::In)
    } else if range_is(cs, start, end, "if") {
        Some(Kind::If)
    } else if range_is(cs, start, end, "then") {
        Some(Kind::Then)
    } else if range_is(cs, start, end, "else") {
        Some(Kind::Else)
    } else if range_is(cs, start, end, "infix") {
        Some(Kind::Infix)
    } else {
        None
    }
}

fn exponent_len_of(cs: &[char], j: usize) -> (r: usize)
    requires
        cs@.len() <= usize::MAX / 4,
        j <= cs@.len(),
    ensures
        r == exponent_len(cs@, j as int),
        j + r <= cs@.len(),
{
    proof {
        lemma_exponent_bound(cs@, j as int);
    }
    if j < cs.len() && (cs[j] == 'e' || cs[j] == 'E') {
        let k = if j + 1 < cs.len() && (cs[j + 1] == '+' || cs[j + 1] == '-') {
            j + 2
        } else {
            j + 1
        };
        let d = run_of(cs, k, Class::Digit);
        if d > 0 {
            k + d - j
        } else {
            0
        }
    } else {
        0
    }
}

fn float_len_of(cs: &[char], i: usize) -> (r: usize)
    requires
        cs@.len() <= usize::MAX / 4,
        i < cs@.len(),
    ensures
        r == float_len(cs@, i as int),
{
    proof {
        lemma_float_bound(cs@, i as int);
    }
    let d1 = run_of(cs, i, Class::Digit);
    let p = i + d1;
    if p < cs.len() && cs[p] == '.' && run_of(cs, p + 1, Class::Digit) > 0 {
        let q = p + 1 + run_of(cs, p + 1, Class::Digit);
        q + exponent_len_of(cs, q) - i
    } else if d1 > 0 && exponent_len_of(cs, p) > 0 {
        d1 + exponent_len_of(cs, p)
    } else {
        0
    }
}

fn integer_len_of(cs: &[char], i: usize) -> (r: usize)
    requires
        cs@.len() <= usize::MAX / 4,
        i < cs@.len(),
    ensures
        r == integer_len(cs@, i as int),
{
    if cs[i] == '-' {
        let d = run_of(cs, i + 1, Class::Digit);
        if d > 0 {
            1 + d
        } else {
            0
        }
    } else {
        run_of(cs, i, Class::Digit)
    }
}

fn block_end_of(cs: &[char], j: usize, stop: char, close: char) -> (r: Option<usize>)
    requires
        cs@.len() <= usize::MAX / 4,
        j <= cs@.len(),
    ensures
        r matches Some(e) ==> block_end(cs@, j as int, stop, close, false) == Some(e as int),
        r is None ==> block_end(cs@, j as int, stop, close, false) is None,
{
    let mut k = j;
    let mut pending = false;
    while k < cs.len()
        invariant
            j <= k <= cs@.len(),
            block_end(cs@, j as int, stop, close, false) == block_end(
                cs@,
                k as int,
                stop,
                close,
                pending,
            ),
        decreases cs@.len() - k,
    {
        if pending && cs[k] == close {
            return Some(k + 1);
        }
        pending = !pending && cs[k] == stop;
        k = k + 1;
    }
    None
}

fn multi_comment_len_of(cs: &[char], i: usize) -> (r: usize)
    requires
        cs@.len() <= usize::MAX / 4,
        i < cs@.len(),
    ensures
        r == multi_comment_len(cs@, i as int),
{
    proof {
        lemma_block_end_bound(cs@, i + 2, '-', '}', false);
    }
    if i + 1 < cs.len() && cs[i] == '{' && cs[i + 1] == '-' {
        match block_end_of(cs, i + 2, '-', '}') {
            Some(e) => e - i,
            None => 0,
        }
    } else {
        0
    }
}

fn webgl_len_of(cs: &[char], i: usize) -> (r: usize)
    requires
        cs@.len() <= usize::MAX / 4,
        i < cs@.len(),
    ensures
        r == webgl_len(cs@, i as int),
{
    proof {
        lemma_block_end_bound(cs@, i + 6, '|', ']', false);
    }
    if i + 6 <= cs.len() && range_is(cs, i, i + 6, "[glsl|") {
        match block_end_of(cs, i + 6, '|', ']') {
            Some(e) => e - i,
            None => 0,
        }
    } else {
        0
    }
}

fn string_len_of(cs: &[char], i: usize) -> (r: usize)
    requires
        cs@.len() <= usize::MAX / 4,
        i < cs@.len(),
    ensures
        r == string_len(cs@, i as int),
{
    let r = run_of(cs, i + 1, Class::NotQuote);
    if i + 1 + r < cs.len() {
        2 + r
    } else {
        0
    }
}

/// The kind and length of the token at `i`.
pub fn scan_at(cs: &[char], i: usize) -> (r: (Kind, usize))
    requires
        cs@.len() <= usize::MAX / 4,
        i < cs@.len(),
    ensures
        (r.0, r.1 as int) == scan(cs@, i as int),
        1 <= r.1 <= cs@.len() - i,
{
    proof {
        lemma_scan_bounds(cs@, i as int);
        reveal(scan);
    }
    let c = cs[i];
    let next = if i + 1 < cs.len() { cs[i + 1] } else { '\0' };
    if c == ' ' {
        (Kind::Space, run_of(cs, i, Class::Space))
    } else if c == '\n' {
        (Kind::NewLine, 1)
    } else if c == '(' {
        (Kind::OpenParen, 1)
    } else if c == ')' {
        (Kind::CloseParen, 1)
    } else if c == '[' {
        let w = webgl_len_of(cs, i);
        if w > 0 {
            (Kind::WebGL, w)
        } else {
            (Kind::OpenBracket, 1)
        }
    } else if c == ']' {
        (Kind::CloseBracket, 1)
    } else if c == '{' {
        let m = multi_comment_len_of(cs, i);
        if m > 0 {
            (Kind::MultiLineComment, m)
        } else {
            (Kind::OpenBrace, 1)
        }
    } else if c == '}' {
        (Kind::CloseBrace, 1)
    } else if c == ',' {
        (Kind::Comma, 1)
    } else if c == '=' {
        (Kind::Equals, 1)
    } else if c == '\\' {
        (Kind::BackSlash, 1)
    } else if c == '.' {
        let f = float_len_of(cs, i);
        if f > 0 {
            (Kind::LiteralFloat, f)
        } else if next == '.' {
            (Kind::Ellipsis, 2)
        } else {
            (Kind::Point, 1)
        }
    } else if c == '|' {
        let r = run_of(cs, i, Class::OperatorChar);
        if r == 1 {
            (Kind::Bar, 1)
        } else {
            (Kind::Operator, r)
        }
    } else if c == ':' {
        let r = run_of(cs, i, Class::OperatorChar);
        if r == 1 {
            (Kind::Colon, 1)
        } else {
            (Kind::Operator, r)
        }
    } else if c == '-' {
        let r = run_of(cs, i, Class::OperatorChar);
        if next == '-' {
            let n = run_of(cs, i + 2, Class::NotNewLine);
            (Kind::SingleLineComment, 2 + n)
        } else if '0' <= next && next <= '9' {
            (Kind::LiteralInteger, integer_len_of(cs, i))
        } else if next == '>' && r == 2 {
            (Kind::RightArrow, 2)
        } else {
            (Kind::Operator, r)
        }
    } else if class_contains(Class::OperatorChar, c) {
        (Kind::Operator, run_of(cs, i, Class::OperatorChar))
    } else if '0' <= c && c <= '9' {
        let f = float_len_of(cs, i);
        if f > 0 {
            (Kind::LiteralFloat, f)
        } else {
            (Kind::LiteralInteger, integer_len_of(cs, i))
        }
    } else if c == '"' {
        let s = string_len_of(cs, i);
        if s > 0 {
            (Kind::LiteralString, s)
        } else {
            (Kind::Error, 1)
        }
    } else if c == '\'' {
        if i + 2 < cs.len() && cs[i + 1] != '\'' && cs[i + 2] == '\'' {
            (Kind::LiteralChar, 3)
        } else {
            (Kind::Error, 1)
        }
    } else if 'A' <= c && c <= 'Z' {
        upper_name_scan_of(cs, i)
    } else if ('a' <= c && c <= 'z') || c == '_' {
        let e = segment_end_of(cs, i);
        match keyword_of(cs, i, e) {
            Some(k) => (k, e - i),
            None => (Kind::LowerName, e - i),
        }
    } else {
        (Kind::Error, 1)
    }
}

/// The value of the integer literal `cs[start..end]`, or `None` when it does not fit in `i32`.
fn integer_value_of(cs: &[char], start: usize, end: usize) -> (r: Option<i32>)
    requires
        cs@.len() <= usize::MAX / 4,
        start < end <= cs@.len(),
        forall|k: int|
            (if cs@[start as int] == '-' { start + 1 } else { start as int }) <= k < end
                ==> is_digit(#[trigger] cs@[k]),
    ensures
        r == integer_value(cs@.subrange(start as int, end as int)),
{
    let negative = cs[start] == '-';
    let first = if negative { start + 1 } else { start };
    let ghost text = cs@.subrange(start as int, end as int);
    let ghost digits = cs@.subrange(first as int, end as int);
    assert(negative ==> digits =~= text.drop_first());
    assert(!negative ==> digits =~= text);
    let mut acc: u64 = 0;
    let mut over = false;
    let mut k = first;
    while k < end
        invariant
            first <= k <= end <= cs@.len(),
            forall|m: int| first <= m < end ==> is_digit(#[trigger] cs@[m]),
            over ==> digits_value(cs@.subrange(first as int, k as int)) > 2147483648,
            !over ==> acc == digits_value(cs@.subrange(first as int, k as int)),
            !over ==> acc <= 2147483648,
        decreases end - k,
    {
        let d = (cs[k] as u32 - '0' as u32) as u64;
        let ghost prev = cs@.subrange(first as int, k as int);
        assert(cs@.subrange(first as int, k + 1).drop_last() =~= prev);
        assert(cs@.subrange(first as int, k + 1).last() == cs@[k as int]);
        if !over {
            acc = acc * 10 + d;
            if acc > 2147483648 {
                over = true;
            }
        }
        k = k + 1;
    }
    assert(cs@.subrange(first as int, end as int) =~= digits);
    if over {
        None
    } else if negative {
        Some((0 - acc as i64) as i32)
    } else if acc <= 2147483647 {
        Some(acc as i32)
    } else {
        None
    }
}

/// Builds the token of kind `kind` whose text is `cs[start..end]`.
fn make_token(cs: &[char], kind: Kind, start: usize, end: usize) -> (t: Token)
    requires
        cs@.len() <= usize::MAX / 4,
        start < end <= cs@.len(),
        (kind, end - start) == scan(cs@, start as int),
    ensures
        denotes(t, kind, cs@.subrange(start as int, end as int)),
{
    reveal(denotes);
    proof {
        lemma_scan_literal_len(cs@, start as int);
    }
    let ghost text = cs@.subrange(start as int, end as int);
    match kind {
        Kind::Space => Token::Space(end - start),
        Kind::UpperPath => Token::UpperPath(string_from_range(cs, start, end)),
        Kind::UpperName => Token::UpperName(string_from_range(cs, start, end)),
        Kind::LowerPath => Token::LowerPath(string_from_range(cs, start, end)),
        Kind::LowerName => Token::LowerName(string_from_range(cs, start, end)),
        Kind::Operator => Token::Operator(string_from_range(cs, start, end)),
        Kind::SingleLineComment => Token::SingleLineComment(string_from_range(cs, start, end)),
        Kind::MultiLineComment => Token::MultiLineComment(string_from_range(cs, start, end)),
        Kind::WebGL => Token::WebGL(string_from_range(cs, start, end)),
        Kind::LiteralFloat => Token::LiteralFloat(FloatLiteral(string_from_range(cs, start, end))),
        Kind::LiteralString => {
            let s = string_from_range(cs, start + 1, end - 1);
            assert(s@ =~= text.subrange(1, text.len() - 1));
            Token::LiteralString(s)
        },
        Kind::LiteralChar => {
            let s = string_from_range(cs, start + 1, end - 1);
            assert(s@ =~= text.subrange(1, text.len() - 1));
            Token::LiteralChar(s)
        },
        Kind::LiteralInteger => {
            proof {
                lemma_integer_digits(cs@, start as int, end as int);
            }
            match integer_value_of(cs, start, end) {
                Some(v) => Token::LiteralInteger(v),
                None => Token::Error,
            }
        },
        Kind::Module => Token::Module,
        Kind::Port => Token::Port,
        Kind::Type => Token::Type,
        Kind::Alias => Token::Alias,
        Kind::Exposing => Token::Exposing,
        Kind::As => Token::As,
        Kind::Import => Token::Import,
        Kind::Case => Token::Case,
        Kind::Of => Token::Of,
        Kind::Let => Token::Let,
        Kind::In => Token::In,
        Kind::If => Token::If,
        Kind::Then => Token::Then,
        Kind::Else => Token::Else,
        Kind::Infix => Token::Infix,
        Kind::OpenParen => Token::OpenParen,
        Kind::CloseParen => Token::CloseParen,
        Kind::OpenBracket => Token::OpenBracket,
        Kind::CloseBracket => Token::CloseBracket,
        Kind::OpenBrace => Token::OpenBrace,
        Kind::CloseBrace => Token::CloseBrace,
        Kind::NewLine => Token::NewLine,
        Kind::Bar => Token::Bar,
        Kind::Comma => Token::Comma,
        Kind::Point => Token::Point,
        Kind::Ellipsis => Token::Ellipsis,
        Kind::Equals => Token::Equals,
        Kind::Colon => Token::Colon,
        Kind::BackSlash => Token::BackSlash,
        Kind::RightArrow => Token::RightArrow,
        Kind::Error => Token::Error,
    }
}

proof fn lemma_scan_literal_len(cs: Seq<char>, i: int)
    requires
        0 <= i < cs.len(),
    ensures
        (scan(cs, i).0 == Kind::LiteralString || scan(cs, i).0 == Kind::LiteralChar) ==> scan(
            cs,
            i,
        ).1 >= 2,
{
    reveal(scan);
}

proof fn lemma_integer_digits(cs: Seq<char>, start: int, end: int)
    requires
        0 <= start < end <= cs.len(),
        (Kind::LiteralInteger, end - start) == scan(cs, start),
    ensures
        forall|k: int|
            (if cs[start] == '-' { start + 1 } else { start }) <= k < end ==> is_digit(
                #[trigger] cs[k],
            ),
{
    reveal(scan);
    if cs[start] == '-' {
        assert forall|k: int| start + 1 <= k < end implies is_digit(#[trigger] cs[k]) by {
            lemma_run_inside(cs, start + 1, Class::Digit, k);
        }
    } else {
        assert forall|k: int| start <= k < end implies is_digit(#[trigger] cs[k]) by {
            lemma_run_inside(cs, start, Class::Digit, k);
        }
    }
}

/// The token `t`, with byte range `r`, is the one the span `span` of `cs` yields.
pub open spec fn token_for_span(cs: Seq<char>, t: SrcToken, span: (Kind, int, int)) -> bool {
    &&& denotes(t.0, span.0, cs.subrange(span.1, span.2))
    &&& t.1.start == byte_offset(cs, span.1)
    &&& t.1.end == byte_offset(cs, span.2)
}

/// Splits `source` into tokens, each with its byte range in `source`.
///
/// The tokens are those of `lex_from(source@, 0)`, in order: each token is the one its rule
/// yields for its text, and its range is the byte range of that text. The ranges start at 0,
/// follow one another without gap or overlap, and end at the byte length of the source.
pub fn lex(source: &str) -> (tokens: Vec<SrcToken>)
    requires
        source@.len() <= usize::MAX / 4,
    ensures
        tokens@.len() == lex_from(source@, 0).len(),
        forall|k: int|
            0 <= k < tokens@.len() ==> token_for_span(
                source@,
                #[trigger] tokens@[k],
                lex_from(source@, 0)[k],
            ),
        tokens@.len() > 0 ==> tokens@[0].1.start == 0,
        tokens@.len() > 0 ==> tokens@.last().1.end == byte_len(source@),
        forall|k: int|
            0 <= k < tokens@.len() - 1 ==> #[trigger] tokens@[k].1.end == tokens@[k + 1].1.start,
        forall|k: int| 0 <= k < tokens@.len() ==> #[trigger] tokens@[k].1.start < tokens@[k].1.end,
{
    let cs = chars_of(source);
    let ghost all = lex_from(cs@, 0);
    proof {
        lemma_byte_len_bound(cs@);
    }
    let mut tokens: Vec<SrcToken> = Vec::new();
    let mut i: usize = 0;
    let mut offset: usize = 0;
    assert(all.subrange(0, all.len() as int) =~= all);
    assert(cs@.take(0) =~= Seq::<char>::empty());
    while i < cs.len()
        invariant
            cs@ == source@,
            cs@.len() <= usize::MAX / 4,
            i <= cs@.len(),
            offset == byte_offset(cs@, i as int),
            all == lex_from(cs@, 0),
            tokens@.len() <= all.len(),
            all.subrange(tokens@.len() as int, all.len() as int) == lex_from(cs@, i as int),
            forall|k: int|
                0 <= k < tokens@.len() ==> token_for_span(cs@, #[trigger] tokens@[k], all[k]),
        decreases cs@.len() - i,
    {
        let (kind, n) = scan_at(cs.as_slice(), i);
        let end = i + n;
        let ghost here = lex_from(cs@, i as int);
        let ghost done = tokens@.len() as int;
        assert(here == seq![(kind, i as int, end as int)] + lex_from(cs@, end as int));
        assert(all[done] == here[0]);
        let token = make_token(cs.as_slice(), kind, i, end);
        let end_offset = advance_offset(cs.as_slice(), i, end, offset);
        tokens.push((token, Range { start: offset, end: end_offset }));
        assert(all.subrange(done + 1, all.len() as int) =~= here.subrange(1, here.len() as int));
        assert(here.subrange(1, here.len() as int) =~= lex_from(cs@, end as int));
        offset = end_offset;
        i = end;
    }
    proof {
        lemma_lex_tokens_cover(cs@, tokens@);
    }
    tokens
}

proof fn lemma_lex_tokens_cover(cs: Seq<char>, t: Seq<SrcToken>)
    requires
        t.len() == lex_from(cs, 0).len(),
        forall|k: int| 0 <= k < t.len() ==> token_for_span(cs, #[trigger] t[k], lex_from(cs, 0)[k]),
    ensures
        t.len() > 0 ==> t[0].1.start == 0,
        t.len() > 0 ==> t.last().1.end == byte_len(cs),
        forall|k: int| 0 <= k < t.len() - 1 ==> #[trigger] t[k].1.end == t[k + 1].1.start,
        forall|k: int| 0 <= k < t.len() ==> #[trigger] t[k].1.start < t[k].1.end,
{
    let all = lex_from(cs, 0);
    lemma_lex_spans_cover(cs, 0);
    assert forall|k: int| 0 <= k < t.len() - 1 implies #[trigger] t[k].1.end == t[k + 1].1.start by {
        assert(token_for_span(cs, t[k], all[k]));
        assert(token_for_span(cs, t[k + 1], all[k + 1]));
        assert(all[k].2 == all[k + 1].1);
    }
    assert forall|k: int| 0 <= k < t.len() implies #[trigger] t[k].1.start < t[k].1.end by {
        assert(token_for_span(cs, t[k], all[k]));
        assert(all[k].1 < all[k].2);
        lemma_byte_offset_strict(cs, all[k].1, all[k].2);
    }
    if t.len() > 0 {
        assert(token_for_span(cs, t[0], all[0]));
        assert(token_for_span(cs, t[t.len() - 1], all[t.len() - 1]));
        assert(cs.take(0) =~= Seq::<char>::empty());
        assert(all.last() == all[t.len() - 1]);
        assert(cs.take(cs.len() as int) =~= cs);
    }
}

fn advance_offset(cs: &[char], start: usize, end: usize, offset: usize) -> (r: usize)
    requires
        cs@.len() <= usize::MAX / 4,
        start <= end <= cs@.len(),
        offset == byte_offset(cs@, start as int),
    ensures
        r == byte_offset(cs@, end as int),
{
    let mut r = offset;
    let mut k = start;
    while k < end
        invariant
            start <= k <= end <= cs@.len(),
            cs@.len() <= usize::MAX / 4,
            r == byte_offset(cs@, k as int),
        decreases end - k,
    {
        proof {
            assert(cs@.take(k + 1).drop_last() =~= cs@.take(k as int));
            lemma_byte_len_bound(cs@.take(k + 1));
        }
        r = r + utf8_width(cs[k]);
        k = k + 1;
    }
    r
}

proof fn lemma_byte_offset_strict(cs: Seq<char>, a: int, b: int)
    requires
        0 <= a < b <= cs.len(),
    ensures
        byte_offset(cs, a) < byte_offset(cs, b),
    decreases b - a,
{
    assert(cs.take(b).drop_last() =~= cs.take(b - 1));
    if a < b - 1 {
        lemma_byte_offset_strict(cs, a, b - 1);
    }
}

/// The rule a token comes from.
pub open spec fn token_kind(t: Token) -> Kind {
    match t {
        Token::Module => Kind::Module,
        Token::Port => Kind::Port,
        Token::Type => Kind::Type,
        Token::Alias => Kind::Alias,
        Token::Exposing => Kind::Exposing,
        Token::As => Kind::As,
        Token::Import => Kind::Import,
        Token::Case => Kind::Case,
        Token::Of => Kind::Of,
        Token::Let => Kind::Let,
        Token::In => Kind::In,
        Token::If => Kind::If,
        Token::Then => Kind::Then,
        Token::Else => Kind::Else,
        Token::Infix => Kind::Infix,
        Token::OpenParen => Kind::OpenParen,
        Token::CloseParen => Kind::CloseParen,
        Token::OpenBracket => Kind::OpenBracket,
        Token::CloseBracket => Kind::CloseBracket,
        Token::OpenBrace => Kind::OpenBrace,
        Token::CloseBrace => Kind::CloseBrace,
        Token::Space(..) => Kind::Space,
        Token::NewLine => Kind::NewLine,
        Token::Bar => Kind::Bar,
        Token::Comma => Kind::Comma,
        Token::Point => Kind::Point,
        Token::Ellipsis => Kind::Ellipsis,
        Token::Equals => Kind::Equals,
        Token::Colon => Kind::Colon,
        Token::BackSlash => Kind::BackSlash,
        Token::RightArrow => Kind::RightArrow,
        Token::UpperPath(..) => Kind::UpperPath,
        Token::UpperName(..) => Kind::UpperName,
        Token::LowerPath(..) => Kind::LowerPath,
        Token::LowerName(..) => Kind::LowerName,
        Token::Operator(..) => Kind::Operator,
        Token::SingleLineComment(..) => Kind::SingleLineComment,
        Token::MultiLineComment(..) => Kind::MultiLineComment,
        Token::WebGL(..) => Kind::WebGL,
        Token::LiteralInteger(..) => Kind::LiteralInteger,
        Token::LiteralFloat(..) => Kind::LiteralFloat,
        Token::LiteralString(..) => Kind::LiteralString,
        Token::LiteralChar(..) => Kind::LiteralChar,
        Token::Error => Kind::Error,
    }
}

/// Two tokens are the same token: same rule, same payload.
pub open spec fn same_token(a: Token, b: Token) -> bool {
    match (a, b) {
        (Token::UpperPath(x), Token::UpperPath(y)) => x@ == y@,
        (Token::UpperName(x), Token::UpperName(y)) => x@ == y@,
        (Token::LowerPath(x), Token::LowerPath(y)) => x@ == y@,
        (Token::LowerName(x), Token::LowerName(y)) => x@ == y@,
        (Token::Operator(x), Token::Operator(y)) => x@ == y@,
        (Token::SingleLineComment(x), Token::SingleLineComment(y)) => x@ == y@,
        (Token::MultiLineComment(x), Token::MultiLineComment(y)) => x@ == y@,
        (Token::WebGL(x), Token::WebGL(y)) => x@ == y@,
        (Token::LiteralString(x), Token::LiteralString(y)) => x@ == y@,
        (Token::LiteralChar(x), Token::LiteralChar(y)) => x@ == y@,
        (Token::Space(x), Token::Space(y)) => x == y,
        (Token::LiteralInteger(x), Token::LiteralInteger(y)) => x == y,
        (Token::LiteralFloat(x), Token::LiteralFloat(y)) => x.0@ == y.0@,
        _ => token_kind(a) == token_kind(b) && !has_payload(token_kind(a)),
    }
}

/// Tokens of this rule carry a payload.
pub open spec fn has_payload(k: Kind) -> bool {
    k == Kind::UpperPath || k == Kind::UpperName || k == Kind::LowerPath || k == Kind::LowerName || k == Kind::Operator || k == Kind::SingleLineComment || k == Kind::MultiLineComment || k == Kind::WebGL || k == Kind::LiteralString || k == Kind::LiteralChar || k == Kind::Space || k == Kind::LiteralInteger || k == Kind::LiteralFloat
}

impl Token {
    /// The rule this token comes from.
    pub fn kind(&self) -> (r: Kind)
        ensures
            r == token_kind(*self),
    {
        match self {
            Token::Module => Kind::Module,
            Token::Port => Kind::Port,
            Token::Type => Kind::Type,
            Token::Alias => Kind::Alias,
            Token::Exposing => Kind::Exposing,
            Token::As => Kind::As,
            Token::Import => Kind::Import,
            Token::Case => Kind::Case,
            Token::Of => Kind::Of,
            Token::Let => Kind::Let,
            Token::In => Kind::In,
            Token::If => Kind::If,
            Token::Then => Kind::Then,
            Token::Else => Kind::Else,
            Token::Infix => Kind::Infix,
            Token::OpenParen => Kind::OpenParen,
            Token::CloseParen => Kind::CloseParen,
            Token::OpenBracket => Kind::OpenBracket,
            Token::CloseBracket => Kind::CloseBracket,
            Token::OpenBrace => Kind::OpenBrace,
            Token::CloseBrace => Kind::CloseBrace,
            Token::Space(..) => Kind::Space,
            Token::NewLine => Kind::NewLine,
            Token::Bar => Kind::Bar,
            Token::Comma => Kind::Comma,
            Token::Point => Kind::Point,
            Token::Ellipsis => Kind::Ellipsis,
            Token::Equals => Kind::Equals,
            Token::Colon => Kind::Colon,
            Token::BackSlash => Kind::BackSlash,
            Token::RightArrow => Kind::RightArrow,
            Token::UpperPath(..) => Kind::UpperPath,
            Token::UpperName(..) => Kind::UpperName,
            Token::LowerPath(..) => Kind::LowerPath,
            Token::LowerName(..) => Kind::LowerName,
            Token::Operator(..) => Kind::Operator,
            Token::SingleLineComment(..) => Kind::SingleLineComment,
            Token::MultiLineComment(..) => Kind::MultiLineComment,
            Token::WebGL(..) => Kind::WebGL,
            Token::LiteralInteger(..) => Kind::LiteralInteger,
            Token::LiteralFloat(..) => Kind::LiteralFloat,
            Token::LiteralString(..) => Kind::LiteralString,
            Token::LiteralChar(..) => Kind::LiteralChar,
            Token::Error => Kind::Error,
        }
    }

    /// A copy of this token.
    pub fn copy(&self) -> (r: Token)
        ensures
            r == *self,
    {
        match self {
            Token::Module => Token::Module,
            Token::Port => Token::Port,
            Token::Type => Token::Type,
            Token::Alias => Token::Alias,
            Token::Exposing => Token::Exposing,
            Token::As => Token::As,
            Token::Import => Token::Import,
            Token::Case => Token::Case,
            Token::Of => Token::Of,
            Token::Let => Token::Let,
            Token::In => Token::In,
            Token::If => Token::If,
            Token::Then => Token::Then,
            Token::Else => Token::Else,
            Token::Infix => Token::Infix,
            Token::OpenParen => Token::OpenParen,
            Token::CloseParen => Token::CloseParen,
            Token::OpenBracket => Token::OpenBracket,
            Token::CloseBracket => Token::CloseBracket,
            Token::OpenBrace => Token::OpenBrace,
            Token::CloseBrace => Token::CloseBrace,
            Token::Space(n) => Token::Space(*n),
            Token::NewLine => Token::NewLine,
            Token::Bar => Token::Bar,
            Token::Comma => Token::Comma,
            Token::Point => Token::Point,
            Token::Ellipsis => Token::Ellipsis,
            Token::Equals => Token::Equals,
            Token::Colon => Token::Colon,
            Token::BackSlash => Token::BackSlash,
            Token::RightArrow => Token::RightArrow,
            Token::UpperPath(s) => Token::UpperPath(s.clone()),
            Token::UpperName(s) => Token::UpperName(s.clone()),
            Token::LowerPath(s) => Token::LowerPath(s.clone()),
            Token::LowerName(s) => Token::LowerName(s.clone()),
            Token::Operator(s) => Token::Operator(s.clone()),
            Token::SingleLineComment(s) => Token::SingleLineComment(s.clone()),
            Token::MultiLineComment(s) => Token::MultiLineComment(s.clone()),
            Token::WebGL(s) => Token::WebGL(s.clone()),
            Token::LiteralInteger(v) => Token::LiteralInteger(*v),
            Token::LiteralFloat(f) => Token::LiteralFloat(FloatLiteral(f.0.clone())),
            Token::LiteralString(s) => Token::LiteralString(s.clone()),
            Token::LiteralChar(s) => Token::LiteralChar(s.clone()),
            Token::Error => Token::Error,
        }
    }

    /// Whether `self` and `other` are the same token.
    pub fn same(&self, other: &Token) -> (r: bool)
        ensures
            r == same_token(*self, *other),
    {
        match (self, other) {
            (Token::UpperPath(x), Token::UpperPath(y)) => crate::text::str_eq(x.as_str(), y.as_str()),
            (Token::UpperName(x), Token::UpperName(y)) => crate::text::str_eq(x.as_str(), y.as_str()),
            (Token::LowerPath(x), Token::LowerPath(y)) => crate::text::str_eq(x.as_str(), y.as_str()),
            (Token::LowerName(x), Token::LowerName(y)) => crate::text::str_eq(x.as_str(), y.as_str()),
            (Token::Operator(x), Token::Operator(y)) => crate::text::str_eq(x.as_str(), y.as_str()),
            (Token::SingleLineComment(x), Token::SingleLineComment(y)) => crate::text::str_eq(x.as_str(), y.as_str()),
            (Token::MultiLineComment(x), Token::MultiLineComment(y)) => crate::text::str_eq(x.as_str(), y.as_str()),
            (Token::WebGL(x), Token::WebGL(y)) => crate::text::str_eq(x.as_str(), y.as_str()),
            (Token::LiteralString(x), Token::LiteralString(y)) => crate::text::str_eq(x.as_str(), y.as_str()),
            (Token::LiteralChar(x), Token::LiteralChar(y)) => crate::text::str_eq(x.as_str(), y.as_str()),
            (Token::Space(x), Token::Space(y)) => *x == *y,
            (Token::LiteralInteger(x), Token::LiteralInteger(y)) => *x == *y,
            (Token::LiteralFloat(x), Token::LiteralFloat(y)) => crate::text::str_eq(x.0.as_str(), y.0.as_str()),
            _ => {
                let k = self.kind();
                k == other.kind() && !(k == Kind::UpperPath || k == Kind::UpperName || k == Kind::LowerPath || k == Kind::LowerName || k == Kind::Operator || k == Kind::SingleLineComment || k == Kind::MultiLineComment || k == Kind::WebGL || k == Kind::LiteralString || k == Kind::LiteralChar || k == Kind::Space || k == Kind::LiteralInteger || k == Kind::LiteralFloat)
            },
        }
    }
}

// ---------------------------------------------------------------------------------------------
// A stream of tokens
// ---------------------------------------------------------------------------------------------
/// The tokens of a source text and the position of the next one to read.
pub struct TokenIter {
    pub tokens: Vec<SrcToken>,
    pub pos: usize,
}

/// A copy of a token with its range.
pub fn copy_src_token(t: &SrcToken) -> (r: SrcToken)
    ensures
        r == *t,
{
    (t.0.copy(), Range { start: t.1.start, end: t.1.end })
}

/// `new` reads the same tokens as `old`, from the same position or a later one.
pub open spec fn advanced(old: TokenIter, new: TokenIter) -> bool {
    &&& new.tokens@ == old.tokens@
    &&& old.pos <= new.pos <= new.tokens@.len()
}

impl TokenIter {
    pub open spec fn wf(&self) -> bool {
        self.pos <= self.tokens@.len()
    }

    /// The token that `next` would return.
    pub open spec fn current(&self) -> Option<SrcToken> {
        if self.pos < self.tokens@.len() {
            Some(self.tokens@[self.pos as int])
        } else {
            None
        }
    }

    /// A stream that reads `tokens` from the first one.
    pub fn new(tokens: Vec<SrcToken>) -> (r: TokenIter)
        ensures
            r.tokens@ == tokens@,
            r.pos == 0,
    {
        TokenIter { tokens, pos: 0 }
    }

    /// The stream of the tokens of `source`.
    pub fn from_source(source: &str) -> (r: TokenIter)
        requires
            source@.len() <= usize::MAX / 4,
        ensures
            r.pos == 0,
            r.tokens@.len() == lex_from(source@, 0).len(),
            forall|k: int|
                0 <= k < r.tokens@.len() ==> token_for_span(
                    source@,
                    #[trigger] r.tokens@[k],
                    lex_from(source@, 0)[k],
                ),
    {
        TokenIter::new(lex(source))
    }

    /// The next token, without moving past it.
    pub fn peek(&self) -> (r: Option<&SrcToken>)
        requires
            self.wf(),
        ensures
            (r is Some) == (self.current() is Some),
            r matches Some(t) ==> Some(*t) == self.current(),
    {
        if self.pos < self.tokens.len() {
            Some(&self.tokens[self.pos])
        } else {
            None
        }
    }

    /// The next token; the stream moves past it.
    pub fn next(&mut self) -> (r: Option<SrcToken>)
        requires
            old(self).wf(),
        ensures
            r == old(self).current(),
            final(self).tokens@ == old(self).tokens@,
            final(self).pos == (if r is Some {
                old(self).pos + 1
            } else {
                old(self).pos as int
            }),
    {
        if self.pos < self.tokens.len() {
            let t = copy_src_token(&self.tokens[self.pos]);
            self.pos = self.pos + 1;
            Some(t)
        } else {
            None
        }
    }
}

// ---------------------------------------------------------------------------------------------
// Rendering
// ---------------------------------------------------------------------------------------------
/// The `Debug` text of a string: `str`'s `Debug` formatting.
pub uninterp spec fn debug_str(s: Seq<char>) -> Seq<char>;

/// Renders `s` as `format!("{:?}", s)` does: quoted, with escapes.
#[verifier::external_body]
pub(crate) fn debug_string(s: &str) -> (r: String)
    ensures
        r@ == debug_str(s@),
{
    format!("{:?}", s)
}

/// `name(debug text of s)`.
pub open spec fn wrapped_debug(name: Seq<char>, s: Seq<char>) -> Seq<char> {
    name + "("@ + debug_str(s) + ")"@
}

fn wrap_debug(name: &str, s: &String) -> (r: String)
    ensures
        r@ == wrapped_debug(name@, s@),
{
    let mut r = owned(name);
    push_str(&mut r, "(");
    let d = debug_string(s.as_str());
    push_str(&mut r, d.as_str());
    push_str(&mut r, ")");
    r
}

impl Token {
    /// The token as it is displayed in messages: its variant name, followed by its payload in
    /// brackets when it has one (strings quoted and escaped, numbers in decimal, float
    /// literals as written).
    pub fn to_text(&self) -> (r: String)
        ensures
            r@ == token_text(*self),
    {
        match self {
            Token::Module => owned("Module"),
            Token::Port => owned("Port"),
            Token::Type => owned("Type"),
            Token::Alias => owned("Alias"),
            Token::Exposing => owned("Exposing"),
            Token::As => owned("As"),
            Token::Import => owned("Import"),
            Token::Case => owned("Case"),
            Token::Of => owned("Of"),
            Token::Let => owned("Let"),
            Token::In => owned("In"),
            Token::If => owned("If"),
            Token::Then => owned("Then"),
            Token::Else => owned("Else"),
            Token::Infix => owned("Infix"),
            Token::OpenParen => owned("OpenParen"),
            Token::CloseParen => owned("CloseParen"),
            Token::OpenBracket => owned("OpenBracket"),
            Token::CloseBracket => owned("CloseBracket"),
            Token::OpenBrace => owned("OpenBrace"),
            Token::CloseBrace => owned("CloseBrace"),
            Token::Space(n) => {
                let mut r = owned("Space(");
                let d = u64_text(*n as u64);
                push_str(&mut r, d.as_str());
                push_str(&mut r, ")");
                r
            },
            Token::NewLine => owned("NewLine"),
            Token::Bar => owned("Bar"),
            Token::Comma => owned("Comma"),
            Token::Point => owned("Point"),
            Token::Ellipsis => owned("Ellipsis"),
            Token::Equals => owned("Equals"),
            Token::Colon => owned("Colon"),
            Token::BackSlash => owned("BackSlash"),
            Token::RightArrow => owned("RightArrow"),
            Token::UpperPath(s) => wrap_debug("UpperPath", s),
            Token::UpperName(s) => wrap_debug("UpperName", s),
            Token::LowerPath(s) => wrap_debug("LowerPath", s),
            Token::LowerName(s) => wrap_debug("LowerName", s),
            Token::Operator(s) => wrap_debug("Operator", s),
            Token::SingleLineComment(s) => wrap_debug("SingleLineComment", s),
            Token::MultiLineComment(s) => wrap_debug("MultiLineComment", s),
            Token::WebGL(s) => wrap_debug("WebGL", s),
            Token::LiteralInteger(v) => {
                let mut r = owned("LiteralInteger(");
                let d = i64_text(*v as i64);
                push_str(&mut r, d.as_str());
                push_str(&mut r, ")");
                r
            },
            Token::LiteralFloat(f) => {
                let mut r = owned("LiteralFloat(");
                push_str(&mut r, f.0.as_str());
                push_str(&mut r, ")");
                r
            },
            Token::LiteralString(s) => wrap_debug("LiteralString", s),
            Token::LiteralChar(s) => wrap_debug("LiteralChar", s),
            Token::Error => owned("Error"),
        }
    }
}

/// The displayed text of a token.
pub open spec fn token_text(t: Token) -> Seq<char> {
    match t {
        Token::Module => "Module"@,
        Token::Port => "Port"@,
        Token::Type => "Type"@,
        Token::Alias => "Alias"@,
        Token::Exposing => "Exposing"@,
        Token::As => "As"@,
        Token::Import => "Import"@,
        Token::Case => "Case"@,
        Token::Of => "Of"@,
        Token::Let => "Let"@,
        Token::In => "In"@,
        Token::If => "If"@,
        Token::Then => "Then"@,
        Token::Else => "Else"@,
        Token::Infix => "Infix"@,
        Token::OpenParen => "OpenParen"@,
        Token::CloseParen => "CloseParen"@,
        Token::OpenBracket => "OpenBracket"@,
        Token::CloseBracket => "CloseBracket"@,
        Token::OpenBrace => "OpenBrace"@,
        Token::CloseBrace => "CloseBrace"@,
        Token::Space(n) => "Space("@ + crate::text::nat_digits(n as nat) + ")"@,
        Token::NewLine => "NewLine"@,
        Token::Bar => "Bar"@,
        Token::Comma => "Comma"@,
        Token::Point => "Point"@,
        Token::Ellipsis => "Ellipsis"@,
        Token::Equals => "Equals"@,
        Token::Colon => "Colon"@,
        Token::BackSlash => "BackSlash"@,
        Token::RightArrow => "RightArrow"@,
        Token::UpperPath(s) => wrapped_debug("UpperPath"@, s@),
        Token::UpperName(s) => wrapped_debug("UpperName"@, s@),
        Token::LowerPath(s) => wrapped_debug("LowerPath"@, s@),
        Token::LowerName(s) => wrapped_debug("LowerName"@, s@),
        Token::Operator(s) => wrapped_debug("Operator"@, s@),
        Token::SingleLineComment(s) => wrapped_debug("SingleLineComment"@, s@),
        Token::MultiLineComment(s) => wrapped_debug("MultiLineComment"@, s@),
        Token::WebGL(s) => wrapped_debug("WebGL"@, s@),
        Token::LiteralInteger(v) => "LiteralInteger("@ + crate::text::int_text(v as int) + ")"@,
        Token::LiteralFloat(f) => "LiteralFloat("@ + f.0@ + ")"@,
        Token::LiteralString(s) => wrapped_debug("LiteralString"@, s@),
        Token::LiteralChar(s) => wrapped_debug("LiteralChar"@, s@),
        Token::Error => "Error"@,
    }
}

} // verus!

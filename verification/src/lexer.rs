//! The lexer: source bytes to tokens.
//!
//! What the lexer produces is defined by `token_at`, a function of the source
//! bytes and a position. `Lexer::next_token` is proved to return exactly that
//! token and to stop exactly where it ends.

use crate::text::{ascii_text, bytes_to_text, lemma_text_of_ascii, str_eq, text_of};
use vstd::prelude::*;
use vstd::string::StringSliceAdditionalSpecFns;

verus! {

// The bytes that the lexer tells apart, by their ASCII codes.
pub const TAB: u8 = 9;

pub const NEWLINE: u8 = 10;

pub const CARRIAGE_RETURN: u8 = 13;

pub const SPACE: u8 = 32;

pub const BANG: u8 = 33;

pub const QUOTE: u8 = 34;

pub const PERCENT: u8 = 37;

pub const LPAREN: u8 = 40;

pub const RPAREN: u8 = 41;

pub const STAR: u8 = 42;

pub const PLUS: u8 = 43;

pub const COMMA: u8 = 44;

pub const MINUS: u8 = 45;

pub const DOT: u8 = 46;

pub const SLASH: u8 = 47;

pub const DIGIT_0: u8 = 48;

pub const DIGIT_9: u8 = 57;

pub const COLON: u8 = 58;

pub const SEMICOLON: u8 = 59;

pub const LESS: u8 = 60;

pub const EQUAL: u8 = 61;

pub const GREATER: u8 = 62;

pub const UPPER_A: u8 = 65;

pub const UPPER_Z: u8 = 90;

pub const LBRACKET: u8 = 91;

pub const BACKSLASH: u8 = 92;

pub const RBRACKET: u8 = 93;

pub const UNDERSCORE: u8 = 95;

pub const LOWER_A: u8 = 97;

pub const LOWER_N: u8 = 110;

pub const LOWER_R: u8 = 114;

pub const LOWER_T: u8 = 116;

pub const LOWER_Z: u8 = 122;

pub const LBRACE: u8 = 123;

pub const RBRACE: u8 = 125;

/// The kinds of tokens.
#[derive(Debug, Clone, Copy, PartialEq, Eq, Hash, Structural)]
pub enum TokenKind {
    // Identifiers & literals
    Identifier,
    Int,
    Float,
    String,
    // Keywords
    KwVar,
    KwFunc,
    KwObject,
    KwOn,
    KwIf,
    KwElif,
    KwElse,
    KwWhile,
    KwFor,
    KwDo,
    KwThen,
    KwEnd,
    KwReturn,
    KwBreak,
    KwContinue,
    KwTrue,
    KwFalse,
    KwNil,
    KwAnd,
    KwOr,
    KwNot,
    // Operators
    Plus,
    Minus,
    Star,
    Slash,
    Percent,
    Equal,
    EqualEqual,
    BangEqual,
    Less,
    LessEqual,
    Greater,
    GreaterEqual,
    PlusEqual,
    MinusEqual,
    StarEqual,
    SlashEqual,
    // Delimiters
    LParen,
    RParen,
    LBrace,
    RBrace,
    LBracket,
    RBracket,
    Comma,
    Dot,
    Colon,
    Semicolon,
    // Special
    /// A byte that starts no token. Its lexeme is the text of that byte.
    Invalid,
    Eof,
}

/// A token: its kind, its text, and the line and column where it starts.
#[derive(Debug, Clone, PartialEq)]
pub struct Token {
    pub kind: TokenKind,
    pub lexeme: String,
    pub line: usize,
    pub column: usize,
}

/// A token as a mathematical value.
pub ghost struct SpecToken {
    pub kind: TokenKind,
    pub lexeme: Seq<char>,
    pub line: nat,
    pub column: nat,
}

impl Token {
    /// This token as a mathematical value.
    pub open spec fn view(&self) -> SpecToken {
        SpecToken {
            kind: self.kind,
            lexeme: self.lexeme@,
            line: self.line as nat,
            column: self.column as nat,
        }
    }

    /// A copy of this token.
    pub fn duplicate(&self) -> (r: Token)
        ensures
            r@ == self@,
    {
        Token { kind: self.kind, lexeme: self.lexeme.clone(), line: self.line, column: self.column }
    }
}

/// The first byte of the source that starts no token.
#[derive(Debug, Clone, Copy, PartialEq, Eq, Structural)]
pub struct LexError {
    pub line: usize,
    pub column: usize,
}

/// A token together with the position just behind it.
pub ghost struct Lexed {
    pub token: SpecToken,
    pub end: int,
}

/// Whether a byte is white space.
pub open spec fn is_space(c: u8) -> bool {
    c == SPACE || c == CARRIAGE_RETURN || c == TAB || c == NEWLINE
}

/// Whether a byte is an ASCII digit.
pub open spec fn is_digit(c: u8) -> bool {
    DIGIT_0 <= c <= DIGIT_9
}

/// Whether a byte can start an identifier: an ASCII letter or `_`.
pub open spec fn is_ident_start(c: u8) -> bool {
    (LOWER_A <= c <= LOWER_Z) || (UPPER_A <= c <= UPPER_Z) || c == UNDERSCORE
}

/// Whether a byte can go on an identifier: an ASCII letter, a digit or `_`.
pub open spec fn is_ident_continue(c: u8) -> bool {
    is_ident_start(c) || is_digit(c)
}

/// The line (counted from 1) of the byte at `pos`.
pub open spec fn line_at(src: Seq<u8>, pos: int) -> nat
    decreases pos,
{
    if pos <= 0 || pos > src.len() {
        1
    } else if src[pos - 1] == NEWLINE {
        line_at(src, pos - 1) + 1
    } else {
        line_at(src, pos - 1)
    }
}

/// The column (counted from 1, in bytes) of the byte at `pos`.
pub open spec fn column_at(src: Seq<u8>, pos: int) -> nat
    decreases pos,
{
    if pos <= 0 || pos > src.len() {
        1
    } else if src[pos - 1] == NEWLINE {
        1
    } else {
        column_at(src, pos - 1) + 1
    }
}

/// Line and column are at least 1 and at most one more than the position.
pub proof fn lemma_line_column_bounds(src: Seq<u8>, pos: int)
    requires
        0 <= pos,
    ensures
        1 <= line_at(src, pos) <= pos + 1,
        1 <= column_at(src, pos) <= pos + 1,
    decreases pos,
{
    if pos > 0 && pos <= src.len() {
        lemma_line_column_bounds(src, pos - 1);
    }
}

/// Where a `//` comment that is open at `pos` ends: at the next newline, which
/// is left in place, or at the end of the source.
pub open spec fn line_comment_end(src: Seq<u8>, pos: int) -> int
    decreases src.len() - pos,
{
    if pos < 0 || pos >= src.len() {
        src.len() as int
    } else if src[pos] == NEWLINE {
        pos
    } else {
        line_comment_end(src, pos + 1)
    }
}

/// Where a `/* */` comment whose body starts at `pos` ends: just behind the
/// first `*/`, or at the end of the source where there is none.
pub open spec fn block_comment_end(src: Seq<u8>, pos: int) -> int
    decreases src.len() - pos,
{
    if pos < 0 || pos >= src.len() {
        src.len() as int
    } else if src[pos] == STAR && pos + 1 < src.len() && src[pos + 1] == SLASH {
        pos + 2
    } else {
        block_comment_end(src, pos + 1)
    }
}

/// A line comment ends at or behind where it is looked at, within the source.
pub proof fn lemma_line_comment_end(src: Seq<u8>, pos: int)
    requires
        0 <= pos <= src.len(),
    ensures
        pos <= line_comment_end(src, pos) <= src.len(),
    decreases src.len() - pos,
{
    if pos < src.len() && src[pos] != NEWLINE {
        lemma_line_comment_end(src, pos + 1);
    }
}

/// A block comment ends at or behind where it is looked at, within the source.
pub proof fn lemma_block_comment_end(src: Seq<u8>, pos: int)
    requires
        0 <= pos <= src.len(),
    ensures
        pos <= block_comment_end(src, pos) <= src.len(),
    decreases src.len() - pos,
{
    if pos < src.len() && !(src[pos] == STAR && pos + 1 < src.len() && src[pos + 1]
        == SLASH) {
        lemma_block_comment_end(src, pos + 1);
    }
}

/// The position of the first byte at or behind `pos` that is neither white
/// space nor part of a comment.
pub open spec fn trivia_end(src: Seq<u8>, pos: int) -> int
    decreases src.len() - pos,
{
    if pos < 0 || pos >= src.len() {
        src.len() as int
    } else if is_space(src[pos]) {
        trivia_end(src, pos + 1)
    } else if src[pos] == SLASH && pos + 1 < src.len() && src[pos + 1] == SLASH {
        proof {
            lemma_line_comment_end(src, pos + 1);
        }
        trivia_end(src, line_comment_end(src, pos + 1))
    } else if src[pos] == SLASH && pos + 1 < src.len() && src[pos + 1] == STAR {
        proof {
            lemma_block_comment_end(src, pos + 2);
        }
        trivia_end(src, block_comment_end(src, pos + 2))
    } else {
        pos
    }
}

/// White space and comments end at or behind where they start, within the
/// source.
pub proof fn lemma_trivia_end(src: Seq<u8>, pos: int)
    requires
        0 <= pos <= src.len(),
    ensures
        pos <= trivia_end(src, pos) <= src.len(),
    decreases src.len() - pos,
{
    if pos >= src.len() {
    } else if is_space(src[pos]) {
        lemma_trivia_end(src, pos + 1);
    } else if src[pos] == SLASH && pos + 1 < src.len() && src[pos + 1] == SLASH {
        lemma_line_comment_end(src, pos + 1);
        lemma_trivia_end(src, line_comment_end(src, pos + 1));
    } else if src[pos] == SLASH && pos + 1 < src.len() && src[pos + 1] == STAR {
        lemma_block_comment_end(src, pos + 2);
        lemma_trivia_end(src, block_comment_end(src, pos + 2));
    }
}

/// The end of the identifier whose later bytes start at `pos`.
pub open spec fn ident_end(src: Seq<u8>, pos: int) -> int
    decreases src.len() - pos,
{
    if pos < 0 || pos >= src.len() {
        src.len() as int
    } else if is_ident_continue(src[pos]) {
        ident_end(src, pos + 1)
    } else {
        pos
    }
}

/// The end of a number whose later bytes start at `pos`, and whether it holds
/// a `.`; `seen_dot` tells whether one came before `pos`. A second `.` ends
/// the number.
pub open spec fn number_end(src: Seq<u8>, pos: int, seen_dot: bool) -> (int, bool)
    decreases src.len() - pos,
{
    if pos < 0 || pos >= src.len() {
        (src.len() as int, seen_dot)
    } else if is_digit(src[pos]) {
        number_end(src, pos + 1, seen_dot)
    } else if src[pos] == DOT && !seen_dot {
        number_end(src, pos + 1, true)
    } else {
        (pos, seen_dot)
    }
}

/// The byte that the escape `\c` stands for.
pub open spec fn unescape(c: u8) -> u8 {
    if c == LOWER_N {
        NEWLINE
    } else if c == LOWER_T {
        TAB
    } else if c == LOWER_R {
        CARRIAGE_RETURN
    } else {
        c
    }
}

/// The rest of a string literal from `pos` on, decoded and put behind `acc`,
/// and the position behind its closing quote. A literal that is not closed
/// runs to the end of the source.
pub open spec fn string_scan(src: Seq<u8>, pos: int, acc: Seq<u8>) -> (Seq<u8>, int)
    decreases src.len() - pos,
{
    if pos < 0 || pos >= src.len() {
        (acc, src.len() as int)
    } else if src[pos] == QUOTE {
        (acc, pos + 1)
    } else if src[pos] == BACKSLASH {
        if pos + 1 < src.len() {
            string_scan(src, pos + 2, acc.push(unescape(src[pos + 1])))
        } else {
            (acc, src.len() as int)
        }
    } else {
        string_scan(src, pos + 1, acc.push(src[pos]))
    }
}

/// An identifier ends at or behind where it is looked at, within the source.
pub proof fn lemma_ident_end(src: Seq<u8>, pos: int)
    requires
        0 <= pos <= src.len(),
    ensures
        pos <= ident_end(src, pos) <= src.len(),
    decreases src.len() - pos,
{
    if pos < src.len() && is_ident_continue(src[pos]) {
        lemma_ident_end(src, pos + 1);
    }
}

/// A number ends at or behind where it is looked at, within the source.
pub proof fn lemma_number_end(src: Seq<u8>, pos: int, seen_dot: bool)
    requires
        0 <= pos <= src.len(),
    ensures
        pos <= number_end(src, pos, seen_dot).0 <= src.len(),
    decreases src.len() - pos,
{
    if pos >= src.len() {
    } else if is_digit(src[pos]) {
        lemma_number_end(src, pos + 1, seen_dot);
    } else if src[pos] == DOT && !seen_dot {
        lemma_number_end(src, pos + 1, true);
    }
}

/// A string literal ends at or behind where it is looked at, within the
/// source.
pub proof fn lemma_string_scan(src: Seq<u8>, pos: int, acc: Seq<u8>)
    requires
        0 <= pos <= src.len(),
    ensures
        pos <= string_scan(src, pos, acc).1 <= src.len(),
    decreases src.len() - pos,
{
    if pos >= src.len() {
    } else if src[pos] == QUOTE {
    } else if src[pos] == BACKSLASH {
        if pos + 1 < src.len() {
            lemma_string_scan(src, pos + 2, acc.push(unescape(src[pos + 1])));
        }
    } else {
        lemma_string_scan(src, pos + 1, acc.push(src[pos]));
    }
}

/// The kind of a word: one of the keywords, else an identifier.
pub open spec fn word_kind(word: Seq<char>) -> TokenKind {
    if word == "var"@ {
        TokenKind::KwVar
    } else if word == "func"@ {
        TokenKind::KwFunc
    } else if word == "object"@ {
        TokenKind::KwObject
    } else if word == "on"@ {
        TokenKind::KwOn
    } else if word == "if"@ {
        TokenKind::KwIf
    } else if word == "elif"@ {
        TokenKind::KwElif
    } else if word == "else"@ {
        TokenKind::KwElse
    } else if word == "while"@ {
        TokenKind::KwWhile
    } else if word == "for"@ {
        TokenKind::KwFor
    } else if word == "do"@ {
        TokenKind::KwDo
    } else if word == "then"@ {
        TokenKind::KwThen
    } else if word == "end"@ {
        TokenKind::KwEnd
    } else if word == "return"@ {
        TokenKind::KwReturn
    } else if word == "break"@ {
        TokenKind::KwBreak
    } else if word == "continue"@ {
        TokenKind::KwContinue
    } else if word == "true"@ {
        TokenKind::KwTrue
    } else if word == "false"@ {
        TokenKind::KwFalse
    } else if word == "nil"@ {
        TokenKind::KwNil
    } else if word == "and"@ {
        TokenKind::KwAnd
    } else if word == "or"@ {
        TokenKind::KwOr
    } else if word == "not"@ {
        TokenKind::KwNot
    } else {
        TokenKind::Identifier
    }
}

/// The operator or delimiter that the byte `c` starts, and its text;
/// `with_equal` tells whether `=` follows. `None` where `c` starts none.
pub open spec fn punctuation(c: u8, with_equal: bool) -> Option<(TokenKind, Seq<char>)> {
    if c == LPAREN {
        Some((TokenKind::LParen, "("@))
    } else if c == RPAREN {
        Some((TokenKind::RParen, ")"@))
    } else if c == LBRACE {
        Some((TokenKind::LBrace, "{"@))
    } else if c == RBRACE {
        Some((TokenKind::RBrace, "}"@))
    } else if c == LBRACKET {
        Some((TokenKind::LBracket, "["@))
    } else if c == RBRACKET {
        Some((TokenKind::RBracket, "]"@))
    } else if c == COMMA {
        Some((TokenKind::Comma, ","@))
    } else if c == DOT {
        Some((TokenKind::Dot, "."@))
    } else if c == COLON {
        Some((TokenKind::Colon, ":"@))
    } else if c == SEMICOLON {
        Some((TokenKind::Semicolon, ";"@))
    } else if c == PERCENT {
        Some((TokenKind::Percent, "%"@))
    } else if c == PLUS {
        Some(if with_equal { (TokenKind::PlusEqual, "+="@) } else { (TokenKind::Plus, "+"@) })
    } else if c == MINUS {
        Some(if with_equal { (TokenKind::MinusEqual, "-="@) } else { (TokenKind::Minus, "-"@) })
    } else if c == STAR {
        Some(if with_equal { (TokenKind::StarEqual, "*="@) } else { (TokenKind::Star, "*"@) })
    } else if c == SLASH {
        Some(if with_equal { (TokenKind::SlashEqual, "/="@) } else { (TokenKind::Slash, "/"@) })
    } else if c == EQUAL {
        Some(if with_equal { (TokenKind::EqualEqual, "=="@) } else { (TokenKind::Equal, "="@) })
    } else if c == BANG {
        Some(if with_equal { (TokenKind::BangEqual, "!="@) } else { (TokenKind::KwNot, "!"@) })
    } else if c == LESS {
        Some(if with_equal { (TokenKind::LessEqual, "<="@) } else { (TokenKind::Less, "<"@) })
    } else if c == GREATER {
        Some(
            if with_equal {
                (TokenKind::GreaterEqual, ">="@)
            } else {
                (TokenKind::Greater, ">"@)
            },
        )
    } else {
        None
    }
}

/// Whether `c` and a following `=` make one operator.
pub open spec fn joins_equal(c: u8) -> bool {
    c == PLUS || c == MINUS || c == STAR || c == SLASH || c == EQUAL || c == BANG || c == LESS
        || c == GREATER
}

/// The token that starts at `start`, where a token does start (no white space
/// or comment lies there, and the source has not ended).
pub open spec fn token_from(src: Seq<u8>, start: int) -> Lexed
    recommends
        start < src.len(),
{
    let c = src[start];
    let line = line_at(src, start);
    let column = column_at(src, start);
    if is_ident_start(c) {
        let end = ident_end(src, start + 1);
        let word = text_of(src.subrange(start, end));
        Lexed { token: SpecToken { kind: word_kind(word), lexeme: word, line, column }, end }
    } else if is_digit(c) {
        let (end, is_float) = number_end(src, start + 1, false);
        Lexed {
            token: SpecToken {
                kind: if is_float {
                    TokenKind::Float
                } else {
                    TokenKind::Int
                },
                lexeme: text_of(src.subrange(start, end)),
                line,
                column,
            },
            end,
        }
    } else if c == QUOTE {
        let (content, end) = string_scan(src, start + 1, Seq::empty());
        Lexed {
            token: SpecToken { kind: TokenKind::String, lexeme: text_of(content), line, column },
            end,
        }
    } else {
        let with_equal = joins_equal(c) && start + 1 < src.len() && src[start + 1] == EQUAL;
        match punctuation(c, with_equal) {
            Some((kind, lexeme)) => Lexed {
                token: SpecToken { kind, lexeme, line, column },
                end: if with_equal {
                    start + 2
                } else {
                    start + 1
                },
            },
            None => Lexed {
                token: SpecToken {
                    kind: TokenKind::Invalid,
                    lexeme: text_of(seq![c]),
                    line,
                    column,
                },
                end: start + 1,
            },
        }
    }
}

/// The next token of `src` at or behind `pos`, white space and comments
/// skipped. At the end of the source it is `Eof`, with an empty lexeme.
pub open spec fn token_at(src: Seq<u8>, pos: int) -> Lexed {
    let start = trivia_end(src, pos);
    if start >= src.len() {
        Lexed {
            token: SpecToken {
                kind: TokenKind::Eof,
                lexeme: Seq::empty(),
                line: line_at(src, start),
                column: column_at(src, start),
            },
            end: start,
        }
    } else {
        token_from(src, start)
    }
}

/// The bytes of an identifier are letters, digits and `_`.
pub proof fn lemma_ident_bytes(src: Seq<u8>, pos: int)
    requires
        0 <= pos <= src.len(),
    ensures
        forall|i: int| pos <= i < ident_end(src, pos) ==> is_ident_continue(#[trigger] src[i]),
    decreases src.len() - pos,
{
    if pos < src.len() && is_ident_continue(src[pos]) {
        lemma_ident_bytes(src, pos + 1);
    }
}

/// The bytes of a number are digits and `.`.
pub proof fn lemma_number_bytes(src: Seq<u8>, pos: int, seen_dot: bool)
    requires
        0 <= pos <= src.len(),
    ensures
        forall|i: int|
            pos <= i < number_end(src, pos, seen_dot).0 ==> is_digit(#[trigger] src[i]) || src[i]
                == DOT,
    decreases src.len() - pos,
{
    if pos < src.len() {
        if is_digit(src[pos]) {
            lemma_number_bytes(src, pos + 1, seen_dot);
        } else if src[pos] == DOT && !seen_dot {
            lemma_number_bytes(src, pos + 1, true);
        }
    }
}

/// The lexeme of a keyword, an identifier or a number is its very text in
/// the source, one character for each byte.
pub proof fn lemma_lexeme_is_source_text(src: Seq<u8>, start: int)
    requires
        0 <= start < src.len(),
        is_ident_start(src[start]) || is_digit(src[start]),
    ensures
        start < token_from(src, start).end <= src.len(),
        token_from(src, start).token.lexeme == ascii_text(
            src.subrange(start, token_from(src, start).end),
        ),
{
    let end = token_from(src, start).end;
    if is_ident_start(src[start]) {
        lemma_ident_end(src, start + 1);
        lemma_ident_bytes(src, start + 1);
    } else {
        lemma_number_end(src, start + 1, false);
        lemma_number_bytes(src, start + 1, false);
    }
    let bytes = src.subrange(start, end);
    assert(crate::text::is_ascii_bytes(bytes)) by {
        assert forall|i: int| 0 <= i < bytes.len() implies #[trigger] bytes[i] < 128 by {
            assert(bytes[i] == src[start + i]);
        }
    }
    lemma_text_of_ascii(bytes);
}

/// A token ends behind where the search for it began, within the source; and
/// every token but `Eof` takes up at least one byte.
pub proof fn lemma_token_at(src: Seq<u8>, pos: int)
    requires
        0 <= pos <= src.len(),
    ensures
        pos <= token_at(src, pos).end <= src.len(),
        token_at(src, pos).token.kind != TokenKind::Eof ==> pos < token_at(src, pos).end,
        token_at(src, pos).token.kind == TokenKind::Eof <==> trivia_end(src, pos) >= src.len(),
{
    lemma_trivia_end(src, pos);
    let start = trivia_end(src, pos);
    if start < src.len() {
        lemma_ident_end(src, start + 1);
        lemma_number_end(src, start + 1, false);
        lemma_string_scan(src, start + 1, Seq::empty());
    }
}

/// All tokens of `src` from `pos` on, up to and with the first `Eof`.
pub open spec fn tokens_from(src: Seq<u8>, pos: int) -> Seq<SpecToken>
    decreases src.len() - pos,
{
    let lexed = token_at(src, pos);
    if pos < 0 || pos > src.len() || lexed.token.kind == TokenKind::Eof {
        seq![lexed.token]
    } else {
        proof {
            lemma_token_at(src, pos);
        }
        seq![lexed.token] + tokens_from(src, lexed.end)
    }
}

/// Tells a keyword from an identifier.
pub fn keyword_or_identifier(word: &str) -> (kind: TokenKind)
    ensures
        kind == word_kind(word@),
{
    if str_eq(word, "var") {
        TokenKind::KwVar
    } else if str_eq(word, "func") {
        TokenKind::KwFunc
    } else if str_eq(word, "object") {
        TokenKind::KwObject
    } else if str_eq(word, "on") {
        TokenKind::KwOn
    } else if str_eq(word, "if") {
        TokenKind::KwIf
    } else if str_eq(word, "elif") {
        TokenKind::KwElif
    } else if str_eq(word, "else") {
        TokenKind::KwElse
    } else if str_eq(word, "while") {
        TokenKind::KwWhile
    } else if str_eq(word, "for") {
        TokenKind::KwFor
    } else if str_eq(word, "do") {
        TokenKind::KwDo
    } else if str_eq(word, "then") {
        TokenKind::KwThen
    } else if str_eq(word, "end") {
        TokenKind::KwEnd
    } else if str_eq(word, "return") {
        TokenKind::KwReturn
    } else if str_eq(word, "break") {
        TokenKind::KwBreak
    } else if str_eq(word, "continue") {
        TokenKind::KwContinue
    } else if str_eq(word, "true") {
        TokenKind::KwTrue
    } else if str_eq(word, "false") {
        TokenKind::KwFalse
    } else if str_eq(word, "nil") {
        TokenKind::KwNil
    } else if str_eq(word, "and") {
        TokenKind::KwAnd
    } else if str_eq(word, "or") {
        TokenKind::KwOr
    } else if str_eq(word, "not") {
        TokenKind::KwNot
    } else {
        TokenKind::Identifier
    }
}

fn word_token(buf: Vec<u8>, line: usize, column: usize) -> (token: Token)
    ensures
        token@ == (SpecToken {
            kind: word_kind(text_of(buf@)),
            lexeme: text_of(buf@),
            line: line as nat,
            column: column as nat,
        }),
{
    let s = bytes_to_text(buf);
    let kind = keyword_or_identifier(s.as_str());
    Token { kind, lexeme: s, line, column }
}

fn number_token(buf: Vec<u8>, is_float: bool, line: usize, column: usize) -> (token: Token)
    ensures
        token@ == (SpecToken {
            kind: if is_float {
                TokenKind::Float
            } else {
                TokenKind::Int
            },
            lexeme: text_of(buf@),
            line: line as nat,
            column: column as nat,
        }),
{
    let s = bytes_to_text(buf);
    let kind = if is_float {
        TokenKind::Float
    } else {
        TokenKind::Int
    };
    Token { kind, lexeme: s, line, column }
}

fn string_token(buf: Vec<u8>, line: usize, column: usize) -> (token: Token)
    ensures
        token@ == (SpecToken {
            kind: TokenKind::String,
            lexeme: text_of(buf@),
            line: line as nat,
            column: column as nat,
        }),
{
    let s = bytes_to_text(buf);
    Token { kind: TokenKind::String, lexeme: s, line, column }
}

/// The name of a kind of token, as it stands in messages.
pub open spec fn kind_name(kind: TokenKind) -> Seq<char> {
    match kind {
        TokenKind::Identifier => "Identifier"@,
        TokenKind::Int => "Int"@,
        TokenKind::Float => "Float"@,
        TokenKind::String => "String"@,
        TokenKind::KwVar => "KwVar"@,
        TokenKind::KwFunc => "KwFunc"@,
        TokenKind::KwObject => "KwObject"@,
        TokenKind::KwOn => "KwOn"@,
        TokenKind::KwIf => "KwIf"@,
        TokenKind::KwElif => "KwElif"@,
        TokenKind::KwElse => "KwElse"@,
        TokenKind::KwWhile => "KwWhile"@,
        TokenKind::KwFor => "KwFor"@,
        TokenKind::KwDo => "KwDo"@,
        TokenKind::KwThen => "KwThen"@,
        TokenKind::KwEnd => "KwEnd"@,
        TokenKind::KwReturn => "KwReturn"@,
        TokenKind::KwBreak => "KwBreak"@,
        TokenKind::KwContinue => "KwContinue"@,
        TokenKind::KwTrue => "KwTrue"@,
        TokenKind::KwFalse => "KwFalse"@,
        TokenKind::KwNil => "KwNil"@,
        TokenKind::KwAnd => "KwAnd"@,
        TokenKind::KwOr => "KwOr"@,
        TokenKind::KwNot => "KwNot"@,
        TokenKind::Plus => "Plus"@,
        TokenKind::Minus => "Minus"@,
        TokenKind::Star => "Star"@,
        TokenKind::Slash => "Slash"@,
        TokenKind::Percent => "Percent"@,
        TokenKind::Equal => "Equal"@,
        TokenKind::EqualEqual => "EqualEqual"@,
        TokenKind::BangEqual => "BangEqual"@,
        TokenKind::Less => "Less"@,
        TokenKind::LessEqual => "LessEqual"@,
        TokenKind::Greater => "Greater"@,
        TokenKind::GreaterEqual => "GreaterEqual"@,
        TokenKind::PlusEqual => "PlusEqual"@,
        TokenKind::MinusEqual => "MinusEqual"@,
        TokenKind::StarEqual => "StarEqual"@,
        TokenKind::SlashEqual => "SlashEqual"@,
        TokenKind::LParen => "LParen"@,
        TokenKind::RParen => "RParen"@,
        TokenKind::LBrace => "LBrace"@,
        TokenKind::RBrace => "RBrace"@,
        TokenKind::LBracket => "LBracket"@,
        TokenKind::RBracket => "RBracket"@,
        TokenKind::Comma => "Comma"@,
        TokenKind::Dot => "Dot"@,
        TokenKind::Colon => "Colon"@,
        TokenKind::Semicolon => "Semicolon"@,
        TokenKind::Invalid => "Invalid"@,
        TokenKind::Eof => "Eof"@,
    }
}

/// The name of a kind of token, as it stands in messages.
pub fn name_of_kind(kind: TokenKind) -> (r: &'static str)
    ensures
        r@ == kind_name(kind),
{
    match kind {
        TokenKind::Identifier => "Identifier",
        TokenKind::Int => "Int",
        TokenKind::Float => "Float",
        TokenKind::String => "String",
        TokenKind::KwVar => "KwVar",
        TokenKind::KwFunc => "KwFunc",
        TokenKind::KwObject => "KwObject",
        TokenKind::KwOn => "KwOn",
        TokenKind::KwIf => "KwIf",
        TokenKind::KwElif => "KwElif",
        TokenKind::KwElse => "KwElse",
        TokenKind::KwWhile => "KwWhile",
        TokenKind::KwFor => "KwFor",
        TokenKind::KwDo => "KwDo",
        TokenKind::KwThen => "KwThen",
        TokenKind::KwEnd => "KwEnd",
        TokenKind::KwReturn => "KwReturn",
        TokenKind::KwBreak => "KwBreak",
        TokenKind::KwContinue => "KwContinue",
        TokenKind::KwTrue => "KwTrue",
        TokenKind::KwFalse => "KwFalse",
        TokenKind::KwNil => "KwNil",
        TokenKind::KwAnd => "KwAnd",
        TokenKind::KwOr => "KwOr",
        TokenKind::KwNot => "KwNot",
        TokenKind::Plus => "Plus",
        TokenKind::Minus => "Minus",
        TokenKind::Star => "Star",
        TokenKind::Slash => "Slash",
        TokenKind::Percent => "Percent",
        TokenKind::Equal => "Equal",
        TokenKind::EqualEqual => "EqualEqual",
        TokenKind::BangEqual => "BangEqual",
        TokenKind::Less => "Less",
        TokenKind::LessEqual => "LessEqual",
        TokenKind::Greater => "Greater",
        TokenKind::GreaterEqual => "GreaterEqual",
        TokenKind::PlusEqual => "PlusEqual",
        TokenKind::MinusEqual => "MinusEqual",
        TokenKind::StarEqual => "StarEqual",
        TokenKind::SlashEqual => "SlashEqual",
        TokenKind::LParen => "LParen",
        TokenKind::RParen => "RParen",
        TokenKind::LBrace => "LBrace",
        TokenKind::RBrace => "RBrace",
        TokenKind::LBracket => "LBracket",
        TokenKind::RBracket => "RBracket",
        TokenKind::Comma => "Comma",
        TokenKind::Dot => "Dot",
        TokenKind::Colon => "Colon",
        TokenKind::Semicolon => "Semicolon",
        TokenKind::Invalid => "Invalid",
        TokenKind::Eof => "Eof",
    }
}

/// The views of a list of tokens.
pub open spec fn tokens_view(tokens: Seq<Token>) -> Seq<SpecToken> {
    Seq::new(tokens.len(), |i: int| tokens[i]@)
}

/// The index of the first token at or behind `from` that is `Invalid`, or the
/// number of tokens where there is none.
pub open spec fn first_invalid(tokens: Seq<SpecToken>, from: int) -> int
    decreases tokens.len() - from,
{
    if from < 0 || from >= tokens.len() {
        tokens.len() as int
    } else if tokens[from].kind == TokenKind::Invalid {
        from
    } else {
        first_invalid(tokens, from + 1)
    }
}

/// Splits a source into its tokens, the last of which is `Eof`. Fails at
/// the first byte that starts no token, and at once for a source too long for
/// its bytes to be counted.
pub fn tokenize(source: &str) -> (r: Result<Vec<Token>, LexError>)
    ensures
        ({
            let all = tokens_from(source.spec_bytes(), 0);
            let bad = first_invalid(all, 0);
            match r {
                Ok(tokens) => source.spec_bytes().len() < usize::MAX && bad == all.len()
                    && tokens_view(tokens@) == all,
                Err(e) => if source.spec_bytes().len() < usize::MAX {
                    0 <= bad < all.len() && e.line == all[bad].line && e.column
                        == all[bad].column
                } else {
                    e.line == 1 && e.column == 1
                },
            }
        }),
{
    if source.as_bytes().len() == usize::MAX {
        return Err(LexError { line: 1, column: 1 });
    }
    let mut lexer = Lexer::new(source);
    let tokens = lexer.remaining_tokens();
    let mut i: usize = 0;
    while i < tokens.len()
        invariant
            i <= tokens.len(),
            source.spec_bytes().len() < usize::MAX,
            tokens_view(tokens@) == tokens_from(source.spec_bytes(), 0),
            first_invalid(tokens_view(tokens@), i as int) == first_invalid(
                tokens_view(tokens@),
                0,
            ),
        decreases tokens.len() - i,
    {
        if tokens[i].kind == TokenKind::Invalid {
            return Err(LexError { line: tokens[i].line, column: tokens[i].column });
        }
        i += 1;
    }
    Ok(tokens)
}

/// A lexer: the source, how far it has been read, and the line and column
/// of the next byte.
pub struct Lexer<'a> {
    source: &'a [u8],
    line: usize,
    column: usize,
    pos: usize,
}

impl<'a> Lexer<'a> {
    /// The bytes being read.
    pub closed spec fn source(&self) -> Seq<u8> {
        self.source@
    }

    /// How many bytes have been read.
    pub closed spec fn position(&self) -> int {
        self.pos as int
    }

    /// The position lies within the source, and line and column are those of
    /// the position.
    pub closed spec fn wf(&self) -> bool {
        &&& self.source@.len() < usize::MAX
        &&& self.pos <= self.source@.len()
        &&& self.line == line_at(self.source@, self.pos as int)
        &&& self.column == column_at(self.source@, self.pos as int)
    }

    /// A lexer at the start of `source`.
    pub fn new(source: &'a str) -> (lexer: Self)
        requires
            source.spec_bytes().len() < usize::MAX,
        ensures
            lexer.wf(),
            lexer.source() == source.spec_bytes(),
            lexer.position() == 0,
    {
        Self { source: source.as_bytes(), line: 1, column: 1, pos: 0 }
    }

    /// The line of the next byte to be read, counted from 1.
    pub fn line(&self) -> (r: usize)
        requires
            self.wf(),
        ensures
            r == line_at(self.source(), self.position()),
    {
        self.line
    }

    /// The column of the next byte to be read, counted from 1.
    pub fn column(&self) -> (r: usize)
        requires
            self.wf(),
        ensures
            r == column_at(self.source(), self.position()),
    {
        self.column
    }

    fn peek(&self) -> (r: Option<u8>)
        requires
            self.wf(),
        ensures
            r == (if self.pos < self.source@.len() {
                Some(self.source@[self.pos as int])
            } else {
                None
            }),
    {
        if self.pos < self.source.len() {
            Some(self.source[self.pos])
        } else {
            None
        }
    }

    fn peek_second(&self) -> (r: Option<u8>)
        requires
            self.wf(),
        ensures
            r == (if self.pos + 1 < self.source@.len() {
                Some(self.source@[self.pos + 1])
            } else {
                None
            }),
    {
        if self.pos < self.source.len() && self.pos + 1 < self.source.len() {
            Some(self.source[self.pos + 1])
        } else {
            None
        }
    }

    fn advance(&mut self) -> (r: Option<u8>)
        requires
            old(self).wf(),
        ensures
            final(self).wf(),
            final(self).source == old(self).source,
            old(self).pos < old(self).source@.len() ==> r == Some(
                old(self).source@[old(self).pos as int],
            ) && final(self).pos == old(self).pos + 1,
            old(self).pos >= old(self).source@.len() ==> r is None && final(self).pos == old(
                self,
            ).pos,
    {
        if self.pos < self.source.len() {
            let c = self.source[self.pos];
            proof {
                lemma_line_column_bounds(self.source@, self.pos as int);
            }
            self.pos += 1;
            if c == NEWLINE {
                self.line += 1;
                self.column = 1;
            } else {
                self.column += 1;
            }
            Some(c)
        } else {
            None
        }
    }

    fn match_next(&mut self, expected: u8) -> (r: bool)
        requires
            old(self).wf(),
        ensures
            final(self).wf(),
            final(self).source == old(self).source,
            r == (old(self).pos < old(self).source@.len() && old(self).source@[old(
                self,
            ).pos as int] == expected),
            final(self).pos == old(self).pos + (if r {
                1int
            } else {
                0int
            }),
    {
        match self.peek() {
            Some(c) => {
                if c == expected {
                    self.advance();
                    true
                } else {
                    false
                }
            },
            None => false,
        }
    }

    /// Reads the next token.
    pub fn next_token(&mut self) -> (token: Token)
        requires
            old(self).wf(),
        ensures
            final(self).wf(),
            final(self).source() == old(self).source(),
            token@ == token_at(old(self).source(), old(self).position()).token,
            final(self).position() == token_at(old(self).source(), old(self).position()).end,
    {
        self.skip_whitespace_and_comments();
        let start_line = self.line;
        let start_column = self.column;
        let ch = match self.advance() {
            Some(c) => c,
            None => {
                return Token {
                    kind: TokenKind::Eof,
                    lexeme: String::new(),
                    line: start_line,
                    column: start_column,
                };
            },
        };
        if (LOWER_A <= ch && ch <= LOWER_Z) || (UPPER_A <= ch && ch <= UPPER_Z) || ch
            == UNDERSCORE {
            self.lex_identifier_or_keyword(ch, start_line, start_column)
        } else if DIGIT_0 <= ch && ch <= DIGIT_9 {
            self.lex_number(ch, start_line, start_column)
        } else if ch == QUOTE {
            self.lex_string(start_line, start_column)
        } else if ch == LPAREN {
            self.simple_token(TokenKind::LParen, "(", start_line, start_column)
        } else if ch == RPAREN {
            self.simple_token(TokenKind::RParen, ")", start_line, start_column)
        } else if ch == LBRACE {
            self.simple_token(TokenKind::LBrace, "{", start_line, start_column)
        } else if ch == RBRACE {
            self.simple_token(TokenKind::RBrace, "}", start_line, start_column)
        } else if ch == LBRACKET {
            self.simple_token(TokenKind::LBracket, "[", start_line, start_column)
        } else if ch == RBRACKET {
            self.simple_token(TokenKind::RBracket, "]", start_line, start_column)
        } else if ch == COMMA {
            self.simple_token(TokenKind::Comma, ",", start_line, start_column)
        } else if ch == DOT {
            self.simple_token(TokenKind::Dot, ".", start_line, start_column)
        } else if ch == COLON {
            self.simple_token(TokenKind::Colon, ":", start_line, start_column)
        } else if ch == SEMICOLON {
            self.simple_token(TokenKind::Semicolon, ";", start_line, start_column)
        } else if ch == PLUS {
            if self.match_next(EQUAL) {
                self.simple_token(TokenKind::PlusEqual, "+=", start_line, start_column)
            } else {
                self.simple_token(TokenKind::Plus, "+", start_line, start_column)
            }
        } else if ch == MINUS {
            if self.match_next(EQUAL) {
                self.simple_token(TokenKind::MinusEqual, "-=", start_line, start_column)
            } else {
                self.simple_token(TokenKind::Minus, "-", start_line, start_column)
            }
        } else if ch == STAR {
            if self.match_next(EQUAL) {
                self.simple_token(TokenKind::StarEqual, "*=", start_line, start_column)
            } else {
                self.simple_token(TokenKind::Star, "*", start_line, start_column)
            }
        } else if ch == SLASH {
            if self.match_next(EQUAL) {
                self.simple_token(TokenKind::SlashEqual, "/=", start_line, start_column)
            } else {
                self.simple_token(TokenKind::Slash, "/", start_line, start_column)
            }
        } else if ch == PERCENT {
            self.simple_token(TokenKind::Percent, "%", start_line, start_column)
        } else if ch == EQUAL {
            if self.match_next(EQUAL) {
                self.simple_token(TokenKind::EqualEqual, "==", start_line, start_column)
            } else {
                self.simple_token(TokenKind::Equal, "=", start_line, start_column)
            }
        } else if ch == BANG {
            if self.match_next(EQUAL) {
                self.simple_token(TokenKind::BangEqual, "!=", start_line, start_column)
            } else {
                self.simple_token(TokenKind::KwNot, "!", start_line, start_column)
            }
        } else if ch == LESS {
            if self.match_next(EQUAL) {
                self.simple_token(TokenKind::LessEqual, "<=", start_line, start_column)
            } else {
                self.simple_token(TokenKind::Less, "<", start_line, start_column)
            }
        } else if ch == GREATER {
            if self.match_next(EQUAL) {
                self.simple_token(TokenKind::GreaterEqual, ">=", start_line, start_column)
            } else {
                self.simple_token(TokenKind::Greater, ">", start_line, start_column)
            }
        } else {
            let mut buf: Vec<u8> = Vec::new();
            buf.push(ch);
            assert(buf@ =~= seq![ch]);
            Token {
                kind: TokenKind::Invalid,
                lexeme: bytes_to_text(buf),
                line: start_line,
                column: start_column,
            }
        }
    }

    /// Reads all tokens that are left, up to and with `Eof`.
    pub fn remaining_tokens(&mut self) -> (tokens: Vec<Token>)
        requires
            old(self).wf(),
        ensures
            final(self).wf(),
            final(self).source() == old(self).source(),
            tokens_view(tokens@) == tokens_from(old(self).source(), old(self).position()),
            tokens.len() >= 1,
            tokens[tokens.len() - 1].kind == TokenKind::Eof,
            forall|i: int| 0 <= i < tokens.len() - 1 ==> tokens[i].kind != TokenKind::Eof,
    {
        let mut tokens: Vec<Token> = Vec::new();
        loop
            invariant
                self.wf(),
                self.source == old(self).source,
                tokens_view(tokens@) + tokens_from(self.source@, self.pos as int) == tokens_from(
                    old(self).source@,
                    old(self).pos as int,
                ),
                forall|i: int| 0 <= i < tokens.len() ==> tokens[i].kind != TokenKind::Eof,
            decreases self.source@.len() - self.pos,
        {
            let ghost before = self.pos as int;
            proof {
                lemma_token_at(self.source@, before);
            }
            let token = self.next_token();
            let last = token.kind == TokenKind::Eof;
            proof {
                let rest = tokens_from(self.source@, before);
                assert(tokens_view(tokens@.push(token)) =~= tokens_view(tokens@).push(token@));
                if last {
                    assert(rest =~= seq![token@]);
                    assert(tokens_view(tokens@).push(token@) =~= tokens_view(tokens@) + rest);
                } else {
                    assert(rest =~= seq![token@] + tokens_from(self.source@, self.pos as int));
                    assert(tokens_view(tokens@).push(token@) + tokens_from(
                        self.source@,
                        self.pos as int,
                    ) =~= tokens_view(tokens@) + rest);
                }
            }
            tokens.push(token);
            if last {
                return tokens;
            }
        }
    }

    fn simple_token(&self, kind: TokenKind, lexeme: &str, line: usize, column: usize) -> (token:
        Token)
        ensures
            token@ == (SpecToken {
                kind,
                lexeme: lexeme@,
                line: line as nat,
                column: column as nat,
            }),
    {
        Token { kind, lexeme: lexeme.to_owned(), line, column }
    }

    fn skip_line_comment(&mut self)
        requires
            old(self).wf(),
        ensures
            final(self).wf(),
            final(self).source == old(self).source,
            final(self).pos == line_comment_end(old(self).source@, old(self).pos as int),
    {
        loop
            invariant
                self.wf(),
                self.source == old(self).source,
                line_comment_end(self.source@, self.pos as int) == line_comment_end(
                    old(self).source@,
                    old(self).pos as int,
                ),
            decreases self.source@.len() - self.pos,
        {
            match self.peek() {
                Some(ch) => {
                    if ch == NEWLINE {
                        return ;
                    }
                    self.advance();
                },
                None => {
                    return ;
                },
            }
        }
    }

    fn skip_block_comment(&mut self)
        requires
            old(self).wf(),
        ensures
            final(self).wf(),
            final(self).source == old(self).source,
            final(self).pos == block_comment_end(old(self).source@, old(self).pos as int),
    {
        loop
            invariant
                self.wf(),
                self.source == old(self).source,
                block_comment_end(self.source@, self.pos as int) == block_comment_end(
                    old(self).source@,
                    old(self).pos as int,
                ),
            decreases self.source@.len() - self.pos,
        {
            match self.peek() {
                Some(ch) => {
                    if ch == STAR && self.peek_second() == Some(SLASH) {
                        self.advance();
                        self.advance();
                        return ;
                    }
                    self.advance();
                },
                None => {
                    return ;
                },
            }
        }
    }

    fn skip_whitespace_and_comments(&mut self)
        requires
            old(self).wf(),
        ensures
            final(self).wf(),
            final(self).source == old(self).source,
            final(self).pos == trivia_end(old(self).source@, old(self).pos as int),
    {
        loop
            invariant
                self.wf(),
                self.source == old(self).source,
                trivia_end(self.source@, self.pos as int) == trivia_end(
                    old(self).source@,
                    old(self).pos as int,
                ),
            decreases self.source@.len() - self.pos,
        {
            let c = self.peek();
            match c {
                Some(ch) => {
                    if ch == SPACE || ch == CARRIAGE_RETURN || ch == TAB || ch == NEWLINE {
                        self.advance();
                    } else if ch == SLASH {
                        let second = self.peek_second();
                        if second == Some(SLASH) {
                            proof {
                                lemma_line_comment_end(self.source@, self.pos + 1);
                            }
                            self.advance();
                            self.skip_line_comment();
                        } else if second == Some(STAR) {
                            proof {
                                lemma_block_comment_end(self.source@, self.pos + 2);
                            }
                            self.advance();
                            self.advance();
                            self.skip_block_comment();
                        } else {
                            return ;
                        }
                    } else {
                        return ;
                    }
                },
                None => {
                    return ;
                },
            }
        }
    }

    fn lex_identifier_or_keyword(&mut self, first: u8, line: usize, column: usize) -> (token:
        Token)
        requires
            old(self).wf(),
            old(self).pos >= 1,
            old(self).source@[old(self).pos - 1] == first,
        ensures
            final(self).wf(),
            final(self).source == old(self).source,
            final(self).pos == ident_end(old(self).source@, old(self).pos as int),
            token@ == ({
                let word = text_of(
                    old(self).source@.subrange(old(self).pos - 1, final(self).pos as int),
                );
                SpecToken {
                    kind: word_kind(word),
                    lexeme: word,
                    line: line as nat,
                    column: column as nat,
                }
            }),
    {
        let mut buf: Vec<u8> = Vec::new();
        buf.push(first);
        loop
            invariant
                self.wf(),
                self.source == old(self).source,
                1 <= old(self).pos <= self.pos,
                ident_end(self.source@, self.pos as int) == ident_end(
                    old(self).source@,
                    old(self).pos as int,
                ),
                buf@ =~= old(self).source@.subrange(old(self).pos - 1, self.pos as int),
            decreases self.source@.len() - self.pos,
        {
            match self.peek() {
                Some(c) => {
                    if (LOWER_A <= c && c <= LOWER_Z) || (UPPER_A <= c && c <= UPPER_Z) || c
                        == UNDERSCORE || (DIGIT_0 <= c && c <= DIGIT_9) {
                        self.advance();
                        buf.push(c);
                    } else {
                        return word_token(buf, line, column);
                    }
                },
                None => {
                    return word_token(buf, line, column);
                },
            }
        }
    }

    fn lex_number(&mut self, first: u8, line: usize, column: usize) -> (token: Token)
        requires
            old(self).wf(),
            old(self).pos >= 1,
            old(self).source@[old(self).pos - 1] == first,
        ensures
            final(self).wf(),
            final(self).source == old(self).source,
            final(self).pos == number_end(old(self).source@, old(self).pos as int, false).0,
            token@ == (SpecToken {
                kind: if number_end(old(self).source@, old(self).pos as int, false).1 {
                    TokenKind::Float
                } else {
                    TokenKind::Int
                },
                lexeme: text_of(
                    old(self).source@.subrange(old(self).pos - 1, final(self).pos as int),
                ),
                line: line as nat,
                column: column as nat,
            }),
    {
        let mut buf: Vec<u8> = Vec::new();
        buf.push(first);
        let mut is_float = false;
        loop
            invariant
                self.wf(),
                self.source == old(self).source,
                1 <= old(self).pos <= self.pos,
                number_end(self.source@, self.pos as int, is_float) == number_end(
                    old(self).source@,
                    old(self).pos as int,
                    false,
                ),
                buf@ =~= old(self).source@.subrange(old(self).pos - 1, self.pos as int),
            decreases self.source@.len() - self.pos,
        {
            match self.peek() {
                Some(c) => {
                    if DIGIT_0 <= c && c <= DIGIT_9 {
                        self.advance();
                        buf.push(c);
                    } else if c == DOT && !is_float {
                        is_float = true;
                        self.advance();
                        buf.push(c);
                    } else {
                        return number_token(buf, is_float, line, column);
                    }
                },
                None => {
                    return number_token(buf, is_float, line, column);
                },
            }
        }
    }

    fn lex_string(&mut self, line: usize, column: usize) -> (token: Token)
        requires
            old(self).wf(),
        ensures
            final(self).wf(),
            final(self).source == old(self).source,
            final(self).pos == string_scan(
                old(self).source@,
                old(self).pos as int,
                Seq::empty(),
            ).1,
            token@ == (SpecToken {
                kind: TokenKind::String,
                lexeme: text_of(
                    string_scan(old(self).source@, old(self).pos as int, Seq::empty()).0,
                ),
                line: line as nat,
                column: column as nat,
            }),
    {
        let mut buf: Vec<u8> = Vec::new();
        loop
            invariant
                self.wf(),
                self.source == old(self).source,
                string_scan(self.source@, self.pos as int, buf@) == string_scan(
                    old(self).source@,
                    old(self).pos as int,
                    Seq::empty(),
                ),
            decreases self.source@.len() - self.pos,
        {
            match self.peek() {
                Some(c) => {
                    self.advance();
                    if c == QUOTE {
                        return string_token(buf, line, column);
                    }
                    if c == BACKSLASH {
                        match self.advance() {
                            Some(esc) => {
                                if esc == LOWER_N {
                                    buf.push(NEWLINE);
                                } else if esc == LOWER_T {
                                    buf.push(TAB);
                                } else if esc == LOWER_R {
                                    buf.push(CARRIAGE_RETURN);
                                } else {
                                    buf.push(esc);
                                }
                            },
                            None => {
                                return string_token(buf, line, column);
                            },
                        }
                    } else {
                        buf.push(c);
                    }
                },
                None => {
                    return string_token(buf, line, column);
                },
            }
        }
    }
}

} // verus!

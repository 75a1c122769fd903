//! Mathematical model of the scan.
//!
//! Everything here is specification-level: character classes, the
//! whitespace-skipping function, maximal runs of letters and digits, the
//! decimal value of a digit string, and `next_token_spec`, which says for
//! every input buffer and cursor position exactly which token the scanner
//! emits and where the cursor stands afterwards.

use vstd::prelude::*;

verus! {

/// Kind of a token, at the specification level.  Identifier and integer
/// payloads are carried as mathematical values (`Seq<char>`, `int`).
pub enum TokenKind {
    /// The input is exhausted.
    Eof,
    /// An unrecognized byte; carries the offending byte.
    Illegal(u8),
    /// A plain identifier; carries its exact spelling.
    Ident(Seq<char>),
    /// An integer literal; carries the parsed value.
    IntLit(int),
    /// A digit run whose value does not fit the token's integer type.
    IntOverflow,
    Assign,
    Plus,
    Minus,
    Bang,
    Asterisk,
    Slash,
    Lt,
    Gt,
    EqEq,
    NotEq,
    Comma,
    Semicolon,
    LParen,
    RParen,
    LBrace,
    RBrace,
    KwLet,
    KwFunction,
    KwIf,
    KwTrue,
    KwFalse,
    KwElse,
    KwReturn,
}

/// One step of the scan: the token's kind and literal text, and the cursor
/// position after the token has been consumed.
pub struct ScanStep {
    pub kind: TokenKind,
    pub lit: Seq<char>,
    pub end: int,
}

pub open spec fn is_whitespace_char(c: char) -> bool {
    c == ' ' || c == '\t' || c == '\n' || c == '\r'
}

pub open spec fn is_letter_char(c: char) -> bool {
    ('a' <= c && c <= 'z') || ('A' <= c && c <= 'Z')
}

pub open spec fn is_digit_char(c: char) -> bool {
    '0' <= c && c <= '9'
}

/// The byte the cursor sees at position `i`: the character's code, or the
/// sentinel 0 past either end of the buffer.
pub open spec fn byte_at(s: Seq<char>, i: int) -> u8 {
    if 0 <= i < s.len() {
        s[i] as u8
    } else {
        0
    }
}

/// First position at or after `pos` that does not hold whitespace
/// (or the end of the buffer).
pub open spec fn skip_ws(s: Seq<char>, pos: int) -> int
    decreases s.len() - pos,
{
    if pos < 0 || pos >= s.len() || !is_whitespace_char(s[pos]) {
        pos
    } else {
        skip_ws(s, pos + 1)
    }
}

/// End of the maximal run of letters starting at `pos`.
pub open spec fn letter_run_end(s: Seq<char>, pos: int) -> int
    decreases s.len() - pos,
{
    if pos < 0 || pos >= s.len() || !is_letter_char(s[pos]) {
        pos
    } else {
        letter_run_end(s, pos + 1)
    }
}

/// End of the maximal run of digits starting at `pos`.
pub open spec fn digit_run_end(s: Seq<char>, pos: int) -> int
    decreases s.len() - pos,
{
    if pos < 0 || pos >= s.len() || !is_digit_char(s[pos]) {
        pos
    } else {
        digit_run_end(s, pos + 1)
    }
}

/// Decimal value of a digit string.
pub open spec fn digits_value(s: Seq<char>) -> int
    decreases s.len(),
{
    if s.len() == 0 {
        0
    } else {
        digits_value(s.drop_last()) * 10 + (s.last() as int - '0' as int)
    }
}

/// The fixed mapping from a single punctuation or operator character to its
/// token kind.  `=` and `!` are listed with the kind they get when the byte
/// after them is not `=`.
pub open spec fn single_char_kind(c: char) -> Option<TokenKind> {
    if c == '=' {
        Some(TokenKind::Assign)
    } else if c == '!' {
        Some(TokenKind::Bang)
    } else if c == '+' {
        Some(TokenKind::Plus)
    } else if c == '-' {
        Some(TokenKind::Minus)
    } else if c == '*' {
        Some(TokenKind::Asterisk)
    } else if c == '/' {
        Some(TokenKind::Slash)
    } else if c == '<' {
        Some(TokenKind::Lt)
    } else if c == '>' {
        Some(TokenKind::Gt)
    } else if c == ',' {
        Some(TokenKind::Comma)
    } else if c == ';' {
        Some(TokenKind::Semicolon)
    } else if c == '(' {
        Some(TokenKind::LParen)
    } else if c == ')' {
        Some(TokenKind::RParen)
    } else if c == '{' {
        Some(TokenKind::LBrace)
    } else if c == '}' {
        Some(TokenKind::RBrace)
    } else {
        None
    }
}

/// The keyword table: the kind reserved for an exact spelling, if any.
/// A miss means the spelling is a plain identifier.
pub open spec fn keyword_kind(s: Seq<char>) -> Option<TokenKind> {
    if s == "let"@ {
        Some(TokenKind::KwLet)
    } else if s == "fn"@ {
        Some(TokenKind::KwFunction)
    } else if s == "if"@ {
        Some(TokenKind::KwIf)
    } else if s == "true"@ {
        Some(TokenKind::KwTrue)
    } else if s == "false"@ {
        Some(TokenKind::KwFalse)
    } else if s == "else"@ {
        Some(TokenKind::KwElse)
    } else if s == "return"@ {
        Some(TokenKind::KwReturn)
    } else {
        None
    }
}

/// Classification of a finished letter run: a keyword-table hit yields the
/// matching keyword kind, a miss yields an identifier carrying the spelling.
pub open spec fn classify_word(s: Seq<char>) -> TokenKind {
    match keyword_kind(s) {
        Some(k) => k,
        None => TokenKind::Ident(s),
    }
}

/// The token found exactly at position `p` (whitespace already skipped),
/// in the scanner's priority order: two-character operators by one-byte
/// lookahead, single-character punctuation, maximal letter runs, maximal
/// digit runs, end of input, and lastly the illegal-byte catch-all.
pub open spec fn token_from(s: Seq<char>, p: int) -> ScanStep {
    if p < 0 || p >= s.len() {
        ScanStep { kind: TokenKind::Eof, lit: ""@, end: p }
    } else {
        let c = s[p];
        if c == '=' {
            if p + 1 < s.len() && s[p + 1] == '=' {
                ScanStep { kind: TokenKind::EqEq, lit: "=="@, end: p + 2 }
            } else {
                ScanStep { kind: TokenKind::Assign, lit: "="@, end: p + 1 }
            }
        } else if c == '!' {
            if p + 1 < s.len() && s[p + 1] == '=' {
                ScanStep { kind: TokenKind::NotEq, lit: "!="@, end: p + 2 }
            } else {
                ScanStep { kind: TokenKind::Bang, lit: "!"@, end: p + 1 }
            }
        } else if single_char_kind(c) is Some {
            ScanStep { kind: single_char_kind(c)->Some_0, lit: s.subrange(p, p + 1), end: p + 1 }
        } else if is_letter_char(c) {
            let e = letter_run_end(s, p);
            let w = s.subrange(p, e);
            ScanStep { kind: classify_word(w), lit: w, end: e }
        } else if is_digit_char(c) {
            let e = digit_run_end(s, p);
            let w = s.subrange(p, e);
            let v = digits_value(w);
            if v <= i64::MAX {
                ScanStep { kind: TokenKind::IntLit(v), lit: w, end: e }
            } else {
                ScanStep { kind: TokenKind::IntOverflow, lit: w, end: e }
            }
        } else {
            ScanStep { kind: TokenKind::Illegal(c as u8), lit: s.subrange(p, p + 1), end: p + 1 }
        }
    }
}

/// `skip_ws` lands between `pos` and the end of the buffer, skips only
/// whitespace, and stops at the first position that holds none.
pub proof fn lemma_skip_ws_props(s: Seq<char>, pos: int)
    requires
        0 <= pos <= s.len(),
    ensures
        pos <= skip_ws(s, pos) <= s.len(),
        forall|j: int| pos <= j < skip_ws(s, pos) ==> is_whitespace_char(s[j]),
        skip_ws(s, pos) == s.len() || !is_whitespace_char(s[skip_ws(s, pos)]),
    decreases s.len() - pos,
{
    if pos < s.len() && is_whitespace_char(s[pos]) {
        lemma_skip_ws_props(s, pos + 1);
    }
}

/// The maximal letter run starting at `pos` lies within the buffer, holds
/// letters only, and is not followed by a letter.
pub proof fn lemma_letter_run_end_props(s: Seq<char>, pos: int)
    requires
        0 <= pos <= s.len(),
    ensures
        pos <= letter_run_end(s, pos) <= s.len(),
        forall|j: int| pos <= j < letter_run_end(s, pos) ==> is_letter_char(s[j]),
        letter_run_end(s, pos) == s.len() || !is_letter_char(s[letter_run_end(s, pos)]),
    decreases s.len() - pos,
{
    if pos < s.len() && is_letter_char(s[pos]) {
        lemma_letter_run_end_props(s, pos + 1);
    }
}

/// The maximal digit run starting at `pos` lies within the buffer, holds
/// digits only, and is not followed by a digit.
pub proof fn lemma_digit_run_end_props(s: Seq<char>, pos: int)
    requires
        0 <= pos <= s.len(),
    ensures
        pos <= digit_run_end(s, pos) <= s.len(),
        forall|j: int| pos <= j < digit_run_end(s, pos) ==> is_digit_char(s[j]),
        digit_run_end(s, pos) == s.len() || !is_digit_char(s[digit_run_end(s, pos)]),
    decreases s.len() - pos,
{
    if pos < s.len() && is_digit_char(s[pos]) {
        lemma_digit_run_end_props(s, pos + 1);
    }
}

/// The token the scanner emits when asked for the next token with the
/// cursor at `pos`: leading whitespace is skipped, then the token at the
/// first non-whitespace position is taken.
pub open spec fn next_token_spec(s: Seq<char>, pos: int) -> ScanStep {
    token_from(s, skip_ws(s, pos))
}

} // verus!

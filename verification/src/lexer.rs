//! The executable scanner.
//!
//! A `Lexer` owns the source buffer and a cursor: the current position, the
//! next-read position, and the byte at the current position, with 0 as the
//! past-the-end sentinel.  `next_token` emits exactly the token that
//! `model::next_token_spec` assigns to the buffer and the cursor, and once
//! the buffer is exhausted the cursor stops advancing.

use vstd::prelude::*;
use vstd::string::StrSliceExecFns;
use vstd::string::StringExecFns;
use crate::model::{
    byte_at, is_whitespace_char, is_letter_char, is_digit_char, skip_ws, letter_run_end,
    digit_run_end, classify_word, digits_value, next_token_spec, lemma_digit_run_end_props,
};
use crate::token::{Token, TokenType};

verus! {

/// Specification-level image of a `Lexer`: the source text and the cursor's
/// current position.
pub struct LexerState {
    pub input: Seq<char>,
    pub pos: int,
}

/// The scanner.  `input` is the complete source buffer, read-only for the
/// scanner's lifetime; the cursor advances monotonically and never moves
/// past the end of the buffer.
pub struct Lexer {
    input: String,
    position: usize,
    read_position: usize,
    ch: u8,
}

impl View for Lexer {
    type V = LexerState;

    closed spec fn view(&self) -> LexerState {
        LexerState { input: self.input@, pos: self.position as int }
    }
}

impl Lexer {
    /// Cursor invariant: the buffer is ASCII, the current position is within
    /// the buffer or just past it, the next-read position is one ahead until
    /// the buffer is exhausted, and `ch` caches the byte at the current
    /// position (0 once past the end).
    pub closed spec fn wf(&self) -> bool {
        &&& vstd::string::string_is_ascii(&self.input)
        &&& self.position <= self.input@.len()
        &&& self.read_position as int == if (self.position as int) < self.input@.len() as int {
            self.position as int + 1
        } else {
            self.position as int
        }
        &&& self.ch == byte_at(self.input@, self.position as int)
    }

    /// Builds a scanner over `input` with the cursor primed on the first
    /// character.
    pub fn new(input: String) -> (lexer: Lexer)
        requires
            input.is_ascii(),
        ensures
            lexer.wf(),
            lexer@.input == input@,
            lexer@.pos == 0,
    {
        let n = input.as_str().unicode_len();
        let ch: u8 = if n > 0 {
            input.as_str().get_ascii(0)
        } else {
            0
        };
        let read_position: usize = if n > 0 {
            1
        } else {
            0
        };
        Lexer { input, position: 0, read_position, ch }
    }

    /// Length of the source buffer.
    fn buf_len(&self) -> (n: usize)
        ensures
            n as int == self@.input.len(),
    {
        self.input.as_str().unicode_len()
    }

    /// Advances the cursor by one character, loading the next byte; once the
    /// buffer is exhausted the cursor stays where it is.
    pub fn read_char(&mut self)
        requires
            old(self).wf(),
        ensures
            final(self).wf(),
            final(self)@.input == old(self)@.input,
            final(self)@.pos == if old(self)@.pos < old(self)@.input.len() {
                old(self)@.pos + 1
            } else {
                old(self)@.pos
            },
    {
        if self.read_position >= self.buf_len() {
            self.ch = 0;
            self.position = self.read_position;
        } else {
            self.ch = self.input.as_str().get_ascii(self.read_position);
            self.position = self.read_position;
            self.read_position = self.position + 1;
        }
    }

    /// Returns the byte at the next-read position without consuming it
    /// (the sentinel 0 when fewer than two characters remain).
    pub fn peek_char(&mut self) -> (b: u8)
        requires
            old(self).wf(),
        ensures
            *final(self) == *old(self),
            b == byte_at(old(self)@.input, old(self)@.pos + 1),
    {
        if self.read_position >= self.buf_len() {
            0
        } else {
            self.input.as_str().get_ascii(self.read_position)
        }
    }

    /// Advances the cursor over the run of whitespace (space, tab, newline,
    /// carriage return) under it, stopping at the first other character or
    /// at the end of the buffer.
    pub fn skip_whitespace(&mut self)
        requires
            old(self).wf(),
        ensures
            final(self).wf(),
            final(self)@.input == old(self)@.input,
            final(self)@.pos == skip_ws(old(self)@.input, old(self)@.pos),
    {
        while self.ch == 32 || self.ch == 9 || self.ch == 10 || self.ch == 13
            invariant
                self.wf(),
                self@.input == old(self)@.input,
                skip_ws(self@.input, old(self)@.pos) == skip_ws(self@.input, self@.pos),
            decreases self@.input.len() - self@.pos,
        {
            proof {
                assert(self@.pos < self@.input.len());
                assert(is_whitespace_char(self@.input[self@.pos]));
            }
            self.read_char();
        }
        proof {
            if self@.pos < self@.input.len() {
                assert(!is_whitespace_char(self@.input[self@.pos]));
            }
        }
    }

    /// Consumes the maximal run of ASCII letters under the cursor and
    /// returns its text.
    pub fn read_identifier(&mut self) -> (ident: String)
        requires
            old(self).wf(),
            old(self)@.pos < old(self)@.input.len(),
            is_letter_char(old(self)@.input[old(self)@.pos]),
        ensures
            final(self).wf(),
            final(self)@.input == old(self)@.input,
            final(self)@.pos == letter_run_end(old(self)@.input, old(self)@.pos),
            ident@ == old(self)@.input.subrange(
                old(self)@.pos,
                letter_run_end(old(self)@.input, old(self)@.pos),
            ),
            ident.is_ascii(),
    {
        let position = self.position;
        while (97 <= self.ch && self.ch <= 122) || (65 <= self.ch && self.ch <= 90)
            invariant
                self.wf(),
                self@.input == old(self)@.input,
                position as int <= self@.pos,
                letter_run_end(self@.input, position as int) == letter_run_end(
                    self@.input,
                    self@.pos,
                ),
            decreases self@.input.len() - self@.pos,
        {
            proof {
                assert(self@.pos < self@.input.len());
                assert(is_letter_char(self@.input[self@.pos]));
            }
            self.read_char();
        }
        proof {
            if self@.pos < self@.input.len() {
                assert(!is_letter_char(self@.input[self@.pos]));
            }
            assert(letter_run_end(self@.input, self@.pos) == self@.pos);
        }
        let ident = self.input.as_str().substring_ascii(position, self.position);
        ident.to_owned()
    }

    /// Consumes the maximal run of ASCII digits under the cursor and
    /// returns its text.
    pub fn read_digit(&mut self) -> (number: String)
        requires
            old(self).wf(),
            old(self)@.pos < old(self)@.input.len(),
            is_digit_char(old(self)@.input[old(self)@.pos]),
        ensures
            final(self).wf(),
            final(self)@.input == old(self)@.input,
            final(self)@.pos == digit_run_end(old(self)@.input, old(self)@.pos),
            number@ == old(self)@.input.subrange(
                old(self)@.pos,
                digit_run_end(old(self)@.input, old(self)@.pos),
            ),
            number.is_ascii(),
    {
        let position = self.position;
        while 48 <= self.ch && self.ch <= 57
            invariant
                self.wf(),
                self@.input == old(self)@.input,
                position as int <= self@.pos,
                digit_run_end(self@.input, position as int) == digit_run_end(
                    self@.input,
                    self@.pos,
                ),
            decreases self@.input.len() - self@.pos,
        {
            proof {
                assert(self@.pos < self@.input.len());
                assert(is_digit_char(self@.input[self@.pos]));
            }
            self.read_char();
        }
        proof {
            if self@.pos < self@.input.len() {
                assert(!is_digit_char(self@.input[self@.pos]));
            }
            assert(digit_run_end(self@.input, self@.pos) == self@.pos);
        }
        let number = self.input.as_str().substring_ascii(position, self.position);
        number.to_owned()
    }

    /// Looks a finished letter run up in the keyword table: a hit yields the
    /// reserved word's kind, a miss yields an identifier carrying the text.
    pub fn lookup_ident(&self, ident: String) -> (t: TokenType)
        ensures
            t@ == classify_word(ident@),
    {
        if ident == String::from_str("let") {
            TokenType::LET
        } else if ident == String::from_str("fn") {
            TokenType::FUNCTION
        } else if ident == String::from_str("if") {
            TokenType::IF
        } else if ident == String::from_str("true") {
            TokenType::TRUE
        } else if ident == String::from_str("false") {
            TokenType::FALSE
        } else if ident == String::from_str("else") {
            TokenType::ELSE
        } else if ident == String::from_str("return") {
            TokenType::RETURN
        } else {
            TokenType::IDENT(ident)
        }
    }

    /// Produces the next token: skips whitespace, then classifies the
    /// character under the cursor in priority order — two-character
    /// operators by one-byte lookahead, single-character punctuation,
    /// maximal letter runs (keyword or identifier), maximal digit runs
    /// (integer literal, or an overflow token when the value does not fit),
    /// end of input, and lastly an illegal-byte token.  The token and the
    /// cursor movement are exactly those of `next_token_spec`.
    pub fn next_token(&mut self) -> (tok: Token)
        requires
            old(self).wf(),
        ensures
            final(self).wf(),
            final(self)@.input == old(self)@.input,
            tok@.kind == next_token_spec(old(self)@.input, old(self)@.pos).kind,
            tok@.lit == next_token_spec(old(self)@.input, old(self)@.pos).lit,
            final(self)@.pos == next_token_spec(old(self)@.input, old(self)@.pos).end,
    {
        self.skip_whitespace();
        let ghost s = self@.input;
        let ghost p = self@.pos;
        match self.ch {
            61 => {  // '='
                let tok: Token;
                let peek_char = self.peek_char();
                if peek_char == 61 {
                    proof {
                        assert(p + 1 < s.len() && s[p + 1] == '=');
                    }
                    tok = Self::new_token(TokenType::EQ, String::from_str("=="));
                    self.read_char();
                } else {
                    proof {
                        assert(!(p + 1 < s.len() && s[p + 1] == '='));
                    }
                    tok = Self::new_token(TokenType::ASSIGN, String::from_str("="));
                }
                self.read_char();
                tok
            }
            33 => {  // '!'
                let tok: Token;
                let peek_char = self.peek_char();
                if peek_char == 61 {
                    proof {
                        assert(p + 1 < s.len() && s[p + 1] == '=');
                    }
                    tok = Self::new_token(TokenType::NotEQ, String::from_str("!="));
                    self.read_char();
                } else {
                    proof {
                        assert(!(p + 1 < s.len() && s[p + 1] == '='));
                    }
                    tok = Self::new_token(TokenType::BANG, String::from_str("!"));
                }
                self.read_char();
                tok
            }
            43 => {  // '+'
                proof {
                    reveal_strlit("+");
                    assert(s.subrange(p, p + 1) =~= "+"@);
                }
                let tok = Self::new_token(TokenType::PLUS, String::from_str("+"));
                self.read_char();
                tok
            }
            44 => {  // ','
                proof {
                    reveal_strlit(",");
                    assert(s.subrange(p, p + 1) =~= ","@);
                }
                let tok = Self::new_token(TokenType::COMMA, String::from_str(","));
                self.read_char();
                tok
            }
            59 => {  // ';'
                proof {
                    reveal_strlit(";");
                    assert(s.subrange(p, p + 1) =~= ";"@);
                }
                let tok = Self::new_token(TokenType::SEMICOLON, String::from_str(";"));
                self.read_char();
                tok
            }
            40 => {  // '('
                proof {
                    reveal_strlit("(");
                    assert(s.subrange(p, p + 1) =~= "("@);
                }
                let tok = Self::new_token(TokenType::LPAREN, String::from_str("("));
                self.read_char();
                tok
            }
            41 => {  // ')'
                proof {
                    reveal_strlit(")");
                    assert(s.subrange(p, p + 1) =~= ")"@);
                }
                let tok = Self::new_token(TokenType::RPAREN, String::from_str(")"));
                self.read_char();
                tok
            }
            123 => {  // '{'
                proof {
                    reveal_strlit("{");
                    assert(s.subrange(p, p + 1) =~= "{"@);
                }
                let tok = Self::new_token(TokenType::LBRACE, String::from_str("{"));
                self.read_char();
                tok
            }
            125 => {  // '}'
                proof {
                    reveal_strlit("}");
                    assert(s.subrange(p, p + 1) =~= "}"@);
                }
                let tok = Self::new_token(TokenType::RBRACE, String::from_str("}"));
                self.read_char();
                tok
            }
            45 => {  // '-'
                proof {
                    reveal_strlit("-");
                    assert(s.subrange(p, p + 1) =~= "-"@);
                }
                let tok = Self::new_token(TokenType::MINUS, String::from_str("-"));
                self.read_char();
                tok
            }
            42 => {  // '*'
                proof {
                    reveal_strlit("*");
                    assert(s.subrange(p, p + 1) =~= "*"@);
                }
                let tok = Self::new_token(TokenType::ASTERISK, String::from_str("*"));
                self.read_char();
                tok
            }
            47 => {  // '/'
                proof {
                    reveal_strlit("/");
                    assert(s.subrange(p, p + 1) =~= "/"@);
                }
                let tok = Self::new_token(TokenType::SLASH, String::from_str("/"));
                self.read_char();
                tok
            }
            60 => {  // '<'
                proof {
                    reveal_strlit("<");
                    assert(s.subrange(p, p + 1) =~= "<"@);
                }
                let tok = Self::new_token(TokenType::LT, String::from_str("<"));
                self.read_char();
                tok
            }
            62 => {  // '>'
                proof {
                    reveal_strlit(">");
                    assert(s.subrange(p, p + 1) =~= ">"@);
                }
                let tok = Self::new_token(TokenType::GT, String::from_str(">"));
                self.read_char();
                tok
            }
            _ => {
                if is_letter_byte(self.ch) {
                    proof {
                        assert(p < s.len() && is_letter_char(s[p]));
                    }
                    let identifier = self.read_identifier();
                    let token_type = self.lookup_ident(identifier.clone());
                    Self::new_token(token_type, identifier)
                } else if is_digit_byte(self.ch) {
                    proof {
                        assert(p < s.len() && is_digit_char(s[p]));
                    }
                    let number = self.read_digit();
                    proof {
                        lemma_digit_run_end_props(s, p);
                        assert forall|k: int| 0 <= k < number@.len() implies is_digit_char(
                            #[trigger] number@[k],
                        ) by {
                            assert(number@[k] == s[p + k]);
                        }
                    }
                    match parse_int_literal(number.as_str()) {
                        Some(v) => Self::new_token(TokenType::INT(v), number),
                        None => Self::new_token(TokenType::INVALID_INT, number),
                    }
                } else if self.position >= self.buf_len() {
                    proof {
                        assert(p == s.len());
                    }
                    Self::new_token(TokenType::EOF, String::from_str(""))
                } else {
                    let b = self.ch;
                    let lit = self.input.as_str().substring_ascii(
                        self.position,
                        self.position + 1,
                    ).to_owned();
                    self.read_char();
                    Self::new_token(TokenType::ILLEGAL(b), lit)
                }
            }
        }
    }

    /// Builds a token from a kind and its literal text.
    pub fn new_token(token_type: TokenType, literal: String) -> (tok: Token)
        ensures
            tok.token_type == token_type,
            tok.literal == literal,
    {
        Token { token_type, literal }
    }
}

/// Parses a run of ASCII digits as a decimal `i64`, reporting a value that
/// does not fit as `None` instead of failing.
fn parse_int_literal(s: &str) -> (r: Option<i64>)
    requires
        s.is_ascii(),
        forall|i: int| 0 <= i < s@.len() ==> is_digit_char(#[trigger] s@[i]),
    ensures
        match r {
            Some(v) => v as int == digits_value(s@) && v >= 0,
            None => digits_value(s@) > i64::MAX,
        },
{
    let n = s.unicode_len();
    let mut val: i64 = 0;
    let mut overflow = false;
    let mut i: usize = 0;
    while i < n
        invariant
            s.is_ascii(),
            forall|k: int| 0 <= k < s@.len() ==> is_digit_char(#[trigger] s@[k]),
            n as int == s@.len(),
            i <= n,
            !overflow ==> val as int == digits_value(s@.subrange(0, i as int)) && val >= 0,
            overflow ==> digits_value(s@.subrange(0, i as int)) > i64::MAX,
        decreases n - i,
    {
        let b = s.get_ascii(i);
        proof {
            assert(is_digit_char(s@[i as int]));
            assert(48 <= b <= 57);
        }
        let d = (b - 48) as i64;
        proof {
            let pre = s@.subrange(0, i as int);
            let ext = s@.subrange(0, i as int + 1);
            assert(ext.drop_last() =~= pre);
            assert(ext.last() == s@[i as int]);
            assert(digits_value(ext) == digits_value(pre) * 10 + (s@[i as int] as int - '0' as int));
        }
        if !overflow {
            if val <= (i64::MAX - d) / 10 {
                val = val * 10 + d;
            } else {
                overflow = true;
            }
        }
        i = i + 1;
    }
    proof {
        assert(s@.subrange(0, n as int) =~= s@);
    }
    if overflow {
        None
    } else {
        Some(val)
    }
}

/// True on the bytes of ASCII letters.
fn is_letter_byte(b: u8) -> (r: bool)
    ensures
        r == (97 <= b <= 122 || 65 <= b <= 90),
{
    (97 <= b && b <= 122) || (65 <= b && b <= 90)
}

/// True on the bytes of ASCII digits.
fn is_digit_byte(b: u8) -> (r: bool)
    ensures
        r == (48 <= b <= 57),
{
    48 <= b && b <= 57
}

} // verus!

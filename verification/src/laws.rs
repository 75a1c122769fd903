//! Proved properties of the scan model.
//!
//! Each public proof function here states a law of the scanner over
//! `model::next_token_spec`, the specification that `Lexer::next_token` is
//! proved to implement, so every law carries over to the executable
//! scanner.

use vstd::prelude::*;
use crate::model::{
    next_token_spec, token_from, skip_ws, letter_run_end, digit_run_end, digits_value,
    is_whitespace_char, is_letter_char, is_digit_char, single_char_kind, keyword_kind,
    classify_word, TokenKind, ScanStep, lemma_skip_ws_props, lemma_letter_run_end_props,
    lemma_digit_run_end_props,
};

verus! {

/// Scanning a buffer that holds one single punctuation or operator
/// character yields exactly one token whose literal is that character and
/// whose kind is the documented single-character mapping — for `=` and `!`
/// included, whose lookahead sees the end of the buffer.
pub proof fn lemma_single_char_token(c: char)
    requires
        single_char_kind(c) is Some,
    ensures
        next_token_spec(seq![c], 0).kind == single_char_kind(c)->Some_0,
        next_token_spec(seq![c], 0).lit == seq![c],
        next_token_spec(seq![c], 0).end == 1,
{
    let s = seq![c];
    assert(!is_whitespace_char(c));
    assert(skip_ws(s, 0) == 0);
    if c == '=' {
        reveal_strlit("=");
        assert("="@ =~= s);
    } else if c == '!' {
        reveal_strlit("!");
        assert("!"@ =~= s);
    } else {
        assert(s.subrange(0, 1) =~= s);
    }
}

/// One-byte lookahead at `=` and `!`: when the next character is `=`, the
/// scanner emits the single two-character operator and consumes both
/// characters; otherwise it emits the one-character operator and consumes
/// one, whatever follows — the end of the buffer included.
pub proof fn lemma_lookahead_operators(s: Seq<char>, pos: int)
    requires
        0 <= pos < s.len(),
        s[pos] == '=' || s[pos] == '!',
    ensures
        s[pos] == '=' && pos + 1 < s.len() && s[pos + 1] == '=' ==> next_token_spec(s, pos)
            == (ScanStep { kind: TokenKind::EqEq, lit: "=="@, end: pos + 2 }),
        s[pos] == '=' && !(pos + 1 < s.len() && s[pos + 1] == '=') ==> next_token_spec(s, pos)
            == (ScanStep { kind: TokenKind::Assign, lit: "="@, end: pos + 1 }),
        s[pos] == '!' && pos + 1 < s.len() && s[pos + 1] == '=' ==> next_token_spec(s, pos)
            == (ScanStep { kind: TokenKind::NotEq, lit: "!="@, end: pos + 2 }),
        s[pos] == '!' && !(pos + 1 < s.len() && s[pos + 1] == '=') ==> next_token_spec(s, pos)
            == (ScanStep { kind: TokenKind::Bang, lit: "!"@, end: pos + 1 }),
{
    assert(!is_whitespace_char(s[pos]));
    assert(skip_ws(s, pos) == pos);
}

/// Keyword recognition: scanning exactly one of the seven reserved
/// spellings yields the matching keyword kind, with the spelling as the
/// literal and the whole buffer consumed.
pub proof fn lemma_keyword_recognition(s: Seq<char>)
    requires
        s == "let"@ || s == "fn"@ || s == "if"@ || s == "true"@ || s == "false"@ || s == "else"@
            || s == "return"@,
    ensures
        keyword_kind(s) is Some,
        next_token_spec(s, 0).kind == keyword_kind(s)->Some_0,
        next_token_spec(s, 0).lit == s,
        next_token_spec(s, 0).end == s.len(),
{
    reveal_strlit("let");
    reveal_strlit("fn");
    reveal_strlit("if");
    reveal_strlit("true");
    reveal_strlit("false");
    reveal_strlit("else");
    reveal_strlit("return");
    assert(forall|j: int| 0 <= j < s.len() ==> is_letter_char(#[trigger] s[j]));
    lemma_letter_run_to_end(s, 0);
    assert(skip_ws(s, 0) == 0);
    assert(s.subrange(0, s.len() as int) =~= s);
}

/// When every character from `pos` to the end of the buffer is a letter,
/// the maximal letter run starting at `pos` reaches the buffer's end.
proof fn lemma_letter_run_to_end(s: Seq<char>, pos: int)
    requires
        0 <= pos <= s.len(),
        forall|j: int| pos <= j < s.len() ==> is_letter_char(#[trigger] s[j]),
    ensures
        letter_run_end(s, pos) == s.len(),
    decreases s.len() - pos,
{
    if pos < s.len() {
        lemma_letter_run_to_end(s, pos + 1);
    }
}

/// Maximal munch for words: at a letter the scanner consumes the longest
/// run of letters.  The literal is that whole run, the character after it
/// (if any) is not a letter, and the kind is the keyword-table
/// classification of the full spelling — an identifier carrying it when no
/// keyword matches.
pub proof fn lemma_word_maximal_munch(s: Seq<char>, pos: int)
    requires
        0 <= pos < s.len(),
        is_letter_char(s[pos]),
    ensures
        next_token_spec(s, pos).kind == classify_word(s.subrange(pos, letter_run_end(s, pos))),
        next_token_spec(s, pos).lit == s.subrange(pos, letter_run_end(s, pos)),
        next_token_spec(s, pos).end == letter_run_end(s, pos),
        pos < letter_run_end(s, pos) <= s.len(),
        forall|j: int| pos <= j < letter_run_end(s, pos) ==> is_letter_char(#[trigger] s[j]),
        letter_run_end(s, pos) == s.len() || !is_letter_char(s[letter_run_end(s, pos)]),
{
    assert(!is_whitespace_char(s[pos]));
    assert(skip_ws(s, pos) == pos);
    lemma_letter_run_end_props(s, pos + 1);
    assert(letter_run_end(s, pos) == letter_run_end(s, pos + 1));
    lemma_letter_run_end_props(s, pos);
}

/// Maximal munch for integer literals: at a digit the scanner consumes the
/// longest run of digits.  The literal is that whole run, the character
/// after it (if any) is not a digit, and the kind carries the run's decimal
/// value — or marks the overflow when that value does not fit an `i64`.
pub proof fn lemma_integer_maximal_munch(s: Seq<char>, pos: int)
    requires
        0 <= pos < s.len(),
        is_digit_char(s[pos]),
    ensures
        next_token_spec(s, pos).lit == s.subrange(pos, digit_run_end(s, pos)),
        next_token_spec(s, pos).end == digit_run_end(s, pos),
        pos < digit_run_end(s, pos) <= s.len(),
        forall|j: int| pos <= j < digit_run_end(s, pos) ==> is_digit_char(#[trigger] s[j]),
        digit_run_end(s, pos) == s.len() || !is_digit_char(s[digit_run_end(s, pos)]),
        digits_value(s.subrange(pos, digit_run_end(s, pos))) <= i64::MAX ==> next_token_spec(
            s,
            pos,
        ).kind == TokenKind::IntLit(digits_value(s.subrange(pos, digit_run_end(s, pos)))),
        digits_value(s.subrange(pos, digit_run_end(s, pos))) > i64::MAX ==> next_token_spec(
            s,
            pos,
        ).kind == TokenKind::IntOverflow,
{
    assert(!is_whitespace_char(s[pos]));
    assert(skip_ws(s, pos) == pos);
    lemma_digit_run_end_props(s, pos + 1);
    assert(digit_run_end(s, pos) == digit_run_end(s, pos + 1));
    lemma_digit_run_end_props(s, pos);
}

/// Skipping whitespace from `pos` and from `q` lands at the same place when
/// everything between the two positions is whitespace.
proof fn lemma_skip_ws_through_ws(s: Seq<char>, pos: int, q: int)
    requires
        0 <= pos <= q <= s.len(),
        forall|j: int| pos <= j < q ==> is_whitespace_char(#[trigger] s[j]),
    ensures
        skip_ws(s, pos) == skip_ws(s, q),
    decreases q - pos,
{
    if pos < q {
        lemma_skip_ws_through_ws(s, pos + 1, q);
    }
}

/// `skip_ws` looks only at the buffer from the start position onwards: on
/// two buffers whose suffixes agree it moves by the same amount.
proof fn lemma_skip_ws_suffix(s1: Seq<char>, p1: int, s2: Seq<char>, p2: int)
    requires
        0 <= p1 <= s1.len(),
        0 <= p2 <= s2.len(),
        s1.len() - p1 == s2.len() - p2,
        forall|k: int| 0 <= k < s1.len() - p1 ==> #[trigger] s1[p1 + k] == s2[p2 + k],
    ensures
        skip_ws(s1, p1) - p1 == skip_ws(s2, p2) - p2,
    decreases s1.len() - p1,
{
    if p1 < s1.len() {
        assert(s1[p1] == s2[p2]) by {
            assert(s1[p1 + 0] == s2[p2 + 0]);
        }
        if is_whitespace_char(s1[p1]) {
            assert forall|k: int| 0 <= k < s1.len() - (p1 + 1) implies #[trigger] s1[p1 + 1 + k]
                == s2[p2 + 1 + k] by {
                assert(s1[p1 + (k + 1)] == s2[p2 + (k + 1)]);
            }
            lemma_skip_ws_suffix(s1, p1 + 1, s2, p2 + 1);
        }
    }
}

/// `letter_run_end` looks only at the buffer from the start position
/// onwards: on two buffers whose suffixes agree the runs have one length.
proof fn lemma_letter_run_suffix(s1: Seq<char>, p1: int, s2: Seq<char>, p2: int)
    requires
        0 <= p1 <= s1.len(),
        0 <= p2 <= s2.len(),
        s1.len() - p1 == s2.len() - p2,
        forall|k: int| 0 <= k < s1.len() - p1 ==> #[trigger] s1[p1 + k] == s2[p2 + k],
    ensures
        letter_run_end(s1, p1) - p1 == letter_run_end(s2, p2) - p2,
    decreases s1.len() - p1,
{
    if p1 < s1.len() {
        assert(s1[p1] == s2[p2]) by {
            assert(s1[p1 + 0] == s2[p2 + 0]);
        }
        if is_letter_char(s1[p1]) {
            assert forall|k: int| 0 <= k < s1.len() - (p1 + 1) implies #[trigger] s1[p1 + 1 + k]
                == s2[p2 + 1 + k] by {
                assert(s1[p1 + (k + 1)] == s2[p2 + (k + 1)]);
            }
            lemma_letter_run_suffix(s1, p1 + 1, s2, p2 + 1);
        }
    }
}

/// `digit_run_end` looks only at the buffer from the start position
/// onwards: on two buffers whose suffixes agree the runs have one length.
proof fn lemma_digit_run_suffix(s1: Seq<char>, p1: int, s2: Seq<char>, p2: int)
    requires
        0 <= p1 <= s1.len(),
        0 <= p2 <= s2.len(),
        s1.len() - p1 == s2.len() - p2,
        forall|k: int| 0 <= k < s1.len() - p1 ==> #[trigger] s1[p1 + k] == s2[p2 + k],
    ensures
        digit_run_end(s1, p1) - p1 == digit_run_end(s2, p2) - p2,
    decreases s1.len() - p1,
{
    if p1 < s1.len() {
        assert(s1[p1] == s2[p2]) by {
            assert(s1[p1 + 0] == s2[p2 + 0]);
        }
        if is_digit_char(s1[p1]) {
            assert forall|k: int| 0 <= k < s1.len() - (p1 + 1) implies #[trigger] s1[p1 + 1 + k]
                == s2[p2 + 1 + k] by {
                assert(s1[p1 + (k + 1)] == s2[p2 + (k + 1)]);
            }
            lemma_digit_run_suffix(s1, p1 + 1, s2, p2 + 1);
        }
    }
}

/// The token found at a position depends only on the buffer from that
/// position onwards: on two buffers whose suffixes agree, the kind and the
/// literal are the same and the cursor moves by the same amount.
proof fn lemma_token_from_suffix(s1: Seq<char>, p1: int, s2: Seq<char>, p2: int)
    requires
        0 <= p1 <= s1.len(),
        0 <= p2 <= s2.len(),
        s1.len() - p1 == s2.len() - p2,
        forall|k: int| 0 <= k < s1.len() - p1 ==> #[trigger] s1[p1 + k] == s2[p2 + k],
    ensures
        token_from(s1, p1).kind == token_from(s2, p2).kind,
        token_from(s1, p1).lit == token_from(s2, p2).lit,
        token_from(s1, p1).end - p1 == token_from(s2, p2).end - p2,
{
    if p1 < s1.len() {
        assert(s1[p1] == s2[p2]) by {
            assert(s1[p1 + 0] == s2[p2 + 0]);
        }
        let c = s1[p1];
        if c == '=' || c == '!' {
            if p1 + 1 < s1.len() {
                assert(s1[p1 + 1] == s2[p2 + 1]);
            }
        } else if single_char_kind(c) is Some {
            assert(s1.subrange(p1, p1 + 1) =~= s2.subrange(p2, p2 + 1));
        } else if is_letter_char(c) {
            lemma_letter_run_suffix(s1, p1, s2, p2);
            lemma_letter_run_end_props(s1, p1);
            let e1 = letter_run_end(s1, p1);
            let e2 = letter_run_end(s2, p2);
            assert forall|i: int| 0 <= i < e1 - p1 implies s1.subrange(p1, e1)[i] == s2.subrange(
                p2,
                e2,
            )[i] by {
                assert(s1[p1 + i] == s2[p2 + i]);
            }
            assert(s1.subrange(p1, e1) =~= s2.subrange(p2, e2));
        } else if is_digit_char(c) {
            lemma_digit_run_suffix(s1, p1, s2, p2);
            lemma_digit_run_end_props(s1, p1);
            let e1 = digit_run_end(s1, p1);
            let e2 = digit_run_end(s2, p2);
            assert forall|i: int| 0 <= i < e1 - p1 implies s1.subrange(p1, e1)[i] == s2.subrange(
                p2,
                e2,
            )[i] by {
                assert(s1[p1 + i] == s2[p2 + i]);
            }
            assert(s1.subrange(p1, e1) =~= s2.subrange(p2, e2));
        } else {
            assert(s1.subrange(p1, p1 + 1) =~= s2.subrange(p2, p2 + 1));
        }
    }
}

/// Whitespace is fully transparent: inserting a run of whitespace at the
/// cursor — that is, between two tokens, or ahead of the first — never
/// changes the token that is scanned next, neither its kind nor its
/// literal; it only moves the position the token is found at by the length
/// of the inserted run.
pub proof fn lemma_whitespace_transparent(s: Seq<char>, pos: int, ws: Seq<char>)
    requires
        0 <= pos <= s.len(),
        forall|i: int| 0 <= i < ws.len() ==> is_whitespace_char(#[trigger] ws[i]),
    ensures
        ({
            let s2 = s.subrange(0, pos) + ws + s.subrange(pos, s.len() as int);
            &&& next_token_spec(s2, pos).kind == next_token_spec(s, pos).kind
            &&& next_token_spec(s2, pos).lit == next_token_spec(s, pos).lit
            &&& next_token_spec(s2, pos).end == next_token_spec(s, pos).end + ws.len()
        }),
{
    let n = s.len() as int;
    let w = ws.len() as int;
    let s2 = s.subrange(0, pos) + ws + s.subrange(pos, n);
    assert(s2.len() == n + w);
    // the inserted run occupies positions [pos, pos + w) of the new buffer
    assert(forall|j: int| pos <= j < pos + w ==> is_whitespace_char(#[trigger] s2[j]));
    // past the run, the new buffer repeats the old one from pos onwards
    assert forall|k: int| 0 <= k < n - pos implies #[trigger] s[pos + k] == s2[(pos + w) + k] by {
        assert(s2[pos + w + k] == s.subrange(pos, n)[k]);
    }
    lemma_skip_ws_through_ws(s2, pos, pos + w);
    lemma_skip_ws_suffix(s, pos, s2, pos + w);
    let q1 = skip_ws(s, pos);
    let q2 = skip_ws(s2, pos + w);
    lemma_skip_ws_props(s, pos);
    assert(q2 == q1 + w);
    assert(skip_ws(s2, pos) == q2);
    // the suffixes at the skipped-to positions agree as well
    assert forall|k: int| 0 <= k < n - q1 implies #[trigger] s[q1 + k] == s2[q2 + k] by {
        assert(s[pos + (q1 - pos + k)] == s2[(pos + w) + (q1 - pos + k)]);
    }
    lemma_token_from_suffix(s, q1, s2, q2);
}

/// Once the cursor has exhausted the buffer, the next token is end-of-input
/// with an empty literal, and the cursor does not advance: every later call
/// returns the same end-of-input token.
pub proof fn lemma_eof_idempotent(s: Seq<char>)
    ensures
        next_token_spec(s, s.len() as int).kind == TokenKind::Eof,
        next_token_spec(s, s.len() as int).lit == ""@,
        next_token_spec(s, s.len() as int).end == s.len() as int,
{
    assert(skip_ws(s, s.len() as int) == s.len() as int);
}

} // verus!

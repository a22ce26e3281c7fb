//! Laws of the scanner, proved over its mathematical model.
//!
//! Each public proof function here states one behavioural guarantee of the
//! token stream: whitespace between tokens is invisible, `Eof` is a stable
//! terminal state, identifier-shaped text and digit runs scan to a single
//! token carrying exactly their text, `-` pairs with `>` into one arrow
//! token, and an unrecognized character costs exactly one `Illegal` token.

use vstd::prelude::*;
use crate::scanner::char_at;
use crate::scanner::digits_end;
use crate::scanner::ident_end;
use crate::scanner::is_digit_char;
use crate::scanner::is_ident_char;
use crate::scanner::is_letter_char;
use crate::scanner::is_token_start_char;
use crate::scanner::is_whitespace_char;
use crate::scanner::keyword_or_ident;
use crate::scanner::lemma_digits_end_bounds;
use crate::scanner::lemma_ident_end_bounds;
use crate::scanner::lemma_next_token_progress;
use crate::scanner::lemma_token_at_progress;
use crate::scanner::lemma_whitespace_end_bounds;
use crate::scanner::next_token_at;
use crate::scanner::token_at;
use crate::scanner::tokens_from;
use crate::scanner::whitespace_end;
use crate::token::TokenView;

verus! {

/// `t` holds the characters of `s` from `pos` on, shifted right by `d`:
/// the two texts agree from `pos` (in `s`) and `pos + d` (in `t`) to their
/// ends. The scanner's behaviour from those positions is then identical.
spec fn shifted_suffix(s: Seq<char>, t: Seq<char>, pos: int, d: int) -> bool {
    &&& 0 <= pos <= s.len()
    &&& 0 <= pos + d
    &&& t.len() == s.len() + d
    &&& forall|i: int| pos <= i < s.len() ==> t[i + d] == s[i]
}

proof fn lemma_whitespace_end_shift(s: Seq<char>, t: Seq<char>, pos: int, d: int)
    requires
        shifted_suffix(s, t, pos, d),
    ensures
        whitespace_end(t, pos + d) == whitespace_end(s, pos) + d,
    decreases s.len() - pos,
{
    if pos < s.len() {
        assert(t[pos + d] == s[pos]);
        if is_whitespace_char(s[pos]) {
            lemma_whitespace_end_shift(s, t, pos + 1, d);
        }
    }
}

proof fn lemma_ident_end_shift(s: Seq<char>, t: Seq<char>, pos: int, d: int)
    requires
        shifted_suffix(s, t, pos, d),
    ensures
        ident_end(t, pos + d) == ident_end(s, pos) + d,
    decreases s.len() - pos,
{
    if pos < s.len() {
        assert(t[pos + d] == s[pos]);
        if is_ident_char(s[pos]) {
            lemma_ident_end_shift(s, t, pos + 1, d);
        }
    }
}

proof fn lemma_digits_end_shift(s: Seq<char>, t: Seq<char>, pos: int, d: int)
    requires
        shifted_suffix(s, t, pos, d),
    ensures
        digits_end(t, pos + d) == digits_end(s, pos) + d,
    decreases s.len() - pos,
{
    if pos < s.len() {
        assert(t[pos + d] == s[pos]);
        if is_digit_char(s[pos]) {
            lemma_digits_end_shift(s, t, pos + 1, d);
        }
    }
}

proof fn lemma_token_at_shift(s: Seq<char>, t: Seq<char>, pos: int, d: int)
    requires
        shifted_suffix(s, t, pos, d),
    ensures
        token_at(t, pos + d).0 == token_at(s, pos).0,
        token_at(t, pos + d).1 == token_at(s, pos).1 + d,
{
    if pos < s.len() {
        assert(t[pos + d] == s[pos]);
        let c = s[pos];
        if c == '-' {
            if pos + 1 < s.len() {
                assert(t[pos + 1 + d] == s[pos + 1]);
            }
        } else if is_letter_char(c) {
            lemma_ident_end_shift(s, t, pos, d);
            lemma_ident_end_bounds(s, pos);
            let end = ident_end(s, pos);
            assert(t.subrange(pos + d, end + d) =~= s.subrange(pos, end));
        } else if is_digit_char(c) {
            lemma_digits_end_shift(s, t, pos, d);
            lemma_digits_end_bounds(s, pos);
            let end = digits_end(s, pos);
            assert(t.subrange(pos + d, end + d) =~= s.subrange(pos, end));
        }
    }
}

proof fn lemma_tokens_from_shift(s: Seq<char>, t: Seq<char>, pos: int, d: int)
    requires
        shifted_suffix(s, t, pos, d),
    ensures
        tokens_from(t, pos + d) == tokens_from(s, pos),
    decreases s.len() - pos,
{
    lemma_whitespace_end_shift(s, t, pos, d);
    lemma_whitespace_end_bounds(s, pos);
    lemma_token_at_shift(s, t, whitespace_end(s, pos), d);
    lemma_next_token_progress(s, pos);
    let tok = next_token_at(s, pos).0;
    let p = next_token_at(s, pos).1;
    if tok != TokenView::Eof {
        lemma_tokens_from_shift(s, t, p, d);
    }
}

proof fn lemma_whitespace_end_skip(s: Seq<char>, pos: int, q: int)
    requires
        0 <= pos <= q <= s.len(),
        forall|i: int| pos <= i < q ==> is_whitespace_char(s[i]),
    ensures
        whitespace_end(s, pos) == whitespace_end(s, q),
    decreases q - pos,
{
    if pos < q {
        lemma_whitespace_end_skip(s, pos + 1, q);
    }
}

/// Law: whitespace between two tokens is invisible. Inserting a run of
/// whitespace characters at a point the scanner stands on — the boundary
/// after `head`, before `tail` — leaves the token sequence produced from
/// that point unchanged.
pub proof fn lemma_whitespace_insertion(head: Seq<char>, ws: Seq<char>, tail: Seq<char>)
    requires
        forall|i: int| 0 <= i < ws.len() ==> is_whitespace_char(ws[i]),
    ensures
        tokens_from(head + ws + tail, head.len() as int)
            == tokens_from(head + tail, head.len() as int),
{
    let s = head + tail;
    let t = head + ws + tail;
    let pos = head.len() as int;
    let d = ws.len() as int;
    assert forall|i: int| pos <= i < pos + d implies is_whitespace_char(t[i]) by {
        assert(t[i] == ws[i - pos]);
    }
    lemma_whitespace_end_skip(t, pos, pos + d);
    assert(next_token_at(t, pos) == next_token_at(t, pos + d));
    assert forall|i: int| pos <= i < s.len() implies t[i + d] == s[i] by {
        assert(s[i] == tail[i - pos]);
        assert(t[i + d] == tail[i + d - pos - d]);
    }
    assert(shifted_suffix(s, t, pos, d));
    lemma_tokens_from_shift(s, t, pos, d);
    assert(tokens_from(t, pos) == tokens_from(t, pos + d));
}

proof fn lemma_whitespace_end_agree(s: Seq<char>, t: Seq<char>, pos: int, b: int)
    requires
        0 <= pos <= b <= s.len(),
        b <= t.len(),
        forall|i: int| pos <= i < b ==> t[i] == s[i],
        whitespace_end(s, pos) < b,
    ensures
        whitespace_end(t, pos) == whitespace_end(s, pos),
    decreases s.len() - pos,
{
    if pos < s.len() && is_whitespace_char(s[pos]) {
        lemma_whitespace_end_bounds(s, pos + 1);
        assert(t[pos] == s[pos]);
        lemma_whitespace_end_agree(s, t, pos + 1, b);
    } else {
        assert(t[pos] == s[pos]);
    }
}

proof fn lemma_ident_end_agree(s: Seq<char>, t: Seq<char>, pos: int, b: int)
    requires
        0 <= pos <= b <= s.len(),
        b <= t.len(),
        forall|i: int| pos <= i < b ==> t[i] == s[i],
        ident_end(s, pos) <= b,
        ident_end(s, pos) == b ==> !is_ident_char(char_at(t, b)),
    ensures
        ident_end(t, pos) == ident_end(s, pos),
    decreases s.len() - pos,
{
    if pos < s.len() && is_ident_char(s[pos]) {
        lemma_ident_end_bounds(s, pos + 1);
        assert(t[pos] == s[pos]);
        lemma_ident_end_agree(s, t, pos + 1, b);
    } else {
        if pos < b {
            assert(t[pos] == s[pos]);
        }
    }
}

proof fn lemma_digits_end_agree(s: Seq<char>, t: Seq<char>, pos: int, b: int)
    requires
        0 <= pos <= b <= s.len(),
        b <= t.len(),
        forall|i: int| pos <= i < b ==> t[i] == s[i],
        digits_end(s, pos) <= b,
        digits_end(s, pos) == b ==> !is_digit_char(char_at(t, b)),
    ensures
        digits_end(t, pos) == digits_end(s, pos),
    decreases s.len() - pos,
{
    if pos < s.len() && is_digit_char(s[pos]) {
        lemma_digits_end_bounds(s, pos + 1);
        assert(t[pos] == s[pos]);
        lemma_digits_end_agree(s, t, pos + 1, b);
    } else {
        if pos < b {
            assert(t[pos] == s[pos]);
        }
    }
}

/// Two texts that agree strictly below `b` — where the character of `t` at
/// `b`, if any, is whitespace — classify the character at `pos` alike, as
/// long as the token found in `s` ends at or before `b`.
proof fn lemma_token_at_agree(s: Seq<char>, t: Seq<char>, pos: int, b: int)
    requires
        0 <= pos < b <= s.len(),
        b <= t.len(),
        forall|i: int| pos <= i < b ==> t[i] == s[i],
        b < t.len() ==> is_whitespace_char(t[b]),
        token_at(s, pos).1 <= b,
    ensures
        token_at(t, pos) == token_at(s, pos),
{
    assert(t[pos] == s[pos]);
    let c = s[pos];
    if c == '-' {
        if pos + 1 < b {
            assert(t[pos + 1] == s[pos + 1]);
        }
    } else if is_letter_char(c) {
        lemma_ident_end_bounds(s, pos);
        lemma_ident_end_agree(s, t, pos, b);
        let end = ident_end(s, pos);
        assert(t.subrange(pos, end) =~= s.subrange(pos, end));
    } else if is_digit_char(c) {
        lemma_digits_end_bounds(s, pos);
        lemma_digits_end_agree(s, t, pos, b);
        let end = digits_end(s, pos);
        assert(t.subrange(pos, end) =~= s.subrange(pos, end));
    }
}

/// Two texts that agree strictly below `b` — where the character of `t` at
/// `b`, if any, is whitespace — yield the same scanning step at `pos`, as
/// long as the step in `s` stays at or before `b` and does not reach `Eof`.
proof fn lemma_next_token_at_agree(s: Seq<char>, t: Seq<char>, pos: int, b: int)
    requires
        0 <= pos <= b <= s.len(),
        b <= t.len(),
        forall|i: int| pos <= i < b ==> t[i] == s[i],
        b < t.len() ==> is_whitespace_char(t[b]),
        next_token_at(s, pos).0 != TokenView::Eof,
        next_token_at(s, pos).1 <= b,
    ensures
        next_token_at(t, pos) == next_token_at(s, pos),
{
    lemma_whitespace_end_bounds(s, pos);
    let w = whitespace_end(s, pos);
    lemma_token_at_progress(s, w);
    lemma_whitespace_end_agree(s, t, pos, b);
    lemma_token_at_agree(s, t, w, b);
}

/// Position `p` lies between two tokens of `s`, seen from `pos`: it is a
/// cursor position the scanner passes through when it tokenizes `s` from
/// `pos`.
pub open spec fn reaches_boundary(s: Seq<char>, pos: int, p: int) -> bool
    decreases s.len() - pos
        when 0 <= pos <= s.len()
        via reaches_boundary_decreases
{
    pos == p || (next_token_at(s, pos).0 != TokenView::Eof
        && reaches_boundary(s, next_token_at(s, pos).1, p))
}

#[via_fn]
proof fn reaches_boundary_decreases(s: Seq<char>, pos: int, p: int) {
    lemma_next_token_progress(s, pos);
}

proof fn lemma_reaches_boundary_le(s: Seq<char>, pos: int, p: int)
    requires
        0 <= pos <= s.len(),
        reaches_boundary(s, pos, p),
    ensures
        pos <= p <= s.len(),
    decreases s.len() - pos,
{
    if pos != p {
        lemma_next_token_progress(s, pos);
        lemma_reaches_boundary_le(s, next_token_at(s, pos).1, p);
    }
}

proof fn lemma_whitespace_insertion_chain(head: Seq<char>, ws: Seq<char>, tail: Seq<char>, pos: int)
    requires
        forall|i: int| 0 <= i < ws.len() ==> is_whitespace_char(ws[i]),
        ws.len() > 0,
        0 <= pos <= (head + tail).len(),
        reaches_boundary(head + tail, pos, head.len() as int),
    ensures
        tokens_from(head + ws + tail, pos) == tokens_from(head + tail, pos),
    decreases (head + tail).len() - pos,
{
    let s = head + tail;
    let t = head + ws + tail;
    let b = head.len() as int;
    if pos == b {
        lemma_whitespace_insertion(head, ws, tail);
    } else {
        lemma_next_token_progress(s, pos);
        let q = next_token_at(s, pos).1;
        lemma_reaches_boundary_le(s, q, b);
        assert forall|i: int| pos <= i < b implies t[i] == s[i] by {
            assert(t[i] == head[i]);
            assert(s[i] == head[i]);
        }
        assert(is_whitespace_char(t[b])) by {
            assert(t[b] == ws[0]);
        }
        lemma_next_token_at_agree(s, t, pos, b);
        lemma_whitespace_insertion_chain(head, ws, tail, q);
    }
}

/// Law: whitespace between two tokens is invisible, over the whole token
/// sequence. When the boundary at the end of `head` is a point the scanner
/// passes through while tokenizing `head + tail` — a point between two
/// tokens — inserting a run of whitespace there leaves the token sequence
/// of the whole text unchanged.
pub proof fn lemma_whitespace_insertion_from_start(head: Seq<char>, ws: Seq<char>, tail: Seq<char>)
    requires
        forall|i: int| 0 <= i < ws.len() ==> is_whitespace_char(ws[i]),
        reaches_boundary(head + tail, 0, head.len() as int),
    ensures
        tokens_from(head + ws + tail, 0) == tokens_from(head + tail, 0),
{
    if ws.len() == 0 {
        assert(head + ws + tail =~= head + tail);
    } else {
        lemma_whitespace_insertion_chain(head, ws, tail, 0);
    }
}

/// Law: `Eof` is a stable terminal state. Once a scanning step yields
/// `Eof`, every further step from the cursor it leaves yields `Eof` again
/// and leaves the cursor where it was.
pub proof fn lemma_eof_stable(s: Seq<char>, pos: int)
    requires
        0 <= pos <= s.len(),
        next_token_at(s, pos).0 == TokenView::Eof,
    ensures
        next_token_at(s, next_token_at(s, pos).1).0 == TokenView::Eof,
        next_token_at(s, next_token_at(s, pos).1).1 == next_token_at(s, pos).1,
{
    lemma_whitespace_end_bounds(s, pos);
    lemma_token_at_progress(s, whitespace_end(s, pos));
}

proof fn lemma_ident_end_full(s: Seq<char>, pos: int)
    requires
        0 <= pos <= s.len(),
        forall|i: int| pos <= i < s.len() ==> is_ident_char(s[i]),
    ensures
        ident_end(s, pos) == s.len(),
    decreases s.len() - pos,
{
    if pos < s.len() {
        lemma_ident_end_full(s, pos + 1);
    }
}

proof fn lemma_digits_end_full(s: Seq<char>, pos: int)
    requires
        0 <= pos <= s.len(),
        forall|i: int| pos <= i < s.len() ==> is_digit_char(s[i]),
    ensures
        digits_end(s, pos) == s.len(),
    decreases s.len() - pos,
{
    if pos < s.len() {
        lemma_digits_end_full(s, pos + 1);
    }
}

/// Law: identifier-shaped text — a letter or underscore followed by
/// letters, digits and underscores — scans to a single token covering all
/// of it: `Let` when the text is the reserved word, `Ident` carrying
/// exactly that text otherwise.
pub proof fn lemma_identifier_token(text: Seq<char>)
    requires
        text.len() > 0,
        is_letter_char(text[0]),
        forall|i: int| 0 <= i < text.len() ==> is_ident_char(text[i]),
    ensures
        next_token_at(text, 0).0 == keyword_or_ident(text),
        next_token_at(text, 0).1 == text.len(),
{
    assert(whitespace_end(text, 0) == 0);
    lemma_ident_end_full(text, 0);
    assert(text.subrange(0, text.len() as int) =~= text);
}

/// Law: a non-empty run of decimal digits scans to a single `Int` token
/// carrying exactly that digit text, with no numeric interpretation.
pub proof fn lemma_integer_token(digits: Seq<char>)
    requires
        digits.len() > 0,
        forall|i: int| 0 <= i < digits.len() ==> is_digit_char(digits[i]),
    ensures
        next_token_at(digits, 0).0 == TokenView::Int(digits),
        next_token_at(digits, 0).1 == digits.len(),
{
    assert(whitespace_end(digits, 0) == 0);
    lemma_digits_end_full(digits, 0);
    assert(digits.subrange(0, digits.len() as int) =~= digits);
}

/// Law: a `-` under the cursor yields a single two-character `To` token
/// exactly when `>` follows immediately, and a one-character `Minus`
/// token otherwise.
pub proof fn lemma_minus_and_arrow(s: Seq<char>, pos: int)
    requires
        0 <= pos < s.len(),
        s[pos] == '-',
    ensures
        char_at(s, pos + 1) == '>' ==> next_token_at(s, pos) == (TokenView::To, pos + 2),
        char_at(s, pos + 1) != '>' ==> next_token_at(s, pos) == (TokenView::Minus, pos + 1),
{
    assert(whitespace_end(s, pos) == pos);
}

/// Law: a character outside the recognized set costs exactly one `Illegal`
/// token and one cursor step, and scanning resumes normally on the next
/// character — the rest of the token sequence is that of the remaining
/// text.
pub proof fn lemma_illegal_char(s: Seq<char>, pos: int)
    requires
        0 <= pos < s.len(),
        !is_whitespace_char(s[pos]),
        !is_token_start_char(s[pos]),
    ensures
        next_token_at(s, pos) == (TokenView::Illegal, pos + 1),
        tokens_from(s, pos) == seq![TokenView::Illegal] + tokens_from(s, pos + 1),
{
    assert(whitespace_end(s, pos) == pos);
}

} // verus!

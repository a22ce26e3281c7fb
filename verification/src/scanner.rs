//! The scanner itself, together with its mathematical model.
//!
//! The model is a family of spec functions over a `Seq<char>` and a cursor
//! position: `whitespace_end`, `ident_end` and `digits_end` give the end of
//! the maximal run of their character class, `token_at` classifies the
//! character under the cursor, and `next_token_at` composes the whitespace
//! skip with that classification. `Lexer::next_token` is proved to return
//! exactly the token the model names, and to leave the cursor exactly where
//! the model says.

use vstd::prelude::*;
use vstd::string::StrSliceExecFns;
use vstd::string::StringExecFns;
use crate::token::Token;
use crate::token::TokenView;

verus! {

/// The character at index `i`, or the null sentinel once `i` is outside the
/// text. The sentinel stands for "no character here": end of input.
pub open spec fn char_at(s: Seq<char>, i: int) -> char {
    if 0 <= i < s.len() {
        s[i]
    } else {
        '\0'
    }
}

/// ASCII whitespace: space, tab, newline, carriage return.
pub open spec fn is_whitespace_char(c: char) -> bool {
    c == ' ' || c == '\t' || c == '\n' || c == '\r'
}

/// A character that may begin an identifier: a letter or an underscore.
pub open spec fn is_letter_char(c: char) -> bool {
    ('a' <= c && c <= 'z') || ('A' <= c && c <= 'Z') || c == '_'
}

/// A decimal digit.
pub open spec fn is_digit_char(c: char) -> bool {
    '0' <= c && c <= '9'
}

/// A character that may continue an identifier: a letter, a digit or an
/// underscore.
pub open spec fn is_ident_char(c: char) -> bool {
    is_letter_char(c) || is_digit_char(c)
}

/// The first index at or after `pos` that does not hold whitespace
/// (the length of the text if whitespace runs to the end).
pub open spec fn whitespace_end(s: Seq<char>, pos: int) -> int
    decreases s.len() - pos,
{
    if pos < s.len() && is_whitespace_char(s[pos]) {
        whitespace_end(s, pos + 1)
    } else {
        pos
    }
}

/// The first index at or after `pos` that does not hold an identifier
/// character: the exclusive end of the identifier starting at `pos`.
pub open spec fn ident_end(s: Seq<char>, pos: int) -> int
    decreases s.len() - pos,
{
    if pos < s.len() && is_ident_char(s[pos]) {
        ident_end(s, pos + 1)
    } else {
        pos
    }
}

/// The first index at or after `pos` that does not hold a decimal digit:
/// the exclusive end of the numeral starting at `pos`.
pub open spec fn digits_end(s: Seq<char>, pos: int) -> int
    decreases s.len() - pos,
{
    if pos < s.len() && is_digit_char(s[pos]) {
        digits_end(s, pos + 1)
    } else {
        pos
    }
}

/// A character the scanner recognizes as beginning a token: one of the
/// punctuation characters, the minus sign (alone or as the start of the
/// arrow), a letter, an underscore or a digit. Everything else — the null
/// sentinel included — classifies as `Illegal` when it stands inside the
/// text.
pub open spec fn is_token_start_char(c: char) -> bool {
    ||| c == '='
    ||| c == '+'
    ||| c == '('
    ||| c == ')'
    ||| c == '{'
    ||| c == '}'
    ||| c == ','
    ||| c == ';'
    ||| c == ':'
    ||| c == '-'
    ||| is_letter_char(c)
    ||| is_digit_char(c)
}

/// Identifier-shaped text maps to its reserved-word token when it is one,
/// and to a plain identifier token otherwise.
pub open spec fn keyword_or_ident(text: Seq<char>) -> TokenView {
    if text == "let"@ {
        TokenView::Let
    } else {
        TokenView::Ident(text)
    }
}

/// Classification of the character at `pos`, with no whitespace skipped:
/// the token produced there and the cursor position after it.
///
/// Past the end of the text the token is `Eof` and the cursor stays put,
/// so `Eof` repeats forever.
pub open spec fn token_at(s: Seq<char>, pos: int) -> (TokenView, int) {
    let c = char_at(s, pos);
    if pos >= s.len() {
        (TokenView::Eof, pos)
    } else if c == '=' {
        (TokenView::Assign, pos + 1)
    } else if c == '+' {
        (TokenView::Plus, pos + 1)
    } else if c == '(' {
        (TokenView::LParen, pos + 1)
    } else if c == ')' {
        (TokenView::RParen, pos + 1)
    } else if c == '{' {
        (TokenView::LBrace, pos + 1)
    } else if c == '}' {
        (TokenView::RBrace, pos + 1)
    } else if c == ',' {
        (TokenView::Comma, pos + 1)
    } else if c == ';' {
        (TokenView::Semicolon, pos + 1)
    } else if c == ':' {
        (TokenView::In, pos + 1)
    } else if c == '-' {
        if char_at(s, pos + 1) == '>' {
            (TokenView::To, pos + 2)
        } else {
            (TokenView::Minus, pos + 1)
        }
    } else if is_letter_char(c) {
        let end = ident_end(s, pos);
        (keyword_or_ident(s.subrange(pos, end)), end)
    } else if is_digit_char(c) {
        let end = digits_end(s, pos);
        (TokenView::Int(s.subrange(pos, end)), end)
    } else {
        (TokenView::Illegal, pos + 1)
    }
}

/// What one call of `next_token` does from cursor position `pos`: skip
/// whitespace, then classify. Returns the token and the new cursor position.
pub open spec fn next_token_at(s: Seq<char>, pos: int) -> (TokenView, int) {
    token_at(s, whitespace_end(s, pos))
}

pub proof fn lemma_whitespace_end_bounds(s: Seq<char>, pos: int)
    requires
        0 <= pos <= s.len(),
    ensures
        pos <= whitespace_end(s, pos) <= s.len(),
    decreases s.len() - pos,
{
    if pos < s.len() && is_whitespace_char(s[pos]) {
        lemma_whitespace_end_bounds(s, pos + 1);
    }
}

pub proof fn lemma_ident_end_bounds(s: Seq<char>, pos: int)
    requires
        0 <= pos <= s.len(),
    ensures
        pos <= ident_end(s, pos) <= s.len(),
    decreases s.len() - pos,
{
    if pos < s.len() && is_ident_char(s[pos]) {
        lemma_ident_end_bounds(s, pos + 1);
    }
}

pub proof fn lemma_digits_end_bounds(s: Seq<char>, pos: int)
    requires
        0 <= pos <= s.len(),
    ensures
        pos <= digits_end(s, pos) <= s.len(),
    decreases s.len() - pos,
{
    if pos < s.len() && is_digit_char(s[pos]) {
        lemma_digits_end_bounds(s, pos + 1);
    }
}

/// Classifying a character within the text always moves the cursor forward
/// and never past the end; only past the end does classification stand
/// still, and then it yields `Eof`.
pub proof fn lemma_token_at_progress(s: Seq<char>, pos: int)
    requires
        0 <= pos <= s.len(),
    ensures
        pos <= token_at(s, pos).1 <= s.len(),
        token_at(s, pos).0 != TokenView::Eof ==> token_at(s, pos).1 > pos,
        token_at(s, pos).0 == TokenView::Eof ==> pos == s.len() && token_at(s, pos).1 == pos,
{
    if pos < s.len() {
        let c = s[pos];
        if is_letter_char(c) {
            lemma_ident_end_bounds(s, pos + 1);
        } else if is_digit_char(c) {
            lemma_digits_end_bounds(s, pos + 1);
        }
    }
}

/// One `next_token` step from any cursor position within the text lands
/// within the text, and moves strictly forward unless it produced `Eof`.
pub proof fn lemma_next_token_progress(s: Seq<char>, pos: int)
    requires
        0 <= pos <= s.len(),
    ensures
        pos <= next_token_at(s, pos).1 <= s.len(),
        next_token_at(s, pos).0 != TokenView::Eof ==> next_token_at(s, pos).1 > pos,
{
    lemma_whitespace_end_bounds(s, pos);
    lemma_token_at_progress(s, whitespace_end(s, pos));
}

/// The whole token sequence the scanner produces from cursor position
/// `pos`: every token up to and including the first `Eof`.
pub open spec fn tokens_from(s: Seq<char>, pos: int) -> Seq<TokenView>
    decreases s.len() - pos
        when 0 <= pos <= s.len()
        via tokens_from_decreases
{
    let t = next_token_at(s, pos).0;
    let p = next_token_at(s, pos).1;
    if t == TokenView::Eof {
        seq![TokenView::Eof]
    } else {
        seq![t] + tokens_from(s, p)
    }
}

#[via_fn]
proof fn tokens_from_decreases(s: Seq<char>, pos: int) {
    lemma_next_token_progress(s, pos);
}

/// Decides `is_whitespace_char`.
fn whitespace_char(c: char) -> (b: bool)
    ensures
        b == is_whitespace_char(c),
{
    c == ' ' || c == '\t' || c == '\n' || c == '\r'
}

/// Decides `is_letter_char`.
fn letter_char(c: char) -> (b: bool)
    ensures
        b == is_letter_char(c),
{
    ('a' <= c && c <= 'z') || ('A' <= c && c <= 'Z') || c == '_'
}

/// Decides `is_digit_char`.
fn digit_char(c: char) -> (b: bool)
    ensures
        b == is_digit_char(c),
{
    '0' <= c && c <= '9'
}

/// Decides `is_ident_char`.
fn ident_char(c: char) -> (b: bool)
    ensures
        b == is_ident_char(c),
{
    letter_char(c) || digit_char(c)
}

/// The stateful tokenizer: it owns the source text and a cursor, and hands
/// out one token per call until `Eof`, which then repeats forever.
pub struct Lexer {
    input: String,
    pos: usize,
    len: usize,
    ch: char,
}

impl Lexer {
    /// The source text the scanner was built over, as characters.
    pub closed spec fn src(&self) -> Seq<char> {
        self.input@
    }

    /// The cursor: the index of the character the scanner classifies next.
    pub closed spec fn cursor(&self) -> int {
        self.pos as int
    }

    /// Internal consistency: the cursor never passes the end of the text,
    /// `len` caches the text's length in characters, and `ch` caches the
    /// character under the cursor (the null sentinel once input is
    /// exhausted).
    pub closed spec fn wf(&self) -> bool {
        &&& self.pos <= self.input@.len()
        &&& self.len == self.input@.len()
        &&& self.ch == char_at(self.input@, self.pos as int)
    }

    /// Builds a scanner over `input` with the cursor at the start and the
    /// first character (or the null sentinel, for empty input) pre-loaded.
    pub fn new(input: String) -> (scanner: Lexer)
        ensures
            scanner.wf(),
            scanner.src() == input@,
            scanner.cursor() == 0,
    {
        let len: usize = input.as_str().unicode_len();
        let ch: char = if len > 0 {
            input.as_str().get_char(0)
        } else {
            '\0'
        };
        Lexer { input, pos: 0, len, ch }
    }

    /// Moves the cursor one character forward and re-loads the cached
    /// character, turning it into the null sentinel at end of input.
    fn read_char(&mut self)
        requires
            old(self).wf(),
            old(self).cursor() < old(self).src().len(),
        ensures
            final(self).wf(),
            final(self).src() == old(self).src(),
            final(self).cursor() == old(self).cursor() + 1,
    {
        self.pos = self.pos + 1;
        self.ch = if self.pos < self.len {
            self.input.as_str().get_char(self.pos)
        } else {
            '\0'
        };
    }

    /// The character one past the cursor, without moving the cursor; the
    /// null sentinel if none remains.
    fn peek(&self) -> (c: char)
        requires
            self.wf(),
            self.cursor() < self.src().len(),
        ensures
            c == char_at(self.src(), self.cursor() + 1),
    {
        if self.pos + 1 < self.len {
            self.input.as_str().get_char(self.pos + 1)
        } else {
            '\0'
        }
    }

    /// Advances the cursor to the end of the whitespace run under it.
    fn eat_whitespace(&mut self)
        requires
            old(self).wf(),
        ensures
            final(self).wf(),
            final(self).src() == old(self).src(),
            final(self).cursor() == whitespace_end(old(self).src(), old(self).cursor()),
    {
        while whitespace_char(self.ch)
            invariant
                self.wf(),
                self.src() == old(self).src(),
                whitespace_end(self.src(), self.cursor())
                    == whitespace_end(old(self).src(), old(self).cursor()),
            decreases self.src().len() - self.cursor(),
        {
            self.read_char();
        }
    }

    /// Captures the maximal run of identifier characters under the cursor
    /// and advances the cursor past it.
    fn read_ident(&mut self) -> (text: String)
        requires
            old(self).wf(),
        ensures
            final(self).wf(),
            final(self).src() == old(self).src(),
            final(self).cursor() == ident_end(old(self).src(), old(self).cursor()),
            text@ == old(self).src().subrange(old(self).cursor(), final(self).cursor()),
    {
        let start: usize = self.pos;
        while ident_char(self.ch)
            invariant
                self.wf(),
                self.src() == old(self).src(),
                start as int <= self.cursor() <= self.src().len(),
                ident_end(self.src(), self.cursor()) == ident_end(old(self).src(), start as int),
            decreases self.src().len() - self.cursor(),
        {
            self.read_char();
        }
        let captured = self.input.as_str().substring_char(start, self.pos);
        String::from_str(captured)
    }

    /// Captures the maximal run of decimal digits under the cursor and
    /// advances the cursor past it.
    fn read_num(&mut self) -> (text: String)
        requires
            old(self).wf(),
        ensures
            final(self).wf(),
            final(self).src() == old(self).src(),
            final(self).cursor() == digits_end(old(self).src(), old(self).cursor()),
            text@ == old(self).src().subrange(old(self).cursor(), final(self).cursor()),
    {
        let start: usize = self.pos;
        while digit_char(self.ch)
            invariant
                self.wf(),
                self.src() == old(self).src(),
                start as int <= self.cursor() <= self.src().len(),
                digits_end(self.src(), self.cursor()) == digits_end(old(self).src(), start as int),
            decreases self.src().len() - self.cursor(),
        {
            self.read_char();
        }
        let captured = self.input.as_str().substring_char(start, self.pos);
        String::from_str(captured)
    }

    /// Skips whitespace, classifies the character under the cursor, and
    /// returns its token; the cursor advances exactly as far as the model
    /// `next_token_at` says. At end of input the token is `Eof`, the cursor
    /// does not move, and every further call returns `Eof` again.
    pub fn next_token(&mut self) -> (t: Token)
        requires
            old(self).wf(),
        ensures
            final(self).wf(),
            final(self).src() == old(self).src(),
            t@ == next_token_at(old(self).src(), old(self).cursor()).0,
            final(self).cursor() == next_token_at(old(self).src(), old(self).cursor()).1,
    {
        self.eat_whitespace();
        if self.pos >= self.len {
            return Token::Eof;
        }
        let tok: Token = match self.ch {
            '=' => Token::Assign,
            '+' => Token::Plus,
            '(' => Token::LParen,
            ')' => Token::RParen,
            '{' => Token::LBrace,
            '}' => Token::RBrace,
            ',' => Token::Comma,
            ';' => Token::Semicolon,
            ':' => Token::In,
            '-' => {
                if self.peek() == '>' {
                    self.read_char();
                    Token::To
                } else {
                    Token::Minus
                }
            },
            _ => {
                if letter_char(self.ch) {
                    let text = self.read_ident();
                    let keyword = String::from_str("let");
                    if text == keyword {
                        return Token::Let;
                    }
                    return Token::Ident(text);
                } else if digit_char(self.ch) {
                    return Token::Int(self.read_num());
                } else {
                    Token::Illegal
                }
            },
        };
        self.read_char();
        tok
    }
}

} // verus!

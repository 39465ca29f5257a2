//! The lexer: turns assembly source text into a sequence of lexical
//! tokens.
//!
//! A token is an identifier (a run of letters, with `:` counting as a
//! letter so that label definitions lex as one word) or a numeric
//! value (a run of decimal digits).  Whitespace separates tokens; the
//! scan stops at the first character that starts no token.  The token
//! stream a text lexes to is pinned down by [`spec_tokens`], and the
//! lexer also tracks a line and column position for diagnostics.
//!
//! Numeric runs must fit in a signed 32-bit value: [`lexable`] states
//! this of the text, and the entry points require it.

use vstd::prelude::*;
use vstd::string::{StrSliceExecFns, StringExecFns};
use vstd::wrapping::u32_specs;

verus! {

/// One lexical token.
#[derive(Debug, PartialEq)]
pub enum Token {
    Identifier(String),
    Value(i32),
}

/// The specification-level value of a [`Token`].
pub enum TokenV {
    Identifier(Seq<char>),
    Value(i32),
}

impl View for Token {
    type V = TokenV;

    open spec fn view(&self) -> TokenV {
        match self {
            Token::Identifier(s) => TokenV::Identifier(s@),
            Token::Value(v) => TokenV::Value(*v),
        }
    }
}

impl DeepView for Token {
    type V = TokenV;

    open spec fn deep_view(&self) -> TokenV {
        self.view()
    }
}

impl Clone for Token {
    /// Returns an equal token.
    fn clone(&self) -> (r: Self)
        ensures
            r == *self,
    {
        match self {
            Token::Identifier(s) => Token::Identifier(s.clone()),
            Token::Value(v) => Token::Value(*v),
        }
    }
}

/// Whether `c` is a decimal digit.
pub open spec fn spec_is_numeric(c: char) -> bool {
    48 <= c as u32 && c as u32 <= 57
}

/// Whether `c` continues an identifier: a letter, or the colon that
/// ends a label definition.
pub open spec fn spec_is_alphabetic(c: char) -> bool {
    ||| (97 <= c as u32 && c as u32 <= 122)
    ||| (65 <= c as u32 && c as u32 <= 90)
    ||| c as u32 == 58
}

/// Whether `c` is whitespace: space, tab or newline.
pub open spec fn spec_is_whitespace(c: char) -> bool {
    c as u32 == 32 || c as u32 == 9 || c as u32 == 10
}

/// Whether `c` opens a comment.
pub open spec fn spec_is_comment(c: char) -> bool {
    c as u32 == 35
}

/// Whether `c` is a decimal digit.
pub fn is_numeric(c: char) -> (b: bool)
    ensures
        b == spec_is_numeric(c),
{
    let u = c as u32;
    48 <= u && u <= 57
}

/// Whether `c` continues an identifier.
pub fn is_alphabetic(c: char) -> (b: bool)
    ensures
        b == spec_is_alphabetic(c),
{
    let u = c as u32;
    (97 <= u && u <= 122) || (65 <= u && u <= 90) || u == 58
}

/// Whether `c` is whitespace.
pub fn is_whitespace(c: char) -> (b: bool)
    ensures
        b == spec_is_whitespace(c),
{
    let u = c as u32;
    u == 32 || u == 9 || u == 10
}

/// Whether `c` opens a comment.
pub fn is_comment(c: char) -> (b: bool)
    ensures
        b == spec_is_comment(c),
{
    let u = c as u32;
    u == 35
}

/// The end of the run of characters satisfying `cls` that starts at
/// `i`: the first position at or after `i` whose character fails
/// `cls`, or the end of the text.
pub open spec fn run_end(s: Seq<char>, i: nat, cls: spec_fn(char) -> bool) -> nat
    decreases s.len() - i,
{
    if i >= s.len() {
        i
    } else if !cls(s[i as int]) {
        i
    } else {
        run_end(s, i + 1, cls)
    }
}

/// A run ends within the text, after its first character when the
/// first character belongs to it, and every character before its end
/// belongs to it.
pub proof fn lemma_run_end_bounds(s: Seq<char>, i: nat, cls: spec_fn(char) -> bool)
    requires
        i <= s.len(),
    ensures
        i <= run_end(s, i, cls) <= s.len(),
        i < s.len() && cls(s[i as int]) ==> run_end(s, i, cls) >= i + 1,
        forall|j: int| i <= j < run_end(s, i, cls) ==> cls(s[j]),
        run_end(s, i, cls) < s.len() ==> !cls(s[run_end(s, i, cls) as int]),
    decreases s.len() - i,
{
    if i < s.len() && cls(s[i as int]) {
        lemma_run_end_bounds(s, i + 1, cls);
    }
}

/// A position bounded as `j` is here is the run's end: every character
/// before it belongs to the run, and its own character, if any, does
/// not.
pub proof fn lemma_run_end_is(s: Seq<char>, i: nat, j: nat, cls: spec_fn(char) -> bool)
    requires
        i <= j <= s.len(),
        forall|k: int| i <= k < j ==> cls(s[k]),
        j < s.len() ==> !cls(s[j as int]),
    ensures
        run_end(s, i, cls) == j,
    decreases j - i,
{
    if i < j {
        lemma_run_end_is(s, i + 1, j, cls);
    }
}

/// The numeric value of a run of decimal digits, most significant
/// first.
pub open spec fn digit_of(c: char) -> int {
    c as u32 - 48
}

/// The value of a digit sequence read in base ten.
pub open spec fn digits_val(s: Seq<char>) -> int
    decreases s.len(),
{
    if s.len() == 0 {
        0
    } else {
        digits_val(s.drop_last()) * 10 + digit_of(s.last())
    }
}

/// A digit sequence has a nonnegative value.
pub proof fn lemma_digits_val_nonneg(s: Seq<char>)
    requires
        forall|j: int| 0 <= j < s.len() ==> spec_is_numeric(#[trigger] s[j]),
    ensures
        digits_val(s) >= 0,
    decreases s.len(),
{
    if s.len() > 0 {
        lemma_digits_val_nonneg(s.drop_last());
    }
}

/// A prefix of a digit sequence is worth no more than the whole.
pub proof fn lemma_digits_val_prefix(s: Seq<char>, k: int)
    requires
        0 <= k <= s.len(),
        forall|j: int| 0 <= j < s.len() ==> spec_is_numeric(#[trigger] s[j]),
    ensures
        0 <= digits_val(s.take(k)) <= digits_val(s),
    decreases s.len() - k,
{
    lemma_digits_val_nonneg(s.take(k));
    if k == s.len() {
        assert(s.take(k) =~= s);
    } else {
        lemma_digits_val_prefix(s, k + 1);
        assert(s.take(k + 1).drop_last() =~= s.take(k));
        assert(s.take(k + 1).last() == s[k]);
    }
}

/// The line and column position after one character: a newline starts
/// the next line at column one, a tab advances the column by four, and
/// any other character advances it by one.  The counters wrap on
/// overflow.
pub open spec fn position_after(line_column: (u32, u32), c: char) -> (u32, u32) {
    if c == '\n' {
        (u32_specs::wrapping_add(line_column.0, 1), 1u32)
    } else if c == '\t' {
        (line_column.0, u32_specs::wrapping_add(line_column.1, 4))
    } else {
        (line_column.0, u32_specs::wrapping_add(line_column.1, 1))
    }
}

/// The line and column position after a sequence of characters.
pub open spec fn position_track(line_column: (u32, u32), s: Seq<char>) -> (u32, u32)
    decreases s.len(),
{
    if s.len() == 0 {
        line_column
    } else {
        position_after(position_track(line_column, s.drop_last()), s.last())
    }
}

/// Tracking a concatenation tracks the parts in order.
pub proof fn lemma_position_track_concat(line_column: (u32, u32), a: Seq<char>, b: Seq<char>)
    ensures
        position_track(line_column, a + b) == position_track(position_track(line_column, a), b),
    decreases b.len(),
{
    if b.len() == 0 {
        assert(a + b =~= a);
    } else {
        assert((a + b).drop_last() =~= a + b.drop_last());
        assert((a + b).last() == b.last());
        lemma_position_track_concat(line_column, a, b.drop_last());
    }
}

/// The next token of the text at or after position `i`, and the
/// position the scan stands at afterwards: an identifier or value
/// token for a letter or digit run, none at the end of the text or at
/// a character that starts no token, whitespace skipped first.
pub open spec fn spec_next_token(s: Seq<char>, i: nat) -> (Option<TokenV>, nat)
    decreases s.len() - i,
    when i <= s.len()
    via spec_next_token_decreases
{
    if i >= s.len() {
        (None, i)
    } else if spec_is_alphabetic(s[i as int]) {
        let e = run_end(s, i, |c: char| spec_is_alphabetic(c));
        (Some(TokenV::Identifier(s.subrange(i as int, e as int))), e)
    } else if spec_is_numeric(s[i as int]) {
        let e = run_end(s, i, |c: char| spec_is_numeric(c));
        (Some(TokenV::Value(digits_val(s.subrange(i as int, e as int)) as i32)), e)
    } else if spec_is_whitespace(s[i as int]) {
        spec_next_token(s, run_end(s, i, |c: char| spec_is_whitespace(c)))
    } else {
        (None, i)
    }
}

#[via_fn]
proof fn spec_next_token_decreases(s: Seq<char>, i: nat) {
    if i < s.len() {
        lemma_run_end_bounds(s, i, |c: char| spec_is_whitespace(c));
    }
}

/// The whole token stream of the text from position `i` on.
pub open spec fn spec_tokens(s: Seq<char>, i: nat) -> Seq<TokenV>
    decreases s.len() - i,
    when i <= s.len()
    via spec_tokens_decreases
{
    match spec_next_token(s, i) {
        (None, _) => Seq::empty(),
        (Some(t), e) => seq![t] + spec_tokens(s, e),
    }
}

#[via_fn]
proof fn spec_tokens_decreases(s: Seq<char>, i: nat) {
    lemma_next_token_bounds(s, i);
}

/// The scan position never moves backwards, stays within the text,
/// and moves strictly forward when a token is produced.
pub proof fn lemma_next_token_bounds(s: Seq<char>, i: nat)
    requires
        i <= s.len(),
    ensures
        i <= spec_next_token(s, i).1 <= s.len(),
        spec_next_token(s, i).0 is Some ==> spec_next_token(s, i).1 > i,
    decreases s.len() - i,
{
    if i < s.len() {
        if spec_is_alphabetic(s[i as int]) {
            lemma_run_end_bounds(s, i, |c: char| spec_is_alphabetic(c));
        } else if spec_is_numeric(s[i as int]) {
            lemma_run_end_bounds(s, i, |c: char| spec_is_numeric(c));
        } else if spec_is_whitespace(s[i as int]) {
            lemma_run_end_bounds(s, i, |c: char| spec_is_whitespace(c));
            lemma_next_token_bounds(s, run_end(s, i, |c: char| spec_is_whitespace(c)));
        }
    }
}

/// The token stream opens with the next token: it is empty where the
/// scan finds none (and stays empty at the position the scan stops
/// at), and otherwise it is the found token followed by the stream
/// from the scan's new position.
pub proof fn lemma_tokens_unfold(s: Seq<char>, i: nat)
    requires
        i <= s.len(),
    ensures
        spec_next_token(s, i).0 is None ==> spec_tokens(s, i) == Seq::<TokenV>::empty()
            && spec_tokens(s, spec_next_token(s, i).1) == Seq::<TokenV>::empty(),
        spec_next_token(s, i).0 is Some ==> spec_tokens(s, i) == seq![
            spec_next_token(s, i).0->Some_0,
        ] + spec_tokens(s, spec_next_token(s, i).1),
    decreases s.len() - i,
{
    lemma_next_token_bounds(s, i);
    let r = spec_next_token(s, i);
    match r {
        (None, e) => {
            assert(r.0 == None::<TokenV>);
            assert(r.1 == e);
            if i < s.len() && !spec_is_alphabetic(s[i as int]) && !spec_is_numeric(s[i as int])
                && spec_is_whitespace(s[i as int]) {
                lemma_run_end_bounds(s, i, |c: char| spec_is_whitespace(c));
                lemma_tokens_unfold(s, run_end(s, i, |c: char| spec_is_whitespace(c)));
            }
        },
        (Some(t), e) => {
            assert(r.0 == Some(t));
            assert(r.1 == e);
        },
    }
}

/// Every numeric run the scan meets from position `i` on fits in a
/// signed 32-bit value.
pub open spec fn lexable(s: Seq<char>, i: nat) -> bool
    decreases s.len() - i,
    when i <= s.len()
    via lexable_decreases
{
    if i >= s.len() {
        true
    } else if spec_is_alphabetic(s[i as int]) {
        lexable(s, run_end(s, i, |c: char| spec_is_alphabetic(c)))
    } else if spec_is_numeric(s[i as int]) {
        let e = run_end(s, i, |c: char| spec_is_numeric(c));
        digits_val(s.subrange(i as int, e as int)) <= i32::MAX && lexable(s, e)
    } else if spec_is_whitespace(s[i as int]) {
        lexable(s, run_end(s, i, |c: char| spec_is_whitespace(c)))
    } else {
        true
    }
}

#[via_fn]
proof fn lexable_decreases(s: Seq<char>, i: nat) {
    if i < s.len() {
        if spec_is_alphabetic(s[i as int]) {
            lemma_run_end_bounds(s, i, |c: char| spec_is_alphabetic(c));
        } else if spec_is_numeric(s[i as int]) {
            lemma_run_end_bounds(s, i, |c: char| spec_is_numeric(c));
        } else if spec_is_whitespace(s[i as int]) {
            lemma_run_end_bounds(s, i, |c: char| spec_is_whitespace(c));
        }
    }
}

/// The specification-level values of an option of a token.
pub open spec fn opt_token_view(t: Option<Token>) -> Option<TokenV> {
    match t {
        Some(tok) => Some(tok@),
        None => None,
    }
}

/// The lexer: a scan position within borrowed source text, with the
/// line and column the position stands at.
pub struct Lexer<'a> {
    pub input: &'a str,
    pub pos: usize,
    pub line: u32,
    pub column: u32,
}

impl<'a> Lexer<'a> {
    /// The scan position lies within the text.
    pub open spec fn wf(self) -> bool {
        self.pos <= self.input@.len()
    }

    /// Returns a lexer at the start of `input`, on line one, column
    /// one.
    pub fn new(input: &'a str) -> (l: Lexer<'a>)
        ensures
            l.wf(),
            l.input@ == input@,
            l.pos == 0,
            l.line == 1,
            l.column == 1,
    {
        Lexer { input, pos: 0, line: 1, column: 1 }
    }

    /// The character under the scan position, if the position has not
    /// reached the end of the text.  Moves nothing.
    pub fn peek(&self) -> (c: Option<char>)
        requires
            self.wf(),
        ensures
            match c {
                Some(ch) => self.pos < self.input@.len() && ch == self.input@[self.pos as int],
                None => self.pos == self.input@.len(),
            },
    {
        if self.pos < self.input.unicode_len() {
            Some(self.input.get_char(self.pos))
        } else {
            None
        }
    }

    /// Consumes and returns the character under the scan position, if
    /// any, advancing the line and column counters as
    /// [`position_after`] says.
    pub fn advance(&mut self) -> (c: Option<char>)
        requires
            old(self).wf(),
        ensures
            final(self).wf(),
            final(self).input == old(self).input,
            match c {
                Some(ch) => {
                    &&& old(self).pos < old(self).input@.len()
                    &&& ch == old(self).input@[old(self).pos as int]
                    &&& final(self).pos == old(self).pos + 1
                    &&& (final(self).line, final(self).column) == position_after(
                        (old(self).line, old(self).column),
                        ch,
                    )
                },
                None => *final(self) == *old(self) && old(self).pos == old(self).input@.len(),
            },
    {
        if self.pos < self.input.unicode_len() {
            let c = self.input.get_char(self.pos);
            if c == '\n' {
                self.column = 1;
                self.line = self.line.wrapping_add(1);
            } else if c == '\t' {
                self.column = self.column.wrapping_add(4);
            } else {
                self.column = self.column.wrapping_add(1);
            }
            self.pos = self.pos + 1;
            Some(c)
        } else {
            None
        }
    }

    /// Consumes characters while the predicate `p` accepts them,
    /// stopping at the first character it rejects or at the end of the
    /// text.
    #[verifier::loop_isolation(false)]
    pub fn advance_while<P: Fn(char) -> bool>(&mut self, p: P)
        requires
            old(self).wf(),
            forall|c: char| #[trigger] call_requires(p, (c,)),
        ensures
            final(self).wf(),
            final(self).input == old(self).input,
            old(self).pos <= final(self).pos <= final(self).input@.len(),
            forall|j: int|
                old(self).pos <= j < final(self).pos ==> call_ensures(
                    p,
                    (old(self).input@[j],),
                    true,
                ),
            final(self).pos < final(self).input@.len() ==> call_ensures(
                p,
                (final(self).input@[final(self).pos as int],),
                false,
            ),
            (final(self).line, final(self).column) == position_track(
                (old(self).line, old(self).column),
                old(self).input@.subrange(old(self).pos as int, final(self).pos as int),
            ),
    {
        let ghost start = self.pos;
        let ghost lc0 = (self.line, self.column);
        loop
            invariant
                self.wf(),
                self.input == old(self).input,
                forall|c: char| #[trigger] call_requires(p, (c,)),
                start <= self.pos <= self.input@.len(),
                forall|j: int|
                    start <= j < self.pos ==> call_ensures(p, (self.input@[j],), true),
                (self.line, self.column) == position_track(
                    lc0,
                    self.input@.subrange(start as int, self.pos as int),
                ),
            decreases self.input@.len() - self.pos,
        {
            match self.peek() {
                Some(c) => {
                    if !p(c) {
                        return ;
                    }
                },
                None => {
                    return ;
                },
            }
            let ghost before = self.pos;
            self.advance();
            proof {
                assert(self.input@.subrange(start as int, self.pos as int).drop_last()
                    =~= self.input@.subrange(start as int, before as int));
            }
        }
    }

    /// Consumes the identifier run that starts at the scan position
    /// and returns it as an identifier token.
    pub fn handle_alphabetic(&mut self) -> (t: Token)
        requires
            old(self).wf(),
        ensures
            final(self).wf(),
            final(self).input == old(self).input,
            final(self).pos == run_end(
                old(self).input@,
                old(self).pos as nat,
                |c: char| spec_is_alphabetic(c),
            ),
            t@ == TokenV::Identifier(
                old(self).input@.subrange(old(self).pos as int, final(self).pos as int),
            ),
            (final(self).line, final(self).column) == position_track(
                (old(self).line, old(self).column),
                old(self).input@.subrange(old(self).pos as int, final(self).pos as int),
            ),
    {
        let start = self.pos;
        self.advance_while(is_alphabetic);
        proof {
            lemma_run_end_is(
                self.input@,
                start as nat,
                self.pos as nat,
                |c: char| spec_is_alphabetic(c),
            );
        }
        let word = self.input.substring_char(start, self.pos);
        Token::Identifier(word.to_owned())
    }

    /// Consumes the digit run that starts at the scan position and
    /// returns its base-ten value as a value token.  The run's value
    /// must fit in a signed 32-bit integer.
    #[verifier::loop_isolation(false)]
    pub fn handle_number(&mut self) -> (t: Token)
        requires
            old(self).wf(),
            digits_val(
                old(self).input@.subrange(
                    old(self).pos as int,
                    run_end(
                        old(self).input@,
                        old(self).pos as nat,
                        |c: char| spec_is_numeric(c),
                    ) as int,
                ),
            ) <= i32::MAX,
        ensures
            final(self).wf(),
            final(self).input == old(self).input,
            final(self).pos == run_end(
                old(self).input@,
                old(self).pos as nat,
                |c: char| spec_is_numeric(c),
            ),
            t@ == TokenV::Value(
                digits_val(
                    old(self).input@.subrange(old(self).pos as int, final(self).pos as int),
                ) as i32,
            ),
            (final(self).line, final(self).column) == position_track(
                (old(self).line, old(self).column),
                old(self).input@.subrange(old(self).pos as int, final(self).pos as int),
            ),
    {
        let start = self.pos;
        self.advance_while(is_numeric);
        proof {
            lemma_run_end_is(
                self.input@,
                start as nat,
                self.pos as nat,
                |c: char| spec_is_numeric(c),
            );
        }
        let ghost run = self.input@.subrange(start as int, self.pos as int);
        proof {
            assert forall|k: int| 0 <= k < run.len() implies spec_is_numeric(
                #[trigger] run[k],
            ) by {
                assert(call_ensures(is_numeric, (self.input@[start + k],), true));
            }
        }
        let mut value: i32 = 0;
        let mut j: usize = start;
        while j < self.pos
            invariant
                self.wf(),
                start <= j <= self.pos <= self.input@.len(),
                run == self.input@.subrange(start as int, self.pos as int),
                forall|k: int| 0 <= k < run.len() ==> spec_is_numeric(#[trigger] run[k]),
                digits_val(run) <= i32::MAX,
                value == digits_val(run.take(j - start)),
                0 <= value,
            decreases self.pos - j,
        {
            let c = self.input.get_char(j);
            let d = (c as u32) - 48;
            proof {
                assert(run[j - start] == self.input@[j as int]);
                lemma_digits_val_prefix(run, j - start + 1);
                assert(run.take(j - start + 1).drop_last() =~= run.take(j - start));
                assert(run.take(j - start + 1).last() == run[j - start]);
            }
            value = value * 10 + (d as i32);
            j = j + 1;
        }
        proof {
            assert(run.take(run.len() as int) =~= run);
        }
        Token::Value(value)
    }

    /// Consumes the whitespace run that starts at the scan position.
    pub fn handle_whitespace(&mut self)
        requires
            old(self).wf(),
        ensures
            final(self).wf(),
            final(self).input == old(self).input,
            final(self).pos == run_end(
                old(self).input@,
                old(self).pos as nat,
                |c: char| spec_is_whitespace(c),
            ),
            (final(self).line, final(self).column) == position_track(
                (old(self).line, old(self).column),
                old(self).input@.subrange(old(self).pos as int, final(self).pos as int),
            ),
    {
        let ghost start = self.pos;
        self.advance_while(is_whitespace);
        proof {
            lemma_run_end_is(
                self.input@,
                start as nat,
                self.pos as nat,
                |c: char| spec_is_whitespace(c),
            );
        }
    }

    /// Scans the next token: exactly what [`spec_next_token`] says the
    /// text holds at the scan position, whitespace skipped first.
    pub fn next(&mut self) -> (t: Option<Token>)
        requires
            old(self).wf(),
            lexable(old(self).input@, old(self).pos as nat),
        ensures
            final(self).wf(),
            final(self).input == old(self).input,
            lexable(final(self).input@, final(self).pos as nat),
            (opt_token_view(t), final(self).pos as nat) == spec_next_token(
                old(self).input@,
                old(self).pos as nat,
            ),
            t is Some ==> final(self).pos > old(self).pos,
            (final(self).line, final(self).column) == position_track(
                (old(self).line, old(self).column),
                old(self).input@.subrange(old(self).pos as int, final(self).pos as int),
            ),
        decreases old(self).input@.len() - old(self).pos,
    {
        proof {
            lemma_next_token_bounds(self.input@, self.pos as nat);
        }
        match self.peek() {
            Some(c) => {
                if is_alphabetic(c) {
                    Some(self.handle_alphabetic())
                } else if is_numeric(c) {
                    Some(self.handle_number())
                } else if is_whitespace(c) {
                    let ghost start = self.pos;
                    self.handle_whitespace();
                    proof {
                        lemma_run_end_bounds(
                            self.input@,
                            start as nat,
                            |ch: char| spec_is_whitespace(ch),
                        );
                    }
                    let ghost ws_end = self.pos;
                    let t = self.next();
                    proof {
                        lemma_position_track_concat(
                            (old(self).line, old(self).column),
                            old(self).input@.subrange(start as int, ws_end as int),
                            old(self).input@.subrange(ws_end as int, self.pos as int),
                        );
                        assert(old(self).input@.subrange(start as int, ws_end as int)
                            + old(self).input@.subrange(ws_end as int, self.pos as int)
                            =~= old(self).input@.subrange(start as int, self.pos as int));
                    }
                    t
                } else {
                    None
                }
            },
            None => None,
        }
    }
}

/// Decides [`lexable`]: whether every numeric run the scan would meet
/// fits in a signed 32-bit value.  Total; callers that cannot know
/// their input test it before lexing.
#[verifier::loop_isolation(false)]
pub fn text_lexable(input: &str) -> (b: bool)
    ensures
        b == lexable(input@, 0),
{
    let n = input.unicode_len();
    let mut pos: usize = 0;
    loop
        invariant
            pos <= n,
            n == input@.len(),
            lexable(input@, 0) == lexable(input@, pos as nat),
        decreases n - pos,
    {
        if pos >= n {
            return true;
        }
        let c = input.get_char(pos);
        if is_alphabetic(c) {
            let ghost start = pos;
            while pos < n && is_alphabetic(input.get_char(pos))
                invariant
                    start <= pos <= n,
                    forall|j: int|
                        start <= j < pos ==> spec_is_alphabetic(#[trigger] input@[j]),
                decreases n - pos,
            {
                pos = pos + 1;
            }
            proof {
                lemma_run_end_is(
                    input@,
                    start as nat,
                    pos as nat,
                    |ch: char| spec_is_alphabetic(ch),
                );
            }
        } else if is_numeric(c) {
            let start = pos;
            let mut value: i64 = 0;
            let mut too_big = false;
            while pos < n && is_numeric(input.get_char(pos))
                invariant
                    start <= pos <= n,
                    forall|j: int| start <= j < pos ==> spec_is_numeric(#[trigger] input@[j]),
                    too_big == (digits_val(input@.subrange(start as int, pos as int))
                        > i32::MAX),
                    !too_big ==> value == digits_val(input@.subrange(start as int, pos as int))
                        && 0 <= value <= i32::MAX,
                decreases n - pos,
            {
                let d = (input.get_char(pos) as u32) - 48;
                proof {
                    let prefix = input@.subrange(start as int, pos as int);
                    assert(input@.subrange(start as int, pos + 1).drop_last() =~= prefix);
                    assert(input@.subrange(start as int, pos + 1).last() == input@[pos as int]);
                    lemma_digits_val_nonneg(prefix);
                }
                if too_big {
                } else {
                    value = value * 10 + (d as i64);
                    if value > 0x7fff_ffffi64 {
                        too_big = true;
                    }
                }
                pos = pos + 1;
            }
            proof {
                lemma_run_end_is(
                    input@,
                    start as nat,
                    pos as nat,
                    |ch: char| spec_is_numeric(ch),
                );
            }
            if too_big {
                return false;
            }
        } else if is_whitespace(c) {
            let ghost start = pos;
            while pos < n && is_whitespace(input.get_char(pos))
                invariant
                    start <= pos <= n,
                    forall|j: int|
                        start <= j < pos ==> spec_is_whitespace(#[trigger] input@[j]),
                decreases n - pos,
            {
                pos = pos + 1;
            }
            proof {
                lemma_run_end_is(
                    input@,
                    start as nat,
                    pos as nat,
                    |ch: char| spec_is_whitespace(ch),
                );
            }
        } else {
            return true;
        }
    }
}

/// Lexes a whole text into its token stream, [`spec_tokens`] of the
/// text.  Every numeric run in the text must fit in a signed 32-bit
/// value.
#[verifier::loop_isolation(false)]
pub fn tokenize(input: &str) -> (tokens: Vec<Token>)
    requires
        lexable(input@, 0),
    ensures
        tokens.deep_view() == spec_tokens(input@, 0),
{
    let mut lexer = Lexer::new(input);
    let mut output: Vec<Token> = Vec::new();
    proof {
        assert(output.deep_view() =~= Seq::<TokenV>::empty());
    }
    loop
        invariant
            lexer.wf(),
            lexer.input@ == input@,
            lexable(input@, lexer.pos as nat),
            output.deep_view() + spec_tokens(input@, lexer.pos as nat) == spec_tokens(input@, 0),
        decreases input@.len() - lexer.pos,
    {
        let ghost before = lexer.pos;
        match lexer.next() {
            Some(t) => {
                proof {
                    lemma_tokens_unfold(input@, before as nat);
                }
                let ghost dv = output.deep_view();
                output.push(t);
                proof {
                    assert(output.deep_view() =~= dv.push(t@));
                    assert(dv.push(t@) =~= dv + seq![t@]);
                }
            },
            None => {
                proof {
                    lemma_tokens_unfold(input@, before as nat);
                }
                break ;
            },
        }
    }
    output
}

} // verus!

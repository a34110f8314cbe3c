//! What the automaton does with whole lexemes.
//!
//! The transitions of the automaton read one character each. The laws below
//! say what a run of transitions makes of a word, a number, an operator of
//! two characters and a comment, wherever in the input it stands.

use vstd::prelude::*;
use crate::common::chars::{
    spec_is_digit, spec_is_whitespace, spec_is_word_part, spec_is_word_start,
};
use crate::common::token::{TokenType, TokenView};
use crate::common::utils::spec_is_keyword;
use crate::lexical::automaton::{
    classify_word, lemma_step_wf, scan, ScannerView, STATE_COMMENT, STATE_FRACTION,
    STATE_INTEGER, STATE_POINT, STATE_START, STATE_WORD,
};
use crate::lexical::error::LexicalErrorView;

verus! {

/// Transitions that succeed keep the input and the well-formedness of the
/// configuration, and each consumes one character.
pub proof fn lemma_steps_advance(s: ScannerView, count: nat)
    requires
        s.wf(),
        s.steps(count) is Ok,
    ensures
        s.steps(count)->Ok_0.wf(),
        s.steps(count)->Ok_0.input == s.input,
        s.steps(count)->Ok_0.position == s.position + count,
    decreases count,
{
    if count > 0 {
        lemma_step_wf(s);
        lemma_steps_advance(s.step()->Ok_0, (count - 1) as nat);
    }
}

/// Taking `first` transitions and then `second` more is taking
/// `first + second` transitions.
pub proof fn lemma_steps_add(s: ScannerView, first: nat, second: nat)
    ensures
        s.steps(first + second) == match s.steps(first) {
            Ok(t) => t.steps(second),
            Err(e) => Err(e),
        },
    decreases first,
{
    if first > 0 {
        match s.step() {
            Ok(t) => {
                lemma_steps_add(t, (first - 1) as nat, second);
                assert((first + second - 1) as nat == (first - 1) as nat + second);
            },
            Err(_) => {},
        }
    }
}

/// A scan that has come through some transitions goes on from where they
/// ended: it is over if they exhausted the input, and else it is the scan
/// from there.
pub proof fn lemma_run_after_steps(s: ScannerView, count: nat)
    requires
        s.wf(),
        count >= 1,
        s.steps(count) is Ok,
    ensures
        s.run() == (if s.steps(count)->Ok_0.exhausted() {
            Ok(s.steps(count)->Ok_0)
        } else {
            s.steps(count)->Ok_0.run()
        }),
    decreases count,
{
    let t = s.step()->Ok_0;
    lemma_step_wf(s);
    if count > 1 {
        assert(s.steps(count) == t.steps((count - 1) as nat));
        lemma_steps_advance(t, (count - 1) as nat);
        lemma_run_after_steps(t, (count - 1) as nat);
        assert(!t.exhausted());
    } else {
        assert(t.steps(0) == Ok::<ScannerView, LexicalErrorView>(t));
    }
}

/// A scan that fails after some transitions fails as a whole, with the same
/// error.
pub proof fn lemma_run_fails_after_steps(s: ScannerView, count: nat)
    requires
        s.wf(),
        s.steps(count) is Ok,
        !s.steps(count)->Ok_0.exhausted(),
        s.steps(count)->Ok_0.step() is Err,
    ensures
        s.run() == Err::<ScannerView, LexicalErrorView>(s.steps(count)->Ok_0.step()->Err_0),
{
    if count >= 1 {
        lemma_run_after_steps(s, count);
    }
}

/// The characters of `input` from `start` up to `end` are one whole word: a
/// letter or `_`, then letters, numbers and `_`, none of them a blank at
/// either end, and what follows, if anything, cannot continue a word.
pub open spec fn word_at(input: Seq<char>, start: int, end: int) -> bool {
    &&& 0 <= start < end <= input.len()
    &&& !spec_is_whitespace(input[start])
    &&& !spec_is_whitespace(input[end - 1])
    &&& spec_is_word_start(input[start])
    &&& forall|k: int| start < k < end ==> spec_is_word_part(#[trigger] input[k])
    &&& end < input.len() ==> !spec_is_word_part(input[end])
}

/// A word of one character is an identifier: every reserved word is longer.
pub proof fn lemma_short_word_is_identifier(word: Seq<char>)
    requires
        word.len() == 1,
    ensures
        classify_word(word) == TokenType::Identifier,
{
    reveal_strlit("program");
    reveal_strlit("var");
    reveal_strlit("integer");
    reveal_strlit("real");
    reveal_strlit("boolean");
    reveal_strlit("procedure");
    reveal_strlit("begin");
    reveal_strlit("end");
    reveal_strlit("if");
    reveal_strlit("then");
    reveal_strlit("else");
    reveal_strlit("while");
    reveal_strlit("do");
    reveal_strlit("not");
    reveal_strlit("and");
    reveal_strlit("or");
    reveal_strlit("true");
    reveal_strlit("false");
}

/// The configuration in the middle of the lexeme that starts at `first`,
/// `length` characters of it being buffered in state `state`.
pub open spec fn within_lexeme(first: ScannerView, state: usize, length: nat) -> ScannerView {
    ScannerView {
        position: first.position + length,
        column: first.column + length,
        state: state as nat,
        buffer: first.input.subrange(first.position as int, first.position as int + length),
        ..first
    }
}

proof fn lemma_word_rest(first: ScannerView, length: nat, end: int)
    requires
        first.wf(),
        first.state == STATE_START,
        word_at(first.input, first.position as int, end),
        0 < length < end - first.position,
    ensures
        within_lexeme(first, STATE_WORD, length).steps((end - first.position - length) as nat) == Ok::<
            ScannerView,
            LexicalErrorView,
        >(
            first.after_token(
                first.input.subrange(first.position as int, end),
                classify_word(first.input.subrange(first.position as int, end)),
            ),
        ),
    decreases end - first.position - length,
{
    let s = within_lexeme(first, STATE_WORD, length);
    let start = first.position as int;
    let k = start + length;
    let count = (end - start - length) as nat;
    assert(spec_is_word_part(first.input[k]));
    assert(s.buffered() =~= first.input.subrange(start, k + 1));
    let t = s.step()->Ok_0;
    if k + 1 == end {
        assert(!spec_is_word_part(s.lookahead()));
        let word = first.input.subrange(start, end);
        assert(first.buffer =~= Seq::empty());
        assert(t == first.after_token(word, classify_word(word)));
        assert(t.steps(0) == Ok::<ScannerView, LexicalErrorView>(t));
    } else {
        assert(spec_is_word_part(first.input[k + 1]));
        assert(t =~= within_lexeme(first, STATE_WORD, length + 1));
        lemma_word_rest(first, length + 1, end);
        assert(s.steps(count) == t.steps((count - 1) as nat));
    }
}

/// Between tokens and before a word, the scanner reads the whole word, emits
/// it as one token of the category that the word has, placed at the word's
/// first character, and is between tokens again behind the word.
pub proof fn lemma_word_is_one_token(first: ScannerView, end: int)
    requires
        first.wf(),
        first.state == STATE_START,
        word_at(first.input, first.position as int, end),
    ensures
        first.steps((end - first.position) as nat) == Ok::<ScannerView, LexicalErrorView>(
            first.after_token(
                first.input.subrange(first.position as int, end),
                classify_word(first.input.subrange(first.position as int, end)),
            ),
        ),
{
    let start = first.position as int;
    let word = first.input.subrange(start, end);
    let count = (end - start) as nat;
    let t = first.step()->Ok_0;
    assert(first.buffered() =~= first.input.subrange(start, start + 1));
    if start + 1 == end {
        assert(!spec_is_word_part(first.lookahead()));
        lemma_short_word_is_identifier(word);
        assert(first.buffer =~= Seq::empty());
        assert(t == first.after_token(word, TokenType::Identifier));
        assert(t.steps(0) == Ok::<ScannerView, LexicalErrorView>(t));
    } else {
        assert(spec_is_word_part(first.input[start + 1]));
        assert(t =~= within_lexeme(first, STATE_WORD, 1));
        lemma_word_rest(first, 1, end);
        assert(first.steps(count) == t.steps((count - 1) as nat));
    }
}

/// The characters of `input` from `start` up to `end` are one whole integer
/// literal: digits, and what follows, if anything, is neither a digit nor a
/// decimal point.
pub open spec fn integer_at(input: Seq<char>, start: int, end: int) -> bool {
    &&& 0 <= start < end <= input.len()
    &&& forall|k: int| start <= k < end ==> spec_is_digit(#[trigger] input[k])
    &&& end < input.len() ==> !spec_is_digit(input[end]) && input[end] != '.'
}

/// The characters of `input` from `start` up to `end` are one whole real
/// literal: digits, the decimal point at `point`, digits again or none, and
/// what follows, if anything, is not a digit.
pub open spec fn real_at(input: Seq<char>, start: int, point: int, end: int) -> bool {
    &&& 0 <= start < point < end <= input.len()
    &&& forall|k: int| start <= k < point ==> spec_is_digit(#[trigger] input[k])
    &&& input[point] == '.'
    &&& forall|k: int| point < k < end ==> spec_is_digit(#[trigger] input[k])
    &&& end < input.len() ==> !spec_is_digit(input[end])
}

proof fn lemma_integer_rest(first: ScannerView, length: nat, end: int)
    requires
        first.wf(),
        first.state == STATE_START,
        integer_at(first.input, first.position as int, end),
        0 < length < end - first.position,
    ensures
        within_lexeme(first, STATE_INTEGER, length).steps(
            (end - first.position - length) as nat,
        ) == Ok::<ScannerView, LexicalErrorView>(
            first.after_token(first.input.subrange(first.position as int, end), TokenType::Integer),
        ),
    decreases end - first.position - length,
{
    let s = within_lexeme(first, STATE_INTEGER, length);
    let start = first.position as int;
    let k = start + length;
    let count = (end - start - length) as nat;
    assert(spec_is_digit(first.input[k]));
    assert(s.buffered() =~= first.input.subrange(start, k + 1));
    let t = s.step()->Ok_0;
    if k + 1 == end {
        assert(first.buffer =~= Seq::empty());
        assert(t == first.after_token(first.input.subrange(start, end), TokenType::Integer));
        assert(t.steps(0) == Ok::<ScannerView, LexicalErrorView>(t));
    } else {
        assert(spec_is_digit(first.input[k + 1]));
        assert(t =~= within_lexeme(first, STATE_INTEGER, length + 1));
        lemma_integer_rest(first, length + 1, end);
        assert(s.steps(count) == t.steps((count - 1) as nat));
    }
}

/// Between tokens and before an integer literal, the scanner reads all its
/// digits, emits them as one token of category `Integer`, placed at the
/// first digit, and is between tokens again behind the literal.
pub proof fn lemma_integer_is_one_token(first: ScannerView, end: int)
    requires
        first.wf(),
        first.state == STATE_START,
        integer_at(first.input, first.position as int, end),
    ensures
        first.steps((end - first.position) as nat) == Ok::<ScannerView, LexicalErrorView>(
            first.after_token(first.input.subrange(first.position as int, end), TokenType::Integer),
        ),
{
    let start = first.position as int;
    let count = (end - start) as nat;
    let t = first.step()->Ok_0;
    assert(spec_is_digit(first.input[start]));
    assert(first.buffered() =~= first.input.subrange(start, start + 1));
    if start + 1 == end {
        assert(first.buffer =~= Seq::empty());
        assert(t == first.after_token(first.input.subrange(start, end), TokenType::Integer));
        assert(t.steps(0) == Ok::<ScannerView, LexicalErrorView>(t));
    } else {
        assert(spec_is_digit(first.input[start + 1]));
        assert(t =~= within_lexeme(first, STATE_INTEGER, 1));
        lemma_integer_rest(first, 1, end);
        assert(first.steps(count) == t.steps((count - 1) as nat));
    }
}

proof fn lemma_fraction_rest(first: ScannerView, point: int, length: nat, end: int)
    requires
        first.wf(),
        first.state == STATE_START,
        real_at(first.input, first.position as int, point, end),
        point - first.position < length < end - first.position,
    ensures
        within_lexeme(first, STATE_FRACTION, length).steps(
            (end - first.position - length) as nat,
        ) == Ok::<ScannerView, LexicalErrorView>(
            first.after_token(first.input.subrange(first.position as int, end), TokenType::Real),
        ),
    decreases end - first.position - length,
{
    let s = within_lexeme(first, STATE_FRACTION, length);
    let start = first.position as int;
    let k = start + length;
    let count = (end - start - length) as nat;
    assert(spec_is_digit(first.input[k]));
    assert(s.buffered() =~= first.input.subrange(start, k + 1));
    let t = s.step()->Ok_0;
    if k + 1 == end {
        assert(first.buffer =~= Seq::empty());
        assert(t == first.after_token(first.input.subrange(start, end), TokenType::Real));
        assert(t.steps(0) == Ok::<ScannerView, LexicalErrorView>(t));
    } else {
        assert(spec_is_digit(first.input[k + 1]));
        assert(t =~= within_lexeme(first, STATE_FRACTION, length + 1));
        lemma_fraction_rest(first, point, length + 1, end);
        assert(s.steps(count) == t.steps((count - 1) as nat));
    }
}

proof fn lemma_point_rest(first: ScannerView, point: int, end: int)
    requires
        first.wf(),
        first.state == STATE_START,
        real_at(first.input, first.position as int, point, end),
    ensures
        within_lexeme(first, STATE_POINT, (point - first.position) as nat).steps(
            (end - point) as nat,
        ) == Ok::<ScannerView, LexicalErrorView>(
            first.after_token(first.input.subrange(first.position as int, end), TokenType::Real),
        ),
{
    let length = (point - first.position) as nat;
    let s = within_lexeme(first, STATE_POINT, length);
    let start = first.position as int;
    let count = (end - point) as nat;
    assert(s.buffered() =~= first.input.subrange(start, point + 1));
    let t = s.step()->Ok_0;
    if point + 1 == end {
        assert(first.buffer =~= Seq::empty());
        assert(t == first.after_token(first.input.subrange(start, end), TokenType::Real));
        assert(t.steps(0) == Ok::<ScannerView, LexicalErrorView>(t));
    } else {
        assert(spec_is_digit(first.input[point + 1]));
        assert(t =~= within_lexeme(first, STATE_FRACTION, length + 1));
        lemma_fraction_rest(first, point, length + 1, end);
        assert(s.steps(count) == t.steps((count - 1) as nat));
    }
}

proof fn lemma_whole_part_rest(first: ScannerView, point: int, length: nat, end: int)
    requires
        first.wf(),
        first.state == STATE_START,
        real_at(first.input, first.position as int, point, end),
        0 < length < point - first.position,
    ensures
        within_lexeme(first, STATE_INTEGER, length).steps(
            (end - first.position - length) as nat,
        ) == Ok::<ScannerView, LexicalErrorView>(
            first.after_token(first.input.subrange(first.position as int, end), TokenType::Real),
        ),
    decreases point - first.position - length,
{
    let s = within_lexeme(first, STATE_INTEGER, length);
    let start = first.position as int;
    let k = start + length;
    let count = (end - start - length) as nat;
    assert(spec_is_digit(first.input[k]));
    assert(s.buffered() =~= first.input.subrange(start, k + 1));
    let t = s.step()->Ok_0;
    if k + 1 == point {
        assert(t =~= within_lexeme(first, STATE_POINT, length + 1));
        lemma_point_rest(first, point, end);
    } else {
        assert(spec_is_digit(first.input[k + 1]));
        assert(t =~= within_lexeme(first, STATE_INTEGER, length + 1));
        lemma_whole_part_rest(first, point, length + 1, end);
    }
    assert(s.steps(count) == t.steps((count - 1) as nat));
}

/// Between tokens and before a real literal, the scanner reads the digits,
/// the decimal point and the digits after it, emits all of it as one token
/// of category `Real`, placed at the first digit, and is between tokens
/// again behind the literal. No digit need follow the point.
pub proof fn lemma_real_is_one_token(first: ScannerView, point: int, end: int)
    requires
        first.wf(),
        first.state == STATE_START,
        real_at(first.input, first.position as int, point, end),
    ensures
        first.steps((end - first.position) as nat) == Ok::<ScannerView, LexicalErrorView>(
            first.after_token(first.input.subrange(first.position as int, end), TokenType::Real),
        ),
{
    let start = first.position as int;
    let count = (end - start) as nat;
    let t = first.step()->Ok_0;
    assert(spec_is_digit(first.input[start]));
    assert(first.buffered() =~= first.input.subrange(start, start + 1));
    if start + 1 == point {
        assert(t =~= within_lexeme(first, STATE_POINT, 1));
        lemma_point_rest(first, point, end);
    } else {
        assert(spec_is_digit(first.input[start + 1]));
        assert(t =~= within_lexeme(first, STATE_INTEGER, 1));
        lemma_whole_part_rest(first, point, 1, end);
    }
    assert(first.steps(count) == t.steps((count - 1) as nat));
}

/// The operator that the two characters spell together, with its category,
/// if they spell one.
pub open spec fn pair_operator(first: char, second: char) -> Option<(Seq<char>, TokenType)> {
    if first == ':' && second == '=' {
        Some((":="@, TokenType::Assignment))
    } else if first == '<' && second == '=' {
        Some(("<="@, TokenType::RelationalOperators))
    } else if first == '>' && second == '=' {
        Some((">="@, TokenType::RelationalOperators))
    } else if first == '<' && second == '>' {
        Some(("<>"@, TokenType::RelationalOperators))
    } else {
        None
    }
}

/// Between tokens and before two characters that spell one operator
/// together, the scanner reads both and emits them as one token, placed at
/// the first of them: never as two tokens of one character each.
pub proof fn lemma_pair_is_one_token(first: ScannerView)
    requires
        first.wf(),
        first.state == STATE_START,
        first.position + 1 < first.input.len(),
        pair_operator(first.current(), first.lookahead()) is Some,
    ensures
        match pair_operator(first.current(), first.lookahead()) {
            Some((lexeme, category)) => first.steps(2) == Ok::<ScannerView, LexicalErrorView>(
                first.after_token(lexeme, category),
            ),
            None => false,
        },
{
    reveal_strlit(":=");
    reveal_strlit("<=");
    reveal_strlit(">=");
    reveal_strlit("<>");
    let t = first.step()->Ok_0;
    let u = t.step()->Ok_0;
    assert(t.current() == first.lookahead());
    assert(u.steps(0) == Ok::<ScannerView, LexicalErrorView>(u));
    assert(t.steps(1) == Ok::<ScannerView, LexicalErrorView>(u));
    assert(first.buffer =~= Seq::empty());
}

/// The characters of `input` from `start` up to `end` are blanks within one
/// line.
pub open spec fn blanks_at(input: Seq<char>, start: int, end: int) -> bool {
    &&& 0 <= start <= end <= input.len()
    &&& forall|k: int|
        start <= k < end ==> spec_is_whitespace(#[trigger] input[k]) && input[k] != '\n'
}

/// Blanks between tokens leave no trace but in the place.
pub proof fn lemma_blanks_leave_no_token(first: ScannerView, end: int)
    requires
        first.wf(),
        first.state == STATE_START,
        blanks_at(first.input, first.position as int, end),
    ensures
        first.steps((end - first.position) as nat) == Ok::<ScannerView, LexicalErrorView>(
            first.after_skipping((end - first.position) as nat),
        ),
    decreases end - first.position,
{
    let count = (end - first.position) as nat;
    if count > 0 {
        let t = first.step()->Ok_0;
        assert(spec_is_whitespace(first.input[first.position as int]));
        assert(t == first.after_skipping(1));
        lemma_step_wf(first);
        lemma_blanks_leave_no_token(t, end);
        assert(first.steps(count) == t.steps((count - 1) as nat));
        assert(t.after_skipping((count - 1) as nat) == first.after_skipping(count));
    } else {
        assert(first.after_skipping(0) == first);
    }
}

/// A line break between tokens starts the next line at its first column.
pub proof fn lemma_line_break_starts_a_line(first: ScannerView)
    requires
        first.wf(),
        first.state == STATE_START,
        !first.exhausted(),
        first.current() == '\n',
    ensures
        first.step() == Ok::<ScannerView, LexicalErrorView>(
            ScannerView {
                position: first.position + 1,
                line: first.line + 1,
                column: 1,
                ..first
            },
        ),
{
}

/// The characters of `input` from `start` up to `end` are the inside of a
/// comment that opens at `start`: neither the closing brace nor a line break
/// is among them.
pub open spec fn comment_open_at(input: Seq<char>, start: int, end: int) -> bool {
    &&& 0 <= start < end <= input.len()
    &&& input[start] == '{'
    &&& forall|k: int| start < k < end ==> #[trigger] input[k] != '}' && input[k] != '\n'
}

/// The configuration inside the comment that opens at `first`, `length`
/// characters of it being read.
pub open spec fn within_comment(first: ScannerView, length: nat) -> ScannerView {
    ScannerView { state: STATE_COMMENT as nat, ..first.after_skipping(length) }
}

/// Between tokens and before an opening brace, the scanner reads on inside
/// the comment and emits nothing, as long as it meets neither the closing
/// brace nor a line break.
pub proof fn lemma_comment_inside(first: ScannerView, end: int)
    requires
        first.wf(),
        first.state == STATE_START,
        comment_open_at(first.input, first.position as int, end),
    ensures
        first.steps((end - first.position) as nat) == Ok::<ScannerView, LexicalErrorView>(
            within_comment(first, (end - first.position) as nat),
        ),
    decreases end - first.position,
{
    let start = first.position as int;
    let count = (end - start) as nat;
    if count == 1 {
        let t = first.step()->Ok_0;
        assert(t == within_comment(first, 1));
        assert(t.steps(0) == Ok::<ScannerView, LexicalErrorView>(t));
    } else {
        lemma_comment_inside(first, end - 1);
        let s = within_comment(first, (count - 1) as nat);
        let t = s.step()->Ok_0;
        assert(s.current() == first.input[end - 1]);
        assert(t == within_comment(first, count));
        assert(t.steps(0) == Ok::<ScannerView, LexicalErrorView>(t));
        assert(s.steps(1) == Ok::<ScannerView, LexicalErrorView>(t));
        lemma_steps_add(first, (count - 1) as nat, 1);
    }
}

/// A comment that closes on the line on which it opens yields no token: the
/// scanner is between tokens again behind the closing brace, with the tokens
/// that it had before the opening one.
pub proof fn lemma_comment_yields_no_token(first: ScannerView, end: int)
    requires
        first.wf(),
        first.state == STATE_START,
        comment_open_at(first.input, first.position as int, end),
        end < first.input.len(),
        first.input[end] == '}',
    ensures
        first.steps((end + 1 - first.position) as nat) == Ok::<ScannerView, LexicalErrorView>(
            first.after_skipping((end + 1 - first.position) as nat),
        ),
{
    let count = (end - first.position) as nat;
    lemma_comment_inside(first, end);
    let s = within_comment(first, count);
    let t = s.step()->Ok_0;
    assert(t == first.after_skipping(count + 1));
    assert(t.steps(0) == Ok::<ScannerView, LexicalErrorView>(t));
    assert(s.steps(1) == Ok::<ScannerView, LexicalErrorView>(t));
    lemma_steps_add(first, count, 1);
}

/// A comment that is still open where its line ends is fatal: the scan fails,
/// naming the line.
pub proof fn lemma_comment_across_lines_fails(first: ScannerView, end: int)
    requires
        first.wf(),
        first.state == STATE_START,
        comment_open_at(first.input, first.position as int, end),
        end < first.input.len(),
        first.input[end] == '\n',
    ensures
        first.run() == Err::<ScannerView, LexicalErrorView>(
            LexicalErrorView::UnclosedComment { line: first.line },
        ),
{
    let count = (end - first.position) as nat;
    lemma_comment_inside(first, end);
    lemma_run_fails_after_steps(first, count);
}

/// Scanned alone, an integer literal is one token of category `Integer`.
pub proof fn lemma_scan_integer(digits: Seq<char>)
    requires
        digits.len() > 0,
        forall|k: int| 0 <= k < digits.len() ==> spec_is_digit(#[trigger] digits[k]),
    ensures
        scan(digits) == Ok::<Seq<TokenView>, LexicalErrorView>(
            seq![TokenView { lexeme: digits, category: TokenType::Integer, line: 1, column: 1 }],
        ),
{
    let first = ScannerView::initial(digits);
    let end = digits.len() as int;
    assert(digits.subrange(0, end) =~= digits);
    lemma_integer_is_one_token(first, end);
    lemma_run_after_steps(first, digits.len());
    let last = first.after_token(digits, TokenType::Integer);
    assert(last.tokens =~= seq![
        TokenView { lexeme: digits, category: TokenType::Integer, line: 1, column: 1 },
    ]);
}

/// Scanned alone, digits with a decimal point behind them, and digits or
/// nothing behind the point, are one token of category `Real`.
pub proof fn lemma_scan_real(whole: Seq<char>, fraction: Seq<char>)
    requires
        whole.len() > 0,
        forall|k: int| 0 <= k < whole.len() ==> spec_is_digit(#[trigger] whole[k]),
        forall|k: int| 0 <= k < fraction.len() ==> spec_is_digit(#[trigger] fraction[k]),
    ensures
        scan(whole + seq!['.'] + fraction) == Ok::<Seq<TokenView>, LexicalErrorView>(
            seq![
                TokenView {
                    lexeme: whole + seq!['.'] + fraction,
                    category: TokenType::Real,
                    line: 1,
                    column: 1,
                },
            ],
        ),
{
    let input = whole + seq!['.'] + fraction;
    let first = ScannerView::initial(input);
    let point = whole.len() as int;
    let end = input.len() as int;
    assert(input.subrange(0, end) =~= input);
    assert forall|k: int| point < k < end implies spec_is_digit(#[trigger] input[k]) by {
        assert(input[k] == fraction[k - point - 1]);
    }
    assert forall|k: int| 0 <= k < point implies spec_is_digit(#[trigger] input[k]) by {
        assert(input[k] == whole[k]);
    }
    lemma_real_is_one_token(first, point, end);
    lemma_run_after_steps(first, input.len());
    let last = first.after_token(input, TokenType::Real);
    assert(last.tokens =~= seq![
        TokenView { lexeme: input, category: TokenType::Real, line: 1, column: 1 },
    ]);
}

/// `word` can stand in a source text as one word: a letter or `_`, then
/// letters, numbers and `_`, none of them a blank at either end.
pub open spec fn is_word(word: Seq<char>) -> bool {
    &&& word.len() > 0
    &&& !spec_is_whitespace(word[0])
    &&& !spec_is_whitespace(word.last())
    &&& spec_is_word_start(word[0])
    &&& forall|k: int| 0 < k < word.len() ==> spec_is_word_part(#[trigger] word[k])
}

/// `gap` can stand between two words: blanks and line breaks that cannot
/// continue a word.
pub open spec fn is_gap(gap: Seq<char>) -> bool {
    forall|k: int|
        0 <= k < gap.len() ==> spec_is_whitespace(#[trigger] gap[k]) && !spec_is_word_part(gap[k])
}

/// The words in order with the gaps around them: a gap, the first word, a
/// gap, the second word, and so on to the gap behind the last word.
pub open spec fn laid_out(words: Seq<Seq<char>>, gaps: Seq<Seq<char>>) -> Seq<char>
    recommends
        gaps.len() == words.len() + 1,
    decreases words.len(),
{
    if words.len() == 0 {
        gaps[0]
    } else {
        gaps[0] + words[0] + laid_out(words.drop_first(), gaps.drop_first())
    }
}

/// The gaps fit the words: there is one before each word and one behind the
/// last, all are made of blanks, and those between two words are not empty.
pub open spec fn gaps_fit(words: Seq<Seq<char>>, gaps: Seq<Seq<char>>) -> bool {
    &&& gaps.len() == words.len() + 1
    &&& forall|i: int| 0 <= i < gaps.len() ==> is_gap(#[trigger] gaps[i])
    &&& forall|i: int| 0 < i < words.len() ==> (#[trigger] gaps[i]).len() > 0
}

/// `tokens` are the given words in order, each with the category that it
/// has as a word.
pub open spec fn tokens_of_words(tokens: Seq<TokenView>, words: Seq<Seq<char>>) -> bool {
    &&& tokens.len() == words.len()
    &&& forall|i: int|
        0 <= i < words.len() ==> {
            &&& (#[trigger] tokens[i]).lexeme == words[i]
            &&& tokens[i].category == classify_word(words[i])
        }
}

/// Blanks and line breaks between tokens yield no token.
pub proof fn lemma_gap_yields_no_token(first: ScannerView, end: int)
    requires
        first.wf(),
        first.state == STATE_START,
        first.position <= end <= first.input.len(),
        forall|k: int| first.position <= k < end ==> spec_is_whitespace(#[trigger] first.input[k]),
    ensures
        first.steps((end - first.position) as nat) is Ok,
        first.steps((end - first.position) as nat)->Ok_0.tokens == first.tokens,
        first.steps((end - first.position) as nat)->Ok_0.state == STATE_START,
    decreases end - first.position,
{
    let count = (end - first.position) as nat;
    if count > 0 {
        let t = first.step()->Ok_0;
        assert(spec_is_whitespace(first.input[first.position as int]));
        lemma_step_wf(first);
        lemma_gap_yields_no_token(t, end);
        assert(first.steps(count) == t.steps((count - 1) as nat));
    }
}

proof fn lemma_run_words(s: ScannerView, words: Seq<Seq<char>>, gaps: Seq<Seq<char>>)
    requires
        s.wf(),
        s.state == STATE_START,
        words.len() > 0,
        forall|i: int| 0 <= i < words.len() ==> is_word(#[trigger] words[i]),
        gaps_fit(words, gaps),
        s.input.subrange(s.position as int, s.input.len() as int) == laid_out(words, gaps),
    ensures
        s.run() is Ok,
        s.run()->Ok_0.tokens.len() == s.tokens.len() + words.len(),
        s.run()->Ok_0.tokens.take(s.tokens.len() as int) == s.tokens,
        tokens_of_words(s.run()->Ok_0.tokens.skip(s.tokens.len() as int), words),
    decreases words.len(),
{
    let word = words[0];
    let gap = gaps[0];
    let others = words.drop_first();
    let other_gaps = gaps.drop_first();
    let from = s.position as int;
    let start = from + gap.len();
    let end = start + word.len();
    let total = s.input.len() as int;
    let rest = s.input.subrange(from, total);
    let tail = laid_out(others, other_gaps);
    assert(is_word(word));
    assert(is_gap(gap));
    assert(rest == gap + word + tail);
    assert(rest.len() == gap.len() + word.len() + tail.len());
    assert forall|k: int| from <= k < start implies spec_is_whitespace(#[trigger] s.input[k]) by {
        assert(s.input[k] == rest[k - from]);
        assert(rest[k - from] == gap[k - from]);
    }
    // The gap before the word.
    lemma_gap_yields_no_token(s, start);
    lemma_steps_advance(s, gap.len());
    let s0 = s.steps(gap.len())->Ok_0;
    // The word.
    assert forall|k: int| start <= k < end implies s.input[k] == word[k - start] by {
        assert(s.input[k] == rest[k - from]);
    }
    assert forall|k: int| start < k < end implies spec_is_word_part(#[trigger] s0.input[k]) by {
        assert(spec_is_word_part(word[k - start]));
    }
    assert(is_gap(other_gaps[0])) by {
        assert(other_gaps[0] == gaps[1]);
    }
    if end < total {
        assert(s.input[end] == rest[end - from]);
        assert(rest[end - from] == tail[0]);
        if others.len() == 0 {
            assert(tail[0] == other_gaps[0][0]);
        } else {
            assert(other_gaps[0] == gaps[1]);
            assert(tail == other_gaps[0] + others[0] + laid_out(
                others.drop_first(),
                other_gaps.drop_first(),
            ));
            assert(tail[0] == other_gaps[0][0]);
        }
        assert(!spec_is_word_part(s.input[end]));
    }
    assert(s0.input.subrange(start, end) =~= word);
    lemma_word_is_one_token(s0, end);
    lemma_steps_advance(s0, word.len());
    let s1 = s0.after_token(word, classify_word(word));
    lemma_steps_add(s, gap.len(), word.len());
    assert(s.steps(gap.len() + word.len()) == Ok::<ScannerView, LexicalErrorView>(s1));
    lemma_run_after_steps(s, gap.len() + word.len());
    assert(s1.tokens == s.tokens.push(s1.tokens.last()));
    if others.len() == 0 {
        // The gap behind the last word.
        assert(tail == other_gaps[0]);
        assert forall|k: int| end <= k < total implies spec_is_whitespace(
            #[trigger] s1.input[k],
        ) by {
            assert(s.input[k] == rest[k - from]);
            assert(rest[k - from] == tail[k - end]);
        }
        lemma_gap_yields_no_token(s1, total);
        lemma_steps_advance(s1, (total - end) as nat);
        let last = s1.steps((total - end) as nat)->Ok_0;
        if end < total {
            lemma_run_after_steps(s1, (total - end) as nat);
        } else {
            assert(last == s1);
        }
        assert(s.run() == Ok::<ScannerView, LexicalErrorView>(last));
        let found = last.tokens.skip(s.tokens.len() as int);
        assert(last.tokens.take(s.tokens.len() as int) =~= s.tokens);
        assert(found[0] == last.tokens[s.tokens.len() as int]);
    } else {
        assert forall|i: int| 0 <= i < others.len() implies is_word(#[trigger] others[i]) by {
            assert(others[i] == words[i + 1]);
        }
        assert(gaps_fit(others, other_gaps)) by {
            assert forall|i: int| 0 <= i < other_gaps.len() implies is_gap(
                #[trigger] other_gaps[i],
            ) by {
                assert(other_gaps[i] == gaps[i + 1]);
            }
            assert forall|i: int| 0 < i < others.len() implies (#[trigger] other_gaps[i]).len()
                > 0 by {
                assert(other_gaps[i] == gaps[i + 1]);
            }
        }
        assert(other_gaps[0].len() > 0) by {
            assert(other_gaps[0] == gaps[1]);
        }
        assert(tail.len() > 0) by {
            assert(tail == other_gaps[0] + others[0] + laid_out(
                others.drop_first(),
                other_gaps.drop_first(),
            ));
        }
        let left = s1.input.subrange(s1.position as int, total);
        assert(left =~= tail) by {
            assert(left.len() == tail.len());
            assert forall|k: int| 0 <= k < left.len() implies left[k] == tail[k] by {
                assert(left[k] == s.input[end + k]);
                assert(s.input[end + k] == rest[end + k - from]);
            }
        }
        lemma_run_words(s1, others, other_gaps);
        let last = s1.run()->Ok_0;
        assert(s.run() == s1.run());
        let found = last.tokens.skip(s.tokens.len() as int);
        let later = last.tokens.skip(s1.tokens.len() as int);
        assert(last.tokens.take(s.tokens.len() as int) =~= s.tokens) by {
            assert forall|j: int| 0 <= j < s.tokens.len() implies last.tokens[j]
                == s.tokens[j] by {
                assert(last.tokens.take(s1.tokens.len() as int)[j] == s1.tokens[j]);
            }
        }
        assert forall|i: int| 0 <= i < words.len() implies {
            &&& (#[trigger] found[i]).lexeme == words[i]
            &&& found[i].category == classify_word(words[i])
        } by {
            if i == 0 {
                assert(last.tokens.take(s1.tokens.len() as int)[s.tokens.len() as int]
                    == s1.tokens[s.tokens.len() as int]);
            } else {
                assert(found[i] == later[i - 1]);
                assert(others[i - 1] == words[i]);
            }
        }
    }
}

/// A text made of words with blanks and line breaks between them scans to
/// one token for each word, in order, each with the word as its lexeme and
/// with the category that the word has.
pub proof fn lemma_scan_words(words: Seq<Seq<char>>, gaps: Seq<Seq<char>>)
    requires
        words.len() > 0,
        forall|i: int| 0 <= i < words.len() ==> is_word(#[trigger] words[i]),
        gaps_fit(words, gaps),
    ensures
        scan(laid_out(words, gaps)) is Ok,
        tokens_of_words(scan(laid_out(words, gaps))->Ok_0, words),
{
    let input = laid_out(words, gaps);
    let first = ScannerView::initial(input);
    assert(input.subrange(0, input.len() as int) =~= input);
    lemma_run_words(first, words, gaps);
    assert(first.run()->Ok_0.tokens.skip(0) =~= first.run()->Ok_0.tokens);
}

/// Every keyword can stand in a source text as one word.
pub proof fn lemma_keyword_is_word(word: Seq<char>)
    requires
        spec_is_keyword(word),
    ensures
        is_word(word),
{
    reveal_strlit("program");
    reveal_strlit("var");
    reveal_strlit("integer");
    reveal_strlit("real");
    reveal_strlit("boolean");
    reveal_strlit("procedure");
    reveal_strlit("begin");
    reveal_strlit("end");
    reveal_strlit("if");
    reveal_strlit("then");
    reveal_strlit("else");
    reveal_strlit("while");
    reveal_strlit("do");
    reveal_strlit("not");
}

/// A text made solely of keywords, with blanks and line breaks between
/// them, scans to one token for each keyword, and every token has category
/// `Keyword`.
pub proof fn lemma_keywords_scan_as_keywords(words: Seq<Seq<char>>, gaps: Seq<Seq<char>>)
    requires
        words.len() > 0,
        forall|i: int| 0 <= i < words.len() ==> spec_is_keyword(#[trigger] words[i]),
        gaps_fit(words, gaps),
    ensures
        scan(laid_out(words, gaps)) is Ok,
        scan(laid_out(words, gaps))->Ok_0.len() == words.len(),
        forall|i: int|
            0 <= i < words.len() ==> {
                &&& (#[trigger] scan(laid_out(words, gaps))->Ok_0[i]).lexeme == words[i]
                &&& scan(laid_out(words, gaps))->Ok_0[i].category == TokenType::Keyword
            },
{
    assert forall|i: int| 0 <= i < words.len() implies is_word(#[trigger] words[i]) by {
        lemma_keyword_is_word(words[i]);
    }
    lemma_scan_words(words, gaps);
}

/// `word` is spelled like a keyword, an operator or a literal.
pub open spec fn is_reserved(word: Seq<char>) -> bool {
    spec_is_keyword(word) || word == "and"@ || word == "or"@ || word == "true"@ || word
        == "false"@
}

/// A text made solely of valid identifiers, with blanks and line breaks
/// between them, scans to one token for each identifier, and every token
/// has category `Identifier`. Digits and `_` within an identifier do not
/// matter.
pub proof fn lemma_identifiers_scan_as_identifiers(words: Seq<Seq<char>>, gaps: Seq<Seq<char>>)
    requires
        words.len() > 0,
        forall|i: int|
            0 <= i < words.len() ==> is_word(#[trigger] words[i]) && !is_reserved(words[i]),
        gaps_fit(words, gaps),
    ensures
        scan(laid_out(words, gaps)) is Ok,
        scan(laid_out(words, gaps))->Ok_0.len() == words.len(),
        forall|i: int|
            0 <= i < words.len() ==> {
                &&& (#[trigger] scan(laid_out(words, gaps))->Ok_0[i]).lexeme == words[i]
                &&& scan(laid_out(words, gaps))->Ok_0[i].category == TokenType::Identifier
            },
{
    lemma_scan_words(words, gaps);
}

} // verus!

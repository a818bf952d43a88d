//! What holds of every text and of every sequence of steps.
//!
//! The scanner's functions are stated against [`scan`]; the theorems here are
//! about [`scan`] and about [`scan_nth`], the steps taken one after another.

use crate::chars::{
    is_letter, lemma_run_end_is_maximal, lemma_run_end_is_unique, run_end, CharClass,
};
use crate::grammar::{
    is_open_literal, keyword, lemma_line_end_advances, line_end, scan, scan_nth, trivia_end, Scan,
    ScanError,
};
use crate::token::TokenView;
use vstd::prelude::*;

verus! {

/// Trivia ends within the text, at a character that is neither blank nor the
/// start of a comment, or at the end of the text; from there, no trivia is
/// left to pass.
pub proof fn lemma_trivia_end_is_maximal(text: Seq<char>, comment: Option<char>, from: int)
    requires
        0 <= from <= text.len(),
    ensures
        from <= trivia_end(text, comment, from) <= text.len(),
        trivia_end(text, comment, from) < text.len() ==> {
            let c = text[trivia_end(text, comment, from)];
            !CharClass::Blank.holds(c) && comment != Some(c)
        },
        trivia_end(text, comment, trivia_end(text, comment, from)) == trivia_end(
            text,
            comment,
            from,
        ),
    decreases text.len() - from,
{
    lemma_run_end_is_maximal(text, CharClass::Blank, from);
    let at = run_end(text, CharClass::Blank, from);
    if at < text.len() && comment == Some(text[at]) {
        lemma_line_end_advances(text, at);
        lemma_trivia_end_is_maximal(text, comment, line_end(text, at));
    }
}

/// A step never leaves the text and never goes back, and only a final step
/// stays where it began. The end of the input is found where nothing but
/// trivia is left, and the step then ends at the end of the text. No step
/// reads the placeholder token.
pub proof fn lemma_scan_advances(text: Seq<char>, comment: Option<char>, pos: int)
    requires
        0 <= pos <= text.len(),
    ensures
        pos <= scan(text, comment, pos).end <= text.len(),
        !scan(text, comment, pos).is_final() ==> pos < scan(text, comment, pos).end,
        scan(text, comment, pos).reads(TokenView::EndOfInput) <==> trivia_end(text, comment, pos)
            == text.len(),
        scan(text, comment, pos).reads(TokenView::EndOfInput) ==> scan(text, comment, pos).end
            == text.len(),
        !scan(text, comment, pos).reads(TokenView::Placeholder),
{
    lemma_trivia_end_is_maximal(text, comment, pos);
    let at = trivia_end(text, comment, pos);
    if at < text.len() {
        lemma_run_end_is_maximal(text, CharClass::Alnum, at);
        lemma_run_end_is_maximal(text, CharClass::Numeric, at);
        lemma_run_end_is_maximal(text, CharClass::Unquoted, at + 1);
    }
}

/// A step fails on one kind of text only: behind the trivia a string literal
/// opens and never closes. The step then ends at the opening quote.
pub proof fn lemma_failure_is_open_literal(text: Seq<char>, comment: Option<char>, pos: int)
    requires
        0 <= pos <= text.len(),
    ensures
        scan(text, comment, pos).outcome is Err <==> is_open_literal(
            text,
            trivia_end(text, comment, pos),
        ),
        scan(text, comment, pos).outcome is Err ==> scan(text, comment, pos) == (Scan {
            outcome: Err(ScanError::UnterminatedStringLiteral),
            end: trivia_end(text, comment, pos),
        }),
{
    lemma_trivia_end_is_maximal(text, comment, pos);
    let at = trivia_end(text, comment, pos);
    if at < text.len() {
        lemma_run_end_is_maximal(text, CharClass::Unquoted, at + 1);
    }
}

/// A final step repeats: the step that begins where a final step ended is
/// that step again.
pub proof fn lemma_final_step_repeats(text: Seq<char>, comment: Option<char>, pos: int)
    requires
        0 <= pos <= text.len(),
        scan(text, comment, pos).is_final(),
    ensures
        scan(text, comment, scan(text, comment, pos).end) == scan(text, comment, pos),
{
    lemma_trivia_end_is_maximal(text, comment, pos);
}

/// Every step ends within the text, and the step after `n` steps begins where
/// the one before it ended.
pub proof fn lemma_scan_nth_unfolds(text: Seq<char>, comment: Option<char>, pos: int, n: nat)
    requires
        0 <= pos <= text.len(),
    ensures
        pos <= scan_nth(text, comment, pos, n).end <= text.len(),
        scan_nth(text, comment, pos, n + 1) == scan(
            text,
            comment,
            scan_nth(text, comment, pos, n).end,
        ),
    decreases n,
{
    lemma_scan_advances(text, comment, pos);
    let next = scan(text, comment, pos).end;
    assert(scan_nth(text, comment, pos, n + 1) == scan_nth(text, comment, next, n));
    if n > 0 {
        lemma_scan_nth_unfolds(text, comment, next, (n - 1) as nat);
    }
}

/// Once a step was final, every later step is that step again: it has the
/// same outcome and ends at the same place.
pub proof fn lemma_final_steps_repeat(
    text: Seq<char>,
    comment: Option<char>,
    pos: int,
    first: nat,
    later: nat,
)
    requires
        0 <= pos <= text.len(),
        first <= later,
        scan_nth(text, comment, pos, first).is_final(),
    ensures
        scan_nth(text, comment, pos, later) == scan_nth(text, comment, pos, first),
    decreases later - first,
{
    if first < later {
        let before = (later - 1) as nat;
        lemma_final_steps_repeat(text, comment, pos, first, before);
        lemma_scan_nth_unfolds(text, comment, pos, before);
        if first == 0 {
            lemma_final_step_repeats(text, comment, pos);
        } else {
            let earlier = (first - 1) as nat;
            lemma_scan_nth_unfolds(text, comment, pos, earlier);
            lemma_final_step_repeats(text, comment, scan_nth(text, comment, pos, earlier).end);
        }
    }
}

/// Once a step has found the end of the input, every later step finds it too,
/// and all of them end at the end of the text.
pub proof fn lemma_end_of_input_repeats(
    text: Seq<char>,
    comment: Option<char>,
    pos: int,
    first: nat,
    later: nat,
)
    requires
        0 <= pos <= text.len(),
        first <= later,
        scan_nth(text, comment, pos, first).reads(TokenView::EndOfInput),
    ensures
        scan_nth(text, comment, pos, later).reads(TokenView::EndOfInput),
        scan_nth(text, comment, pos, later).end == text.len(),
{
    lemma_final_steps_repeat(text, comment, pos, first, later);
    if first == 0 {
        lemma_scan_advances(text, comment, pos);
    } else {
        let earlier = (first - 1) as nat;
        lemma_scan_nth_unfolds(text, comment, pos, earlier);
        lemma_scan_advances(text, comment, scan_nth(text, comment, pos, earlier).end);
    }
}

/// Once a step has failed, every later step fails too, and all of them end
/// at the same opening quote.
pub proof fn lemma_failure_repeats(
    text: Seq<char>,
    comment: Option<char>,
    pos: int,
    first: nat,
    later: nat,
)
    requires
        0 <= pos <= text.len(),
        first <= later,
        scan_nth(text, comment, pos, first).outcome is Err,
    ensures
        scan_nth(text, comment, pos, later).outcome is Err,
        scan_nth(text, comment, pos, later).end == scan_nth(text, comment, pos, first).end,
{
    lemma_final_steps_repeat(text, comment, pos, first, later);
}

/// Scanning comes to an end: from `pos`, the step after as many steps as
/// characters remain is final.
pub proof fn lemma_scanning_ends(text: Seq<char>, comment: Option<char>, pos: int)
    requires
        0 <= pos <= text.len(),
    ensures
        scan_nth(text, comment, pos, (text.len() - pos) as nat).is_final(),
    decreases text.len() - pos,
{
    let steps = (text.len() - pos) as nat;
    let first = scan(text, comment, pos);
    lemma_scan_advances(text, comment, pos);
    if first.is_final() {
        lemma_final_steps_repeat(text, comment, pos, 0, steps);
    } else {
        let rest = (text.len() - first.end) as nat;
        lemma_scanning_ends(text, comment, first.end);
        lemma_final_steps_repeat(text, comment, first.end, rest, (steps - 1) as nat);
    }
}

/// Whether a comment starts at `at`: the comment character stands there, and
/// it is no blank.
pub open spec fn starts_comment(text: Seq<char>, comment: Option<char>, at: int) -> bool {
    comment == Some(text[at]) && !CharClass::Blank.holds(text[at])
}

/// Whether `at` lies in a comment that starts at or after `from`: a comment
/// starts at `at` or before it, with no newline in between.
pub open spec fn in_comment(text: Seq<char>, comment: Option<char>, from: int, at: int) -> bool {
    exists|start: int|
        from <= start <= at && #[trigger] starts_comment(text, comment, start) && forall|k: int|
            start <= k < at ==> #[trigger] text[k] != '\n'
}

/// Whether `text` holds nothing but blanks and comments from `from` on.
pub open spec fn only_trivia(text: Seq<char>, comment: Option<char>, from: int) -> bool {
    forall|i: int|
        from <= i < text.len() ==> CharClass::Blank.holds(#[trigger] text[i]) || in_comment(
            text,
            comment,
            from,
            i,
        )
}

proof fn lemma_only_trivia_is_skipped(text: Seq<char>, comment: Option<char>, from: int)
    requires
        0 <= from <= text.len(),
        only_trivia(text, comment, from),
    ensures
        trivia_end(text, comment, from) == text.len(),
    decreases text.len() - from,
{
    lemma_run_end_is_maximal(text, CharClass::Blank, from);
    let at = run_end(text, CharClass::Blank, from);
    if at < text.len() {
        // The first character that is no blank lies in a comment. Only blanks
        // stand before it, so the comment starts there, and it ends with its
        // line: what follows is in no comment of that line or an earlier one.
        lemma_run_end_is_maximal(text, CharClass::SameLine, at);
        let next = line_end(text, at);
        assert(only_trivia(text, comment, next));
        lemma_only_trivia_is_skipped(text, comment, next);
    }
}

proof fn lemma_skipped_is_only_trivia(text: Seq<char>, comment: Option<char>, from: int)
    requires
        0 <= from <= text.len(),
        trivia_end(text, comment, from) == text.len(),
    ensures
        only_trivia(text, comment, from),
    decreases text.len() - from,
{
    lemma_run_end_is_maximal(text, CharClass::Blank, from);
    let at = run_end(text, CharClass::Blank, from);
    if at < text.len() {
        // A comment starts at the first character that is no blank, and holds
        // the rest of its line; the lines behind it hold trivia alone.
        lemma_run_end_is_maximal(text, CharClass::SameLine, at);
        lemma_skipped_is_only_trivia(text, comment, line_end(text, at));
        assert(starts_comment(text, comment, at));
    }
}

/// A text of blanks and comments alone holds no token: the first step finds
/// the end of the input, and so does every step after it. No other text has
/// the end of the input found by the first step.
pub proof fn lemma_only_trivia_reads_as_end_of_input(
    text: Seq<char>,
    comment: Option<char>,
    pos: int,
    n: nat,
)
    requires
        0 <= pos <= text.len(),
    ensures
        only_trivia(text, comment, pos) <==> scan(text, comment, pos).reads(TokenView::EndOfInput),
        only_trivia(text, comment, pos) ==> scan_nth(text, comment, pos, n).reads(
            TokenView::EndOfInput,
        ),
{
    lemma_scan_advances(text, comment, pos);
    if only_trivia(text, comment, pos) {
        lemma_only_trivia_is_skipped(text, comment, pos);
        lemma_end_of_input_repeats(text, comment, pos, 0, n);
    }
    if trivia_end(text, comment, pos) == text.len() {
        lemma_skipped_is_only_trivia(text, comment, pos);
    }
}

/// Whether the characters from `start` up to `end` are a whole word: a letter
/// and then letters and digits, with neither a letter nor a digit just before
/// them or just behind them.
pub open spec fn is_whole_word(text: Seq<char>, start: int, end: int) -> bool {
    &&& 0 <= start < end <= text.len()
    &&& is_letter(text[start])
    &&& forall|i: int| start <= i < end ==> CharClass::Alnum.holds(#[trigger] text[i])
    &&& start > 0 ==> !CharClass::Alnum.holds(text[start - 1])
    &&& end < text.len() ==> !CharClass::Alnum.holds(text[end])
}

/// A step that comes upon a whole word reads all of it as one token: the
/// step ends where the word ends, and the token is the word's keyword, or an
/// identifier with the word as its text where the word is no keyword.
pub proof fn lemma_word_is_one_token(
    text: Seq<char>,
    comment: Option<char>,
    pos: int,
    start: int,
    end: int,
)
    requires
        is_whole_word(text, start, end),
        0 <= pos <= start,
        trivia_end(text, comment, pos) == start,
    ensures
        scan(text, comment, pos).end == end,
        match keyword(text.subrange(start, end)) {
            Some(token) => scan(text, comment, pos).reads(token),
            None => scan(text, comment, pos).reads(
                TokenView::Identifier(text.subrange(start, end)),
            ),
        },
{
    lemma_run_end_is_unique(text, CharClass::Alnum, start, end);
}

proof fn lemma_trivia_ends_outside_word(
    text: Seq<char>,
    comment: Option<char>,
    from: int,
    start: int,
    end: int,
)
    requires
        is_whole_word(text, start, end),
        0 <= from <= text.len(),
        !(start < from < end),
    ensures
        !(start < trivia_end(text, comment, from) < end),
    decreases text.len() - from,
{
    // Blanks end before the word's first letter, and a comment ends behind a
    // newline or with the text: neither is inside a word.
    lemma_run_end_is_maximal(text, CharClass::Blank, from);
    let at = run_end(text, CharClass::Blank, from);
    if at < text.len() && comment == Some(text[at]) {
        lemma_run_end_is_maximal(text, CharClass::SameLine, at);
        lemma_trivia_ends_outside_word(text, comment, line_end(text, at), start, end);
    }
}

/// No step splits a whole word. A step that begins outside the word or at its
/// start comes upon its token outside the word or at its start, and ends
/// outside the word or at its end.
pub proof fn lemma_step_keeps_word_whole(
    text: Seq<char>,
    comment: Option<char>,
    pos: int,
    start: int,
    end: int,
)
    requires
        is_whole_word(text, start, end),
        0 <= pos <= text.len(),
        !(start < pos < end),
    ensures
        !(start < trivia_end(text, comment, pos) < end),
        !(start < scan(text, comment, pos).end < end),
{
    lemma_trivia_ends_outside_word(text, comment, pos, start, end);
    lemma_trivia_end_is_maximal(text, comment, pos);
    let at = trivia_end(text, comment, pos);
    if at < text.len() {
        // A token that begins before the word ends before it or behind it: a
        // word or a number ends at the character before the word at the
        // latest, a literal ends with a quote. One that begins with the word
        // is the word.
        lemma_run_end_is_maximal(text, CharClass::Alnum, at);
        lemma_run_end_is_maximal(text, CharClass::Numeric, at);
        lemma_run_end_is_maximal(text, CharClass::Unquoted, at + 1);
    }
}

/// The steps from the start of a text never split a whole word: none of them
/// ends inside it.
pub proof fn lemma_words_are_never_split(
    text: Seq<char>,
    comment: Option<char>,
    start: int,
    end: int,
    n: nat,
)
    requires
        is_whole_word(text, start, end),
    ensures
        !(start < scan_nth(text, comment, 0, n).end < end),
    decreases n,
{
    if n == 0 {
        lemma_step_keeps_word_whole(text, comment, 0, start, end);
    } else {
        let before = (n - 1) as nat;
        lemma_words_are_never_split(text, comment, start, end, before);
        lemma_scan_nth_unfolds(text, comment, 0, before);
        lemma_step_keeps_word_whole(
            text,
            comment,
            scan_nth(text, comment, 0, before).end,
            start,
            end,
        );
    }
}

} // verus!

//! Character classes, and maximal runs of characters of one class.

use vstd::prelude::*;

verus! {

/// The sets of characters that the grammar speaks of.
#[derive(Clone, Copy, Debug)]
pub enum CharClass {
    /// Space, tab, newline and carriage return.
    Blank,
    /// ASCII letters: what a word starts with.
    Letter,
    /// ASCII digits: what a number starts with.
    Digit,
    /// ASCII letters and digits: what a word is made of.
    Alnum,
    /// ASCII digits and `.`: what a number is made of.
    Numeric,
    /// Everything but `"`: what may stand inside a string literal.
    Unquoted,
    /// Everything but a newline: what may stand on the rest of a line.
    SameLine,
}

/// Whether `c` is an ASCII letter.
pub open spec fn is_letter(c: char) -> bool {
    'a' <= c <= 'z' || 'A' <= c <= 'Z'
}

/// Whether `c` is an ASCII digit.
pub open spec fn is_digit(c: char) -> bool {
    '0' <= c <= '9'
}

impl CharClass {
    /// Whether `c` belongs to the class.
    pub open spec fn holds(self, c: char) -> bool {
        match self {
            CharClass::Blank => c == ' ' || c == '\t' || c == '\n' || c == '\r',
            CharClass::Letter => is_letter(c),
            CharClass::Digit => is_digit(c),
            CharClass::Alnum => is_letter(c) || is_digit(c),
            CharClass::Numeric => is_digit(c) || c == '.',
            CharClass::Unquoted => c != '"',
            CharClass::SameLine => c != '\n',
        }
    }

    /// Tests whether `c` belongs to the class.
    pub fn contains(self, c: char) -> (b: bool)
        ensures
            b == self.holds(c),
    {
        match self {
            CharClass::Blank => c == ' ' || c == '\t' || c == '\n' || c == '\r',
            CharClass::Letter => ('a' <= c && c <= 'z') || ('A' <= c && c <= 'Z'),
            CharClass::Digit => '0' <= c && c <= '9',
            CharClass::Alnum => ('a' <= c && c <= 'z') || ('A' <= c && c <= 'Z') || ('0' <= c
                && c <= '9'),
            CharClass::Numeric => ('0' <= c && c <= '9') || c == '.',
            CharClass::Unquoted => c != '"',
            CharClass::SameLine => c != '\n',
        }
    }
}

/// The end of the longest run of characters of `class` that starts at `from`:
/// the first index at or after `from` that holds no character of the class,
/// which is the length of `text` where every remaining character is of the class.
pub open spec fn run_end(text: Seq<char>, class: CharClass, from: int) -> int
    decreases text.len() - from,
{
    if 0 <= from < text.len() && class.holds(text[from]) {
        run_end(text, class, from + 1)
    } else {
        from
    }
}

/// A run lies within the text, holds characters of its class only, and cannot
/// be extended to the right.
pub proof fn lemma_run_end_is_maximal(text: Seq<char>, class: CharClass, from: int)
    requires
        0 <= from <= text.len(),
    ensures
        from <= run_end(text, class, from) <= text.len(),
        forall|i: int| from <= i < run_end(text, class, from) ==> class.holds(#[trigger] text[i]),
        run_end(text, class, from) < text.len() ==> !class.holds(
            text[run_end(text, class, from)],
        ),
    decreases text.len() - from,
{
    if from < text.len() && class.holds(text[from]) {
        lemma_run_end_is_maximal(text, class, from + 1);
    }
}

/// The end of a run is the only index with the properties of
/// [`lemma_run_end_is_maximal`].
pub proof fn lemma_run_end_is_unique(text: Seq<char>, class: CharClass, from: int, end: int)
    requires
        0 <= from <= end <= text.len(),
        forall|i: int| from <= i < end ==> class.holds(#[trigger] text[i]),
        end < text.len() ==> !class.holds(text[end]),
    ensures
        run_end(text, class, from) == end,
    decreases end - from,
{
    if from < end {
        lemma_run_end_is_unique(text, class, from + 1, end);
    }
}

} // verus!

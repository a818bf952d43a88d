//! The grammar of tokens, as functions on sequences of characters.
//!
//! [`scan`] says which token the scanner finds from a given place in a text and
//! where it stops; everything the scanner does is stated against it.

use crate::chars::{is_digit, is_letter, lemma_run_end_is_maximal, run_end, CharClass};
use crate::token::TokenView;
use vstd::prelude::*;

verus! {

/// Why the text holds no token where one was looked for.
#[derive(Clone, Copy, Debug, PartialEq, Eq, Structural)]
pub enum ScanError {
    /// A string literal was opened and the text ended before its closing quote.
    UnterminatedStringLiteral,
}

/// What one step of scanning yields.
pub struct Scan {
    /// The token that was read, or the reason why none was.
    pub outcome: Result<TokenView, ScanError>,
    /// The place where the step ends and the next one begins.
    pub end: int,
}

impl Scan {
    /// Whether the step read `token`.
    pub open spec fn reads(self, token: TokenView) -> bool {
        self.outcome == Ok::<TokenView, ScanError>(token)
    }

    /// Whether the step failed with `error`.
    pub open spec fn fails_with(self, error: ScanError) -> bool {
        self.outcome == Err::<TokenView, ScanError>(error)
    }

    /// Whether the step is final: it failed, or it found the end of the input.
    pub open spec fn is_final(self) -> bool {
        self.outcome is Err || self.reads(TokenView::EndOfInput)
    }
}

/// The character at `at`, if the text has one there.
pub open spec fn peek(text: Seq<char>, at: int) -> Option<char> {
    if 0 <= at < text.len() {
        Some(text[at])
    } else {
        None
    }
}

/// The keyword that `word` spells, if it spells one.
pub open spec fn keyword(word: Seq<char>) -> Option<TokenView> {
    if word == "proc"@ {
        Some(TokenView::Fn)
    } else if word == "let"@ {
        Some(TokenView::Let)
    } else if word == "return"@ {
        Some(TokenView::Return)
    } else {
        None
    }
}

/// The token for a whole word: its keyword, or else an identifier.
pub open spec fn word_token(word: Seq<char>) -> TokenView {
    match keyword(word) {
        Some(token) => token,
        None => TokenView::Identifier(word),
    }
}

/// The token that the single character `c` stands for, if it is a punctuation
/// mark or an operator.
pub open spec fn punctuation(c: char) -> Option<TokenView> {
    match c {
        '(' => Some(TokenView::LParen),
        ')' => Some(TokenView::RParen),
        '{' => Some(TokenView::LBrace),
        '}' => Some(TokenView::RBrace),
        '[' => Some(TokenView::LSqBracket),
        ']' => Some(TokenView::RSqBracket),
        ';' => Some(TokenView::SemiC),
        ':' => Some(TokenView::Colon),
        '!' => Some(TokenView::ExclMark),
        '?' => Some(TokenView::QuestMark),
        '=' => Some(TokenView::Eq),
        ',' => Some(TokenView::Comma),
        '*' => Some(TokenView::Star),
        '/' => Some(TokenView::Slash),
        '\\' => Some(TokenView::BSlash),
        '+' => Some(TokenView::Plus),
        '-' => Some(TokenView::Minus),
        '\'' => Some(TokenView::Quote),
        '&' => Some(TokenView::Ampersand),
        '@' => Some(TokenView::CommAt),
        '$' => Some(TokenView::Dollar),
        _ => None,
    }
}

/// The start of the line after the one that holds `from`: just past the next
/// newline, or the end of the text where no newline follows.
pub open spec fn line_end(text: Seq<char>, from: int) -> int {
    let newline = run_end(text, CharClass::SameLine, from);
    if newline < text.len() {
        newline + 1
    } else {
        newline
    }
}

/// From a place inside the text, the next line starts further on.
pub proof fn lemma_line_end_advances(text: Seq<char>, from: int)
    requires
        0 <= from < text.len(),
    ensures
        from < line_end(text, from) <= text.len(),
{
    lemma_run_end_is_maximal(text, CharClass::SameLine, from + 1);
}

/// The first place at or after `from` that is neither blank nor inside a
/// comment; the length of the text if there is none.
///
/// A comment runs from the comment character to the end of its line. Blanks
/// are skipped first, so a blank that is set as comment character starts no
/// comment.
pub open spec fn trivia_end(text: Seq<char>, comment: Option<char>, from: int) -> int
    decreases text.len() - from,
    via trivia_end_decreases
{
    let at = run_end(text, CharClass::Blank, from);
    if 0 <= at < text.len() && comment == Some(text[at]) {
        trivia_end(text, comment, line_end(text, at))
    } else {
        at
    }
}

#[via_fn]
proof fn trivia_end_decreases(text: Seq<char>, comment: Option<char>, from: int) {
    let at = run_end(text, CharClass::Blank, from);
    if 0 <= at < text.len() && comment == Some(text[at]) {
        if 0 <= from {
            lemma_run_end_is_maximal(text, CharClass::Blank, from);
        }
        lemma_line_end_advances(text, at);
    }
}

/// Blanks may be passed over before trivia is skipped: the result is the same,
/// and no blank is left where the blanks end.
pub proof fn lemma_trivia_end_after_blanks(text: Seq<char>, comment: Option<char>, from: int)
    requires
        0 <= from <= text.len(),
    ensures
        ({
            let at = run_end(text, CharClass::Blank, from);
            &&& from <= at <= text.len()
            &&& run_end(text, CharClass::Blank, at) == at
            &&& trivia_end(text, comment, at) == trivia_end(text, comment, from)
        }),
{
    lemma_run_end_is_maximal(text, CharClass::Blank, from);
}

/// Whether a string literal opens at `at` and never closes: a `"` stands
/// there, and no other `"` follows it.
pub open spec fn is_open_literal(text: Seq<char>, at: int) -> bool {
    peek(text, at) == Some('"') && forall|i: int| at < i < text.len() ==> #[trigger] text[i] != '"'
}

/// The token that starts at `at`, a place that holds a character which is
/// neither blank nor the start of a comment.
///
/// - A letter starts a word: the longest run of letters and digits.
/// - A digit starts a number: the longest run of digits and `.`.
/// - `"` starts a string literal, which ends at the next `"`; a backslash has
///   no special meaning in it. Without a closing quote there is no token, and
///   the scan stays at the opening quote.
/// - `::` is one token.
/// - Any other character is a token by itself: a punctuation mark, or
///   [`TokenView::Invalid`].
pub open spec fn scan_token(text: Seq<char>, at: int) -> Scan {
    let c = text[at];
    if is_letter(c) {
        let end = run_end(text, CharClass::Alnum, at);
        Scan { outcome: Ok(word_token(text.subrange(at, end))), end }
    } else if is_digit(c) {
        let end = run_end(text, CharClass::Numeric, at);
        Scan { outcome: Ok(TokenView::Number(text.subrange(at, end))), end }
    } else if c == '"' {
        let close = run_end(text, CharClass::Unquoted, at + 1);
        if close < text.len() {
            Scan {
                outcome: Ok(TokenView::StringLiteral(text.subrange(at + 1, close))),
                end: close + 1,
            }
        } else {
            Scan { outcome: Err(ScanError::UnterminatedStringLiteral), end: at }
        }
    } else if c == ':' && peek(text, at + 1) == Some(':') {
        Scan { outcome: Ok(TokenView::DoubleColon), end: at + 2 }
    } else {
        match punctuation(c) {
            Some(token) => Scan { outcome: Ok(token), end: at + 1 },
            None => Scan { outcome: Ok(TokenView::Invalid), end: at + 1 },
        }
    }
}

/// One step of scanning `text` from `pos`: blanks and comments are passed
/// over, then the token that follows is read; where nothing follows, the
/// token is [`TokenView::EndOfInput`] and the scan stays at the end.
pub open spec fn scan(text: Seq<char>, comment: Option<char>, pos: int) -> Scan {
    let at = trivia_end(text, comment, pos);
    if 0 <= at < text.len() {
        scan_token(text, at)
    } else {
        Scan { outcome: Ok(TokenView::EndOfInput), end: at }
    }
}

/// The step that follows `n` earlier steps from `pos`, each begun where the
/// one before it ended.
pub open spec fn scan_nth(text: Seq<char>, comment: Option<char>, pos: int, n: nat) -> Scan
    decreases n,
{
    if n == 0 {
        scan(text, comment, pos)
    } else {
        scan_nth(text, comment, scan(text, comment, pos).end, (n - 1) as nat)
    }
}

} // verus!

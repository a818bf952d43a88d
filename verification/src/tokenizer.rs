//! The scanner: a cursor over a source text that hands out one token per call.

use crate::chars::{run_end, CharClass};
use crate::grammar::{
    is_open_literal, lemma_line_end_advances, lemma_trivia_end_after_blanks, line_end, peek,
    punctuation, scan, trivia_end, word_token, ScanError,
};
use crate::laws::lemma_failure_is_open_literal;
use crate::text::{chars_of, spells, string_of};
use crate::token::{Token, TokenView};
use vstd::prelude::*;

verus! {

/// A scanner over one source text.
///
/// It owns the text and a cursor into it. Each call of [`Tokenizer::next`]
/// reads one token and moves the cursor past it; the cursor never moves back.
#[derive(Debug)]
pub struct Tokenizer {
    src: Vec<char>,
    idx: usize,
    comment_char: Option<char>,
}

/// The mathematical view of a [`Tokenizer`].
pub struct TokenizerView {
    /// The whole source text.
    pub text: Seq<char>,
    /// The number of characters that lie behind the cursor.
    pub cursor: int,
    /// The character that starts a comment, where comments are enabled.
    pub comment: Option<char>,
}

impl TokenizerView {
    /// The same scanner with its cursor at `cursor`.
    pub open spec fn at(self, cursor: int) -> TokenizerView {
        TokenizerView { cursor, ..self }
    }
}

impl View for Tokenizer {
    type V = TokenizerView;

    closed spec fn view(&self) -> TokenizerView {
        TokenizerView { text: self.src@, cursor: self.idx as int, comment: self.comment_char }
    }
}

/// The token for the single character `c`.
fn punctuation_token(c: char) -> (token: Token)
    ensures
        token@ == match punctuation(c) {
            Some(mark) => mark,
            None => TokenView::Invalid,
        },
{
    match c {
        '(' => Token::LParen,
        ')' => Token::RParen,
        '{' => Token::LBrace,
        '}' => Token::RBrace,
        '[' => Token::LSqBracket,
        ']' => Token::RSqBracket,
        ';' => Token::SemiC,
        ':' => Token::Colon,
        '!' => Token::ExclMark,
        '?' => Token::QuestMark,
        '=' => Token::Eq,
        ',' => Token::Comma,
        '*' => Token::Star,
        '/' => Token::Slash,
        '\\' => Token::BSlash,
        '+' => Token::Plus,
        '-' => Token::Minus,
        '\'' => Token::Quote,
        '&' => Token::Ampersand,
        '@' => Token::CommAt,
        '$' => Token::Dollar,
        _ => Token::Invalid,
    }
}

impl Tokenizer {
    #[verifier::type_invariant]
    spec fn cursor_in_text(self) -> bool {
        self.idx <= self.src.len()
    }

    /// A scanner at the start of `input`, for which no character starts a
    /// comment.
    pub fn new(input: &str) -> (tokenizer: Self)
        ensures
            tokenizer@ == (TokenizerView { text: input@, cursor: 0, comment: None }),
    {
        Tokenizer { src: chars_of(input), idx: 0, comment_char: None }
    }

    /// A scanner at the start of `input`, for which `comment_char` starts a
    /// comment that runs to the end of its line. Blanks are passed over
    /// before comments are looked for, so a blank starts no comment.
    pub fn with_comment_char(input: &str, comment_char: char) -> (tokenizer: Self)
        ensures
            tokenizer@ == (TokenizerView { text: input@, cursor: 0, comment: Some(comment_char) }),
    {
        Tokenizer { src: chars_of(input), idx: 0, comment_char: Some(comment_char) }
    }

    /// The place of the cursor, counted in characters from the start of the
    /// text.
    pub fn position(&self) -> (cursor: usize)
        ensures
            cursor == self@.cursor,
            cursor <= self@.text.len(),
    {
        proof {
            use_type_invariant(self);
        }
        self.idx
    }

    /// The character under the cursor, or `None` at the end of the text.
    fn current(&self) -> (c: Option<char>)
        ensures
            c == peek(self@.text, self@.cursor),
    {
        proof {
            use_type_invariant(self);
        }
        if self.idx < self.src.len() {
            Some(self.src[self.idx])
        } else {
            None
        }
    }

    /// Moves the cursor over one character.
    fn advance(&mut self)
        requires
            old(self)@.cursor < old(self)@.text.len(),
        ensures
            final(self)@ == old(self)@.at(old(self)@.cursor + 1),
    {
        assert(self.idx < self.src.len());
        self.idx += 1;
    }

    /// The end of the run of `class` that starts at `from`.
    fn find_run_end(&self, class: CharClass, from: usize) -> (end: usize)
        requires
            from <= self@.text.len(),
        ensures
            end == run_end(self@.text, class, from as int),
            from <= end <= self@.text.len(),
    {
        let mut end = from;
        while end < self.src.len() && class.contains(self.src[end])
            invariant
                from <= end <= self.src.len(),
                run_end(self.src@, class, end as int) == run_end(self.src@, class, from as int),
            decreases self.src.len() - end,
        {
            end += 1;
        }
        end
    }

    /// Moves the cursor to the end of the run of `class` that starts under it.
    fn skip_run(&mut self, class: CharClass)
        ensures
            final(self)@ == old(self)@.at(run_end(old(self)@.text, class, old(self)@.cursor)),
            old(self)@.cursor <= final(self)@.cursor <= final(self)@.text.len(),
    {
        proof {
            use_type_invariant(&*self);
        }
        self.idx = self.find_run_end(class, self.idx);
    }

    /// Moves the cursor over blanks.
    fn strip(&mut self)
        ensures
            final(self)@ == old(self)@.at(
                run_end(old(self)@.text, CharClass::Blank, old(self)@.cursor),
            ),
            old(self)@.cursor <= final(self)@.cursor <= final(self)@.text.len(),
    {
        self.skip_run(CharClass::Blank);
    }

    /// Moves the cursor to the start of the next line.
    fn advance_til_newline(&mut self)
        ensures
            final(self)@ == old(self)@.at(line_end(old(self)@.text, old(self)@.cursor)),
            old(self)@.cursor <= final(self)@.cursor <= final(self)@.text.len(),
    {
        self.skip_run(CharClass::SameLine);
        if self.current().is_some() {
            self.advance();
        }
    }

    /// Moves the cursor over blanks and comments.
    fn skip_trivia(&mut self)
        ensures
            final(self)@ == old(self)@.at(
                trivia_end(old(self)@.text, old(self)@.comment, old(self)@.cursor),
            ),
            old(self)@.cursor <= final(self)@.cursor <= final(self)@.text.len(),
    {
        self.strip();
        proof {
            lemma_trivia_end_after_blanks(old(self)@.text, old(self)@.comment, old(self)@.cursor);
        }
        while self.comment_char.is_some() && self.current() == self.comment_char
            invariant
                old(self)@.cursor <= self@.cursor <= self@.text.len(),
                self@ == old(self)@.at(self@.cursor),
                self@.cursor == run_end(self@.text, CharClass::Blank, self@.cursor),
                trivia_end(self@.text, self@.comment, self@.cursor) == trivia_end(
                    old(self)@.text,
                    old(self)@.comment,
                    old(self)@.cursor,
                ),
            decreases self@.text.len() - self@.cursor,
        {
            let ghost comment_start = self@.cursor;
            self.advance_til_newline();
            proof {
                lemma_line_end_advances(self@.text, comment_start);
                lemma_trivia_end_after_blanks(
                    self@.text,
                    self@.comment,
                    line_end(self@.text, comment_start),
                );
            }
            self.strip();
        }
    }

    /// Reads the word under the cursor and moves the cursor behind it.
    fn get_str(&mut self) -> (token: Token)
        ensures
            final(self)@ == old(self)@.at(
                run_end(old(self)@.text, CharClass::Alnum, old(self)@.cursor),
            ),
            token@ == word_token(
                old(self)@.text.subrange(old(self)@.cursor, final(self)@.cursor),
            ),
            old(self)@.cursor <= final(self)@.cursor <= final(self)@.text.len(),
    {
        let start = self.idx;
        self.skip_run(CharClass::Alnum);
        let end = self.idx;
        if spells(&self.src, start, end, "proc") {
            Token::Fn
        } else if spells(&self.src, start, end, "let") {
            Token::Let
        } else if spells(&self.src, start, end, "return") {
            Token::Return
        } else {
            Token::Identifier(string_of(&self.src, start, end))
        }
    }

    /// Reads the number under the cursor and moves the cursor behind it.
    fn get_num(&mut self) -> (text: String)
        ensures
            final(self)@ == old(self)@.at(
                run_end(old(self)@.text, CharClass::Numeric, old(self)@.cursor),
            ),
            text@ == old(self)@.text.subrange(old(self)@.cursor, final(self)@.cursor),
            old(self)@.cursor <= final(self)@.cursor <= final(self)@.text.len(),
    {
        let start = self.idx;
        self.skip_run(CharClass::Numeric);
        string_of(&self.src, start, self.idx)
    }

    /// Reads the string literal whose opening quote is under the cursor, and
    /// moves the cursor behind its closing quote. Where the text ends before
    /// a closing quote, nothing is read and the cursor stays.
    fn get_til_dblquote(&mut self) -> (text: Option<String>)
        requires
            old(self)@.cursor < old(self)@.text.len(),
        ensures
            ({
                let open = old(self)@.cursor;
                let close = run_end(old(self)@.text, CharClass::Unquoted, open + 1);
                if close < old(self)@.text.len() {
                    &&& final(self)@ == old(self)@.at(close + 1)
                    &&& text matches Some(body)
                    &&& body@ == old(self)@.text.subrange(open + 1, close)
                } else {
                    &&& final(self)@ == old(self)@
                    &&& text is None
                }
            }),
            old(self)@.cursor <= final(self)@.cursor <= final(self)@.text.len(),
    {
        let open = self.idx;
        let close = self.find_run_end(CharClass::Unquoted, open + 1);
        if close < self.src.len() {
            let body = string_of(&self.src, open + 1, close);
            self.idx = close + 1;
            Some(body)
        } else {
            None
        }
    }

    /// Reads the next token and moves the cursor behind it.
    ///
    /// Blanks and comments before the token are passed over. At the end of
    /// the text the token is [`Token::EndOfInput`], on this call and on every
    /// later one. A character that starts no token is read as
    /// [`Token::Invalid`], and scanning goes on behind it.
    ///
    /// A string literal without its closing quote is the one error. The
    /// cursor then stays at the opening quote, where [`Tokenizer::position`]
    /// finds it, and every later call fails in the same way.
    pub fn next(&mut self) -> (result: Result<Token, ScanError>)
        ensures
            ({
                let before = old(self)@;
                let step = scan(before.text, before.comment, before.cursor);
                &&& final(self)@ == before.at(step.end)
                &&& match result {
                    Ok(token) => step.reads(token@),
                    Err(error) => step.fails_with(error),
                }
            }),
            result is Err <==> is_open_literal(
                old(self)@.text,
                trivia_end(old(self)@.text, old(self)@.comment, old(self)@.cursor),
            ),
            result matches Ok(token) ==> token@ != TokenView::Placeholder,
            old(self)@.cursor <= final(self)@.cursor <= final(self)@.text.len(),
    {
        proof {
            use_type_invariant(&*self);
            lemma_failure_is_open_literal(self@.text, self@.comment, self@.cursor);
        }
        self.skip_trivia();
        match self.current() {
            None => Ok(Token::EndOfInput),
            Some(c) => {
                if CharClass::Letter.contains(c) {
                    Ok(self.get_str())
                } else if CharClass::Digit.contains(c) {
                    Ok(Token::Number(self.get_num()))
                } else if c == '"' {
                    match self.get_til_dblquote() {
                        Some(body) => Ok(Token::StringLiteral(body)),
                        None => Err(ScanError::UnterminatedStringLiteral),
                    }
                } else {
                    self.advance();
                    if c == ':' && self.current() == Some(':') {
                        self.advance();
                        Ok(Token::DoubleColon)
                    } else {
                        Ok(punctuation_token(c))
                    }
                }
            },
        }
    }
}

} // verus!

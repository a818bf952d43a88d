//! Tokens, their mathematical view and their descriptions.

use vstd::prelude::*;
use vstd::string::*;

verus! {

/// One lexical unit of source text.
///
/// Words, numbers and string literals carry their text exactly as it stands in
/// the source: numbers are not parsed and escapes are not decoded.
#[derive(Debug, PartialEq, Eq)]
pub enum Token {
    /// A word that is no keyword.
    Identifier(String),
    /// A string literal, without its quotes.
    StringLiteral(String),
    /// A number.
    Number(String),
    /// The keyword `proc`.
    Fn,
    /// The keyword `let`.
    Let,
    /// The keyword `return`.
    Return,
    /// `(`
    LParen,
    /// `)`
    RParen,
    /// `{`
    LBrace,
    /// `}`
    RBrace,
    /// `[`
    LSqBracket,
    /// `]`
    RSqBracket,
    /// `;`
    SemiC,
    /// `:`
    Colon,
    /// `::`
    DoubleColon,
    /// `!`
    ExclMark,
    /// `?`
    QuestMark,
    /// `=`
    Eq,
    /// `,`
    Comma,
    /// `*`
    Star,
    /// `/`
    Slash,
    /// `\`
    BSlash,
    /// `+`
    Plus,
    /// `-`
    Minus,
    /// `'`
    Quote,
    /// `&`
    Ampersand,
    /// `@`
    CommAt,
    /// `$`
    Dollar,
    /// The end of the text.
    EndOfInput,
    /// A character that starts no token.
    Invalid,
    /// Stands where no token has been read yet; the scanner never returns it.
    Placeholder,
}

/// The mathematical view of a [`Token`]: the same variants, with the text of a
/// word, number or literal as a sequence of characters.
pub enum TokenView {
    Identifier(Seq<char>),
    StringLiteral(Seq<char>),
    Number(Seq<char>),
    Fn,
    Let,
    Return,
    LParen,
    RParen,
    LBrace,
    RBrace,
    LSqBracket,
    RSqBracket,
    SemiC,
    Colon,
    DoubleColon,
    ExclMark,
    QuestMark,
    Eq,
    Comma,
    Star,
    Slash,
    BSlash,
    Plus,
    Minus,
    Quote,
    Ampersand,
    CommAt,
    Dollar,
    EndOfInput,
    Invalid,
    Placeholder,
}

impl View for Token {
    type V = TokenView;

    open spec fn view(&self) -> TokenView {
        match self {
            Token::Identifier(text) => TokenView::Identifier(text@),
            Token::StringLiteral(text) => TokenView::StringLiteral(text@),
            Token::Number(text) => TokenView::Number(text@),
            Token::Fn => TokenView::Fn,
            Token::Let => TokenView::Let,
            Token::Return => TokenView::Return,
            Token::LParen => TokenView::LParen,
            Token::RParen => TokenView::RParen,
            Token::LBrace => TokenView::LBrace,
            Token::RBrace => TokenView::RBrace,
            Token::LSqBracket => TokenView::LSqBracket,
            Token::RSqBracket => TokenView::RSqBracket,
            Token::SemiC => TokenView::SemiC,
            Token::Colon => TokenView::Colon,
            Token::DoubleColon => TokenView::DoubleColon,
            Token::ExclMark => TokenView::ExclMark,
            Token::QuestMark => TokenView::QuestMark,
            Token::Eq => TokenView::Eq,
            Token::Comma => TokenView::Comma,
            Token::Star => TokenView::Star,
            Token::Slash => TokenView::Slash,
            Token::BSlash => TokenView::BSlash,
            Token::Plus => TokenView::Plus,
            Token::Minus => TokenView::Minus,
            Token::Quote => TokenView::Quote,
            Token::Ampersand => TokenView::Ampersand,
            Token::CommAt => TokenView::CommAt,
            Token::Dollar => TokenView::Dollar,
            Token::EndOfInput => TokenView::EndOfInput,
            Token::Invalid => TokenView::Invalid,
            Token::Placeholder => TokenView::Placeholder,
        }
    }
}

impl Clone for Token {
    /// A token of the same variant, with the same text.
    fn clone(&self) -> (copy: Token)
        ensures
            copy@ == self@,
    {
        match self {
            Token::Identifier(text) => Token::Identifier(text.clone()),
            Token::StringLiteral(text) => Token::StringLiteral(text.clone()),
            Token::Number(text) => Token::Number(text.clone()),
            Token::Fn => Token::Fn,
            Token::Let => Token::Let,
            Token::Return => Token::Return,
            Token::LParen => Token::LParen,
            Token::RParen => Token::RParen,
            Token::LBrace => Token::LBrace,
            Token::RBrace => Token::RBrace,
            Token::LSqBracket => Token::LSqBracket,
            Token::RSqBracket => Token::RSqBracket,
            Token::SemiC => Token::SemiC,
            Token::Colon => Token::Colon,
            Token::DoubleColon => Token::DoubleColon,
            Token::ExclMark => Token::ExclMark,
            Token::QuestMark => Token::QuestMark,
            Token::Eq => Token::Eq,
            Token::Comma => Token::Comma,
            Token::Star => Token::Star,
            Token::Slash => Token::Slash,
            Token::BSlash => Token::BSlash,
            Token::Plus => Token::Plus,
            Token::Minus => Token::Minus,
            Token::Quote => Token::Quote,
            Token::Ampersand => Token::Ampersand,
            Token::CommAt => Token::CommAt,
            Token::Dollar => Token::Dollar,
            Token::EndOfInput => Token::EndOfInput,
            Token::Invalid => Token::Invalid,
            Token::Placeholder => Token::Placeholder,
        }
    }
}

impl TokenView {
    /// The words that describe the token to a reader.
    pub open spec fn description(self) -> Seq<char> {
        match self {
            TokenView::Identifier(text) => "string(value: "@ + text + ")"@,
            TokenView::StringLiteral(text) => "string literal(value: "@ + text + ")"@,
            TokenView::Number(text) => "number(value: "@ + text + ")"@,
            TokenView::Fn => "function"@,
            TokenView::Let => "let keyword"@,
            TokenView::Return => "return keyword"@,
            TokenView::LParen => "left parenthesis"@,
            TokenView::RParen => "right parenthesis"@,
            TokenView::LBrace => "left brace"@,
            TokenView::RBrace => "right brace"@,
            TokenView::LSqBracket => "left square bracket"@,
            TokenView::RSqBracket => "right square bracket"@,
            TokenView::SemiC => "semicolon"@,
            TokenView::Colon => "colon"@,
            TokenView::DoubleColon => "double colon"@,
            TokenView::ExclMark => "exclamation mark"@,
            TokenView::QuestMark => "question mark"@,
            TokenView::Eq => "equal sign"@,
            TokenView::Comma => "comma"@,
            TokenView::Star => "star"@,
            TokenView::Slash => "slash"@,
            TokenView::BSlash => "backslash"@,
            TokenView::Plus => "plus"@,
            TokenView::Minus => "minus"@,
            TokenView::Quote => "single quote"@,
            TokenView::Ampersand => "ampersand"@,
            TokenView::CommAt => "at symbol"@,
            TokenView::Dollar => "dollar sign"@,
            TokenView::EndOfInput => "end of file"@,
            TokenView::Invalid => "undefined / none"@,
            TokenView::Placeholder => "undefined / none"@,
        }
    }
}

/// `prefix`, then `text`, then a closing parenthesis.
fn labelled(prefix: &str, text: &String) -> (s: String)
    ensures
        s@ == prefix@ + text@ + ")"@,
{
    let mut s = String::from_str(prefix);
    s.append(text.as_str());
    s.append(")");
    s
}

impl Token {
    /// Describes the token in words, for messages.
    pub fn describe(&self) -> (s: String)
        ensures
            s@ == self@.description(),
    {
        match self {
            Token::Identifier(text) => labelled("string(value: ", text),
            Token::StringLiteral(text) => labelled("string literal(value: ", text),
            Token::Number(text) => labelled("number(value: ", text),
            Token::Fn => String::from_str("function"),
            Token::Let => String::from_str("let keyword"),
            Token::Return => String::from_str("return keyword"),
            Token::LParen => String::from_str("left parenthesis"),
            Token::RParen => String::from_str("right parenthesis"),
            Token::LBrace => String::from_str("left brace"),
            Token::RBrace => String::from_str("right brace"),
            Token::LSqBracket => String::from_str("left square bracket"),
            Token::RSqBracket => String::from_str("right square bracket"),
            Token::SemiC => String::from_str("semicolon"),
            Token::Colon => String::from_str("colon"),
            Token::DoubleColon => String::from_str("double colon"),
            Token::ExclMark => String::from_str("exclamation mark"),
            Token::QuestMark => String::from_str("question mark"),
            Token::Eq => String::from_str("equal sign"),
            Token::Comma => String::from_str("comma"),
            Token::Star => String::from_str("star"),
            Token::Slash => String::from_str("slash"),
            Token::BSlash => String::from_str("backslash"),
            Token::Plus => String::from_str("plus"),
            Token::Minus => String::from_str("minus"),
            Token::Quote => String::from_str("single quote"),
            Token::Ampersand => String::from_str("ampersand"),
            Token::CommAt => String::from_str("at symbol"),
            Token::Dollar => String::from_str("dollar sign"),
            Token::EndOfInput => String::from_str("end of file"),
            Token::Invalid | Token::Placeholder => String::from_str("undefined / none"),
        }
    }
}

} // verus!

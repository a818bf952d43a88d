use qlexer::{ScanError, Token, Tokenizer};

fn ident(text: &str) -> Token {
    Token::Identifier(text.to_string())
}

fn number(text: &str) -> Token {
    Token::Number(text.to_string())
}

fn literal(text: &str) -> Token {
    Token::StringLiteral(text.to_string())
}

/// All the tokens of `input` up to and including the first `EndOfInput`.
fn all_tokens(mut tokenizer: Tokenizer) -> Vec<Token> {
    let mut tokens = Vec::new();
    loop {
        let token = tokenizer.next().expect("no error in this input");
        let done = token == Token::EndOfInput;
        tokens.push(token);
        if done {
            return tokens;
        }
    }
}

#[test]
fn end_of_input_repeats() {
    let mut tokenizer = Tokenizer::new("a b");
    assert_eq!(tokenizer.next(), Ok(ident("a")));
    assert_eq!(tokenizer.next(), Ok(ident("b")));
    for _ in 0..5 {
        assert_eq!(tokenizer.next(), Ok(Token::EndOfInput));
        assert_eq!(tokenizer.position(), 3);
    }
}

#[test]
fn empty_input_is_end_of_input() {
    let mut tokenizer = Tokenizer::new("");
    assert_eq!(tokenizer.next(), Ok(Token::EndOfInput));
    assert_eq!(tokenizer.next(), Ok(Token::EndOfInput));
    assert_eq!(tokenizer.position(), 0);
}

#[test]
fn blanks_alone_give_end_of_input() {
    let mut tokenizer = Tokenizer::new(" \t\r\n  \n");
    assert_eq!(tokenizer.next(), Ok(Token::EndOfInput));
    assert_eq!(tokenizer.position(), 7);
    assert_eq!(tokenizer.next(), Ok(Token::EndOfInput));
}

#[test]
fn blanks_and_comments_alone_give_end_of_input() {
    let mut tokenizer = Tokenizer::with_comment_char("  ; one\n\t; two\n\n   ;three", ';');
    assert_eq!(tokenizer.next(), Ok(Token::EndOfInput));
    assert_eq!(tokenizer.position(), 25);
    assert_eq!(tokenizer.next(), Ok(Token::EndOfInput));
}

#[test]
fn identifier_spans_whole_run() {
    let mut tokenizer = Tokenizer::new("  counter42x  +");
    assert_eq!(tokenizer.next(), Ok(ident("counter42x")));
    assert_eq!(tokenizer.position(), 12);
    assert_eq!(tokenizer.next(), Ok(Token::Plus));
    assert_eq!(tokenizer.next(), Ok(Token::EndOfInput));
}

#[test]
fn letter_is_an_identifier() {
    let mut tokenizer = Tokenizer::new("letter");
    assert_eq!(tokenizer.next(), Ok(ident("letter")));
    assert_eq!(tokenizer.next(), Ok(Token::EndOfInput));
}

#[test]
fn keywords_are_recognised() {
    let tokens = all_tokens(Tokenizer::new("proc let return"));
    assert_eq!(tokens, vec![Token::Fn, Token::Let, Token::Return, Token::EndOfInput]);
}

#[test]
fn keywords_are_exact() {
    let tokens = all_tokens(Tokenizer::new("pro procs le lets retur returns Let PROC return1"));
    assert_eq!(
        tokens,
        vec![
            ident("pro"),
            ident("procs"),
            ident("le"),
            ident("lets"),
            ident("retur"),
            ident("returns"),
            ident("Let"),
            ident("PROC"),
            ident("return1"),
            Token::EndOfInput,
        ]
    );
}

#[test]
fn single_colon() {
    let mut tokenizer = Tokenizer::new(":");
    assert_eq!(tokenizer.next(), Ok(Token::Colon));
    assert_eq!(tokenizer.next(), Ok(Token::EndOfInput));
}

#[test]
fn double_colon_is_one_token() {
    let mut tokenizer = Tokenizer::new("::");
    assert_eq!(tokenizer.next(), Ok(Token::DoubleColon));
    assert_eq!(tokenizer.position(), 2);
    assert_eq!(tokenizer.next(), Ok(Token::EndOfInput));
}

#[test]
fn colons_pair_from_the_left() {
    let tokens = all_tokens(Tokenizer::new(":::a: :"));
    assert_eq!(
        tokens,
        vec![
            Token::DoubleColon,
            Token::Colon,
            ident("a"),
            Token::Colon,
            Token::Colon,
            Token::EndOfInput,
        ]
    );
}

#[test]
fn string_literal_without_quotes() {
    let mut tokenizer = Tokenizer::new("\"abc\"");
    assert_eq!(tokenizer.next(), Ok(literal("abc")));
    assert_eq!(tokenizer.position(), 5);
    assert_eq!(tokenizer.next(), Ok(Token::EndOfInput));
}

#[test]
fn string_literal_is_taken_verbatim() {
    let mut tokenizer = Tokenizer::new("\"a b\\n; 1:\t\nc\" \"\"x");
    assert_eq!(tokenizer.next(), Ok(literal("a b\\n; 1:\t\nc")));
    assert_eq!(tokenizer.next(), Ok(literal("")));
    assert_eq!(tokenizer.next(), Ok(ident("x")));
    assert_eq!(tokenizer.next(), Ok(Token::EndOfInput));
}

#[test]
fn backslash_does_not_escape_a_quote() {
    let mut tokenizer = Tokenizer::new("\"a\\\"b");
    assert_eq!(tokenizer.next(), Ok(literal("a\\")));
    assert_eq!(tokenizer.next(), Ok(ident("b")));
    assert_eq!(tokenizer.next(), Ok(Token::EndOfInput));
}

#[test]
fn unterminated_string_literal() {
    let mut tokenizer = Tokenizer::new("\"abc");
    assert_eq!(tokenizer.next(), Err(ScanError::UnterminatedStringLiteral));
}

#[test]
fn unterminated_string_literal_keeps_failing() {
    let mut tokenizer = Tokenizer::new("x  \"abc def");
    assert_eq!(tokenizer.next(), Ok(ident("x")));
    for _ in 0..3 {
        assert_eq!(tokenizer.next(), Err(ScanError::UnterminatedStringLiteral));
        assert_eq!(tokenizer.position(), 3);
    }
}

#[test]
fn lone_quote_is_unterminated() {
    let mut tokenizer = Tokenizer::new("\"");
    assert_eq!(tokenizer.next(), Err(ScanError::UnterminatedStringLiteral));
    assert_eq!(tokenizer.position(), 0);
}

#[test]
fn number_keeps_every_point() {
    let mut tokenizer = Tokenizer::new("12.3.4");
    assert_eq!(tokenizer.next(), Ok(number("12.3.4")));
    assert_eq!(tokenizer.next(), Ok(Token::EndOfInput));
}

#[test]
fn number_ends_at_a_letter() {
    let tokens = all_tokens(Tokenizer::new("9lives 3..x .5"));
    assert_eq!(
        tokens,
        vec![
            number("9"),
            ident("lives"),
            number("3.."),
            ident("x"),
            Token::Invalid,
            number("5"),
            Token::EndOfInput,
        ]
    );
}

#[test]
fn unrecognised_character() {
    let mut tokenizer = Tokenizer::new("#");
    assert_eq!(tokenizer.next(), Ok(Token::Invalid));
    assert_eq!(tokenizer.position(), 1);
    assert_eq!(tokenizer.next(), Ok(Token::EndOfInput));
}

#[test]
fn unrecognised_characters_are_passed_one_by_one() {
    let tokens = all_tokens(Tokenizer::new("#~a\u{0}\u{e9}_"));
    assert_eq!(
        tokens,
        vec![
            Token::Invalid,
            Token::Invalid,
            ident("a"),
            Token::Invalid,
            Token::Invalid,
            Token::Invalid,
            Token::EndOfInput,
        ]
    );
}

#[test]
fn comment_line_is_skipped() {
    let mut tokenizer = Tokenizer::with_comment_char("; ignored\nlet", ';');
    assert_eq!(tokenizer.next(), Ok(Token::Let));
    assert_eq!(tokenizer.next(), Ok(Token::EndOfInput));
}

#[test]
fn comments_and_blanks_alternate() {
    let mut tokenizer =
        Tokenizer::with_comment_char("; one\n  ; two\n\n;three\n  x ; four\ny;", ';');
    assert_eq!(tokenizer.next(), Ok(ident("x")));
    assert_eq!(tokenizer.next(), Ok(ident("y")));
    assert_eq!(tokenizer.next(), Ok(Token::EndOfInput));
}

#[test]
fn comment_without_newline_ends_the_text() {
    let mut tokenizer = Tokenizer::with_comment_char("a # rest \"of it", '#');
    assert_eq!(tokenizer.next(), Ok(ident("a")));
    assert_eq!(tokenizer.next(), Ok(Token::EndOfInput));
    assert_eq!(tokenizer.position(), 15);
}

#[test]
fn semicolon_without_comments() {
    let tokens = all_tokens(Tokenizer::new("a; b\n;"));
    assert_eq!(
        tokens,
        vec![ident("a"), Token::SemiC, ident("b"), Token::SemiC, Token::EndOfInput]
    );
}

#[test]
fn comment_character_wins_over_its_token() {
    let tokens = all_tokens(Tokenizer::with_comment_char("a; b\n;", ';'));
    assert_eq!(tokens, vec![ident("a"), Token::EndOfInput]);
}

#[test]
fn comment_character_inside_a_literal() {
    let mut tokenizer = Tokenizer::with_comment_char("\"a;b\" ;c", ';');
    assert_eq!(tokenizer.next(), Ok(literal("a;b")));
    assert_eq!(tokenizer.next(), Ok(Token::EndOfInput));
}

#[test]
fn blank_comment_character_starts_no_comment() {
    let tokens = all_tokens(Tokenizer::with_comment_char("a b\nc", ' '));
    assert_eq!(tokens, vec![ident("a"), ident("b"), ident("c"), Token::EndOfInput]);
}

#[test]
fn letter_as_comment_character() {
    let tokens = all_tokens(Tokenizer::with_comment_char("ab c 1c2\nd", 'c'));
    assert_eq!(tokens, vec![ident("ab"), ident("d"), Token::EndOfInput]);
}

#[test]
fn every_punctuation_mark() {
    let tokens = all_tokens(Tokenizer::new("(){}[];:!?=,*/\\+-'&@$"));
    assert_eq!(
        tokens,
        vec![
            Token::LParen,
            Token::RParen,
            Token::LBrace,
            Token::RBrace,
            Token::LSqBracket,
            Token::RSqBracket,
            Token::SemiC,
            Token::Colon,
            Token::ExclMark,
            Token::QuestMark,
            Token::Eq,
            Token::Comma,
            Token::Star,
            Token::Slash,
            Token::BSlash,
            Token::Plus,
            Token::Minus,
            Token::Quote,
            Token::Ampersand,
            Token::CommAt,
            Token::Dollar,
            Token::EndOfInput,
        ]
    );
}

#[test]
fn small_program() {
    let source = "proc main(argc: int) {\n    let x = 12.5 * argc;\n    \
                  return std::print(\"done\", x)\n}\n";
    let tokens = all_tokens(Tokenizer::new(source));
    assert_eq!(
        tokens,
        vec![
            Token::Fn,
            ident("main"),
            Token::LParen,
            ident("argc"),
            Token::Colon,
            ident("int"),
            Token::RParen,
            Token::LBrace,
            Token::Let,
            ident("x"),
            Token::Eq,
            number("12.5"),
            Token::Star,
            ident("argc"),
            Token::SemiC,
            Token::Return,
            ident("std"),
            Token::DoubleColon,
            ident("print"),
            Token::LParen,
            literal("done"),
            Token::Comma,
            ident("x"),
            Token::RParen,
            Token::RBrace,
            Token::EndOfInput,
        ]
    );
}

#[test]
fn cursor_never_moves_back() {
    let mut tokenizer = Tokenizer::with_comment_char("a ;c\n :: \"s\" 1.2 # \"open", ';');
    let mut last = tokenizer.position();
    assert_eq!(last, 0);
    for _ in 0..12 {
        let _ = tokenizer.next();
        let now = tokenizer.position();
        assert!(last <= now);
        assert!(now <= 24);
        last = now;
    }
    assert_eq!(last, 19);
}

#[test]
fn positions_count_characters() {
    let mut tokenizer = Tokenizer::new("\u{e9}\u{4e16} ab");
    assert_eq!(tokenizer.next(), Ok(Token::Invalid));
    assert_eq!(tokenizer.position(), 1);
    assert_eq!(tokenizer.next(), Ok(Token::Invalid));
    assert_eq!(tokenizer.position(), 2);
    assert_eq!(tokenizer.next(), Ok(ident("ab")));
    assert_eq!(tokenizer.position(), 5);
}

#[test]
fn literal_with_wide_characters() {
    let mut tokenizer = Tokenizer::new("\"h\u{e9}llo \u{4e16}\u{754c}\" z");
    assert_eq!(tokenizer.next(), Ok(literal("h\u{e9}llo \u{4e16}\u{754c}")));
    assert_eq!(tokenizer.next(), Ok(ident("z")));
}

#[test]
fn placeholder_is_never_read() {
    let mut tokenizer = Tokenizer::with_comment_char("a 1 \"s\" : # ; x\n", ';');
    loop {
        let token = tokenizer.next().expect("no error in this input");
        assert_ne!(token, Token::Placeholder);
        if token == Token::EndOfInput {
            break;
        }
    }
}

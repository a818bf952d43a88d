use qlexer::Token;

#[test]
fn describes_tokens_with_text() {
    assert_eq!(Token::Identifier("abc".to_string()).describe(), "string(value: abc)");
    assert_eq!(
        Token::StringLiteral("a b".to_string()).describe(),
        "string literal(value: a b)"
    );
    assert_eq!(Token::Number("12.3.4".to_string()).describe(), "number(value: 12.3.4)");
    assert_eq!(Token::Identifier(String::new()).describe(), "string(value: )");
}

#[test]
fn describes_keywords() {
    assert_eq!(Token::Fn.describe(), "function");
    assert_eq!(Token::Let.describe(), "let keyword");
    assert_eq!(Token::Return.describe(), "return keyword");
}

#[test]
fn describes_punctuation() {
    assert_eq!(Token::LParen.describe(), "left parenthesis");
    assert_eq!(Token::RParen.describe(), "right parenthesis");
    assert_eq!(Token::LBrace.describe(), "left brace");
    assert_eq!(Token::RBrace.describe(), "right brace");
    assert_eq!(Token::LSqBracket.describe(), "left square bracket");
    assert_eq!(Token::RSqBracket.describe(), "right square bracket");
    assert_eq!(Token::SemiC.describe(), "semicolon");
    assert_eq!(Token::Colon.describe(), "colon");
    assert_eq!(Token::DoubleColon.describe(), "double colon");
    assert_eq!(Token::ExclMark.describe(), "exclamation mark");
    assert_eq!(Token::QuestMark.describe(), "question mark");
    assert_eq!(Token::Eq.describe(), "equal sign");
    assert_eq!(Token::Comma.describe(), "comma");
    assert_eq!(Token::Star.describe(), "star");
    assert_eq!(Token::Slash.describe(), "slash");
    assert_eq!(Token::BSlash.describe(), "backslash");
    assert_eq!(Token::Plus.describe(), "plus");
    assert_eq!(Token::Minus.describe(), "minus");
    assert_eq!(Token::Quote.describe(), "single quote");
    assert_eq!(Token::Ampersand.describe(), "ampersand");
    assert_eq!(Token::CommAt.describe(), "at symbol");
    assert_eq!(Token::Dollar.describe(), "dollar sign");
}

#[test]
fn describes_sentinels() {
    assert_eq!(Token::EndOfInput.describe(), "end of file");
    assert_eq!(Token::Invalid.describe(), "undefined / none");
    assert_eq!(Token::Placeholder.describe(), "undefined / none");
}

#[test]
fn clone_is_the_same_token() {
    let tokens = [
        Token::Identifier("abc".to_string()),
        Token::StringLiteral("a \"b".to_string()),
        Token::Number("1.2".to_string()),
        Token::Fn,
        Token::DoubleColon,
        Token::EndOfInput,
        Token::Invalid,
        Token::Placeholder,
    ];
    for token in tokens.iter() {
        assert_eq!(&token.clone(), token);
    }
}

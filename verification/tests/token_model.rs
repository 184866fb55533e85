use rlox::token::{lookup_keyword, BinaryOperator, Literal, Token, TokenType, ValueKind};

#[test]
fn keyword_table_has_the_reserved_words() {
    let words = [
        ("and", TokenType::And),
        ("or", TokenType::Or),
        ("nil", TokenType::Nil),
        ("class", TokenType::Class),
        ("for", TokenType::For),
        ("while", TokenType::While),
        ("var", TokenType::Var),
        ("fun", TokenType::Fun),
        ("if", TokenType::If),
        ("else", TokenType::Else),
        ("print", TokenType::Print),
        ("return", TokenType::Return),
        ("super", TokenType::Super),
        ("this", TokenType::This),
        ("true", TokenType::True),
        ("false", TokenType::False),
    ];
    for (word, kind) in words {
        assert_eq!(lookup_keyword(&word.to_string()), Some(kind));
    }
    assert_eq!(lookup_keyword(&"And".to_string()), None);
    assert_eq!(lookup_keyword(&"".to_string()), None);
    assert_eq!(lookup_keyword(&"classy".to_string()), None);
    assert_eq!(lookup_keyword(&"fo".to_string()), None);
}

#[test]
fn binary_operator_of_each_kind() {
    assert_eq!(TokenType::Plus.as_binary_operator(), Some(BinaryOperator::Add));
    assert_eq!(TokenType::Minus.as_binary_operator(), Some(BinaryOperator::Subtract));
    assert_eq!(TokenType::Star.as_binary_operator(), Some(BinaryOperator::Multiply));
    assert_eq!(TokenType::Slash.as_binary_operator(), Some(BinaryOperator::Divide));
    assert_eq!(TokenType::EqualEqual.as_binary_operator(), Some(BinaryOperator::Equal));
    assert_eq!(TokenType::BangEqual.as_binary_operator(), Some(BinaryOperator::NotEqual));
    assert_eq!(TokenType::Greater.as_binary_operator(), Some(BinaryOperator::Greater));
    assert_eq!(TokenType::GreaterEqual.as_binary_operator(), Some(BinaryOperator::GreaterEqual));
    assert_eq!(TokenType::Less.as_binary_operator(), Some(BinaryOperator::Less));
    assert_eq!(TokenType::LessEqual.as_binary_operator(), Some(BinaryOperator::LessEqual));
    assert_eq!(TokenType::And.as_binary_operator(), Some(BinaryOperator::And));
    assert_eq!(TokenType::Or.as_binary_operator(), Some(BinaryOperator::Or));
    assert_eq!(TokenType::Bang.as_binary_operator(), None);
    assert_eq!(TokenType::Equal.as_binary_operator(), None);
    assert_eq!(TokenType::Eof.as_binary_operator(), None);
}

#[test]
fn token_new_keeps_its_arguments() {
    let token = Token::new(TokenType::Number, "5".to_string(), Some(Literal::Number(5.0f64.to_bits())), 3);
    assert_eq!(token.token_type, TokenType::Number);
    assert_eq!(token.lexeme, "5");
    assert_eq!(token.literal, Some(Literal::Number(5.0f64.to_bits())));
    assert_eq!(token.line, 3);
    assert_eq!(token.clone(), token);
}

#[test]
fn prefix_and_infix_kinds() {
    let prefix = [TokenType::Bang, TokenType::Minus];
    let infix = [
        TokenType::Minus,
        TokenType::Plus,
        TokenType::Slash,
        TokenType::Star,
        TokenType::Greater,
        TokenType::GreaterEqual,
        TokenType::Less,
        TokenType::LessEqual,
        TokenType::BangEqual,
        TokenType::EqualEqual,
    ];
    let others = [
        TokenType::LeftParen,
        TokenType::RightParen,
        TokenType::LeftBrace,
        TokenType::RightBrace,
        TokenType::Comma,
        TokenType::Dot,
        TokenType::Semicolon,
        TokenType::Equal,
        TokenType::Identifier,
        TokenType::StringLiteral,
        TokenType::Number,
        TokenType::And,
        TokenType::Or,
        TokenType::Nil,
        TokenType::True,
        TokenType::False,
        TokenType::Eof,
    ];
    for kind in prefix {
        assert!(kind.is_prefix());
    }
    for kind in infix {
        assert!(kind.is_infix());
    }
    for kind in others {
        assert!(!kind.is_prefix());
        assert!(!kind.is_infix());
    }
    assert!(!TokenType::Plus.is_prefix());
    assert!(!TokenType::Bang.is_infix());
}

#[test]
fn literal_kind_and_equality() {
    use_kinds();
    let nan = Literal::Number(f64::NAN.to_bits());
    assert_ne!(nan, nan.clone());
    assert_eq!(Literal::Number(0.0f64.to_bits()), Literal::Number((-0.0f64).to_bits()));
    assert_ne!(Literal::Str("a".to_string()), Literal::Identifier("a".to_string()));
    assert_ne!(Literal::Nil, Literal::Boolean(false));
    assert_eq!(Literal::Nil, Literal::Nil);
    assert_eq!(Literal::Str("ab".to_string()).clone(), Literal::Str("ab".to_string()));
}

fn use_kinds() {
    assert_eq!(Literal::Nil.kind(), ValueKind::Nil);
    assert_eq!(Literal::Boolean(true).kind(), ValueKind::Boolean);
    assert_eq!(Literal::Number(1).kind(), ValueKind::Number);
    assert_eq!(Literal::Str(String::new()).kind(), ValueKind::Str);
    assert_eq!(Literal::Identifier(String::new()).kind(), ValueKind::Identifier);
}

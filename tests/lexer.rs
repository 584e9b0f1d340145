use miniml_parser::lex::{lex, LexBuf, LexError};
use miniml_parser::{Keyword, PosToken, Token};

fn kinds(src: &str) -> Vec<Token> {
    lex(src).unwrap().into_iter().map(|t| t.token).collect()
}

fn at(token: Token, pos: usize) -> PosToken {
    PosToken { token, pos }
}

#[test]
fn punctuation_lexes_alone_to_one_token_at_zero() {
    let table = vec![
        (":=", Token::Assign),
        ("->", Token::Arrow),
        ("!", Token::Bang),
        ("+", Token::Plus),
        ("-", Token::Minus),
        ("*", Token::Mult),
        ("/", Token::Div),
        (",", Token::Comma),
        (":", Token::Colon),
        ("<=", Token::Le),
        ("<", Token::Lt),
        ("==", Token::Eqeq),
        ("/=", Token::Neq),
        ("=", Token::Eq),
        (">=", Token::Ge),
        (">", Token::Gt),
        ("||", Token::Or),
        ("&&", Token::And),
        ("|", Token::Bar),
        ("~", Token::Not),
        ("(", Token::LParen),
        (")", Token::RParen),
        ("()", Token::Unit),
    ];
    for (src, token) in table {
        assert_eq!(lex(src).unwrap(), vec![at(token, 0)], "spelling {}", src);
    }
}

#[test]
fn whitespace_between_tokens_changes_only_positions() {
    let tight = lex("f x+(1,2)").unwrap();
    let loose = lex("  f \t x\n+ (\r1 ,  2 )\n").unwrap();
    assert_eq!(kinds("f x+(1,2)"), kinds("  f \t x\n+ (\r1 ,  2 )\n"));
    assert_eq!(tight[1].pos, 2);
    assert_eq!(loose[1].pos, 6);
}

#[test]
fn negative_literals_are_one_token() {
    assert_eq!(lex("-5").unwrap(), vec![at(Token::Literal(-5), 0)]);
    assert_eq!(
        lex("a -5").unwrap(),
        vec![at(Token::Ident("a".to_string()), 0), at(Token::Literal(-5), 2)]
    );
    assert_eq!(
        lex("a - 5").unwrap(),
        vec![
            at(Token::Ident("a".to_string()), 0),
            at(Token::Minus, 2),
            at(Token::Literal(5), 4),
        ]
    );
}

#[test]
fn keywords_win_over_identifiers_only_on_the_whole_word() {
    assert_eq!(lex("let").unwrap(), vec![at(Token::Keyword(Keyword::Let), 0)]);
    assert_eq!(lex("letter").unwrap(), vec![at(Token::Ident("letter".to_string()), 0)]);
    assert_eq!(
        kinds("rec in fun ref if then else fst snd true false case of inl inr int bool"),
        vec![
            Token::Keyword(Keyword::Rec),
            Token::Keyword(Keyword::In),
            Token::Keyword(Keyword::Fun),
            Token::Keyword(Keyword::Ref),
            Token::Keyword(Keyword::If),
            Token::Keyword(Keyword::Then),
            Token::Keyword(Keyword::Else),
            Token::Keyword(Keyword::Fst),
            Token::Keyword(Keyword::Snd),
            Token::Keyword(Keyword::True),
            Token::Keyword(Keyword::False),
            Token::Keyword(Keyword::Case),
            Token::Keyword(Keyword::Of),
            Token::Keyword(Keyword::Inl),
            Token::Keyword(Keyword::Inr),
            Token::Keyword(Keyword::Int),
            Token::Keyword(Keyword::Bool),
        ]
    );
    assert_eq!(kinds("_x9 Let"), vec![Token::Ident("_x9".to_string()), Token::Ident("Let".to_string())]);
}

#[test]
fn lone_ampersand_is_rejected() {
    assert_eq!(lex("&"), Err(LexError::UnexpectedChar { ch: '&', pos: 0 }));
    assert_eq!(lex("a & b"), Err(LexError::UnexpectedChar { ch: '&', pos: 2 }));
}

#[test]
fn unknown_characters_are_rejected_with_their_offset() {
    assert_eq!(lex("1 $"), Err(LexError::UnexpectedChar { ch: '$', pos: 2 }));
    assert_eq!(lex("é"), Err(LexError::UnexpectedChar { ch: 'é', pos: 0 }));
}

#[test]
fn literals_cover_the_i64_range_and_no_more() {
    assert_eq!(kinds("9223372036854775807"), vec![Token::Literal(i64::MAX)]);
    assert_eq!(kinds("-9223372036854775808"), vec![Token::Literal(i64::MIN)]);
    assert_eq!(lex("9223372036854775808"), Err(LexError::Overflow { pos: 0 }));
    assert_eq!(lex("x -9223372036854775809"), Err(LexError::Overflow { pos: 2 }));
    assert_eq!(lex("1 99999999999999999999999 $"), Err(LexError::Overflow { pos: 2 }));
    assert_eq!(kinds("007 123"), vec![Token::Literal(7), Token::Literal(123)]);
}

#[test]
fn two_character_symbols_are_taken_greedily() {
    assert_eq!(kinds("()"), vec![Token::Unit]);
    assert_eq!(kinds("( )"), vec![Token::LParen, Token::RParen]);
    assert_eq!(kinds("<=="), vec![Token::Le, Token::Eq]);
    assert_eq!(kinds("->5"), vec![Token::Arrow, Token::Literal(5)]);
    assert_eq!(kinds("1-2"), vec![Token::Literal(1), Token::Literal(-2)]);
    assert_eq!(kinds("x-y"), vec![Token::Ident("x".to_string()), Token::Minus, Token::Ident("y".to_string())]);
    assert_eq!(kinds("5a"), vec![Token::Literal(5), Token::Ident("a".to_string())]);
}

#[test]
fn empty_and_blank_input_have_no_tokens() {
    assert_eq!(lex("").unwrap(), vec![]);
    assert_eq!(lex(" \t\n\r\x0C").unwrap(), vec![]);
}

#[test]
fn lexbuf_peeks_consumes_and_steps_back() {
    let mut buf = LexBuf::new("ab");
    assert_eq!(buf.peek(), Some('a'));
    assert!(!buf.consume('b'));
    assert!(buf.consume('a'));
    assert_eq!(buf.peek(), Some('b'));
    assert_eq!(buf.prev(), 'a');
    assert_eq!(buf.pos, 0);
    assert_eq!(buf.next(), Some('a'));
    assert_eq!(buf.next(), Some('b'));
    assert_eq!(buf.next(), None);
    assert_eq!(buf.peek(), None);
}

#[test]
fn error_offsets_count_bytes_of_an_ascii_prefix() {
    assert_eq!(lex("ab ~ é"), Err(LexError::UnexpectedChar { ch: 'é', pos: 5 }));
    assert_eq!(lex("é a"), Err(LexError::UnexpectedChar { ch: 'é', pos: 0 }));
}

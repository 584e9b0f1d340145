use miniml_parser::lex::lex;
use miniml_parser::parse::{parse_expression, ParseError, Parser, Precedence};
use miniml_parser::syntax::{Bop, Exp, Type, Uop};
use miniml_parser::Token;

fn parse(src: &str) -> Result<Exp, ParseError> {
    parse_expression(lex(src).unwrap())
}

fn num(pos: usize, n: i64) -> Exp {
    Exp::NumLit(pos, n)
}

fn var(pos: usize, name: &str) -> Exp {
    Exp::Var(pos, name.to_string())
}

fn bin(pos: usize, op: Bop, l: Exp, r: Exp) -> Exp {
    Exp::Bop(pos, op, Box::new(l), Box::new(r))
}

fn app(pos: usize, f: Exp, a: Exp) -> Exp {
    Exp::App(pos, Box::new(f), Box::new(a))
}

#[test]
fn subtraction_groups_to_the_left() {
    assert_eq!(
        parse("1 - 2 - 3").unwrap(),
        bin(6, Bop::Minus, bin(2, Bop::Minus, num(0, 1), num(4, 2)), num(8, 3))
    );
}

#[test]
fn multiplication_binds_tighter_than_addition() {
    assert_eq!(
        parse("1 + 2 * 3").unwrap(),
        bin(2, Bop::Plus, num(0, 1), bin(6, Bop::Mul, num(4, 2), num(8, 3)))
    );
    assert_eq!(
        parse("(1 + 2) * 3").unwrap(),
        bin(8, Bop::Mul, bin(3, Bop::Plus, num(1, 1), num(5, 2)), num(10, 3))
    );
}

#[test]
fn application_groups_left_and_binds_tighter_than_plus() {
    assert_eq!(
        parse("f x y + 1").unwrap(),
        bin(
            6,
            Bop::Plus,
            app(0, app(0, var(0, "f"), var(2, "x")), var(4, "y")),
            num(8, 1)
        )
    );
}

#[test]
fn parentheses_make_pairs_or_just_group() {
    assert_eq!(
        parse("(1, 2)").unwrap(),
        Exp::Pair(0, Box::new(num(1, 1)), Box::new(num(4, 2)))
    );
    assert_eq!(parse("(1)").unwrap(), num(1, 1));
}

#[test]
fn errors_point_at_the_failure() {
    assert_eq!(parse("1 +"), Err(ParseError::UnexpectedEnd { pos: usize::MAX }));
    assert_eq!(parse(")"), Err(ParseError::UnexpectedToken { found: Token::RParen, pos: 0 }));
    assert_eq!(
        parse("(1, 2"),
        Err(ParseError::ExpectedToken { expected: Token::RParen, found: None, pos: usize::MAX })
    );
    assert_eq!(
        parse("(1 2 :"),
        Err(ParseError::ExpectedToken {
            expected: Token::RParen,
            found: Some(Token::Colon),
            pos: 5
        })
    );
    assert_eq!(
        parse("inl int"),
        Err(ParseError::ExpectedToken {
            expected: Token::LParen,
            found: Some(Token::Keyword(miniml_parser::Keyword::Int)),
            pos: 4
        })
    );
    assert_eq!(parse(""), Err(ParseError::UnexpectedEnd { pos: usize::MAX }));
}

#[test]
fn parsing_twice_gives_the_same_tree() {
    let tokens = lex("f (x, ~y) * 2 := inl(int) z").unwrap();
    let first = parse_expression(tokens.clone());
    let second = parse_expression(tokens);
    assert!(first.is_ok());
    assert_eq!(first, second);
}

#[test]
fn assignment_groups_to_the_right_and_binds_loosest() {
    assert_eq!(
        parse("a := b := c || d").unwrap(),
        Exp::Asgn(
            2,
            Box::new(var(0, "a")),
            Box::new(Exp::Asgn(
                7,
                Box::new(var(5, "b")),
                Box::new(bin(12, Bop::Or, var(10, "c"), var(15, "d")))
            ))
        )
    );
}

#[test]
fn logical_and_comparison_operators() {
    assert_eq!(
        parse("a && b || c").unwrap(),
        bin(7, Bop::Or, bin(2, Bop::And, var(0, "a"), var(5, "b")), var(10, "c"))
    );
    assert_eq!(
        parse("1 < 2 == true").unwrap(),
        bin(6, Bop::Eq, bin(2, Bop::Lt, num(0, 1), num(4, 2)), Exp::BoolLit(9, true))
    );
    assert_eq!(
        parse("a /= b").unwrap(),
        bin(2, Bop::Neq, var(0, "a"), var(5, "b"))
    );
    assert_eq!(
        parse("a >= b <= c > d / e").unwrap(),
        bin(
            12,
            Bop::Gt,
            bin(7, Bop::Le, bin(2, Bop::Ge, var(0, "a"), var(5, "b")), var(10, "c")),
            bin(16, Bop::Div, var(14, "d"), var(18, "e"))
        )
    );
}

#[test]
fn prefix_not_stacks() {
    assert_eq!(
        parse("~~x").unwrap(),
        Exp::Uop(0, Uop::Not, Box::new(Exp::Uop(1, Uop::Not, Box::new(var(2, "x")))))
    );
}

#[test]
fn prefix_keywords_stack() {
    assert_eq!(
        parse("fst ref x").unwrap(),
        Exp::Fst(0, Box::new(Exp::Ref(4, Box::new(var(8, "x")))))
    );
    assert_eq!(parse("snd p").unwrap(), Exp::Snd(0, Box::new(var(4, "p"))));
}

#[test]
fn postfix_ref_and_deref() {
    assert_eq!(parse("x ref").unwrap(), Exp::Ref(2, Box::new(var(0, "x"))));
    assert_eq!(
        parse("x ! + 1").unwrap(),
        bin(4, Bop::Plus, Exp::Deref(2, Box::new(var(0, "x"))), num(6, 1))
    );
}

#[test]
fn literals_and_names() {
    assert_eq!(parse("false").unwrap(), Exp::BoolLit(0, false));
    assert_eq!(parse("  ()").unwrap(), Exp::Unit(2));
    assert_eq!(parse("-7").unwrap(), num(0, -7));
    assert_eq!(parse("abc").unwrap(), var(0, "abc"));
}

#[test]
fn injections_carry_the_other_type() {
    assert_eq!(
        parse("inl(int) 5").unwrap(),
        Exp::Inl(0, Type::Int, Box::new(num(9, 5)))
    );
    assert_eq!(
        parse("inr(int + bool * int -> ref bool) x").unwrap(),
        Exp::Inr(
            0,
            Type::Sum(
                Box::new(Type::Int),
                Box::new(Type::Prod(
                    Box::new(Type::Bool),
                    Box::new(Type::Arrow(
                        Box::new(Type::Int),
                        Box::new(Type::Ref(Box::new(Type::Bool)))
                    ))
                ))
            ),
            Box::new(var(34, "x"))
        )
    );
}

#[test]
fn types_group_to_the_right() {
    let mut parser = Parser::new(lex("int -> int -> (()) * bool").unwrap());
    assert_eq!(
        parser.parse_type().unwrap(),
        Type::Prod(
            Box::new(Type::Arrow(
                Box::new(Type::Int),
                Box::new(Type::Arrow(Box::new(Type::Int), Box::new(Type::Unit)))
            )),
            Box::new(Type::Bool)
        )
    );
    assert_eq!(parser.index, 9);
    let mut bad = Parser::new(lex("(int").unwrap());
    assert_eq!(
        bad.parse_type(),
        Err(ParseError::ExpectedToken { expected: Token::RParen, found: None, pos: usize::MAX })
    );
}

#[test]
fn parsing_stops_after_one_expression() {
    let mut parser = Parser::new(lex("1 ) 2").unwrap());
    assert_eq!(parser.parse_expr().unwrap(), num(0, 1));
    assert_eq!(parser.index, 1);
    assert_eq!(parser.peek_token(), Some(Token::RParen));
}

#[test]
fn failed_atom_attempt_restores_the_cursor() {
    let mut parser = Parser::new(lex("ref +").unwrap());
    assert_eq!(parser.maybe_parse(), None);
    assert_eq!(parser.index, 0);
    assert_eq!(parser.pos(), 0);
}

#[test]
fn consume_token_matches_names_by_text() {
    let mut parser = Parser::new(lex("x y").unwrap());
    assert!(!parser.consume_token(&Token::Ident("y".to_string())));
    assert!(parser.consume_token(&Token::Ident("x".to_string())));
    assert_eq!(parser.pos(), 2);
    assert_eq!(parser.expect_token(&Token::Ident("y".to_string())), Ok(()));
    assert_eq!(parser.next_token(), None);
    assert_eq!(parser.next_token(), None);
}

#[test]
fn arrow_has_its_own_precedence_and_is_no_expression_operator() {
    let parser = Parser::new(lex("->").unwrap());
    assert_eq!(parser.get_next_precedence(), Precedence::Arrow);
    let end = Parser::new(vec![]);
    assert_eq!(end.get_next_precedence(), Precedence::Zero);
    let comma = Parser::new(lex(",").unwrap());
    assert_eq!(comma.get_next_precedence(), Precedence::Zero);
    assert_eq!(
        parse("x -> y"),
        Err(ParseError::UnexpectedToken { found: Token::Arrow, pos: 2 })
    );
}

#[test]
fn an_argument_that_has_begun_must_finish() {
    assert_eq!(
        parse("f (x"),
        Err(ParseError::ExpectedToken { expected: Token::RParen, found: None, pos: usize::MAX })
    );
    assert_eq!(
        parse("f inl int"),
        Err(ParseError::ExpectedToken {
            expected: Token::LParen,
            found: Some(Token::Keyword(miniml_parser::Keyword::Int)),
            pos: 6
        })
    );
    assert_eq!(parse("f fst"), Err(ParseError::UnexpectedEnd { pos: usize::MAX }));
}

#[test]
fn ref_after_a_chain_may_be_postfix() {
    assert_eq!(
        parse("f x ref").unwrap(),
        Exp::Ref(4, Box::new(app(0, var(0, "f"), var(2, "x"))))
    );
    assert_eq!(
        parse("f ref x").unwrap(),
        app(0, var(0, "f"), Exp::Ref(2, Box::new(var(6, "x"))))
    );
}

#[test]
fn failed_parses_leave_the_cursor_in_place() {
    let mut parser = Parser::new(lex("(1 +").unwrap());
    assert!(parser.parse_expr().is_err());
    assert_eq!(parser.index, 0);
    let mut types = Parser::new(lex("int + (bool").unwrap());
    assert!(types.parse_type().is_err());
    assert_eq!(types.index, 0);
    let mut expect = Parser::new(lex("x").unwrap());
    assert!(expect.expect_token(&Token::Comma).is_err());
    assert_eq!(expect.index, 0);
}

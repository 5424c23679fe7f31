//! Tests for the parser.
use haumea::parser::{parse, parse_tokens, Expected, Expression, Function, Operator, RangeKind, Statement, SyntaxError, TokenStream};
use haumea::scanner::{ScanState, Scanner, Token};

fn assert_parsed_is(source: &str, expected: Vec<Function>) {
    let scanner = Scanner::new(&source);
    let ast: Vec<Function> = parse(scanner).unwrap();
    assert_eq!(ast, expected);
}

fn parse_error(source: &str) -> SyntaxError {
    parse(Scanner::new(source)).unwrap_err()
}

fn num(n: i32) -> Expression {
    Expression::Integer(n)
}

fn name(s: &str) -> Expression {
    Expression::Ident(s.to_string())
}

fn binary(operator: Operator, left: Expression, right: Expression) -> Expression {
    Expression::BinaryOp { operator, left: Box::new(left), right: Box::new(right) }
}

fn main_with(code: Statement) -> Vec<Function> {
    vec![Function { name: "main".to_string(), signature: None, code }]
}

/// The expression that `source` is, read as the operand of a `return`.
fn parse_expr(source: &str) -> Expression {
    let program = parse(Scanner::new(&format!("to f return {}", source))).unwrap();
    assert_eq!(program.len(), 1);
    match program.into_iter().next().unwrap().code {
        Statement::Return(e) => e,
        other => panic!("not a return: {:?}", other),
    }
}

#[test]
fn test_display_addition() {
    let hello_world_code = "to main do
        display(1+2)
    end";

    let expected_ast = vec![
        Function {
            name: "main".to_string(),
            signature: None,
            code: Statement::Do(vec![
                Statement::Call {
                    function: "display".to_string(),
                    arguments: vec![
                        Expression::BinaryOp {
                            operator: Operator::Add,
                            left: Box::new(Expression::Integer(1)),
                            right: Box::new(Expression::Integer(2))
                        }
                    ]
                }
            ])
        }
    ];

    assert_parsed_is(&hello_world_code, expected_ast);
}

#[test]
fn multiplication_binds_tighter_than_addition() {
    assert_eq!(parse_expr("1 + 2 * 3"), binary(Operator::Add, num(1), binary(Operator::Mul, num(2), num(3))));
    assert_eq!(parse_expr("1 * 2 + 3"), binary(Operator::Add, binary(Operator::Mul, num(1), num(2)), num(3)));
}

#[test]
fn operators_of_one_level_group_to_the_right() {
    assert_eq!(parse_expr("10 - 2 - 3"), binary(Operator::Sub, num(10), binary(Operator::Sub, num(2), num(3))));
    assert_eq!(parse_expr("8 / 4 / 2"), binary(Operator::Div, num(8), binary(Operator::Div, num(4), num(2))));
    assert_eq!(parse_expr("8 modulo 4 * 2"), binary(Operator::Modulo, num(8), binary(Operator::Mul, num(4), num(2))));
}

#[test]
fn the_levels_of_the_operators() {
    assert_eq!(
        parse_expr("a < 1 + 2 and b != c or d"),
        binary(
            Operator::LogicalAnd,
            binary(Operator::Lt, name("a"), binary(Operator::Add, num(1), num(2))),
            binary(Operator::LogicalOr, binary(Operator::NotEquals, name("b"), name("c")), name("d")),
        )
    );
    for (text, op) in [(">", Operator::Gt), (">=", Operator::Gte), ("<", Operator::Lt), ("<=", Operator::Lte), ("=", Operator::Equals), ("!=", Operator::NotEquals)] {
        assert_eq!(parse_expr(&format!("x {} 1", text)), binary(op, name("x"), num(1)));
    }
}

#[test]
fn parentheses_stand_alone_behind_an_operator() {
    assert_eq!(parse_expr("(1)+(2)"), binary(Operator::Add, num(1), num(2)));
    assert_eq!(
        parse_expr("f(-(x))"),
        Expression::Call {
            function: "f".to_string(),
            arguments: vec![Expression::UnaryOp { operator: Operator::Negate, expression: Box::new(name("x")) }],
        }
    );
    assert_eq!(parse_expr("2*(3+4)"), binary(Operator::Mul, num(2), binary(Operator::Add, num(3), num(4))));
}

#[test]
fn primaries() {
    assert_eq!(parse_expr("(1 + 2) * 3"), binary(Operator::Mul, binary(Operator::Add, num(1), num(2)), num(3)));
    assert_eq!(
        parse_expr("- 1 + 2"),
        Expression::UnaryOp { operator: Operator::Negate, expression: Box::new(binary(Operator::Add, num(1), num(2))) }
    );
    assert_eq!(parse_expr("f()"), Expression::Call { function: "f".to_string(), arguments: vec![] });
    assert_eq!(
        parse_expr("f(1, g(x), 2 + 3)"),
        Expression::Call {
            function: "f".to_string(),
            arguments: vec![num(1), Expression::Call { function: "g".to_string(), arguments: vec![name("x")] }, binary(Operator::Add, num(2), num(3))],
        }
    );
}

#[test]
fn display_of_a_sum_and_a_product() {
    assert_parsed_is(
        "to main do display(1+2*3) end",
        main_with(Statement::Do(vec![Statement::Call {
            function: "display".to_string(),
            arguments: vec![binary(Operator::Add, num(1), binary(Operator::Mul, num(2), num(3)))],
        }])),
    );
}

#[test]
fn return_without_expression_is_a_syntax_error() {
    let err = parse_error("to main do return end");
    assert_eq!(err.expected, Expected::Expression);
    assert_eq!(err.found, Token::Keyword("end".to_string(), ScanState::empty()));
    assert_eq!(err.position(), ScanState::new(1, 19));
    assert_eq!(err.found.state(), ScanState::new(1, 19));
}

#[test]
fn statements() {
    assert_parsed_is(
        "to f with (a, b) do
            variable x
            set x to a
            change x by b
            if x > 1 then return 1 else return 2
            if x then g()
            forever do end
            while x < 5 change x by 1
            for each i in 1 to 5 display(i)
            for each i in 5 through 1 by 0 - 1 display(i)
        end",
        vec![Function {
            name: "f".to_string(),
            signature: Some(vec!["a".to_string(), "b".to_string()]),
            code: Statement::Do(vec![
                Statement::Var("x".to_string()),
                Statement::Assign("x".to_string(), name("a")),
                Statement::Change("x".to_string(), name("b")),
                Statement::If {
                    cond: binary(Operator::Gt, name("x"), num(1)),
                    if_clause: Box::new(Statement::Return(num(1))),
                    else_clause: Some(Box::new(Statement::Return(num(2)))),
                },
                Statement::If {
                    cond: name("x"),
                    if_clause: Box::new(Statement::Call { function: "g".to_string(), arguments: vec![] }),
                    else_clause: None,
                },
                Statement::Forever(Box::new(Statement::Do(vec![]))),
                Statement::While {
                    cond: binary(Operator::Lt, name("x"), num(5)),
                    body: Box::new(Statement::Change("x".to_string(), num(1))),
                },
                Statement::ForEach {
                    ident: "i".to_string(),
                    start: num(1),
                    end: num(5),
                    by: num(1),
                    range_type: RangeKind::To,
                    body: Box::new(Statement::Call { function: "display".to_string(), arguments: vec![name("i")] }),
                },
                Statement::ForEach {
                    ident: "i".to_string(),
                    start: num(5),
                    end: num(1),
                    by: binary(Operator::Sub, num(0), num(1)),
                    range_type: RangeKind::Through,
                    body: Box::new(Statement::Call { function: "display".to_string(), arguments: vec![name("i")] }),
                },
            ]),
        }],
    );
}

#[test]
fn signatures() {
    let f = |signature: Option<Vec<String>>| vec![Function { name: "f".to_string(), signature, code: Statement::Return(num(0)) }];
    assert_parsed_is("to f return 0", f(None));
    assert_parsed_is("to f with () return 0", f(Some(vec![])));
    assert_parsed_is("to f with (a) return 0", f(Some(vec!["a".to_string()])));
    assert_parsed_is("to f with (a, b, c) return 0", f(Some(vec!["a".to_string(), "b".to_string(), "c".to_string()])));
    assert_eq!(parse_error("to f with (a, ) return 0").expected, Expected::Identifier);
    assert_eq!(parse_error("to f with (a b) return 0").expected, Expected::Comma);
    assert_eq!(parse_error("to f with a return 0").expected, Expected::LeftParen);
    assert_eq!(parse_error("to f with (1) return 0").expected, Expected::Identifier);
}

#[test]
fn several_functions_and_none() {
    assert_parsed_is("", vec![]);
    assert_parsed_is("  /* nothing */ ", vec![]);
    let program = parse(Scanner::new("to f return 1 to g return 2 to main do end")).unwrap();
    assert_eq!(program.iter().map(|f| f.name.as_str()).collect::<Vec<_>>(), vec!["f", "g", "main"]);
}

#[test]
fn each_expectation_has_its_error() {
    let cases = [
        ("return 1", Expected::To, "return"),
        ("to f return 1 7", Expected::To, "7"),
        ("to 1", Expected::Identifier, "1"),
        ("to f 1", Expected::Statement, "1"),
        ("to f end", Expected::Statement, "end"),
        ("to f variable 1", Expected::Identifier, "1"),
        ("to f set 1", Expected::Identifier, "1"),
        ("to f set x 1", Expected::To, "1"),
        ("to f change x to 1", Expected::By, "to"),
        ("to f if x return 1", Expected::Then, "return"),
        ("to f for i", Expected::Each, "i"),
        ("to f for each 1", Expected::Identifier, "1"),
        ("to f for each i to", Expected::In, "to"),
        ("to f for each i in 1 by 2", Expected::Range, "by"),
        ("to f g 1", Expected::LeftParen, "1"),
        ("to f g(1 2)", Expected::Comma, "2"),
        ("to f g(1, )", Expected::Expression, ")"),
        ("to f return (1 2", Expected::RightParen, "2"),
        ("to f return *", Expected::Expression, "*"),
        ("to f return ,", Expected::Expression, ","),
    ];
    for (source, expected, found) in cases {
        let err = parse_error(source);
        assert_eq!(err.expected, expected, "{}", source);
        let tokens = Scanner::new(found).collect();
        assert_eq!(vec![err.found], tokens, "{}", source);
    }
}

#[test]
fn the_end_of_the_source_is_reported_as_found() {
    for (source, expected) in [
        ("to", Expected::Identifier),
        ("to f", Expected::Statement),
        ("to f do return 1", Expected::Statement),
        ("to f return", Expected::Expression),
        ("to f return 1 +", Expected::Expression),
        ("to f return (1", Expected::RightParen),
        ("to f g(1", Expected::Comma),
        ("to f g(", Expected::Expression),
        ("to f while 1", Expected::Statement),
        ("to f with (", Expected::Identifier),
        ("to f if 1", Expected::Then),
    ] {
        let err = parse_error(source);
        assert_eq!(err.expected, expected, "{}", source);
        assert_eq!(err.found, Token::EOF(ScanState::empty()), "{}", source);
        assert_eq!(err.position(), ScanState::new(1, source.chars().count() as u32 + 1), "{}", source);
    }
}

#[test]
fn a_lexical_error_stops_the_parser() {
    let err = parse_error("to main do display(1) end /* open");
    assert_eq!(err.expected, Expected::To);
    assert_eq!(err.found, Token::Error('/', ScanState::empty()));
    assert_eq!(err.position(), ScanState::new(1, 27));
    let err = parse_error("to main return 1 $ 2");
    assert_eq!(err.expected, Expected::To);
    assert_eq!(err.found, Token::Error('$', ScanState::empty()));
    let err = parse_error("to main return 99999999999");
    assert_eq!(err.expected, Expected::Expression);
    assert_eq!(err.found, Token::Error('9', ScanState::empty()));
}

#[test]
fn tokens_can_be_parsed_without_a_scanner() {
    let tokens = vec![
        Token::Keyword("to".to_string(), ScanState::empty()),
        Token::Ident("f".to_string(), ScanState::empty()),
        Token::Keyword("return".to_string(), ScanState::empty()),
        Token::Number(4, ScanState::empty()),
    ];
    let mut ts = TokenStream::new(tokens, ScanState::new(9, 9));
    assert!(!ts.at_end());
    let program = parse_tokens(&mut ts).unwrap();
    assert!(ts.at_end());
    assert_eq!(program, vec![Function { name: "f".to_string(), signature: None, code: Statement::Return(num(4)) }]);

    let mut ts = TokenStream::new(vec![Token::Keyword("to".to_string(), ScanState::empty()), Token::EOF(ScanState::new(3, 3)), Token::Ident("f".to_string(), ScanState::empty())], ScanState::new(9, 9));
    let err = parse_tokens(&mut ts).unwrap_err();
    assert_eq!(err.expected, Expected::Identifier);
    assert_eq!(err.position(), ScanState::new(3, 3));

    let mut ts = TokenStream::new(vec![Token::Keyword("to".to_string(), ScanState::empty())], ScanState::new(9, 9));
    let err = parse_tokens(&mut ts).unwrap_err();
    assert_eq!(err.expected, Expected::Identifier);
    assert_eq!(err.position(), ScanState::new(9, 9));
}

#[test]
fn errors_have_messages() {
    assert_eq!(
        parse_error("to main do return end").message(),
        "At line 1:19, expected an expression, but found the keyword `end`!"
    );
    assert_eq!(parse_error("to f\n  set x 12").message(), "At line 2:10, expected the keyword `to`, but found the number 12!");
    assert_eq!(parse_error("to").message(), "At line 1:3, expected an identifier, but found the end of the source!");
    assert_eq!(parse_error("to f g(1 x)").message(), "At line 1:10, expected `,` or `)`, but found the name `x`!");
    assert_eq!(parse_error("to f return >=").message(), "At line 1:13, expected an expression, but found the operator `>=`!");
    assert_eq!(parse_error("to f return ?").message(), "At line 1:13, expected an expression, but found the character `?`!");
    assert_eq!(parse_error("to f return (1,").message(), "At line 1:15, expected `)`, but found `,`!");
    assert_eq!(parse_error("to f for each i in 1 , 2").message(), "At line 1:22, expected `to` or `through`, but found `,`!");
    assert_eq!(parse_error("to f with )").message(), "At line 1:11, expected `(`, but found `)`!");
    assert_eq!(parse_error("to f (").message(), "At line 1:6, expected a statement, but found `(`!");
    let words = [
        (Expected::To, "the keyword `to`"),
        (Expected::Each, "the keyword `each`"),
        (Expected::In, "the keyword `in`"),
        (Expected::Then, "the keyword `then`"),
        (Expected::By, "the keyword `by`"),
        (Expected::Range, "`to` or `through`"),
        (Expected::Identifier, "an identifier"),
        (Expected::LeftParen, "`(`"),
        (Expected::RightParen, "`)`"),
        (Expected::Comma, "`,` or `)`"),
        (Expected::Expression, "an expression"),
        (Expected::Statement, "a statement"),
    ];
    for (expected, text) in words {
        assert_eq!(expected.describe(), text);
    }
    assert_eq!(Token::Number(-3, ScanState::empty()).describe(), "the number -3");
}

#[test]
fn trees_can_be_copied() {
    let program = parse(Scanner::new(
        "to f with (a) do
            if a > 1 then return f(a - 1, g()) else while a < 5 change a by 1
            for each i in 1 through a by 2 do variable x set x to -i forever display(x) end
        end",
    ))
    .unwrap();
    let copy = program.clone();
    assert_eq!(copy, program);
    assert_eq!(program[0].code.duplicate(), program[0].code);
}

#[test]
fn a_product_binds_tighter_for_all_numbers() {
    for (a, b, c) in [(0, 0, 0), (1, 2, 3), (7, 11, 2147483647)] {
        assert_eq!(
            parse_expr(&format!("{} + {} * {}", a, b, c)),
            binary(Operator::Add, num(a), binary(Operator::Mul, num(b), num(c)))
        );
        assert_eq!(
            parse_expr(&format!("{} - {} - {}", a, b, c)),
            binary(Operator::Sub, num(a), binary(Operator::Sub, num(b), num(c)))
        );
    }
}

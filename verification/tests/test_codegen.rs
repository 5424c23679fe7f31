//! Tests for the code generator.
use haumea::codegen::c::{compile_expression, generate, get_c_name, CodeGenerator};
use haumea::codegen::target::{EPILOG, INDENT, PROLOG};
use haumea::codegen::{compile_ast, CodeGen};
use haumea::parser::{parse, Expression, Function, Operator, RangeKind, Statement};
use haumea::scanner::Scanner;

/// The C text that is generated for `source`.
fn compile(source: &str) -> String {
    let ast = parse(Scanner::new(source)).unwrap();
    CodeGenerator::new(ast).compile()
}

/// The C text that is generated for `source`, without the prolog and the epilog.
fn functions_of(source: &str) -> String {
    let text = compile(source);
    assert!(text.starts_with(PROLOG));
    assert!(text.ends_with(EPILOG));
    text[PROLOG.len()..text.len() - EPILOG.len()].to_string()
}

fn expr_text(expr: &Expression) -> String {
    let mut out = Vec::new();
    compile_expression(&mut out, expr);
    out.into_iter().collect()
}

fn num(n: i32) -> Expression {
    Expression::Integer(n)
}

fn binary(operator: Operator, left: Expression, right: Expression) -> Expression {
    Expression::BinaryOp { operator, left: Box::new(left), right: Box::new(right) }
}

#[test]
fn the_prolog_and_the_epilog() {
    assert_eq!(
        PROLOG,
        "\n/* Haumea prolog */\n#include <stdio.h>\n\nlong display(long n) {\n    printf(\"%ld\\n\", n);\n    return 0;\n}\n\nlong read() {\n    printf(\"Enter an integer: \");\n    long n;\n    scanf(\"%ld\", &n);\n    return n;\n}\n\n/* End prolog */\n\n/* Start compiled program */\n"
    );
    assert_eq!(EPILOG, "\n/* End compiled program */\n");
    assert_eq!(INDENT, "    ");
    assert_eq!(compile(""), format!("{}{}", PROLOG, EPILOG));
}

#[test]
fn display_of_a_sum_and_a_product_is_not_folded() {
    assert_eq!(
        functions_of("to main do display(1+2*3) end"),
        "\nint main() {\n    {\n        display((1l + (2l * 3l)));\n    }\n    return 0l;\n}\n"
    );
}

#[test]
fn function_without_signature_has_no_parameters() {
    assert_eq!(functions_of("to f return 1"), "\nlong f() {\n    return 1l;    return 0l;\n}\n");
    assert_eq!(functions_of("to f with () return 1"), "\nlong f() {\n    return 1l;    return 0l;\n}\n");
    assert_eq!(functions_of("to f with (a) return a"), "\nlong f(long a) {\n    return a;    return 0l;\n}\n");
    assert_eq!(
        functions_of("to f with (a, b, c) return a"),
        "\nlong f(long a, long b, long c) {\n    return a;    return 0l;\n}\n"
    );
}

#[test]
fn main_returns_int_and_the_others_long() {
    assert_eq!(
        functions_of("to g return 2 to main return g() to mainly return 3"),
        "\nlong g() {\n    return 2l;    return 0l;\n}\n\nint main() {\n    return g();    return 0l;\n}\n\nlong mainly() {\n    return 3l;    return 0l;\n}\n"
    );
}

#[test]
fn statements_of_every_kind() {
    assert_eq!(
        functions_of(
            "to f with (a) do
                variable x
                set x to a
                change x by 2
                if x > 1 then return 1 else return 2
                if x then g(x, 1)
                forever do end
                while x < 5 change x by 1
            end"
        ),
        concat(&[
            "\nlong f(long a) {\n",
            "    {\n",
            "        long x;\n",
            "        x = a;\n",
            "        x += 2l;\n",
            "        if (x > 1l)\n",
            "            return 1l;",
            "\n        else\n",
            "            return 2l;",
            "\n",
            "        if x\n",
            "            g(x, 1l);\n",
            "        while (1)\n",
            "            {\n",
            "            }\n",
            "        while (x < 5l)\n",
            "            x += 1l;\n",
            "    }\n",
            "    return 0l;\n}\n",
        ])
    );
}

fn concat(pieces: &[&str]) -> String {
    pieces.iter().map(|s| s.to_string()).collect()
}

#[test]
fn for_each_loop_with_to_and_with_through() {
    assert_eq!(
        functions_of("to main for each i in 1 to 5 do call(i) end"),
        concat(&[
            "\nint main() {\n",
            "    long __HAUMEA_TEMP_1 = 1l;\n",
            "    long __HAUMEA_TEMP_2 = 5l;\n",
            "    long __HAUMEA_TEMP_3 = 1l;\n",
            "    for (long i = __HAUMEA_TEMP_1; (__HAUMEA_TEMP_1 < __HAUMEA_TEMP_2 ? i < __HAUMEA_TEMP_2 : i > __HAUMEA_TEMP_2); i += __HAUMEA_TEMP_3)\n",
            "        {\n",
            "            call(i);\n",
            "        }\n",
            "    return 0l;\n}\n",
        ])
    );
    assert_eq!(
        functions_of("to main for each i in 1 through 5 by 2 do call(i) end"),
        concat(&[
            "\nint main() {\n",
            "    long __HAUMEA_TEMP_1 = 1l;\n",
            "    long __HAUMEA_TEMP_2 = 5l;\n",
            "    long __HAUMEA_TEMP_3 = 2l;\n",
            "    for (long i = __HAUMEA_TEMP_1; (__HAUMEA_TEMP_1 < __HAUMEA_TEMP_2 ? i <= __HAUMEA_TEMP_2 : i >= __HAUMEA_TEMP_2); i += __HAUMEA_TEMP_3)\n",
            "        {\n",
            "            call(i);\n",
            "        }\n",
            "    return 0l;\n}\n",
        ])
    );
}

/// How often the body of the C loop is run whose head stands in `text`, for the
/// values that the three made-up names hold.
fn iterations(text: &str, start: i64, end: i64, step: i64) -> u32 {
    let head = text.lines().find(|line| line.trim_start().starts_with("for (")).unwrap();
    let condition = &head[head.find("; (").unwrap() + 3..head.find("); ").unwrap()];
    let words: Vec<&str> = condition.split(' ').collect();
    assert_eq!(words.len(), 11);
    assert_eq!((words[1], words[3], words[7]), ("<", "?", ":"));
    let holds = |op: &str, i: i64| match op {
        "<" => i < end,
        "<=" => i <= end,
        ">" => i > end,
        ">=" => i >= end,
        other => panic!("{}", other),
    };
    let mut count = 0;
    let mut i = start;
    while if start < end { holds(words[5], i) } else { holds(words[9], i) } {
        count += 1;
        i += step;
    }
    count
}

#[test]
fn for_each_runs_four_times_to_five_and_five_times_through_five() {
    let to = compile("to main for each i in 1 to 5 do call(i) end");
    assert_eq!(iterations(&to, 1, 5, 1), 4);
    let through = compile("to main for each i in 1 through 5 do call(i) end");
    assert_eq!(iterations(&through, 1, 5, 1), 5);
    assert_eq!(iterations(&to, 5, 1, -1), 4);
    assert_eq!(iterations(&through, 5, 1, -1), 5);
    assert_eq!(iterations(&to, 3, 3, 1), 0);
    assert_eq!(iterations(&through, 3, 3, -1), 1);
}

#[test]
fn made_up_names_are_all_different() {
    let text = functions_of(
        "to f do
            for each i in 1 to 2 for each j in 3 to 4 display(j)
            for each k in 5 to 6 display(k)
        end
        to g for each i in 7 through 8 display(i)",
    );
    assert_eq!(
        text,
        concat(&[
            "\nlong f() {\n",
            "    {\n",
            "        long __HAUMEA_TEMP_1 = 1l;\n",
            "        long __HAUMEA_TEMP_2 = 2l;\n",
            "        long __HAUMEA_TEMP_3 = 1l;\n",
            "        for (long i = __HAUMEA_TEMP_1; (__HAUMEA_TEMP_1 < __HAUMEA_TEMP_2 ? i < __HAUMEA_TEMP_2 : i > __HAUMEA_TEMP_2); i += __HAUMEA_TEMP_3)\n",
            "            long __HAUMEA_TEMP_4 = 3l;\n",
            "            long __HAUMEA_TEMP_5 = 4l;\n",
            "            long __HAUMEA_TEMP_6 = 1l;\n",
            "            for (long j = __HAUMEA_TEMP_4; (__HAUMEA_TEMP_4 < __HAUMEA_TEMP_5 ? j < __HAUMEA_TEMP_5 : j > __HAUMEA_TEMP_5); j += __HAUMEA_TEMP_6)\n",
            "                display(j);\n",
            "        long __HAUMEA_TEMP_7 = 5l;\n",
            "        long __HAUMEA_TEMP_8 = 6l;\n",
            "        long __HAUMEA_TEMP_9 = 1l;\n",
            "        for (long k = __HAUMEA_TEMP_7; (__HAUMEA_TEMP_7 < __HAUMEA_TEMP_8 ? k < __HAUMEA_TEMP_8 : k > __HAUMEA_TEMP_8); k += __HAUMEA_TEMP_9)\n",
            "            display(k);\n",
            "    }\n",
            "    return 0l;\n}\n",
            "\nlong g() {\n",
            "    long __HAUMEA_TEMP_10 = 7l;\n",
            "    long __HAUMEA_TEMP_11 = 8l;\n",
            "    long __HAUMEA_TEMP_12 = 1l;\n",
            "    for (long i = __HAUMEA_TEMP_10; (__HAUMEA_TEMP_10 < __HAUMEA_TEMP_11 ? i <= __HAUMEA_TEMP_11 : i >= __HAUMEA_TEMP_11); i += __HAUMEA_TEMP_12)\n",
            "        display(i);\n",
            "    return 0l;\n}\n",
        ])
    );
}

#[test]
fn names_in_an_else_branch_follow_those_of_the_then_branch() {
    let text = functions_of(
        "to f if 1 then for each i in 1 to 2 display(i) else for each j in 3 to 4 display(j)",
    );
    assert!(text.contains("long __HAUMEA_TEMP_3 = 1l;\n        for (long i = __HAUMEA_TEMP_1;"));
    assert!(text.contains("\n    else\n        long __HAUMEA_TEMP_4 = 3l;\n"));
    assert!(text.contains("for (long j = __HAUMEA_TEMP_4; (__HAUMEA_TEMP_4 < __HAUMEA_TEMP_5 ? j < __HAUMEA_TEMP_5 : j > __HAUMEA_TEMP_5); j += __HAUMEA_TEMP_6)\n"));
}

#[test]
fn every_run_of_the_generator_gives_the_same_text() {
    let source = "to main for each i in 1 to 5 do call(i) end";
    let mut generator = CodeGenerator::new(parse(Scanner::new(source)).unwrap());
    let first = generator.compile();
    let second = generator.compile();
    assert_eq!(first, second);
    assert!(first.contains("__HAUMEA_TEMP_3"));
    assert!(!first.contains("__HAUMEA_TEMP_4"));
    assert_eq!(compile(source), first);
}

#[test]
fn compile_ast_appends_the_text() {
    let source = "to main do display(1+2*3) end";
    let mut out = "/* before */".to_string();
    compile_ast(&mut out, parse(Scanner::new(source)).unwrap());
    assert_eq!(out, format!("/* before */{}", compile(source)));
    let chars: String = generate(&parse(Scanner::new(source)).unwrap()).into_iter().collect();
    assert_eq!(chars, compile(source));
}

#[test]
fn expressions() {
    assert_eq!(expr_text(&num(0)), "0l");
    assert_eq!(expr_text(&num(7)), "7l");
    assert_eq!(expr_text(&num(10)), "10l");
    assert_eq!(expr_text(&num(2147483647)), "2147483647l");
    assert_eq!(expr_text(&num(-5)), "-5l");
    assert_eq!(expr_text(&num(i32::MIN)), "-2147483648l");
    assert_eq!(expr_text(&Expression::Ident("x".to_string())), "x");
    assert_eq!(expr_text(&binary(Operator::Sub, num(10), binary(Operator::Sub, num(2), num(3)))), "(10l - (2l - 3l))");
    assert_eq!(
        expr_text(&Expression::UnaryOp { operator: Operator::Negate, expression: Box::new(num(1)) }),
        "(-1l)"
    );
    assert_eq!(expr_text(&Expression::Call { function: "f".to_string(), arguments: vec![] }), "f()");
    assert_eq!(
        expr_text(&Expression::Call { function: "f".to_string(), arguments: vec![num(1), num(2), num(3)] }),
        "f(1l, 2l, 3l)"
    );
}

#[test]
fn every_operator_has_its_c_name() {
    let names = [
        (Operator::Add, "+"),
        (Operator::Sub, "-"),
        (Operator::Negate, "-"),
        (Operator::Mul, "*"),
        (Operator::Div, "/"),
        (Operator::Modulo, "%"),
        (Operator::Equals, "=="),
        (Operator::NotEquals, "!="),
        (Operator::Gt, ">"),
        (Operator::Lt, "<"),
        (Operator::Gte, ">="),
        (Operator::Lte, "<="),
        (Operator::LogicalAnd, "&&"),
        (Operator::LogicalOr, "||"),
        (Operator::LogicalNot, "!"),
        (Operator::BinaryAnd, "&"),
        (Operator::BinaryOr, "|"),
        (Operator::BinaryNot, "~"),
    ];
    for (op, name) in names {
        assert_eq!(get_c_name(op), name);
    }
}

#[test]
fn a_tree_that_no_source_gives_is_written_too() {
    let ast = vec![Function {
        name: "f".to_string(),
        signature: None,
        code: Statement::ForEach {
            ident: "i".to_string(),
            start: num(-1),
            end: Expression::UnaryOp { operator: Operator::BinaryNot, expression: Box::new(num(0)) },
            by: binary(Operator::BinaryAnd, num(1), num(3)),
            range_type: RangeKind::Through,
            body: Box::new(Statement::Return(binary(Operator::Modulo, Expression::Ident("i".to_string()), num(2)))),
        },
    }];
    let text: String = generate(&ast).into_iter().collect();
    assert!(text.contains("    long __HAUMEA_TEMP_1 = -1l;\n    long __HAUMEA_TEMP_2 = (~0l);\n    long __HAUMEA_TEMP_3 = (1l & 3l);\n"));
    assert!(text.contains("        return (i % 2l);    return 0l;\n}\n"));
}

/// What a tree of literals and arithmetic operators computes.
fn value(expr: &Expression) -> Option<i64> {
    match expr {
        Expression::Integer(n) => Some(*n as i64),
        Expression::BinaryOp { operator, left, right } => {
            let (a, b) = (value(left)?, value(right)?);
            match operator {
                Operator::Add => a.checked_add(b),
                Operator::Sub => a.checked_sub(b),
                Operator::Mul => a.checked_mul(b),
                Operator::Div => a.checked_div(b),
                _ => None,
            }
        }
        Expression::UnaryOp { operator: Operator::Negate, expression } => value(expression)?.checked_neg(),
        _ => None,
    }
}

/// What the C text of an arithmetic expression computes: the value, and the rest
/// of the text behind the expression.
fn c_value(text: &str) -> (Option<i64>, &str) {
    if let Some(rest) = text.strip_prefix("(-") {
        let (operand, rest) = c_value(rest);
        return (operand.and_then(|a| a.checked_neg()), rest.strip_prefix(')').unwrap());
    }
    if let Some(rest) = text.strip_prefix('(') {
        let (left, rest) = c_value(rest);
        let operator = &rest[..3];
        let (right, rest) = c_value(&rest[3..]);
        let result = match (left, right) {
            (Some(a), Some(b)) => match operator {
                " + " => a.checked_add(b),
                " - " => a.checked_sub(b),
                " * " => a.checked_mul(b),
                " / " => a.checked_div(b),
                other => panic!("{}", other),
            },
            _ => None,
        };
        return (result, rest.strip_prefix(')').unwrap());
    }
    let digits = text.find('l').unwrap();
    (Some(text[..digits].parse().unwrap()), &text[digits + 1..])
}

#[test]
fn arithmetic_keeps_its_value() {
    let cases = [
        ("7", Some(7)),
        ("1 + 2 * 3", Some(7)),
        ("10 - 2 - 3", Some(11)),
        ("100 / 5 / 2", Some(50)),
        ("2 * 3 + 4 * 5 - 6 / 3", Some(24)),
        ("- 5 + 2", Some(-7)),
        ("7 / 2", Some(3)),
        ("0 - 7 / 2", Some(-3)),
        ("1 / 0", None),
        ("2147483647 * 2147483647 * 2147483647", None),
        ("2147483647 + 2147483647", Some(4294967294)),
    ];
    for (source, expected) in cases {
        let ast = parse(Scanner::new(&format!("to f return {}", source))).unwrap();
        let expr = match &ast[0].code {
            Statement::Return(e) => e,
            other => panic!("{:?}", other),
        };
        assert_eq!(value(expr), expected, "{}", source);
        let text = expr_text(expr);
        assert_eq!(c_value(&text), (expected, ""), "{}", text);
    }
}

#[test]
fn nested_statements_are_indented_level_by_level() {
    assert_eq!(
        functions_of("to f while 1 forever if 2 then do g() end else while 3 return 4"),
        concat(&[
            "\nlong f() {\n",
            "    while 1l\n",
            "        while (1)\n",
            "            if 2l\n",
            "                {\n",
            "                    g();\n",
            "                }\n",
            "\n            else\n",
            "                while 3l\n",
            "                    return 4l;",
            "\n",
            "    return 0l;\n}\n",
        ])
    );
}

//! What the C text of an arithmetic expression computes.
//!
//! An arithmetic expression is made of integer literals, the operators `+`, `-`,
//! `*` and `/` between two operands, and `-` before one. [`value`] is what such an
//! expression computes. [`read`] reads the C text of one back into the expression,
//! and so [`target_value`] is what that text computes. The two agree:
//! [`lemma_text_keeps_value`].
use vstd::prelude::*;
use crate::codegen::target::{c_name, expr_text};
use crate::grammar::{
    binary_operator, expression, expression_level, lemma_operator_names, lexeme_at, primary,
    remaining, ExprView,
};
use crate::lexis::{
    decimal_value, digit, in_class, lemma_token_advances, lemma_token_start, run_end, token_at,
    token_start, tokens_from, CharClass, Lexeme,
};
use crate::parser::{lexemes_of, Operator};
use crate::text::{decimal, lemma_decimal, lemma_occurs_chars, lemma_occurs_parts, occurs_at};

verus! {

/// Whether `e` is an arithmetic expression: an integer literal that is not negative,
/// one of `+`, `-`, `*` and `/` between two arithmetic expressions, or `-` before one.
pub open spec fn arithmetic(e: ExprView) -> bool
    decreases e,
{
    match e {
        ExprView::Integer(n) => n >= 0,
        ExprView::BinaryOp { operator, left, right } => {
            &&& operator_char_of(operator) is Some
            &&& arithmetic(*left)
            &&& arithmetic(*right)
        },
        ExprView::UnaryOp { operator, expression } => {
            &&& operator == Operator::Negate
            &&& arithmetic(*expression)
        },
        _ => false,
    }
}

/// The character that writes an arithmetic operator between two operands.
pub open spec fn operator_char_of(op: Operator) -> Option<char> {
    match op {
        Operator::Add => Some('+'),
        Operator::Sub => Some('-'),
        Operator::Mul => Some('*'),
        Operator::Div => Some('/'),
        _ => None,
    }
}

/// The arithmetic operator that the character `c` writes between two operands.
pub open spec fn operator_of_char(c: char) -> Option<Operator> {
    if c == '+' {
        Some(Operator::Add)
    } else if c == '-' {
        Some(Operator::Sub)
    } else if c == '*' {
        Some(Operator::Mul)
    } else if c == '/' {
        Some(Operator::Div)
    } else {
        None
    }
}

/// `n`, if it is a value of C's `long` of 64 bits. The arithmetic of C is not
/// defined beyond those values.
pub open spec fn in_long(n: int) -> Option<int> {
    if i64::MIN <= n <= i64::MAX {
        Some(n)
    } else {
        None
    }
}

/// The quotient of `a` by `b` as C computes it: rounded towards zero.
pub open spec fn quotient(a: int, b: int) -> int
    recommends
        b != 0,
{
    if a >= 0 && b > 0 {
        a / b
    } else if a >= 0 {
        -(a / (-b))
    } else if b > 0 {
        -((-a) / b)
    } else {
        (-a) / (-b)
    }
}

/// What the operator `op` computes of `a` and `b` in the arithmetic of C's `long`,
/// or `None` where that is not defined: for a quotient by zero, and for a result
/// that is no `long`.
pub open spec fn apply(op: Operator, a: int, b: int) -> Option<int> {
    match op {
        Operator::Add => in_long(a + b),
        Operator::Sub => in_long(a - b),
        Operator::Mul => in_long(a * b),
        Operator::Div => if b == 0 {
            None
        } else {
            in_long(quotient(a, b))
        },
        _ => None,
    }
}

/// What an arithmetic expression computes, or `None` where that is not defined.
pub open spec fn value(e: ExprView) -> Option<int>
    decreases e,
{
    match e {
        ExprView::Integer(n) => Some(n as int),
        ExprView::BinaryOp { operator, left, right } => match (value(*left), value(*right)) {
            (Some(a), Some(b)) => apply(operator, a, b),
            _ => None,
        },
        ExprView::UnaryOp { operator, expression } => match value(*expression) {
            Some(a) => if operator == Operator::Negate {
                in_long(-a)
            } else {
                None
            },
            None => None,
        },
        _ => None,
    }
}

/// The arithmetic expression that the C text `t` holds from index `i` on, and the
/// number of characters that it takes: a literal is a run of digits before an `l`,
/// a negation is `(-`, an expression and `)`, and an operation is `(`, an
/// expression, an operator between two blanks, an expression and `)`.
pub open spec fn read(t: Seq<char>, i: int) -> Option<(ExprView, nat)>
    decreases t.len() - i,
{
    if i < 0 || i >= t.len() {
        None
    } else if digit(t[i]) {
        let end = run_end(t, i, CharClass::Digit);
        let n = decimal_value(t.subrange(i, end));
        if i < end < t.len() && t[end] == 'l' && n <= i32::MAX {
            Some((ExprView::Integer(n as i32), (end - i + 1) as nat))
        } else {
            None
        }
    } else if t[i] != '(' || i + 1 >= t.len() {
        None
    } else if t[i + 1] == '-' {
        match read(t, i + 2) {
            Some((operand, n)) => if i + n + 2 < t.len() && t[i + n + 2] == ')' {
                Some(
                    (
                        ExprView::UnaryOp {
                            operator: Operator::Negate,
                            expression: Box::new(operand),
                        },
                        n + 3,
                    ),
                )
            } else {
                None
            },
            None => None,
        }
    } else {
        match read(t, i + 1) {
            Some((left, n)) => if i + n + 3 < t.len() && t[i + n + 1] == ' ' && t[i + n + 3]
                == ' ' {
                match operator_of_char(t[i + n + 2]) {
                    Some(operator) => match read(t, i + n + 4) {
                        Some((right, m)) => if i + n + m + 4 < t.len() && t[i + n + m + 4]
                            == ')' {
                            Some(
                                (
                                    ExprView::BinaryOp {
                                        operator,
                                        left: Box::new(left),
                                        right: Box::new(right),
                                    },
                                    n + m + 5,
                                ),
                            )
                        } else {
                            None
                        },
                        None => None,
                    },
                    None => None,
                }
            } else {
                None
            },
            None => None,
        }
    }
}

/// What the C text `t` computes, if it is the text of an arithmetic expression:
/// what the expression computes that the text holds.
pub open spec fn target_value(t: Seq<char>) -> Option<int> {
    match read(t, 0) {
        Some((e, n)) => if n == t.len() {
            value(e)
        } else {
            None
        },
        None => None,
    }
}

/// The run of the characters of a class that starts where a text of such characters
/// stands, before a character that is not of the class, is that text.
pub proof fn lemma_run_of(t: Seq<char>, i: int, s: Seq<char>, class: CharClass)
    requires
        occurs_at(t, i, s),
        forall|j: int| 0 <= j < s.len() ==> in_class(class, #[trigger] s[j]),
        i + s.len() == t.len() || !in_class(class, t[i + s.len()]),
    ensures
        run_end(t, i, class) == i + s.len(),
    decreases s.len(),
{
    if s.len() > 0 {
        lemma_occurs_chars(t, i, s);
        assert(t[i + 0] == s[0]);
        let rest = s.subrange(1, s.len() as int);
        assert(s == s.subrange(0, 1) + rest);
        lemma_occurs_parts(t, i, s.subrange(0, 1), rest);
        assert forall|j: int| 0 <= j < rest.len() implies in_class(class, #[trigger] rest[j]) by {
        }
        lemma_run_of(t, i + 1, rest, class);
    }
}

/// The C text of an arithmetic expression begins with a digit or with `(`.
pub proof fn lemma_text_start(e: ExprView)
    requires
        arithmetic(e),
    ensures
        expr_text(e).len() >= 1,
        digit(expr_text(e)[0]) || expr_text(e)[0] == '(',
{
    reveal_strlit("(");
    match e {
        ExprView::Integer(n) => {
            lemma_decimal(n as nat);
        },
        ExprView::BinaryOp { operator, left, right } => {
            let rest = expr_text(*left) + " "@ + c_name(operator) + " "@ + expr_text(*right) + ")"@;
            assert(expr_text(e) =~= "("@ + rest);
        },
        ExprView::UnaryOp { operator, expression } => {
            let rest = c_name(operator) + expr_text(*expression) + ")"@;
            assert(expr_text(e) =~= "("@ + rest);
        },
        _ => {},
    }
}

/// The C text of a literal is read back as that literal.
pub proof fn lemma_read_literal(t: Seq<char>, i: int, n: i32)
    requires
        n >= 0,
        occurs_at(t, i, expr_text(ExprView::Integer(n))),
    ensures
        read(t, i) == Some((ExprView::Integer(n), expr_text(ExprView::Integer(n)).len())),
{
    reveal_strlit("l");
    let digits = decimal(n as nat);
    lemma_decimal(n as nat);
    lemma_occurs_parts(t, i, digits, "l"@);
    lemma_occurs_chars(t, i + digits.len(), "l"@);
    assert(t[i + digits.len() + 0] == 'l');
    lemma_occurs_chars(t, i, digits);
    lemma_run_of(t, i, digits, CharClass::Digit);
}

/// Where the C text of a negation stands, `(-` stands, the text of the operand
/// behind it, and `)` behind that.
pub proof fn lemma_negation_parts(t: Seq<char>, i: int, x: ExprView)
    requires
        occurs_at(
            t,
            i,
            expr_text(ExprView::UnaryOp { operator: Operator::Negate, expression: Box::new(x) }),
        ),
    ensures
        t[i] == '(',
        t[i + 1] == '-',
        occurs_at(t, i + 2, expr_text(x)),
        i + expr_text(x).len() + 2 < t.len(),
        t[i + expr_text(x).len() + 2] == ')',
        expr_text(
            ExprView::UnaryOp { operator: Operator::Negate, expression: Box::new(x) },
        ).len() == expr_text(x).len() + 3,
{
    reveal_strlit("(");
    reveal_strlit(")");
    reveal_strlit("-");
    let inner = expr_text(x);
    lemma_occurs_parts(t, i, "("@ + "-"@ + inner, ")"@);
    lemma_occurs_parts(t, i, "("@ + "-"@, inner);
    lemma_occurs_parts(t, i, "("@, "-"@);
    lemma_occurs_chars(t, i, "("@);
    assert(t[i + 0] == '(');
    lemma_occurs_chars(t, i + 1, "-"@);
    assert(t[i + 1 + 0] == '-');
    lemma_occurs_chars(t, i + 2 + inner.len(), ")"@);
    assert(t[i + 2 + inner.len() + 0] == ')');
}

/// Where the C text of an operation stands, `(` stands, the text of the left
/// operand behind it, then the operator between two blanks, the text of the right
/// operand, and `)`.
pub proof fn lemma_operation_parts(
    t: Seq<char>,
    i: int,
    operator: Operator,
    left: ExprView,
    right: ExprView,
)
    requires
        operator_char_of(operator) is Some,
        occurs_at(
            t,
            i,
            expr_text(
                ExprView::BinaryOp { operator, left: Box::new(left), right: Box::new(right) },
            ),
        ),
    ensures
        t[i] == '(',
        occurs_at(t, i + 1, expr_text(left)),
        t[i + expr_text(left).len() + 1] == ' ',
        operator_of_char(t[i + expr_text(left).len() + 2]) == Some(operator),
        t[i + expr_text(left).len() + 3] == ' ',
        occurs_at(t, i + expr_text(left).len() + 4, expr_text(right)),
        i + expr_text(left).len() + expr_text(right).len() + 4 < t.len(),
        t[i + expr_text(left).len() + expr_text(right).len() + 4] == ')',
        expr_text(
            ExprView::BinaryOp { operator, left: Box::new(left), right: Box::new(right) },
        ).len() == expr_text(left).len() + expr_text(right).len() + 5,
{
    reveal_strlit("(");
    reveal_strlit(")");
    reveal_strlit(" ");
    reveal_strlit("+");
    reveal_strlit("-");
    reveal_strlit("*");
    reveal_strlit("/");
    let l = expr_text(left);
    let r = expr_text(right);
    let op = c_name(operator);
    let n = l.len();
    let m = r.len();
    lemma_occurs_parts(t, i, "("@ + l + " "@ + op + " "@ + r, ")"@);
    lemma_occurs_parts(t, i, "("@ + l + " "@ + op + " "@, r);
    lemma_occurs_parts(t, i, "("@ + l + " "@ + op, " "@);
    lemma_occurs_parts(t, i, "("@ + l + " "@, op);
    lemma_occurs_parts(t, i, "("@ + l, " "@);
    lemma_occurs_parts(t, i, "("@, l);
    lemma_occurs_chars(t, i, "("@);
    assert(t[i + 0] == '(');
    lemma_occurs_chars(t, i + 1 + n, " "@);
    lemma_occurs_chars(t, i + 2 + n, op);
    assert(t[i + 2 + n + 0] == op[0]);
    lemma_occurs_chars(t, i + 3 + n, " "@);
    assert(t[i + 3 + n + 0] == ' ');
    lemma_occurs_chars(t, i + 4 + n + m, ")"@);
    assert(t[i + 4 + n + m + 0] == ')');
}

/// The C text of an arithmetic expression is read back as that expression, wherever
/// it stands, and whatever stands behind it.
pub proof fn lemma_read_back(t: Seq<char>, i: int, e: ExprView)
    requires
        arithmetic(e),
        occurs_at(t, i, expr_text(e)),
    ensures
        read(t, i) == Some((e, expr_text(e).len())),
    decreases e,
{
    match e {
        ExprView::Integer(n) => {
            lemma_read_literal(t, i, n);
        },
        ExprView::BinaryOp { operator, left, right } => {
            lemma_operation_parts(t, i, operator, *left, *right);
            lemma_text_start(*left);
            lemma_occurs_chars(t, i + 1, expr_text(*left));
            lemma_read_back(t, i + 1, *left);
            lemma_read_back(t, i + expr_text(*left).len() + 4, *right);
        },
        ExprView::UnaryOp { operator, expression } => {
            lemma_negation_parts(t, i, *expression);
            lemma_read_back(t, i + 2, *expression);
        },
        _ => {},
    }
}

/// The C text of an arithmetic expression computes what the expression computes.
pub proof fn lemma_text_keeps_value(e: ExprView)
    requires
        arithmetic(e),
    ensures
        target_value(expr_text(e)) == value(e),
{
    let t = expr_text(e);
    assert(t.subrange(0, t.len() as int) == t);
    lemma_read_back(t, 0, e);
}

/// Whether `l` is a token of arithmetic: an integer literal that is not negative, or
/// one of the operators `+`, `-`, `*` and `/`.
pub open spec fn arithmetic_token(l: Lexeme) -> bool {
    match l {
        Lexeme::Number(n) => n >= 0,
        Lexeme::Operator(name) => name == "+"@ || name == "-"@ || name == "*"@ || name == "/"@,
        _ => false,
    }
}

/// What the parser reads from tokens of arithmetic is an arithmetic expression.
pub proof fn lemma_parses_to_arithmetic(toks: Seq<Lexeme>, pos: int, level: nat)
    requires
        forall|i: int| 0 <= i < toks.len() ==> arithmetic_token(#[trigger] toks[i]),
    ensures
        expression_level(toks, pos, level) matches Ok((e, _)) ==> arithmetic(e),
    decreases remaining(toks, pos), level,
{
    lemma_operator_names();
    if level == 0 {
        match lexeme_at(toks, pos) {
            Lexeme::Operator(name) => {
                if name == "-"@ {
                    lemma_parses_to_arithmetic(toks, pos + 1, 4);
                }
            },
            Lexeme::Number(n) => {
            },
            Lexeme::Eof => {
            },
            _ => {
                assert(primary(toks, pos) is Err);
            },
        }
    } else {
        lemma_parses_to_arithmetic(toks, pos, (level - 1) as nat);
        match expression_level(toks, pos, (level - 1) as nat) {
            Ok((left, a)) => {
                let next = lexeme_at(toks, pos + a + 1);
                match binary_operator(level, next) {
                    Some(operator) => {
                        lemma_parses_to_arithmetic(toks, pos + a + 2, level);
                    },
                    None => {},
                }
            },
            Err(_) => {},
        }
    }
}

/// An expression that is written with integer literals and the operators `+`, `-`,
/// `*` and `/` alone keeps its value when it is compiled: the C text that is
/// generated for what the parser reads computes what the expression computes.
pub proof fn lemma_arithmetic_round_trip(toks: Seq<Lexeme>)
    requires
        forall|i: int| 0 <= i < toks.len() ==> arithmetic_token(#[trigger] toks[i]),
        expression(toks, 0) is Ok,
    ensures
        arithmetic(expression(toks, 0)->Ok_0.0),
        target_value(expr_text(expression(toks, 0)->Ok_0.0)) == value(expression(toks, 0)->Ok_0.0),
{
    lemma_parses_to_arithmetic(toks, 0, 4);
    lemma_text_keeps_value(expression(toks, 0)->Ok_0.0);
}

/// Whether `t` is a text of arithmetic: digits, blanks, and the characters `+`, `-`,
/// `*` and `/`, of which no two stand side by side.
pub open spec fn arithmetic_text(t: Seq<char>) -> bool {
    forall|j: int|
        0 <= j < t.len() ==> {
            &&& digit(#[trigger] t[j]) || t[j] == ' ' || operator_of_char(t[j]) is Some
            &&& operator_of_char(t[j]) is Some && j + 1 < t.len() ==> operator_of_char(t[j + 1])
                is None
        }
}

/// A token of a text of arithmetic is a token of arithmetic, if it is not a number
/// that is too large.
pub proof fn lemma_arithmetic_text_token(t: Seq<char>, i: int)
    requires
        arithmetic_text(t),
        0 <= i <= t.len(),
    ensures
        ({
            let l = token_at(t, i).lexeme;
            l is Eof || l is Error || arithmetic_token(l)
        }),
{
    reveal_strlit("+");
    reveal_strlit("-");
    reveal_strlit("*");
    reveal_strlit("/");
    reveal_with_fuel(run_end, 2);
    lemma_token_start(t, i);
    let s = token_start(t, i);
    if s < t.len() {
        assert(digit(t[s]) || operator_of_char(t[s]) is Some);
        if !digit(t[s]) {
            if s + 1 < t.len() {
                assert(digit(t[s + 1]) || t[s + 1] == ' ');
            }
            let w = t.subrange(s, s + 1);
            assert(w =~= seq![t[s]]);
            assert(w =~= "+"@ || w =~= "-"@ || w =~= "*"@ || w =~= "/"@);
        }
    }
}

/// The tokens of a text of arithmetic are tokens of arithmetic, but for numbers that
/// are too large.
pub proof fn lemma_arithmetic_text_tokens(t: Seq<char>, i: int)
    requires
        arithmetic_text(t),
        0 <= i <= t.len(),
    ensures
        forall|k: int|
            0 <= k < tokens_from(t, i).len() ==> {
                let l = (#[trigger] tokens_from(t, i)[k]).lexeme;
                l is Error || arithmetic_token(l)
            },
    decreases t.len() - i,
{
    let first = token_at(t, i);
    if !(first.lexeme is Eof) {
        lemma_token_advances(t, i);
        lemma_arithmetic_text_token(t, i);
        lemma_arithmetic_text_tokens(t, first.end);
    }
}

/// An expression that is written with integer literals and the operators `+`, `-`,
/// `*` and `/` alone keeps its value when it is compiled: where the scanner finds
/// no error in the text and the parser reads an expression from its tokens, the C
/// text that is generated for that expression computes what the expression computes.
pub proof fn lemma_arithmetic_source_round_trip(t: Seq<char>)
    requires
        arithmetic_text(t),
        forall|k: int|
            0 <= k < tokens_from(t, 0).len() ==> !((#[trigger] tokens_from(t, 0)[k]).lexeme
                is Error),
        expression(lexemes_of(tokens_from(t, 0)), 0) is Ok,
    ensures
        ({
            let e = expression(lexemes_of(tokens_from(t, 0)), 0)->Ok_0.0;
            arithmetic(e) && target_value(expr_text(e)) == value(e)
        }),
{
    let scans = tokens_from(t, 0);
    let toks = lexemes_of(scans);
    lemma_arithmetic_text_tokens(t, 0);
    assert forall|i: int| 0 <= i < toks.len() implies arithmetic_token(#[trigger] toks[i]) by {
        assert(toks[i] == scans[i].lexeme);
    }
    lemma_arithmetic_round_trip(toks);
}

} // verus!

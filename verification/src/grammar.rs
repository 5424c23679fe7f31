//! What the parser computes, as functions of the sequence of tokens.
use vstd::prelude::*;
use crate::lexis::Lexeme;
use crate::parser::{Expected, Operator, RangeKind};

verus! {

/// An expression, as a mathematical value.
pub enum ExprView {
    /// An operator between two operands.
    BinaryOp { operator: Operator, left: Box<ExprView>, right: Box<ExprView> },
    /// An operator before its operand.
    UnaryOp { operator: Operator, expression: Box<ExprView> },
    /// An integer literal.
    Integer(i32),
    /// A name.
    Ident(Seq<char>),
    /// A call of a function with arguments.
    Call { function: Seq<char>, arguments: Seq<ExprView> },
}

/// A statement, as a mathematical value.
pub enum StmtView {
    Return(ExprView),
    Var(Seq<char>),
    Assign(Seq<char>, ExprView),
    Change(Seq<char>, ExprView),
    If { cond: ExprView, if_clause: Box<StmtView>, else_clause: Option<Box<StmtView>> },
    Do(Seq<StmtView>),
    Call { function: Seq<char>, arguments: Seq<ExprView> },
    Forever(Box<StmtView>),
    While { cond: ExprView, body: Box<StmtView> },
    ForEach {
        ident: Seq<char>,
        start: ExprView,
        end: ExprView,
        by: ExprView,
        range_type: RangeKind,
        body: Box<StmtView>,
    },
}

/// A function, as a mathematical value.
pub struct FunctionView {
    pub name: Seq<char>,
    pub signature: Option<Seq<Seq<char>>>,
    pub code: StmtView,
}

/// Why a sequence of tokens is no program: the token at index `at` is not the one
/// that the grammar expects there.
pub struct Failure {
    pub expected: Expected,
    pub at: int,
}

/// What the parser makes of the tokens from some index on: a value and the distance
/// from its first token to its last one, or a failure.
pub type Parsed<T> = Result<(T, nat), Failure>;

/// The token at index `i`. Behind the last token stands the end of the text.
pub open spec fn lexeme_at(toks: Seq<Lexeme>, i: int) -> Lexeme {
    if 0 <= i < toks.len() {
        toks[i]
    } else {
        Lexeme::Eof
    }
}

/// The number of tokens from index `pos` on.
pub open spec fn remaining(toks: Seq<Lexeme>, pos: int) -> nat {
    if pos <= toks.len() {
        (toks.len() - pos) as nat
    } else {
        0
    }
}

/// The operator that the token `l` is between two operands at binding level `level`.
/// The levels, from the tightest: 1 for `*`, `/` and `modulo`, 2 for `+` and `-`, 3
/// for the comparisons, 4 for `and` and `or`.
pub open spec fn binary_operator(level: nat, l: Lexeme) -> Option<Operator> {
    match l {
        Lexeme::Operator(name) => if level == 1 {
            if name == "*"@ {
                Some(Operator::Mul)
            } else if name == "/"@ {
                Some(Operator::Div)
            } else if name == "modulo"@ {
                Some(Operator::Modulo)
            } else {
                None
            }
        } else if level == 2 {
            if name == "+"@ {
                Some(Operator::Add)
            } else if name == "-"@ {
                Some(Operator::Sub)
            } else {
                None
            }
        } else if level == 3 {
            if name == ">"@ {
                Some(Operator::Gt)
            } else if name == ">="@ {
                Some(Operator::Gte)
            } else if name == "<"@ {
                Some(Operator::Lt)
            } else if name == "<="@ {
                Some(Operator::Lte)
            } else if name == "="@ {
                Some(Operator::Equals)
            } else if name == "!="@ {
                Some(Operator::NotEquals)
            } else {
                None
            }
        } else if level == 4 {
            if name == "and"@ {
                Some(Operator::LogicalAnd)
            } else if name == "or"@ {
                Some(Operator::LogicalOr)
            } else {
                None
            }
        } else {
            None
        },
        _ => None,
    }
}

/// The expression that starts at `pos`.
pub open spec fn expression(toks: Seq<Lexeme>, pos: int) -> Parsed<ExprView> {
    expression_level(toks, pos, 4)
}

/// The expression at `pos` whose operators bind at `level` or tighter. At level 0
/// this is a primary. At a level above, it is an expression of the next tighter
/// level, and if an operator of the level follows, the expression of the same level
/// behind that operator is its right operand: operators of one level group to the
/// right, so `a - b - c` is `a - (b - c)`.
pub open spec fn expression_level(toks: Seq<Lexeme>, pos: int, level: nat) -> Parsed<ExprView>
    decreases remaining(toks, pos), level + 1,
{
    if level == 0 {
        primary(toks, pos)
    } else {
        match expression_level(toks, pos, (level - 1) as nat) {
            Err(f) => Err(f),
            Ok((left, a)) => match binary_operator(level, lexeme_at(toks, pos + a + 1)) {
                None => Ok((left, a)),
                Some(operator) => match expression_level(toks, pos + a + 2, level) {
                    Err(f) => Err(f),
                    Ok((right, b)) => Ok(
                        (
                            ExprView::BinaryOp {
                                operator,
                                left: Box::new(left),
                                right: Box::new(right),
                            },
                            a + 2 + b,
                        ),
                    ),
                },
            },
        }
    }
}

/// The primary at `pos`: an expression in parentheses, an integer literal, a name, a
/// call, or a `-` before an expression. The operand of that `-` is a whole
/// expression, so `-a + b` is `-(a + b)`.
pub open spec fn primary(toks: Seq<Lexeme>, pos: int) -> Parsed<ExprView>
    decreases remaining(toks, pos), 0nat,
{
    match lexeme_at(toks, pos) {
        Lexeme::Lp => match expression_level(toks, pos + 1, 4) {
            Err(f) => Err(f),
            Ok((inner, a)) => if lexeme_at(toks, pos + a + 2) == Lexeme::Rp {
                Ok((inner, a + 2))
            } else {
                Err(Failure { expected: Expected::RightParen, at: pos + a + 2 })
            },
        },
        Lexeme::Number(n) => Ok((ExprView::Integer(n), 0)),
        Lexeme::Operator(name) => if name == "-"@ {
            match expression_level(toks, pos + 1, 4) {
                Err(f) => Err(f),
                Ok((operand, a)) => Ok(
                    (
                        ExprView::UnaryOp {
                            operator: Operator::Negate,
                            expression: Box::new(operand),
                        },
                        a + 1,
                    ),
                ),
            }
        } else {
            Err(Failure { expected: Expected::Expression, at: pos })
        },
        Lexeme::Ident(name) => if lexeme_at(toks, pos + 1) == Lexeme::Lp {
            match arguments(toks, pos + 2) {
                Err(f) => Err(f),
                Ok((args, a)) => Ok((ExprView::Call { function: name, arguments: args }, a + 2)),
            }
        } else {
            Ok((ExprView::Ident(name), 0))
        },
        _ => Err(Failure { expected: Expected::Expression, at: pos }),
    }
}

/// The arguments of a call, from behind its `(` up to its `)`: expressions with
/// commas between them, or nothing.
pub open spec fn arguments(toks: Seq<Lexeme>, pos: int) -> Parsed<Seq<ExprView>>
    decreases remaining(toks, pos), 7nat,
{
    if lexeme_at(toks, pos) == Lexeme::Rp {
        Ok((Seq::empty(), 0))
    } else {
        more_arguments(toks, pos)
    }
}

/// The arguments of a call from `pos` on, where at least one stands, up to the `)`.
pub open spec fn more_arguments(toks: Seq<Lexeme>, pos: int) -> Parsed<Seq<ExprView>>
    decreases remaining(toks, pos), 6nat,
{
    match expression_level(toks, pos, 4) {
        Err(f) => Err(f),
        Ok((first, a)) => if lexeme_at(toks, pos + a + 1) == Lexeme::Rp {
            Ok((seq![first], a + 1))
        } else if lexeme_at(toks, pos + a + 1) == Lexeme::Comma {
            match more_arguments(toks, pos + a + 2) {
                Err(f) => Err(f),
                Ok((rest, b)) => Ok((seq![first] + rest, a + 2 + b)),
            }
        } else {
            Err(Failure { expected: Expected::Comma, at: pos + a + 1 })
        },
    }
}

/// Whether the token `l` is the keyword `word`.
pub open spec fn is_keyword(l: Lexeme, word: Seq<char>) -> bool {
    l == Lexeme::Keyword(word)
}

/// The statement that starts at `pos`: the one that its first token announces. A
/// keyword opens the statement of that keyword, a name opens a call.
pub open spec fn statement(toks: Seq<Lexeme>, pos: int) -> Parsed<StmtView>
    decreases remaining(toks, pos), 9nat,
{
    match lexeme_at(toks, pos) {
        Lexeme::Keyword(word) => {
            let rest = if word == "return"@ {
                return_statement(toks, pos + 1)
            } else if word == "do"@ {
                do_statement(toks, pos + 1)
            } else if word == "if"@ {
                if_statement(toks, pos + 1)
            } else if word == "set"@ {
                set_statement(toks, pos + 1)
            } else if word == "change"@ {
                change_statement(toks, pos + 1)
            } else if word == "variable"@ {
                declare_statement(toks, pos + 1)
            } else if word == "forever"@ {
                forever_statement(toks, pos + 1)
            } else if word == "while"@ {
                while_statement(toks, pos + 1)
            } else if word == "for"@ {
                for_each_statement(toks, pos + 1)
            } else {
                Err(Failure { expected: Expected::Statement, at: pos })
            };
            match rest {
                Err(f) => Err(f),
                Ok((s, a)) => Ok((s, a + 1)),
            }
        },
        Lexeme::Ident(_) => call_statement(toks, pos),
        _ => Err(Failure { expected: Expected::Statement, at: pos }),
    }
}

/// `return`, from behind the keyword: an expression.
pub open spec fn return_statement(toks: Seq<Lexeme>, pos: int) -> Parsed<StmtView> {
    match expression(toks, pos) {
        Err(f) => Err(f),
        Ok((e, a)) => Ok((StmtView::Return(e), a)),
    }
}

/// `variable`, from behind the keyword: a name.
pub open spec fn declare_statement(toks: Seq<Lexeme>, pos: int) -> Parsed<StmtView> {
    match lexeme_at(toks, pos) {
        Lexeme::Ident(name) => Ok((StmtView::Var(name), 0)),
        _ => Err(Failure { expected: Expected::Identifier, at: pos }),
    }
}

/// `set`, from behind the keyword: a name, `to`, and an expression.
pub open spec fn set_statement(toks: Seq<Lexeme>, pos: int) -> Parsed<StmtView> {
    match lexeme_at(toks, pos) {
        Lexeme::Ident(name) => if !is_keyword(lexeme_at(toks, pos + 1), "to"@) {
            Err(Failure { expected: Expected::To, at: pos + 1 })
        } else {
            match expression(toks, pos + 2) {
                Err(f) => Err(f),
                Ok((e, a)) => Ok((StmtView::Assign(name, e), a + 2)),
            }
        },
        _ => Err(Failure { expected: Expected::Identifier, at: pos }),
    }
}

/// `change`, from behind the keyword: a name, `by`, and an expression.
pub open spec fn change_statement(toks: Seq<Lexeme>, pos: int) -> Parsed<StmtView> {
    match lexeme_at(toks, pos) {
        Lexeme::Ident(name) => if !is_keyword(lexeme_at(toks, pos + 1), "by"@) {
            Err(Failure { expected: Expected::By, at: pos + 1 })
        } else {
            match expression(toks, pos + 2) {
                Err(f) => Err(f),
                Ok((e, a)) => Ok((StmtView::Change(name, e), a + 2)),
            }
        },
        _ => Err(Failure { expected: Expected::Identifier, at: pos }),
    }
}

/// A call as a statement: a name, `(`, the arguments, and `)`.
pub open spec fn call_statement(toks: Seq<Lexeme>, pos: int) -> Parsed<StmtView> {
    match lexeme_at(toks, pos) {
        Lexeme::Ident(name) => if lexeme_at(toks, pos + 1) != Lexeme::Lp {
            Err(Failure { expected: Expected::LeftParen, at: pos + 1 })
        } else {
            match arguments(toks, pos + 2) {
                Err(f) => Err(f),
                Ok((args, a)) => Ok((StmtView::Call { function: name, arguments: args }, a + 2)),
            }
        },
        _ => Err(Failure { expected: Expected::Identifier, at: pos }),
    }
}

/// `do`, from behind the keyword: the statements up to `end`.
pub open spec fn do_statement(toks: Seq<Lexeme>, pos: int) -> Parsed<StmtView>
    decreases remaining(toks, pos), 11nat,
{
    match block(toks, pos) {
        Err(f) => Err(f),
        Ok((stmts, a)) => Ok((StmtView::Do(stmts), a)),
    }
}

/// The statements from `pos` up to the keyword `end`, which is the last token taken.
pub open spec fn block(toks: Seq<Lexeme>, pos: int) -> Parsed<Seq<StmtView>>
    decreases remaining(toks, pos), 10nat,
{
    if is_keyword(lexeme_at(toks, pos), "end"@) {
        Ok((Seq::empty(), 0))
    } else if lexeme_at(toks, pos) is Eof {
        Err(Failure { expected: Expected::Statement, at: pos })
    } else {
        match statement(toks, pos) {
            Err(f) => Err(f),
            Ok((first, a)) => match block(toks, pos + a + 1) {
                Err(f) => Err(f),
                Ok((rest, b)) => Ok((seq![first] + rest, a + 1 + b)),
            },
        }
    }
}

/// `if`, from behind the keyword: a condition, `then`, a statement, and, if `else`
/// follows, the statement behind it.
pub open spec fn if_statement(toks: Seq<Lexeme>, pos: int) -> Parsed<StmtView>
    decreases remaining(toks, pos), 8nat,
{
    match expression(toks, pos) {
        Err(f) => Err(f),
        Ok((cond, a)) => if !is_keyword(lexeme_at(toks, pos + a + 1), "then"@) {
            Err(Failure { expected: Expected::Then, at: pos + a + 1 })
        } else {
            match statement(toks, pos + a + 2) {
                Err(f) => Err(f),
                Ok((if_clause, b)) => match else_clause(toks, pos + a + b + 3) {
                    Err(f) => Err(f),
                    Ok((else_clause, c)) => Ok(
                        (
                            StmtView::If { cond, if_clause: Box::new(if_clause), else_clause },
                            a + b + c + 2,
                        ),
                    ),
                },
            }
        },
    }
}

/// The `else` branch of an `if` statement and the number of tokens that it takes:
/// the statement behind `else`, if `else` stands at `pos`, else nothing.
pub open spec fn else_clause(toks: Seq<Lexeme>, pos: int) -> Parsed<Option<Box<StmtView>>>
    decreases remaining(toks, pos), 8nat,
{
    if is_keyword(lexeme_at(toks, pos), "else"@) {
        match statement(toks, pos + 1) {
            Err(f) => Err(f),
            Ok((s, a)) => Ok((Some(Box::new(s)), a + 2)),
        }
    } else {
        Ok((None, 0))
    }
}

/// `forever`, from behind the keyword: a statement.
pub open spec fn forever_statement(toks: Seq<Lexeme>, pos: int) -> Parsed<StmtView>
    decreases remaining(toks, pos), 10nat,
{
    match statement(toks, pos) {
        Err(f) => Err(f),
        Ok((body, a)) => Ok((StmtView::Forever(Box::new(body)), a)),
    }
}

/// `while`, from behind the keyword: a condition and a statement.
pub open spec fn while_statement(toks: Seq<Lexeme>, pos: int) -> Parsed<StmtView>
    decreases remaining(toks, pos), 10nat,
{
    match expression(toks, pos) {
        Err(f) => Err(f),
        Ok((cond, a)) => if lexeme_at(toks, pos + a + 1) is Eof {
            Err(Failure { expected: Expected::Statement, at: pos + a + 1 })
        } else {
            match statement(toks, pos + a + 1) {
                Err(f) => Err(f),
                Ok((body, b)) => Ok((StmtView::While { cond, body: Box::new(body) }, a + b + 1)),
            }
        },
    }
}

/// The kind of range that the token `l` announces between the bounds of a loop.
pub open spec fn range_kind(l: Lexeme) -> Option<RangeKind> {
    if is_keyword(l, "to"@) {
        Some(RangeKind::To)
    } else if is_keyword(l, "through"@) {
        Some(RangeKind::Through)
    } else {
        None
    }
}

/// `for`, from behind the keyword: `each`, the name of the loop variable, `in`, the
/// start value, and the rest of the loop, which [`for_each_range`] reads.
pub open spec fn for_each_statement(toks: Seq<Lexeme>, pos: int) -> Parsed<StmtView>
    decreases remaining(toks, pos), 8nat,
{
    if !is_keyword(lexeme_at(toks, pos), "each"@) {
        Err(Failure { expected: Expected::Each, at: pos })
    } else {
        match lexeme_at(toks, pos + 1) {
            Lexeme::Ident(ident) => if !is_keyword(lexeme_at(toks, pos + 2), "in"@) {
                Err(Failure { expected: Expected::In, at: pos + 2 })
            } else {
                match expression(toks, pos + 3) {
                    Err(f) => Err(f),
                    Ok((start, a)) => match for_each_range(toks, pos + a + 4, ident, start) {
                        Err(f) => Err(f),
                        Ok((s, b)) => Ok((s, a + b + 4)),
                    },
                }
            },
            _ => Err(Failure { expected: Expected::Identifier, at: pos + 1 }),
        }
    }
}

/// The loop over `ident` from `start` on, from behind the start value: `to` or
/// `through`, the end value, the step behind `by` if `by` follows, and a statement.
/// Without `by` the step is the literal 1.
pub open spec fn for_each_range(
    toks: Seq<Lexeme>,
    pos: int,
    ident: Seq<char>,
    start: ExprView,
) -> Parsed<StmtView>
    decreases remaining(toks, pos), 7nat,
{
    match range_kind(lexeme_at(toks, pos)) {
        None => Err(Failure { expected: Expected::Range, at: pos }),
        Some(range_type) => match expression(toks, pos + 1) {
            Err(f) => Err(f),
            Ok((end, a)) => match step(toks, pos + a + 2) {
                Err(f) => Err(f),
                Ok((by, b)) => match statement(toks, pos + a + b + 2) {
                    Err(f) => Err(f),
                    Ok((body, c)) => Ok(
                        (
                            StmtView::ForEach {
                                ident,
                                start,
                                end,
                                by,
                                range_type,
                                body: Box::new(body),
                            },
                            a + b + c + 2,
                        ),
                    ),
                },
            },
        },
    }
}

/// The step of a loop and the number of tokens that it takes: the expression behind
/// `by`, if `by` stands at `pos`, else the literal 1 and no token.
pub open spec fn step(toks: Seq<Lexeme>, pos: int) -> Parsed<ExprView> {
    if is_keyword(lexeme_at(toks, pos), "by"@) {
        match expression(toks, pos + 1) {
            Err(f) => Err(f),
            Ok((by, a)) => Ok((by, a + 2)),
        }
    } else {
        Ok((ExprView::Integer(1), 0))
    }
}

/// The parameters of a function, from behind the `(` up to the `)`, where at least
/// one stands: names with commas between them.
pub open spec fn parameters(toks: Seq<Lexeme>, pos: int) -> Parsed<Seq<Seq<char>>>
    decreases remaining(toks, pos),
{
    match lexeme_at(toks, pos) {
        Lexeme::Ident(name) => if lexeme_at(toks, pos + 1) == Lexeme::Rp {
            Ok((seq![name], 1))
        } else if lexeme_at(toks, pos + 1) == Lexeme::Comma {
            match parameters(toks, pos + 2) {
                Err(f) => Err(f),
                Ok((rest, a)) => Ok((seq![name] + rest, a + 2)),
            }
        } else {
            Err(Failure { expected: Expected::Comma, at: pos + 1 })
        },
        _ => Err(Failure { expected: Expected::Identifier, at: pos }),
    }
}

/// The signature of a function and the number of tokens that it takes: nothing,
/// where no `with` stands at `pos`, else `with`, `(`, the parameters, and `)`.
pub open spec fn signature(toks: Seq<Lexeme>, pos: int) -> Parsed<Option<Seq<Seq<char>>>> {
    if !is_keyword(lexeme_at(toks, pos), "with"@) {
        Ok((None, 0))
    } else if lexeme_at(toks, pos + 1) != Lexeme::Lp {
        Err(Failure { expected: Expected::LeftParen, at: pos + 1 })
    } else if lexeme_at(toks, pos + 2) == Lexeme::Rp {
        Ok((Some(Seq::empty()), 3))
    } else {
        match parameters(toks, pos + 2) {
            Err(f) => Err(f),
            Ok((names, a)) => Ok((Some(names), a + 3)),
        }
    }
}

/// The function that starts at `pos`: `to`, its name, its signature, and the
/// statement that is its body.
pub open spec fn function(toks: Seq<Lexeme>, pos: int) -> Parsed<FunctionView> {
    if !is_keyword(lexeme_at(toks, pos), "to"@) {
        Err(Failure { expected: Expected::To, at: pos })
    } else {
        match lexeme_at(toks, pos + 1) {
            Lexeme::Ident(name) => match signature(toks, pos + 2) {
                Err(f) => Err(f),
                Ok((signature, a)) => match statement(toks, pos + a + 2) {
                    Err(f) => Err(f),
                    Ok((code, b)) => Ok((FunctionView { name, signature, code }, a + b + 2)),
                },
            },
            _ => Err(Failure { expected: Expected::Identifier, at: pos + 1 }),
        }
    }
}

/// The functions from `pos` up to the end of the tokens.
pub open spec fn functions(toks: Seq<Lexeme>, pos: int) -> Result<Seq<FunctionView>, Failure>
    decreases remaining(toks, pos),
{
    if pos < 0 || pos >= toks.len() {
        Ok(Seq::empty())
    } else {
        match function(toks, pos) {
            Err(f) => Err(f),
            Ok((first, a)) => match functions(toks, pos + a + 1) {
                Err(f) => Err(f),
                Ok(rest) => Ok(seq![first] + rest),
            },
        }
    }
}

/// The program that the tokens are: function after function, up to the last token.
pub open spec fn program(toks: Seq<Lexeme>) -> Result<Seq<FunctionView>, Failure> {
    functions(toks, 0)
}

/// The first characters of the names of the operators, by which the names differ
/// from one another but for `>` and `>=`, and for `<` and `<=`, which differ in length.
pub proof fn lemma_operator_names()
    ensures
        "*"@.len() == 1 && "*"@[0] == '*',
        "/"@.len() == 1 && "/"@[0] == '/',
        "+"@.len() == 1 && "+"@[0] == '+',
        "-"@.len() == 1 && "-"@[0] == '-',
        "="@.len() == 1 && "="@[0] == '=',
        ">"@.len() == 1 && ">"@[0] == '>',
        "<"@.len() == 1 && "<"@[0] == '<',
        ">="@.len() == 2 && ">="@[0] == '>',
        "<="@.len() == 2 && "<="@[0] == '<',
        "!="@.len() == 2 && "!="@[0] == '!',
        "or"@.len() == 2 && "or"@[0] == 'o',
        "and"@.len() == 3 && "and"@[0] == 'a',
        "modulo"@.len() == 6 && "modulo"@[0] == 'm',
{
    reveal_strlit("*");
    reveal_strlit("/");
    reveal_strlit("+");
    reveal_strlit("-");
    reveal_strlit("=");
    reveal_strlit(">");
    reveal_strlit("<");
    reveal_strlit(">=");
    reveal_strlit("<=");
    reveal_strlit("!=");
    reveal_strlit("or");
    reveal_strlit("and");
    reveal_strlit("modulo");
}

/// A number before something that is no operator is an expression of every level.
pub proof fn lemma_number_alone(toks: Seq<Lexeme>, pos: int, level: nat)
    requires
        lexeme_at(toks, pos) is Number,
        !(lexeme_at(toks, pos + 1) is Operator),
    ensures
        expression_level(toks, pos, level) == Ok::<(ExprView, nat), Failure>(
            (ExprView::Integer(lexeme_at(toks, pos)->Number_0), 0),
        ),
    decreases level,
{
    if level > 0 {
        lemma_number_alone(toks, pos, (level - 1) as nat);
    } else {
        assert(primary(toks, pos) == Ok::<(ExprView, nat), Failure>(
            (ExprView::Integer(lexeme_at(toks, pos)->Number_0), 0),
        ));
    }
}

/// A product binds tighter than a sum: `a + b * c` is the sum of `a` and the
/// product of `b` and `c`.
pub proof fn lemma_product_binds_tighter(a: i32, b: i32, c: i32)
    ensures
        expression(
            seq![
                Lexeme::Number(a),
                Lexeme::Operator("+"@),
                Lexeme::Number(b),
                Lexeme::Operator("*"@),
                Lexeme::Number(c),
            ],
            0,
        ) == Ok::<(ExprView, nat), Failure>(
            (
                ExprView::BinaryOp {
                    operator: Operator::Add,
                    left: Box::new(ExprView::Integer(a)),
                    right: Box::new(
                        ExprView::BinaryOp {
                            operator: Operator::Mul,
                            left: Box::new(ExprView::Integer(b)),
                            right: Box::new(ExprView::Integer(c)),
                        },
                    ),
                },
                4,
            ),
        ),
{
    let toks = seq![
        Lexeme::Number(a),
        Lexeme::Operator("+"@),
        Lexeme::Number(b),
        Lexeme::Operator("*"@),
        Lexeme::Number(c),
    ];
    let product = ExprView::BinaryOp {
        operator: Operator::Mul,
        left: Box::new(ExprView::Integer(b)),
        right: Box::new(ExprView::Integer(c)),
    };
    let sum = ExprView::BinaryOp {
        operator: Operator::Add,
        left: Box::new(ExprView::Integer(a)),
        right: Box::new(product),
    };
    lemma_operator_names();
    reveal_with_fuel(expression_level, 2);
    lemma_number_alone(toks, 4, 1);
    lemma_number_alone(toks, 4, 2);
    assert(expression_level(toks, 2, 1) == Ok::<(ExprView, nat), Failure>((product, 2)));
    assert(expression_level(toks, 0, 1) == Ok::<(ExprView, nat), Failure>(
        (ExprView::Integer(a), 0),
    ));
    assert(expression_level(toks, 0, 2) == Ok::<(ExprView, nat), Failure>((sum, 4)));
}

/// Operators of one level group to the right: `a - b - c` is `a - (b - c)`.
pub proof fn lemma_difference_groups_right(a: i32, b: i32, c: i32)
    ensures
        expression(
            seq![
                Lexeme::Number(a),
                Lexeme::Operator("-"@),
                Lexeme::Number(b),
                Lexeme::Operator("-"@),
                Lexeme::Number(c),
            ],
            0,
        ) == Ok::<(ExprView, nat), Failure>(
            (
                ExprView::BinaryOp {
                    operator: Operator::Sub,
                    left: Box::new(ExprView::Integer(a)),
                    right: Box::new(
                        ExprView::BinaryOp {
                            operator: Operator::Sub,
                            left: Box::new(ExprView::Integer(b)),
                            right: Box::new(ExprView::Integer(c)),
                        },
                    ),
                },
                4,
            ),
        ),
{
    let toks = seq![
        Lexeme::Number(a),
        Lexeme::Operator("-"@),
        Lexeme::Number(b),
        Lexeme::Operator("-"@),
        Lexeme::Number(c),
    ];
    let inner = ExprView::BinaryOp {
        operator: Operator::Sub,
        left: Box::new(ExprView::Integer(b)),
        right: Box::new(ExprView::Integer(c)),
    };
    let outer = ExprView::BinaryOp {
        operator: Operator::Sub,
        left: Box::new(ExprView::Integer(a)),
        right: Box::new(inner),
    };
    lemma_operator_names();
    reveal_with_fuel(expression_level, 2);
    lemma_number_alone(toks, 4, 2);
    assert(expression_level(toks, 2, 1) == Ok::<(ExprView, nat), Failure>(
        (ExprView::Integer(b), 0),
    ));
    assert(expression_level(toks, 0, 1) == Ok::<(ExprView, nat), Failure>(
        (ExprView::Integer(a), 0),
    ));
    assert(expression_level(toks, 0, 2) == Ok::<(ExprView, nat), Failure>((outer, 4)));
}

/// A function that is written without `with` has no signature.
pub proof fn lemma_function_without_signature(toks: Seq<Lexeme>, pos: int)
    requires
        function(toks, pos) is Ok,
        !is_keyword(lexeme_at(toks, pos + 2), "with"@),
    ensures
        function(toks, pos)->Ok_0.0.signature is None,
{
}

} // verus!

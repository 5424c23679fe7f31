//! The generator of C code.
use vstd::prelude::*;
use crate::codegen::target::{
    args_text, block_text, c_name, else_text, expr_text, for_head_text, function_text,
    functions_text, indentation, names_in, names_in_block, names_in_functions, params_text,
    program_text, return_type_text, signature_text, stmt_text, temp_name, temp_text, EPILOG,
    INDENT, PROLOG,
};
use crate::codegen::CodeGen;
use crate::grammar::ExprView;
use crate::parser::{
    exprs_view, names_view, program_view, stmts_view, Expression, Function, Operator, Program,
    RangeKind, Statement,
};
use crate::text::{
    lemma_append_10, lemma_append_3, lemma_append_4, lemma_append_5, lemma_append_twice,
    decimal, push_chars, push_decimal, push_integer, push_str, replicate, same_text, string_of,
};

verus! {

/// How `op` is written in C.
pub fn get_c_name(op: Operator) -> (name: &'static str)
    ensures
        name@ == c_name(op),
{
    match op {
        Operator::Add => "+",
        Operator::Sub => "-",
        Operator::Negate => "-",
        Operator::Mul => "*",
        Operator::Div => "/",
        Operator::Modulo => "%",
        Operator::Equals => "==",
        Operator::NotEquals => "!=",
        Operator::Gt => ">",
        Operator::Lt => "<",
        Operator::Gte => ">=",
        Operator::Lte => "<=",
        Operator::LogicalAnd => "&&",
        Operator::LogicalOr => "||",
        Operator::LogicalNot => "!",
        Operator::BinaryAnd => "&",
        Operator::BinaryOr => "|",
        Operator::BinaryNot => "~",
    }
}

/// Appends the C text of `expr` to `out`.
pub fn compile_expression(out: &mut Vec<char>, expr: &Expression)
    ensures
        final(out)@ == old(out)@ + expr_text(expr@),
    decreases expr,
{
    match expr {
        Expression::Integer(n) => {
            push_integer(out, *n);
            push_str(out, "l");
        },
        Expression::Ident(name) => {
            push_str(out, name.as_str());
        },
        Expression::BinaryOp { operator, left, right } => {
            push_str(out, "(");
            compile_expression(out, left);
            push_str(out, " ");
            push_str(out, get_c_name(*operator));
            push_str(out, " ");
            compile_expression(out, right);
            push_str(out, ")");
        },
        Expression::Call { function, arguments } => {
            push_str(out, function.as_str());
            push_str(out, "(");
            compile_arguments(out, arguments);
            push_str(out, ")");
            assert(expr@->Call_arguments =~= exprs_view(arguments@));
        },
        Expression::UnaryOp { operator, expression } => {
            push_str(out, "(");
            push_str(out, get_c_name(*operator));
            compile_expression(out, expression);
            push_str(out, ")");
        },
    }
}

/// Appends the C text of the arguments of a call to `out`.
pub fn compile_arguments(out: &mut Vec<char>, arguments: &Vec<Expression>)
    ensures
        final(out)@ == old(out)@ + args_text(exprs_view(arguments@)),
    decreases arguments,
{
    let ghost before = out@;
    let ghost args = exprs_view(arguments@);
    let mut i: usize = 0;
    while i < arguments.len()
        invariant
            i <= arguments.len(),
            args == exprs_view(arguments@),
            out@ == before + args_text(args.take(i as int)),
        decreases arguments.len() - i,
    {
        if i > 0 {
            push_str(out, ", ");
        }
        compile_expression(out, &arguments[i]);
        proof {
            let done = args.take(i as int);
            let next = args.take(i + 1);
            assert(next.drop_last() == done);
        }
        i = i + 1;
    }
    assert(args.take(args.len() as int) == args);
}

/// Appends the `n`-th made-up name to `out`.
fn push_name(out: &mut Vec<char>, n: u64)
    ensures
        final(out)@ == old(out)@ + temp_name(n as nat),
{
    proof {
        lemma_append_twice(out@, "__HAUMEA_TEMP_"@, decimal(n as nat));
    }
    push_str(out, "__HAUMEA_TEMP_");
    push_decimal(out, n);
}

/// The line that declares a made-up name is not empty.
proof fn lemma_temp_text_len(depth: nat, n: nat, e: ExprView)
    ensures
        temp_text(depth, n, e).len() > 0,
{
    reveal_strlit("long ");
}

/// The text that has been written, and the number of names that have been made up
/// for it.
struct Writer {
    out: Vec<char>,
    names: u64,
}

impl Writer {
    /// There are never more names than characters: each name is made up for a line
    /// that is being written.
    closed spec fn wf(&self) -> bool {
        self.names <= self.out@.len()
    }

    /// The text that has been written.
    closed spec fn text(&self) -> Seq<char> {
        self.out@
    }

    /// The number of names that have been made up.
    closed spec fn names(&self) -> nat {
        self.names as nat
    }

    /// A writer that has written nothing.
    fn new() -> (w: Writer)
        ensures
            w.wf(),
            w.text() == Seq::<char>::empty(),
            w.names() == 0,
    {
        Writer { out: Vec::new(), names: 0 }
    }

    /// Writes `s`.
    fn write(&mut self, s: &str)
        requires
            old(self).wf(),
        ensures
            final(self).wf(),
            final(self).text() == old(self).text() + s@,
            final(self).names() == old(self).names(),
    {
        push_str(&mut self.out, s);
    }

    /// Writes the indentation at nesting depth `depth`.
    fn write_indent(&mut self, depth: usize)
        requires
            old(self).wf(),
        ensures
            final(self).wf(),
            final(self).text() == old(self).text() + indentation(depth as nat),
            final(self).names() == old(self).names(),
    {
        replicate(&mut self.out, INDENT, depth);
    }

    /// Writes the characters `pad`.
    fn write_pad(&mut self, pad: &Vec<char>)
        requires
            old(self).wf(),
        ensures
            final(self).wf(),
            final(self).text() == old(self).text() + pad@,
            final(self).names() == old(self).names(),
    {
        push_chars(&mut self.out, pad);
    }

    /// Writes the C text of `expr`.
    fn write_expression(&mut self, expr: &Expression)
        requires
            old(self).wf(),
        ensures
            final(self).wf(),
            final(self).text() == old(self).text() + expr_text(expr@),
            final(self).names() == old(self).names(),
    {
        compile_expression(&mut self.out, expr);
    }

    /// Writes the `n`-th made-up name.
    fn write_name(&mut self, n: u64)
        requires
            old(self).wf(),
        ensures
            final(self).wf(),
            final(self).text() == old(self).text() + temp_name(n as nat),
            final(self).names() == old(self).names(),
    {
        push_name(&mut self.out, n);
    }

    /// Makes up a name that has not been used: the result is its number.
    fn get_unique_name(&mut self) -> (n: u64)
        requires
            old(self).wf(),
            old(self).names() < old(self).text().len(),
        ensures
            final(self).wf(),
            final(self).text() == old(self).text(),
            final(self).names() == old(self).names() + 1,
            n == final(self).names(),
    {
        let len = self.out.len();
        self.names = self.names + 1;
        self.names
    }

    /// Writes the line that declares a new made-up name with the value of `expr`,
    /// behind the indentation `pad`. The result is the number of the name.
    fn declare_temp(&mut self, pad: &Vec<char>, Ghost(depth): Ghost<nat>, expr: &Expression) -> (n:
        u64)
        requires
            old(self).wf(),
            pad@ == indentation(depth),
        ensures
            final(self).wf(),
            n == old(self).names() + 1,
            final(self).names() == n,
            final(self).text() == old(self).text() + temp_text(depth, n as nat, expr@),
    {
        proof {
            reveal_strlit("long ");
        }
        self.write_pad(pad);
        self.write("long ");
        let n = self.get_unique_name();
        self.write_name(n);
        self.write(" = ");
        self.write_expression(expr);
        self.write(";\n");
        n
    }

    /// Writes the head of the C loop for a `for each` loop whose bounds and step are
    /// held by the made-up names `start`, `start + 1` and `start + 2`, behind the
    /// indentation `pad`.
    fn write_for_head(
        &mut self,
        pad: &Vec<char>,
        Ghost(depth): Ghost<nat>,
        ident: &str,
        kind: RangeKind,
        start: u64,
    )
        requires
            old(self).wf(),
            pad@ == indentation(depth),
            start + 2 <= u64::MAX,
        ensures
            final(self).wf(),
            final(self).text() == old(self).text() + for_head_text(
                depth,
                ident@,
                kind,
                start as nat,
            ),
            final(self).names() == old(self).names(),
    {
        let comparison = match kind {
            RangeKind::To => "<",
            RangeKind::Through => "<=",
        };
        let reverse = match kind {
            RangeKind::To => ">",
            RangeKind::Through => ">=",
        };
        let mut line: Vec<char> = Vec::new();
        push_chars(&mut line, pad);
        assert(line@ =~= indentation(depth));
        push_str(&mut line, "for (long ");
        push_str(&mut line, ident);
        push_str(&mut line, " = ");
        push_name(&mut line, start);
        push_str(&mut line, "; (");
        push_name(&mut line, start);
        push_str(&mut line, " < ");
        push_name(&mut line, start + 1);
        push_str(&mut line, " ? ");
        push_str(&mut line, ident);
        push_str(&mut line, " ");
        push_str(&mut line, comparison);
        push_str(&mut line, " ");
        push_name(&mut line, start + 1);
        push_str(&mut line, " : ");
        push_str(&mut line, ident);
        push_str(&mut line, " ");
        push_str(&mut line, reverse);
        push_str(&mut line, " ");
        push_name(&mut line, start + 1);
        push_str(&mut line, "); ");
        push_str(&mut line, ident);
        push_str(&mut line, " += ");
        push_name(&mut line, start + 2);
        push_str(&mut line, ")\n");
        self.write_pad(&line);
    }

    /// Writes the C text of `statement` at nesting depth `indent`.
    fn compile_statement(&mut self, statement: &Statement, indent: usize)
        requires
            old(self).wf(),
        ensures
            final(self).wf(),
            final(self).text() == old(self).text() + stmt_text(
                statement@,
                indent as nat,
                old(self).names(),
            ),
            final(self).names() == old(self).names() + names_in(statement@),
    {
        let mut pad: Vec<char> = Vec::new();
        replicate(&mut pad, INDENT, indent);
        assert(pad@ =~= indentation(indent as nat));
        self.compile_at(statement, &pad, Ghost(indent as nat));
    }

    /// Writes the C text of `statement` one level below the nesting depth `depth`,
    /// whose indentation is `pad`.
    fn compile_nested(
        &mut self,
        statement: &Statement,
        pad: &Vec<char>,
        Ghost(depth): Ghost<nat>,
    )
        requires
            old(self).wf(),
            pad@ == indentation(depth),
        ensures
            final(self).wf(),
            final(self).text() == old(self).text() + stmt_text(
                statement@,
                depth + 1,
                old(self).names(),
            ),
            final(self).names() == old(self).names() + names_in(statement@),
        decreases statement, 3nat,
    {
        let mut inner: Vec<char> = Vec::new();
        push_chars(&mut inner, pad);
        push_str(&mut inner, INDENT);
        assert(inner@ =~= indentation(depth + 1));
        self.compile_at(statement, &inner, Ghost(depth + 1));
    }

    /// Writes the C text of `statement` at nesting depth `depth`, whose indentation
    /// is `pad`.
    fn compile_at(
        &mut self,
        statement: &Statement,
        pad: &Vec<char>,
        Ghost(depth): Ghost<nat>,
    )
        requires
            old(self).wf(),
            pad@ == indentation(depth),
        ensures
            final(self).wf(),
            final(self).text() == old(self).text() + stmt_text(statement@, depth, old(self).names()),
            final(self).names() == old(self).names() + names_in(statement@),
        decreases statement, 2nat,
    {
        match statement {
            Statement::Return(_) => self.compile_return(statement, pad, Ghost(depth)),
            Statement::Do(_) => self.compile_do(statement, pad, Ghost(depth)),
            Statement::Call { .. } => self.compile_call(statement, pad, Ghost(depth)),
            Statement::Var(_) => self.compile_declare(statement, pad, Ghost(depth)),
            Statement::Assign(_, _) => self.compile_set(statement, pad, Ghost(depth)),
            Statement::Change(_, _) => self.compile_change(statement, pad, Ghost(depth)),
            Statement::If { .. } => self.compile_if(statement, pad, Ghost(depth)),
            Statement::Forever(_) => self.compile_forever(statement, pad, Ghost(depth)),
            Statement::While { .. } => self.compile_while(statement, pad, Ghost(depth)),
            Statement::ForEach { .. } => self.compile_for_each(statement, pad, Ghost(depth)),
        }
    }

    /// Writes a `return` statement.
    fn compile_return(
        &mut self,
        statement: &Statement,
        pad: &Vec<char>,
        Ghost(depth): Ghost<nat>,
    )
        requires
            old(self).wf(),
            pad@ == indentation(depth),
            statement is Return,
        ensures
            final(self).wf(),
            final(self).text() == old(self).text() + stmt_text(statement@, depth, old(self).names()),
            final(self).names() == old(self).names() + names_in(statement@),
        decreases statement, 0nat,
    {
        if let Statement::Return(e) = statement {
            proof {
                lemma_append_4(self.text(), pad@, "return "@, expr_text(e@), ";"@);
            }
            self.write_pad(pad);
            self.write("return ");
            self.write_expression(e);
            self.write(";");
        }
    }

    /// Writes a block: its statements between braces, one level deeper.
    fn compile_do(
        &mut self,
        statement: &Statement,
        pad: &Vec<char>,
        Ghost(depth): Ghost<nat>,
    )
        requires
            old(self).wf(),
            pad@ == indentation(depth),
            statement is Do,
        ensures
            final(self).wf(),
            final(self).text() == old(self).text() + stmt_text(statement@, depth, old(self).names()),
            final(self).names() == old(self).names() + names_in(statement@),
        decreases statement, 0nat,
    {
        if let Statement::Do(block) = statement {
            proof {
                assert(statement@->Do_0 =~= stmts_view(block@));
                lemma_append_5(
                    self.text(),
                    pad@,
                    "{\n"@,
                    block_text(stmts_view(block@), depth + 1, self.names()),
                    pad@,
                    "}\n"@,
                );
            }
            self.write_pad(pad);
            self.write("{\n");
            let mut inner: Vec<char> = Vec::new();
            push_chars(&mut inner, pad);
            push_str(&mut inner, INDENT);
            assert(inner@ =~= indentation(depth + 1));
            self.compile_block(block, &inner, Ghost(depth + 1));
            self.write_pad(pad);
            self.write("}\n");
        }
    }

    /// Writes a call that stands as a statement.
    fn compile_call(
        &mut self,
        statement: &Statement,
        pad: &Vec<char>,
        Ghost(depth): Ghost<nat>,
    )
        requires
            old(self).wf(),
            pad@ == indentation(depth),
            statement is Call,
        ensures
            final(self).wf(),
            final(self).text() == old(self).text() + stmt_text(statement@, depth, old(self).names()),
            final(self).names() == old(self).names() + names_in(statement@),
        decreases statement, 0nat,
    {
        if let Statement::Call { function, arguments } = statement {
            proof {
                lemma_append_5(
                    self.text(),
                    pad@,
                    function@,
                    "("@,
                    args_text(exprs_view(arguments@)),
                    ");\n"@,
                );
            }
            self.write_pad(pad);
            self.write(function.as_str());
            self.write("(");
            self.write_arguments(arguments);
            self.write(");\n");
        }
    }

    /// Writes the declaration of a variable.
    fn compile_declare(
        &mut self,
        statement: &Statement,
        pad: &Vec<char>,
        Ghost(depth): Ghost<nat>,
    )
        requires
            old(self).wf(),
            pad@ == indentation(depth),
            statement is Var,
        ensures
            final(self).wf(),
            final(self).text() == old(self).text() + stmt_text(statement@, depth, old(self).names()),
            final(self).names() == old(self).names() + names_in(statement@),
        decreases statement, 0nat,
    {
        if let Statement::Var(ident) = statement {
            proof {
                lemma_append_4(self.text(), pad@, "long "@, ident@, ";\n"@);
            }
            self.write_pad(pad);
            self.write("long ");
            self.write(ident.as_str());
            self.write(";\n");
        }
    }

    /// Writes an assignment.
    fn compile_set(
        &mut self,
        statement: &Statement,
        pad: &Vec<char>,
        Ghost(depth): Ghost<nat>,
    )
        requires
            old(self).wf(),
            pad@ == indentation(depth),
            statement is Assign,
        ensures
            final(self).wf(),
            final(self).text() == old(self).text() + stmt_text(statement@, depth, old(self).names()),
            final(self).names() == old(self).names() + names_in(statement@),
        decreases statement, 0nat,
    {
        if let Statement::Assign(ident, e) = statement {
            proof {
                lemma_append_5(self.text(), pad@, ident@, " = "@, expr_text(e@), ";\n"@);
            }
            self.write_pad(pad);
            self.write(ident.as_str());
            self.write(" = ");
            self.write_expression(e);
            self.write(";\n");
        }
    }

    /// Writes a `change` statement: an addition to a variable.
    fn compile_change(
        &mut self,
        statement: &Statement,
        pad: &Vec<char>,
        Ghost(depth): Ghost<nat>,
    )
        requires
            old(self).wf(),
            pad@ == indentation(depth),
            statement is Change,
        ensures
            final(self).wf(),
            final(self).text() == old(self).text() + stmt_text(statement@, depth, old(self).names()),
            final(self).names() == old(self).names() + names_in(statement@),
        decreases statement, 0nat,
    {
        if let Statement::Change(ident, e) = statement {
            proof {
                lemma_append_5(self.text(), pad@, ident@, " += "@, expr_text(e@), ";\n"@);
            }
            self.write_pad(pad);
            self.write(ident.as_str());
            self.write(" += ");
            self.write_expression(e);
            self.write(";\n");
        }
    }

    /// Writes an `if` statement, with its `else` if it has one.
    fn compile_if(
        &mut self,
        statement: &Statement,
        pad: &Vec<char>,
        Ghost(depth): Ghost<nat>,
    )
        requires
            old(self).wf(),
            pad@ == indentation(depth),
            statement is If,
        ensures
            final(self).wf(),
            final(self).text() == old(self).text() + stmt_text(statement@, depth, old(self).names()),
            final(self).names() == old(self).names() + names_in(statement@),
        decreases statement, 1nat,
    {
        if let Statement::If { cond, if_clause, else_clause } = statement {
            let ghost names = self.names();
            let ghost then_text = pad@ + "if "@ + expr_text(cond@) + "\n"@ + stmt_text(
                if_clause@,
                depth + 1,
                names,
            );
            proof {
                lemma_append_5(
                    self.text(),
                    pad@,
                    "if "@,
                    expr_text(cond@),
                    "\n"@,
                    stmt_text(if_clause@, depth + 1, names),
                );
            }
            self.write_pad(pad);
            self.write("if ");
            self.write_expression(cond);
            self.write("\n");
            self.compile_nested(if_clause, pad, Ghost(depth));
            proof {
                lemma_append_twice(
                    old(self).text(),
                    then_text,
                    else_text(statement@, depth, self.names()),
                );
            }
            self.compile_else(statement, pad, Ghost(depth));
        }
    }

    /// Writes the `else` branch of an `if` statement, if it has one.
    fn compile_else(
        &mut self,
        statement: &Statement,
        pad: &Vec<char>,
        Ghost(depth): Ghost<nat>,
    )
        requires
            old(self).wf(),
            pad@ == indentation(depth),
            statement is If,
        ensures
            final(self).wf(),
            final(self).text() == old(self).text() + else_text(statement@, depth, old(self).names()),
            final(self).names() == old(self).names() + match statement@->else_clause {
                Some(s) => names_in(*s),
                None => 0,
            },
        decreases statement, 0nat,
    {
        if let Statement::If { cond, if_clause, else_clause } = statement {
            match else_clause {
                Some(else_clause) => {
                    proof {
                        lemma_append_5(
                            self.text(),
                            "\n"@,
                            pad@,
                            "else\n"@,
                            stmt_text(else_clause@, depth + 1, self.names()),
                            "\n"@,
                        );
                    }
                    self.write("\n");
                    self.write_pad(pad);
                    self.write("else\n");
                    self.compile_nested(else_clause, pad, Ghost(depth));
                    self.write("\n");
                },
                None => {
                    assert(self.text() + Seq::<char>::empty() =~= self.text());
                },
            }
        }
    }

    /// Writes a `forever` loop.
    fn compile_forever(
        &mut self,
        statement: &Statement,
        pad: &Vec<char>,
        Ghost(depth): Ghost<nat>,
    )
        requires
            old(self).wf(),
            pad@ == indentation(depth),
            statement is Forever,
        ensures
            final(self).wf(),
            final(self).text() == old(self).text() + stmt_text(statement@, depth, old(self).names()),
            final(self).names() == old(self).names() + names_in(statement@),
        decreases statement, 0nat,
    {
        if let Statement::Forever(body) = statement {
            proof {
                lemma_append_3(
                    self.text(),
                    pad@,
                    "while (1)\n"@,
                    stmt_text(body@, depth + 1, self.names()),
                );
            }
            self.write_pad(pad);
            self.write("while (1)\n");
            self.compile_nested(body, pad, Ghost(depth));
        }
    }

    /// Writes a `while` loop.
    fn compile_while(
        &mut self,
        statement: &Statement,
        pad: &Vec<char>,
        Ghost(depth): Ghost<nat>,
    )
        requires
            old(self).wf(),
            pad@ == indentation(depth),
            statement is While,
        ensures
            final(self).wf(),
            final(self).text() == old(self).text() + stmt_text(statement@, depth, old(self).names()),
            final(self).names() == old(self).names() + names_in(statement@),
        decreases statement, 0nat,
    {
        if let Statement::While { cond, body } = statement {
            proof {
                lemma_append_5(
                    self.text(),
                    pad@,
                    "while "@,
                    expr_text(cond@),
                    "\n"@,
                    stmt_text(body@, depth + 1, self.names()),
                );
            }
            self.write_pad(pad);
            self.write("while ");
            self.write_expression(cond);
            self.write("\n");
            self.compile_nested(body, pad, Ghost(depth));
        }
    }

    /// Writes a `for each` loop. The start value, the end value and the step are
    /// computed once, before the loop, into three names that are made up for them.
    fn compile_for_each(
        &mut self,
        statement: &Statement,
        pad: &Vec<char>,
        Ghost(depth): Ghost<nat>,
    )
        requires
            old(self).wf(),
            pad@ == indentation(depth),
            statement is ForEach,
        ensures
            final(self).wf(),
            final(self).text() == old(self).text() + stmt_text(statement@, depth, old(self).names()),
            final(self).names() == old(self).names() + names_in(statement@),
        decreases statement, 0nat,
    {
        if let Statement::ForEach { ident, start, end, by, range_type, body } = statement {
            proof {
                let names = self.names();
                lemma_append_5(
                    self.text(),
                    temp_text(depth, names + 1, start@),
                    temp_text(depth, names + 2, end@),
                    temp_text(depth, names + 3, by@),
                    for_head_text(depth, ident@, *range_type, names + 1),
                    stmt_text(body@, depth + 1, names + 3),
                );
                lemma_temp_text_len(depth, names + 1, start@);
            }
            let first = self.declare_temp(pad, Ghost(depth), start);
            self.declare_temp(pad, Ghost(depth), end);
            self.declare_temp(pad, Ghost(depth), by);
            let len = self.out.len();
            self.write_for_head(pad, Ghost(depth), ident.as_str(), *range_type, first);
            self.compile_nested(body, pad, Ghost(depth));
        }
    }

    /// Writes the C text of the statements of a block at nesting depth `depth`, whose
    /// indentation is `pad`.
    fn compile_block(&mut self, block: &Vec<Statement>, pad: &Vec<char>, Ghost(depth): Ghost<nat>)
        requires
            old(self).wf(),
            pad@ == indentation(depth),
        ensures
            final(self).wf(),
            final(self).text() == old(self).text() + block_text(
                stmts_view(block@),
                depth,
                old(self).names(),
            ),
            final(self).names() == old(self).names() + names_in_block(stmts_view(block@)),
        decreases block, 0nat,
    {
        let ghost stmts = stmts_view(block@);
        let mut i: usize = 0;
        assert(self.text() + Seq::<char>::empty() =~= self.text());
        while i < block.len()
            invariant
                i <= block.len(),
                stmts == stmts_view(block@),
                self.wf(),
                pad@ == indentation(depth),
                self.text() == old(self).text() + block_text(
                    stmts.take(i as int),
                    depth,
                    old(self).names(),
                ),
                self.names() == old(self).names() + names_in_block(stmts.take(i as int)),
            decreases block.len() - i,
        {
            proof {
                let done = stmts.take(i as int);
                let next = stmts.take(i + 1);
                assert(next.drop_last() == done);
                lemma_append_twice(
                    old(self).text(),
                    block_text(done, depth, old(self).names()),
                    stmt_text(block[i as int]@, depth, old(self).names() + names_in_block(done)),
                );
            }
            self.compile_at(&block[i], pad, Ghost(depth));
            i = i + 1;
        }
        assert(stmts.take(stmts.len() as int) == stmts);
    }

    /// Writes the C text of the arguments of a call.
    fn write_arguments(&mut self, arguments: &Vec<Expression>)
        requires
            old(self).wf(),
        ensures
            final(self).wf(),
            final(self).text() == old(self).text() + args_text(exprs_view(arguments@)),
            final(self).names() == old(self).names(),
    {
        compile_arguments(&mut self.out, arguments);
    }

    /// Writes the C text of the parameters `params`.
    fn write_parameters(&mut self, params: &Vec<String>)
        requires
            old(self).wf(),
        ensures
            final(self).wf(),
            final(self).text() == old(self).text() + params_text(names_view(params@)),
            final(self).names() == old(self).names(),
    {
        let ghost names = names_view(params@);
        let mut i: usize = 0;
        assert(self.text() + Seq::<char>::empty() =~= self.text());
        while i < params.len()
            invariant
                i <= params.len(),
                names == names_view(params@),
                self.wf(),
                self.text() == old(self).text() + params_text(names.take(i as int)),
                self.names() == old(self).names(),
            decreases params.len() - i,
        {
            proof {
                let done = names.take(i as int);
                let next = names.take(i + 1);
                assert(next.drop_last() == done);
                assert(next.last() == params[i as int]@);
                if i > 0 {
                    lemma_append_4(
                        old(self).text(),
                        params_text(done),
                        ", "@,
                        "long "@,
                        params[i as int]@,
                    );
                } else {
                    assert(self.text() == old(self).text());
                    lemma_append_twice(old(self).text(), "long "@, params[i as int]@);
                }
            }
            if i > 0 {
                self.write(", ");
            }
            self.write("long ");
            self.write(params[i].as_str());
            i = i + 1;
        }
        assert(names.take(names.len() as int) == names);
    }

    /// Writes the C text of the function `func`.
    fn compile_function(&mut self, func: &Function)
        requires
            old(self).wf(),
        ensures
            final(self).wf(),
            final(self).text() == old(self).text() + function_text(func@, old(self).names()),
            final(self).names() == old(self).names() + names_in(func@.code),
    {
        proof {
            lemma_append_10(
                self.text(),
                "\n"@,
                return_type_text(func@.name),
                func@.name,
                "("@,
                signature_text(func@.signature),
                ") "@,
                "{\n"@,
                stmt_text(func@.code, 1, self.names()),
                indentation(1),
                "return 0l;"@,
            );
            lemma_append_twice(
                self.text(),
                "\n"@ + return_type_text(func@.name) + func@.name + "("@ + signature_text(
                    func@.signature,
                ) + ") "@ + "{\n"@ + stmt_text(func@.code, 1, self.names()) + indentation(1)
                    + "return 0l;"@,
                "\n}\n"@,
            );
        }
        self.write("\n");
        if same_text(func.name.as_str(), "main") {
            self.write("int ");
        } else {
            self.write("long ");
        }
        self.write(func.name.as_str());
        self.write("(");
        match &func.signature {
            Some(params) => {
                self.write_parameters(params);
            },
            None => {
                assert(self.text() + Seq::<char>::empty() =~= self.text());
            },
        }
        self.write(") ");
        self.write("{\n");
        self.compile_statement(&func.code, 1);
        self.write_indent(1);
        self.write("return 0l;");
        self.write("\n}\n");
    }
}

/// The C text of the program `ast`.
pub fn generate(ast: &Program) -> (out: Vec<char>)
    ensures
        out@ == program_text(program_view(ast@)),
{
    let ghost fs = program_view(ast@);
    let mut w = Writer::new();
    w.write(PROLOG);
    let mut i: usize = 0;
    while i < ast.len()
        invariant
            i <= ast.len(),
            fs == program_view(ast@),
            w.wf(),
            w.text() == PROLOG@ + functions_text(fs.take(i as int), 0),
            w.names() == names_in_functions(fs.take(i as int)),
        decreases ast.len() - i,
    {
        proof {
            let done = fs.take(i as int);
            let next = fs.take(i + 1);
            assert(next.drop_last() == done);
            lemma_append_twice(
                PROLOG@,
                functions_text(done, 0),
                function_text(ast[i as int]@, names_in_functions(done)),
            );
        }
        w.compile_function(&ast[i]);
        i = i + 1;
    }
    assert(fs.take(fs.len() as int) == fs);
    w.write(EPILOG);
    w.out
}

/// A generator of C code for a program.
pub struct CodeGenerator {
    ast: Program,
}

impl CodeGenerator {
    /// The program that the generator writes.
    pub closed spec fn ast(&self) -> Program {
        self.ast
    }

    /// A generator for the program `ast`.
    pub fn new(ast: Program) -> (cg: CodeGenerator)
        ensures
            cg.ast() == ast,
    {
        CodeGenerator { ast }
    }
}

impl CodeGen for CodeGenerator {
    /// The C text of the program. The made-up names are numbered from 1 on in every
    /// call, so every call gives the same text.
    fn compile(&mut self) -> (out: String)
        ensures
            out@ == program_text(program_view(old(self).ast()@)),
            final(self).ast() == old(self).ast(),
    {
        let chars = generate(&self.ast);
        string_of(&chars)
    }
}

} // verus!

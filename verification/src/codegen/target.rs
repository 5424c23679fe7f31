//! What the code generator writes, as a function of the program.
//!
//! [`program_text`] is the C text of a program. It is made of the text of its
//! functions, [`function_text`], which is made of the text of statements,
//! [`stmt_text`], and of expressions, [`expr_text`].
use vstd::prelude::*;
use crate::grammar::{ExprView, FunctionView, StmtView};
use crate::parser::{Operator, RangeKind};
use crate::text::{decimal, integer_text, lemma_decimal, repeat};

verus! {

/// What stands before the functions of every program: the functions that the
/// generated code can call.
pub const PROLOG: &'static str = "
/* Haumea prolog */
#include <stdio.h>

long display(long n) {
    printf(\"%ld\\n\", n);
    return 0;
}

long read() {
    printf(\"Enter an integer: \");
    long n;
    scanf(\"%ld\", &n);
    return n;
}

/* End prolog */

/* Start compiled program */
";

/// What stands behind the functions of every program.
pub const EPILOG: &'static str = "
/* End compiled program */
";

/// One level of indentation.
pub const INDENT: &'static str = "    ";

/// The indentation at nesting depth `depth`.
pub open spec fn indentation(depth: nat) -> Seq<char> {
    repeat(INDENT@, depth)
}

/// The `n`-th of the names that the generator makes up for its own variables.
pub open spec fn temp_name(n: nat) -> Seq<char> {
    "__HAUMEA_TEMP_"@ + decimal(n)
}

/// How an operator is written in C. Subtraction and negation are both `-`.
pub open spec fn c_name(op: Operator) -> Seq<char> {
    match op {
        Operator::Add => "+"@,
        Operator::Sub => "-"@,
        Operator::Negate => "-"@,
        Operator::Mul => "*"@,
        Operator::Div => "/"@,
        Operator::Modulo => "%"@,
        Operator::Equals => "=="@,
        Operator::NotEquals => "!="@,
        Operator::Gt => ">"@,
        Operator::Lt => "<"@,
        Operator::Gte => ">="@,
        Operator::Lte => "<="@,
        Operator::LogicalAnd => "&&"@,
        Operator::LogicalOr => "||"@,
        Operator::LogicalNot => "!"@,
        Operator::BinaryAnd => "&"@,
        Operator::BinaryOr => "|"@,
        Operator::BinaryNot => "~"@,
    }
}

/// The C text of an expression. Every operation stands in parentheses of its own, so
/// the text groups as the tree does, whatever C's own precedences are.
pub open spec fn expr_text(e: ExprView) -> Seq<char>
    decreases e,
{
    match e {
        ExprView::Integer(n) => integer_text(n as int) + "l"@,
        ExprView::Ident(name) => name,
        ExprView::BinaryOp { operator, left, right } => "("@ + expr_text(*left) + " "@ + c_name(
            operator,
        ) + " "@ + expr_text(*right) + ")"@,
        ExprView::Call { function, arguments } => function + "("@ + args_text(arguments) + ")"@,
        ExprView::UnaryOp { operator, expression } => "("@ + c_name(operator) + expr_text(
            *expression,
        ) + ")"@,
    }
}

/// The C text of the arguments of a call: the texts of the expressions, with `, `
/// between them.
pub open spec fn args_text(args: Seq<ExprView>) -> Seq<char>
    decreases args,
{
    if args.len() == 0 {
        Seq::empty()
    } else if args.len() == 1 {
        expr_text(args[0])
    } else {
        args_text(args.drop_last()) + ", "@ + expr_text(args.last())
    }
}

/// The number of names that the generator makes up for a statement: three for
/// every `for each` loop in it.
pub open spec fn names_in(s: StmtView) -> nat
    decreases s,
{
    match s {
        StmtView::If { cond, if_clause, else_clause } => names_in(*if_clause) + match else_clause {
            Some(s) => names_in(*s),
            None => 0,
        },
        StmtView::Do(stmts) => names_in_block(stmts),
        StmtView::Forever(body) => names_in(*body),
        StmtView::While { cond, body } => names_in(*body),
        StmtView::ForEach { ident, start, end, by, range_type, body } => 3 + names_in(*body),
        _ => 0,
    }
}

/// The number of names that the generator makes up for the statements of a block.
pub open spec fn names_in_block(stmts: Seq<StmtView>) -> nat
    decreases stmts,
{
    if stmts.len() == 0 {
        0
    } else {
        names_in_block(stmts.drop_last()) + names_in(stmts.last())
    }
}

/// The comparison that keeps a loop of the kind `kind` running while it counts up.
pub open spec fn comparison(kind: RangeKind) -> Seq<char> {
    match kind {
        RangeKind::To => "<"@,
        RangeKind::Through => "<="@,
    }
}

/// The comparison that keeps a loop of the kind `kind` running while it counts down.
pub open spec fn reverse_comparison(kind: RangeKind) -> Seq<char> {
    match kind {
        RangeKind::To => ">"@,
        RangeKind::Through => ">="@,
    }
}

/// The line that declares the `n`-th made-up name with the value of `e`.
pub open spec fn temp_text(depth: nat, n: nat, e: ExprView) -> Seq<char> {
    indentation(depth) + "long "@ + temp_name(n) + " = "@ + expr_text(e) + ";\n"@
}

/// The head of the C loop for a `for each` loop whose bounds and step are held by
/// the made-up names from the `n`-th on. The loop runs while the variable is before
/// the end value, seen from the start value: below it if the start is below the end,
/// else above it.
pub open spec fn for_head_text(depth: nat, ident: Seq<char>, kind: RangeKind, n: nat) -> Seq<
    char,
> {
    indentation(depth) + "for (long "@ + ident + " = "@ + temp_name(n) + "; ("@ + temp_name(n)
        + " < "@ + temp_name(n + 1) + " ? "@ + ident + " "@ + comparison(kind) + " "@ + temp_name(
        n + 1,
    ) + " : "@ + ident + " "@ + reverse_comparison(kind) + " "@ + temp_name(n + 1) + "); "@
        + ident + " += "@ + temp_name(n + 2) + ")\n"@
}

/// The C text of a statement at nesting depth `depth`, where `names` names have been
/// made up before it. The names made up for the statement are those that follow:
/// [`names_in`] says how many.
pub open spec fn stmt_text(s: StmtView, depth: nat, names: nat) -> Seq<char>
    decreases s, 1nat,
{
    match s {
        StmtView::Return(e) => indentation(depth) + "return "@ + expr_text(e) + ";"@,
        StmtView::Do(stmts) => indentation(depth) + "{\n"@ + block_text(stmts, depth + 1, names)
            + indentation(depth) + "}\n"@,
        StmtView::Call { function, arguments } => indentation(depth) + function + "("@ + args_text(
            arguments,
        ) + ");\n"@,
        StmtView::Var(ident) => indentation(depth) + "long "@ + ident + ";\n"@,
        StmtView::Assign(ident, e) => indentation(depth) + ident + " = "@ + expr_text(e) + ";\n"@,
        StmtView::Change(ident, e) => indentation(depth) + ident + " += "@ + expr_text(e)
            + ";\n"@,
        StmtView::If { cond, if_clause, else_clause } => indentation(depth) + "if "@ + expr_text(
            cond,
        ) + "\n"@ + stmt_text(*if_clause, depth + 1, names) + else_text(
            s,
            depth,
            names + names_in(*if_clause),
        ),
        StmtView::Forever(body) => indentation(depth) + "while (1)\n"@ + stmt_text(
            *body,
            depth + 1,
            names,
        ),
        StmtView::While { cond, body } => indentation(depth) + "while "@ + expr_text(cond) + "\n"@
            + stmt_text(*body, depth + 1, names),
        StmtView::ForEach { ident, start, end, by, range_type, body } => temp_text(
            depth,
            names + 1,
            start,
        ) + temp_text(depth, names + 2, end) + temp_text(depth, names + 3, by) + for_head_text(
            depth,
            ident,
            range_type,
            names + 1,
        ) + stmt_text(*body, depth + 1, names + 3),
    }
}

/// The C text of the `else` branch of the `if` statement `s`, where `names` names
/// have been made up before the branch: nothing, if the statement has no `else`.
pub open spec fn else_text(s: StmtView, depth: nat, names: nat) -> Seq<char>
    decreases s, 0nat,
{
    match s {
        StmtView::If { cond, if_clause, else_clause } => match else_clause {
            Some(branch) => "\n"@ + indentation(depth) + "else\n"@ + stmt_text(
                *branch,
                depth + 1,
                names,
            ) + "\n"@,
            None => Seq::empty(),
        },
        _ => Seq::empty(),
    }
}

/// The C text of the statements of a block, one behind the other.
pub open spec fn block_text(stmts: Seq<StmtView>, depth: nat, names: nat) -> Seq<char>
    decreases stmts, 0nat,
{
    if stmts.len() == 0 {
        Seq::empty()
    } else {
        block_text(stmts.drop_last(), depth, names) + stmt_text(
            stmts.last(),
            depth,
            names + names_in_block(stmts.drop_last()),
        )
    }
}

/// The C text of the parameters of a function: `long` and the name for each, with
/// `, ` between them.
pub open spec fn params_text(params: Seq<Seq<char>>) -> Seq<char>
    decreases params.len(),
{
    if params.len() == 0 {
        Seq::empty()
    } else if params.len() == 1 {
        "long "@ + params[0]
    } else {
        params_text(params.drop_last()) + ", "@ + "long "@ + params.last()
    }
}

/// The C text of the signature of a function: its parameters, where it has any.
pub open spec fn signature_text(signature: Option<Seq<Seq<char>>>) -> Seq<char> {
    match signature {
        Some(params) => params_text(params),
        None => Seq::empty(),
    }
}

/// The type of what a function returns: `int` for `main`, `long` for every other.
pub open spec fn return_type_text(name: Seq<char>) -> Seq<char> {
    if name == "main"@ {
        "int "@
    } else {
        "long "@
    }
}

/// The C text of a function, where `names` names have been made up before it. The
/// body is followed by a `return` of 0, for a body that returns nothing itself.
pub open spec fn function_text(f: FunctionView, names: nat) -> Seq<char> {
    "\n"@ + return_type_text(f.name) + f.name + "("@ + signature_text(f.signature) + ") "@
        + "{\n"@ + stmt_text(f.code, 1, names) + indentation(1) + "return 0l;"@ + "\n}\n"@
}

/// The C text of the functions `fs`, one behind the other, where `names` names have
/// been made up before them.
pub open spec fn functions_text(fs: Seq<FunctionView>, names: nat) -> Seq<char>
    decreases fs.len(),
{
    if fs.len() == 0 {
        Seq::empty()
    } else {
        functions_text(fs.drop_last(), names) + function_text(
            fs.last(),
            names + names_in_functions(fs.drop_last()),
        )
    }
}

/// The number of names that the generator makes up for the functions `fs`.
pub open spec fn names_in_functions(fs: Seq<FunctionView>) -> nat
    decreases fs.len(),
{
    if fs.len() == 0 {
        0
    } else {
        names_in_functions(fs.drop_last()) + names_in(fs.last().code)
    }
}

/// The C text of a program: the prolog, the functions in their order, and the
/// epilog. The made-up names are numbered from 1 on through the whole program.
pub open spec fn program_text(fs: Seq<FunctionView>) -> Seq<char> {
    PROLOG@ + functions_text(fs, 0) + EPILOG@
}

/// A function without a signature is a C function without parameters: nothing
/// stands between the parentheses behind its name.
pub proof fn lemma_no_signature_no_parameters(f: FunctionView, names: nat)
    requires
        f.signature is None,
    ensures
        signature_text(f.signature) == Seq::<char>::empty(),
        function_text(f, names) == "\n"@ + return_type_text(f.name) + f.name + "("@ + ") "@
            + "{\n"@ + stmt_text(f.code, 1, names) + indentation(1) + "return 0l;"@ + "\n}\n"@,
{
}

/// Made-up names with different numbers are different names.
pub proof fn lemma_temp_names_differ(m: nat, n: nat)
    requires
        m != n,
    ensures
        temp_name(m) != temp_name(n),
{
    lemma_decimal(m);
    lemma_decimal(n);
    let prefix = "__HAUMEA_TEMP_"@;
    if temp_name(m) == temp_name(n) {
        assert(temp_name(m).subrange(prefix.len() as int, temp_name(m).len() as int) =~= decimal(m));
        assert(temp_name(n).subrange(prefix.len() as int, temp_name(n).len() as int) =~= decimal(n));
    }
}

/// The numbers of the names that are made up for a statement of a block lie behind
/// those of the statements before it, and within those of the block.
pub proof fn lemma_names_in_block(stmts: Seq<StmtView>, i: int)
    requires
        0 <= i <= stmts.len(),
    ensures
        names_in_block(stmts.take(i)) <= names_in_block(stmts),
        i < stmts.len() ==> names_in_block(stmts.take(i)) + names_in(stmts[i]) <= names_in_block(
            stmts,
        ),
    decreases stmts.len() - i,
{
    if i == stmts.len() {
        assert(stmts.take(i) =~= stmts);
    } else {
        lemma_names_in_block(stmts, i + 1);
        assert(stmts.take(i + 1).drop_last() =~= stmts.take(i));
    }
}

/// Whether the comparison that is written `op` in C holds of `a` and `b`.
pub open spec fn compares(op: Seq<char>, a: int, b: int) -> bool {
    if op == "<"@ {
        a < b
    } else if op == "<="@ {
        a <= b
    } else if op == ">"@ {
        a > b
    } else if op == ">="@ {
        a >= b
    } else {
        false
    }
}

/// Whether the C loop for a range of the kind `kind` from `start` to `end` goes on
/// when its variable holds `i`: what the condition in [`for_head_text`] computes.
pub open spec fn goes_on(kind: RangeKind, start: int, end: int, i: int) -> bool {
    if start < end {
        compares(comparison(kind), i, end)
    } else {
        compares(reverse_comparison(kind), i, end)
    }
}

/// The value of the variable of a loop from `start` in steps of `step`, when the
/// body has been run `k` times.
pub open spec fn value_after(start: int, step: int, k: int) -> int {
    start + k * step
}

/// Whether the C loop for a range of the kind `kind` from `start` to `end` in steps
/// of `step` runs its body `n` times and then ends: it goes on for the first `n`
/// values of its variable, and not for the one behind them.
pub open spec fn runs(kind: RangeKind, start: int, end: int, step: int, n: nat) -> bool {
    &&& forall|k: int| 0 <= k < n ==> goes_on(kind, start, end, #[trigger] value_after(start, step, k))
    &&& !goes_on(kind, start, end, value_after(start, step, n as int))
}

/// The four comparisons are written differently.
pub proof fn lemma_comparisons()
    ensures
        "<"@.len() == 1 && "<"@[0] == '<',
        ">"@.len() == 1 && ">"@[0] == '>',
        "<="@.len() == 2 && "<="@[0] == '<',
        ">="@.len() == 2 && ">="@[0] == '>',
{
    reveal_strlit("<");
    reveal_strlit(">");
    reveal_strlit("<=");
    reveal_strlit(">=");
}

/// A loop runs its body a number of times that its bounds, its step and its kind
/// fix: it does not run both `n` times and `m` times for different `n` and `m`.
pub proof fn lemma_runs_once(kind: RangeKind, start: int, end: int, step: int, n: nat, m: nat)
    requires
        runs(kind, start, end, step, n),
        runs(kind, start, end, step, m),
    ensures
        n == m,
{
    if n < m {
        assert(goes_on(kind, start, end, value_after(start, step, n as int)));
    } else if m < n {
        assert(goes_on(kind, start, end, value_after(start, step, m as int)));
    }
}

/// A loop that counts up by 1 from `start` to a larger `end` runs its body once for
/// every value from `start` on that is below `end`, and with `through` once more,
/// for `end` itself.
pub proof fn lemma_runs_counting_up(kind: RangeKind, start: int, end: int)
    requires
        start < end,
    ensures
        runs(
            kind,
            start,
            end,
            1,
            match kind {
                RangeKind::To => (end - start) as nat,
                RangeKind::Through => (end - start + 1) as nat,
            },
        ),
{
    lemma_comparisons();
}

/// A loop that counts down by 1 from `start` to a smaller `end` runs its body once
/// for every value from `start` down that is above `end`, and with `through` once
/// more, for `end` itself.
pub proof fn lemma_runs_counting_down(kind: RangeKind, start: int, end: int)
    requires
        start > end,
    ensures
        runs(
            kind,
            start,
            end,
            -1,
            match kind {
                RangeKind::To => (start - end) as nat,
                RangeKind::Through => (start - end + 1) as nat,
            },
        ),
{
    lemma_comparisons();
}

/// The loop from 1 to 5 runs its body 4 times, the loop from 1 through 5 runs it 5
/// times.
pub proof fn lemma_runs_one_to_five()
    ensures
        runs(RangeKind::To, 1, 5, 1, 4),
        runs(RangeKind::Through, 1, 5, 1, 5),
{
    lemma_runs_counting_up(RangeKind::To, 1, 5);
    lemma_runs_counting_up(RangeKind::Through, 1, 5);
}

} // verus!

//! The parser: it reads the tokens of a program into a tree.
use vstd::prelude::*;
use crate::grammar::{
    arguments, binary_operator, block, call_statement, change_statement, declare_statement,
    do_statement, else_clause, expression, expression_level, for_each_range,
    for_each_statement, forever_statement, function,
    functions, if_statement, is_keyword, lexeme_at, more_arguments, parameters, primary, program,
    remaining, return_statement, set_statement, signature, statement, step,
    while_statement, ExprView, Failure, FunctionView, Parsed, StmtView,
};
use crate::lexis::{lexeme_text, tokens_from, Lexeme, Scan};
use crate::scanner::{ScanState, Scanner, Token};
use crate::text::{decimal, push_decimal, push_str, same_text, string_of};

verus! {

/// A program: its functions, in the order in which they were written.
pub type Program = Vec<Function>;

/// The statements between `do` and `end`.
pub type Block = Vec<Statement>;

/// The name of a type.
pub type Type = String;

/// A name.
pub type Ident = String;

/// The names of the parameters of a function.
pub type Signature = Vec<String>;

/// A function: a named piece of code that is called with arguments and returns a value.
#[derive(Debug, PartialEq, Eq)]
pub struct Function {
    /// The name of the function.
    pub name: String,
    /// The parameters. `None` stands for a function that was written without any:
    /// it takes no arguments.
    pub signature: Option<Signature>,
    /// The body.
    pub code: Statement,
}

/// A statement.
#[derive(Debug, PartialEq, Eq)]
pub enum Statement {
    /// `return 1`
    Return(Expression),
    /// `variable x`
    Var(Ident),
    /// `set x to 5`
    Assign(Ident, Expression),
    /// `change x by 2`: adds to `x`.
    Change(Ident, Expression),
    /// `if x > 1 then return 1 else return 3`, where the `else` may be left out.
    If { cond: Expression, if_clause: Box<Statement>, else_clause: Option<Box<Statement>> },
    /// `do ... end`
    Do(Block),
    /// `display(1)`
    Call { function: Ident, arguments: Vec<Expression> },
    /// `forever do ... end`
    Forever(Box<Statement>),
    /// `while x < 5 change x by 1`
    While { cond: Expression, body: Box<Statement> },
    /// `for each i in 1 to 5 by 2 display(i)`, where `by` may be left out.
    ForEach {
        ident: Ident,
        start: Expression,
        end: Expression,
        by: Expression,
        range_type: RangeKind,
        body: Box<Statement>,
    },
}

/// What the parser looked for where it found something else.
#[derive(Debug, Clone, Copy, PartialEq, Eq, Structural)]
pub enum Expected {
    /// The keyword `to`.
    To,
    /// The keyword `each`.
    Each,
    /// The keyword `in`.
    In,
    /// The keyword `then`.
    Then,
    /// The keyword `by`.
    By,
    /// One of the keywords `to` and `through`, between the bounds of a loop.
    Range,
    /// A name.
    Identifier,
    /// `(`
    LeftParen,
    /// `)`
    RightParen,
    /// `,`, or the `)` that could stand in its place.
    Comma,
    /// The start of an expression.
    Expression,
    /// The start of a statement.
    Statement,
}

/// What was expected, in words, for a message.
pub open spec fn expectation_text(expected: Expected) -> Seq<char> {
    match expected {
        Expected::To => "the keyword `to`"@,
        Expected::Each => "the keyword `each`"@,
        Expected::In => "the keyword `in`"@,
        Expected::Then => "the keyword `then`"@,
        Expected::By => "the keyword `by`"@,
        Expected::Range => "`to` or `through`"@,
        Expected::Identifier => "an identifier"@,
        Expected::LeftParen => "`(`"@,
        Expected::RightParen => "`)`"@,
        Expected::Comma => "`,` or `)`"@,
        Expected::Expression => "an expression"@,
        Expected::Statement => "a statement"@,
    }
}

impl Expected {
    /// What was expected, in words, for a message.
    pub fn describe(self) -> (s: &'static str)
        ensures
            s@ == expectation_text(self),
    {
        match self {
            Expected::To => "the keyword `to`",
            Expected::Each => "the keyword `each`",
            Expected::In => "the keyword `in`",
            Expected::Then => "the keyword `then`",
            Expected::By => "the keyword `by`",
            Expected::Range => "`to` or `through`",
            Expected::Identifier => "an identifier",
            Expected::LeftParen => "`(`",
            Expected::RightParen => "`)`",
            Expected::Comma => "`,` or `)`",
            Expected::Expression => "an expression",
            Expected::Statement => "a statement",
        }
    }
}

/// The message for the error that `expected` was looked for where `found` stands,
/// at `position`.
pub open spec fn message_text(expected: Expected, found: Lexeme, position: ScanState) -> Seq<
    char,
> {
    "At line "@ + decimal(position.line as nat) + ":"@ + decimal(position.column as nat)
        + ", expected "@ + expectation_text(expected) + ", but found "@ + lexeme_text(found)
        + "!"@
}

/// How far a `for each` loop runs.
#[derive(Debug, Clone, Copy, PartialEq, Eq, Structural)]
pub enum RangeKind {
    /// `to`: up to the end value, which is left out.
    To,
    /// `through`: up to the end value, and with it.
    Through,
}

/// The operators.
#[derive(Debug, Clone, Copy, PartialEq, Eq, Structural)]
pub enum Operator {
    /// Addition (`+`)
    Add,
    /// Subtraction (`-`)
    Sub,
    /// Multiplication (`*`)
    Mul,
    /// Division (`/`)
    Div,
    /// Remainder (`modulo`)
    Modulo,
    /// Negation (`-`)
    Negate,
    /// Equal (`=`)
    Equals,
    /// Not equal (`!=`)
    NotEquals,
    /// Greater (`>`)
    Gt,
    /// Less (`<`)
    Lt,
    /// Greater or equal (`>=`)
    Gte,
    /// Less or equal (`<=`)
    Lte,
    /// Logical and (`and`)
    LogicalAnd,
    /// Logical or (`or`)
    LogicalOr,
    /// Logical not (`not`)
    LogicalNot,
    /// Bitwise and (`&`)
    BinaryAnd,
    /// Bitwise or (`|`)
    BinaryOr,
    /// Bitwise not (`~`)
    BinaryNot,
}

/// An expression.
#[derive(Debug, PartialEq, Eq)]
pub enum Expression {
    /// An operator between two operands, as in `1 + 2`.
    BinaryOp { operator: Operator, left: Box<Expression>, right: Box<Expression> },
    /// An operator before its operand, as in `-x`.
    UnaryOp { operator: Operator, expression: Box<Expression> },
    /// An integer literal.
    Integer(i32),
    /// A name.
    Ident(Ident),
    /// A call of a function with arguments.
    Call { function: Ident, arguments: Vec<Expression> },
}

/// The names in `names`, each as a sequence of characters.
pub open spec fn names_view(names: Seq<String>) -> Seq<Seq<char>> {
    Seq::new(names.len(), |i: int| names[i]@)
}

/// The expressions in `exprs`, each as a mathematical value.
pub open spec fn exprs_view(exprs: Seq<Expression>) -> Seq<ExprView> {
    Seq::new(exprs.len(), |i: int| exprs[i]@)
}

/// The statements in `stmts`, each as a mathematical value.
pub open spec fn stmts_view(stmts: Seq<Statement>) -> Seq<StmtView> {
    Seq::new(stmts.len(), |i: int| stmts[i]@)
}

/// The functions in `program`, each as a mathematical value.
pub open spec fn program_view(program: Seq<Function>) -> Seq<FunctionView> {
    Seq::new(program.len(), |i: int| program[i]@)
}

impl Expression {
    /// The expression as a mathematical value.
    pub open spec fn model(&self) -> ExprView
        decreases self,
    {
        match self {
            Expression::BinaryOp { operator, left, right } => ExprView::BinaryOp {
                operator: *operator,
                left: Box::new(left.model()),
                right: Box::new(right.model()),
            },
            Expression::UnaryOp { operator, expression } => ExprView::UnaryOp {
                operator: *operator,
                expression: Box::new(expression.model()),
            },
            Expression::Integer(n) => ExprView::Integer(*n),
            Expression::Ident(name) => ExprView::Ident(name@),
            Expression::Call { function, arguments } => ExprView::Call {
                function: function@,
                arguments: Seq::new(
                    arguments@.len(),
                    |i: int|
                        if 0 <= i < arguments@.len() {
                            arguments@[i].model()
                        } else {
                            ExprView::Integer(0)
                        },
                ),
            },
        }
    }
}

impl Expression {
    /// A copy of the expression.
    pub fn duplicate(&self) -> (copy: Expression)
        ensures
            copy@ == self@,
        decreases self,
    {
        match self {
            Expression::BinaryOp { operator, left, right } => Expression::BinaryOp {
                operator: *operator,
                left: Box::new(left.duplicate()),
                right: Box::new(right.duplicate()),
            },
            Expression::UnaryOp { operator, expression } => Expression::UnaryOp {
                operator: *operator,
                expression: Box::new(expression.duplicate()),
            },
            Expression::Integer(n) => Expression::Integer(*n),
            Expression::Ident(name) => Expression::Ident(name.clone()),
            Expression::Call { function, arguments } => {
                let copies = duplicate_expressions(arguments);
                assert(self@->Call_arguments =~= exprs_view(arguments@));
                let copy = Expression::Call { function: function.clone(), arguments: copies };
                assert(copy@->Call_arguments =~= exprs_view(copies@));
                copy
            },
        }
    }
}

/// Copies of the expressions `exprs`.
pub fn duplicate_expressions(exprs: &Vec<Expression>) -> (copies: Vec<Expression>)
    ensures
        exprs_view(copies@) == exprs_view(exprs@),
    decreases exprs,
{
    let mut copies: Vec<Expression> = Vec::new();
    let mut i: usize = 0;
    while i < exprs.len()
        invariant
            i <= exprs.len(),
            copies@.len() == i,
            forall|j: int| 0 <= j < i ==> copies@[j]@ == exprs@[j]@,
        decreases exprs.len() - i,
    {
        copies.push(exprs[i].duplicate());
        i = i + 1;
    }
    copies
}

impl Clone for Expression {
    fn clone(&self) -> (copy: Expression)
        ensures
            copy@ == self@,
    {
        self.duplicate()
    }
}

impl View for Expression {
    type V = ExprView;

    open spec fn view(&self) -> ExprView {
        self.model()
    }
}

impl Statement {
    /// The statement as a mathematical value.
    pub open spec fn model(&self) -> StmtView
        decreases self,
    {
        match self {
            Statement::Return(e) => StmtView::Return(e@),
            Statement::Var(name) => StmtView::Var(name@),
            Statement::Assign(name, e) => StmtView::Assign(name@, e@),
            Statement::Change(name, e) => StmtView::Change(name@, e@),
            Statement::If { cond, if_clause, else_clause } => StmtView::If {
                cond: cond@,
                if_clause: Box::new(if_clause.model()),
                else_clause: match else_clause {
                    Some(s) => Some(Box::new(s.model())),
                    None => None,
                },
            },
            Statement::Do(block) => StmtView::Do(
                Seq::new(
                    block@.len(),
                    |i: int|
                        if 0 <= i < block@.len() {
                            block@[i].model()
                        } else {
                            StmtView::Do(Seq::empty())
                        },
                ),
            ),
            Statement::Call { function, arguments } => StmtView::Call {
                function: function@,
                arguments: exprs_view(arguments@),
            },
            Statement::Forever(body) => StmtView::Forever(Box::new(body.model())),
            Statement::While { cond, body } => StmtView::While {
                cond: cond@,
                body: Box::new(body.model()),
            },
            Statement::ForEach { ident, start, end, by, range_type, body } => StmtView::ForEach {
                ident: ident@,
                start: start@,
                end: end@,
                by: by@,
                range_type: *range_type,
                body: Box::new(body.model()),
            },
        }
    }
}

impl Statement {
    /// A copy of the statement.
    pub fn duplicate(&self) -> (copy: Statement)
        ensures
            copy@ == self@,
        decreases self,
    {
        match self {
            Statement::Return(e) => Statement::Return(e.duplicate()),
            Statement::Var(name) => Statement::Var(name.clone()),
            Statement::Assign(name, e) => Statement::Assign(name.clone(), e.duplicate()),
            Statement::Change(name, e) => Statement::Change(name.clone(), e.duplicate()),
            Statement::If { cond, if_clause, else_clause } => Statement::If {
                cond: cond.duplicate(),
                if_clause: Box::new(if_clause.duplicate()),
                else_clause: match else_clause {
                    Some(s) => Some(Box::new(s.duplicate())),
                    None => None,
                },
            },
            Statement::Do(block) => {
                let copies = duplicate_statements(block);
                assert(self@->Do_0 =~= stmts_view(block@));
                let copy = Statement::Do(copies);
                assert(copy@->Do_0 =~= stmts_view(copies@));
                copy
            },
            Statement::Call { function, arguments } => Statement::Call {
                function: function.clone(),
                arguments: duplicate_expressions(arguments),
            },
            Statement::Forever(body) => Statement::Forever(Box::new(body.duplicate())),
            Statement::While { cond, body } => Statement::While {
                cond: cond.duplicate(),
                body: Box::new(body.duplicate()),
            },
            Statement::ForEach { ident, start, end, by, range_type, body } => Statement::ForEach {
                ident: ident.clone(),
                start: start.duplicate(),
                end: end.duplicate(),
                by: by.duplicate(),
                range_type: *range_type,
                body: Box::new(body.duplicate()),
            },
        }
    }
}

/// Copies of the statements `stmts`.
pub fn duplicate_statements(stmts: &Vec<Statement>) -> (copies: Vec<Statement>)
    ensures
        stmts_view(copies@) == stmts_view(stmts@),
    decreases stmts,
{
    let mut copies: Vec<Statement> = Vec::new();
    let mut i: usize = 0;
    while i < stmts.len()
        invariant
            i <= stmts.len(),
            copies@.len() == i,
            forall|j: int| 0 <= j < i ==> copies@[j]@ == stmts@[j]@,
        decreases stmts.len() - i,
    {
        copies.push(stmts[i].duplicate());
        i = i + 1;
    }
    copies
}

impl Clone for Statement {
    fn clone(&self) -> (copy: Statement)
        ensures
            copy@ == self@,
    {
        self.duplicate()
    }
}

impl Clone for Function {
    fn clone(&self) -> (copy: Function)
        ensures
            copy@ == self@,
    {
        let signature = match &self.signature {
            Some(names) => {
                let mut copies: Vec<String> = Vec::new();
                let mut i: usize = 0;
                while i < names.len()
                    invariant
                        i <= names.len(),
                        copies@.len() == i,
                        forall|j: int| 0 <= j < i ==> copies@[j]@ == names@[j]@,
                    decreases names.len() - i,
                {
                    copies.push(names[i].clone());
                    i = i + 1;
                }
                assert(names_view(copies@) =~= names_view(names@));
                Some(copies)
            },
            None => None,
        };
        Function { name: self.name.clone(), signature, code: self.code.duplicate() }
    }
}

impl View for Statement {
    type V = StmtView;

    open spec fn view(&self) -> StmtView {
        self.model()
    }
}

impl View for Function {
    type V = FunctionView;

    open spec fn view(&self) -> FunctionView {
        FunctionView {
            name: self.name@,
            signature: match self.signature {
                Some(names) => Some(names_view(names@)),
                None => None,
            },
            code: self.code@,
        }
    }
}

/// Why the parser gave up: what it looked for, and the token that it found in its
/// place. At the end of the source that token is `Token::EOF`.
#[derive(Debug)]
pub struct SyntaxError {
    /// What was looked for.
    pub expected: Expected,
    /// What was found.
    pub found: Token,
}

impl SyntaxError {
    /// Whether the error reports the failure `f` in the tokens of `ts`.
    pub open spec fn reports(&self, ts: &TokenStream, f: Failure) -> bool {
        self.expected == f.expected && self.found == ts.token(f.at)
    }

    /// The error in words: where it lies, what was expected, and what was found.
    pub fn message(&self) -> (s: String)
        ensures
            s@ == message_text(self.expected, self.found@, self.found.position()),
    {
        let position = self.position();
        let found = self.found.describe();
        let mut out: Vec<char> = Vec::new();
        push_str(&mut out, "At line ");
        push_decimal(&mut out, position.line as u64);
        push_str(&mut out, ":");
        push_decimal(&mut out, position.column as u64);
        push_str(&mut out, ", expected ");
        push_str(&mut out, self.expected.describe());
        push_str(&mut out, ", but found ");
        push_str(&mut out, found.as_str());
        push_str(&mut out, "!");
        assert(out@ =~= message_text(self.expected, self.found@, self.found.position()));
        string_of(&out)
    }

    /// Where in the source the error lies: the place of the token that was found.
    pub fn position(&self) -> (s: ScanState)
        ensures
            s == self.found.position(),
    {
        self.found.clone().state()
    }
}

/// The tokens of a program, and how far the parser has read them.
pub struct TokenStream {
    tokens: Vec<Token>,
    end: Token,
    pos: usize,
}

impl TokenStream {
    #[verifier::type_invariant]
    closed spec fn inv(self) -> bool {
        self.pos <= self.tokens@.len() && self.end@ is Eof
    }

    /// The tokens, read or not.
    pub closed spec fn tokens(&self) -> Seq<Token> {
        self.tokens@
    }

    /// The token that stands for the end of the source, behind the last token.
    pub closed spec fn end(&self) -> Token {
        self.end
    }

    /// The number of tokens that have been read.
    pub closed spec fn index(&self) -> int {
        self.pos as int
    }

    /// What the tokens are, without their places.
    pub open spec fn lexemes(&self) -> Seq<Lexeme> {
        Seq::new(self.tokens().len(), |i: int| self.tokens()[i]@)
    }

    /// The token at index `i`, which is that of the end of the source from the number
    /// of the tokens on.
    pub open spec fn token(&self, i: int) -> Token {
        if 0 <= i < self.tokens().len() {
            self.tokens()[i]
        } else {
            self.end()
        }
    }

    /// Whether this stream holds the tokens of `before`.
    pub open spec fn same_tokens(&self, before: &TokenStream) -> bool {
        self.tokens() == before.tokens() && self.end() == before.end()
    }

    /// Whether this is the stream `before` after `n` more tokens have been read.
    pub open spec fn follows(&self, before: &TokenStream, n: int) -> bool {
        self.same_tokens(before) && self.index() == before.index() + n
    }

    /// Whether `r` is what the grammar gives by `spec` for an expression that starts
    /// where `before` stands, and this is the stream behind that expression.
    pub open spec fn gave_expression(
        &self,
        before: &TokenStream,
        r: Result<Expression, SyntaxError>,
        spec: Parsed<ExprView>,
    ) -> bool {
        match spec {
            Ok((e, last)) => r matches Ok(x) && x@ == e && self.follows(before, last as int + 1),
            Err(f) => r matches Err(err) && err.reports(before, f) && self.same_tokens(before),
        }
    }

    /// Whether `r` is what the grammar gives by `spec` for the arguments of a call that
    /// start where `before` stands, and this is the stream behind them.
    pub open spec fn gave_arguments(
        &self,
        before: &TokenStream,
        r: Result<Vec<Expression>, SyntaxError>,
        spec: Parsed<Seq<ExprView>>,
    ) -> bool {
        match spec {
            Ok((es, last)) => r matches Ok(x) && exprs_view(x@) == es && self.follows(
                before,
                last as int + 1,
            ),
            Err(f) => r matches Err(err) && err.reports(before, f) && self.same_tokens(before),
        }
    }

    /// Whether `r` is what the grammar gives by `spec` for a statement that starts
    /// where `before` stands, and this is the stream behind that statement.
    pub open spec fn gave_statement(
        &self,
        before: &TokenStream,
        r: Result<Statement, SyntaxError>,
        spec: Parsed<StmtView>,
    ) -> bool {
        match spec {
            Ok((s, last)) => r matches Ok(x) && x@ == s && self.follows(before, last as int + 1),
            Err(f) => r matches Err(err) && err.reports(before, f) && self.same_tokens(before),
        }
    }

    /// Whether `r` is what the grammar gives by `spec` for a function that starts
    /// where `before` stands, and this is the stream behind that function.
    pub open spec fn gave_function(
        &self,
        before: &TokenStream,
        r: Result<Function, SyntaxError>,
        spec: Parsed<FunctionView>,
    ) -> bool {
        match spec {
            Ok((f, last)) => r matches Ok(x) && x@ == f && self.follows(before, last as int + 1),
            Err(f) => r matches Err(err) && err.reports(before, f) && self.same_tokens(before),
        }
    }

    /// Whether `r` is what the grammar gives by `spec` for a signature that starts
    /// where `before` stands, and this is the stream behind that signature.
    pub open spec fn gave_signature(
        &self,
        before: &TokenStream,
        r: Result<Option<Signature>, SyntaxError>,
        spec: Parsed<Option<Seq<Seq<char>>>>,
    ) -> bool {
        match spec {
            Ok((sig, n)) => {
                &&& r matches Ok(x)
                &&& match sig {
                    Some(names) => x matches Some(v) && names_view(v@) == names,
                    None => x is None,
                }
                &&& self.follows(before, n as int)
            },
            Err(f) => r matches Err(err) && err.reports(before, f) && self.same_tokens(before),
        }
    }

    /// The tokens `tokens`, none of them read, with the end of the source at `end`.
    pub fn new(tokens: Vec<Token>, end: ScanState) -> (ts: TokenStream)
        ensures
            ts.tokens() == tokens@,
            ts.end() == Token::EOF(end),
            ts.index() == 0,
    {
        TokenStream { tokens, end: Token::EOF(end), pos: 0 }
    }

    /// The next token that has not been read.
    fn peek(&self) -> (tok: &Token)
        ensures
            *tok == self.token(self.index()),
            tok@ == lexeme_at(self.lexemes(), self.index()),
            0 <= self.index() <= self.tokens().len(),
            !(tok@ is Eof) ==> self.index() < self.tokens().len(),
    {
        proof {
            use_type_invariant(self);
        }
        if self.pos < self.tokens.len() {
            &self.tokens[self.pos]
        } else {
            &self.end
        }
    }

    /// Whether all the tokens have been read.
    pub fn at_end(&self) -> (b: bool)
        ensures
            b == (self.index() == self.tokens().len()),
            0 <= self.index() <= self.tokens().len(),
    {
        proof {
            use_type_invariant(self);
        }
        self.pos >= self.tokens.len()
    }

    /// The number of tokens that the next reading takes: one, or none behind the last
    /// token.
    pub open spec fn taken(&self) -> int {
        if self.index() < self.tokens().len() {
            1
        } else {
            0
        }
    }

    /// Reads the next token and hands it out. Behind the last token nothing is read,
    /// and the token for the end of the source is handed out.
    fn take(&mut self) -> (tok: Token)
        ensures
            tok == old(self).token(old(self).index()),
            tok@ == lexeme_at(old(self).lexemes(), old(self).index()),
            final(self).follows(old(self), old(self).taken()),
    {
        proof {
            use_type_invariant(&*self);
        }
        let tok = self.peek().clone();
        if self.pos < self.tokens.len() {
            self.pos = self.pos + 1;
        }
        tok
    }

    /// Reads one token.
    fn advance(&mut self)
        requires
            !(lexeme_at(old(self).lexemes(), old(self).index()) is Eof),
        ensures
            final(self).follows(old(self), 1),
            remaining(final(self).lexemes(), final(self).index()) < remaining(
                old(self).lexemes(),
                old(self).index(),
            ),
    {
        proof {
            use_type_invariant(&*self);
        }
        let len = self.tokens.len();
        self.pos = self.pos + 1;
    }

    /// The error that `expected` was looked for where the next token stands.
    fn unexpected(&self, expected: Expected) -> (err: SyntaxError)
        ensures
            err.reports(self, Failure { expected, at: self.index() }),
    {
        SyntaxError { expected, found: self.peek().clone() }
    }
}

/// The result `r` for the items behind the first `n` tokens, with the items `done`
/// of those tokens before it.
pub open spec fn prepend<V>(done: Seq<V>, n: int, r: Parsed<Seq<V>>) -> Parsed<Seq<V>> {
    match r {
        Err(f) => Err(f),
        Ok((rest, last)) => Ok((done + rest, (n + last) as nat)),
    }
}

/// Whether `tok` is the keyword `word`.
fn is_keyword_token(tok: &Token, word: &str) -> (b: bool)
    ensures
        b == is_keyword(tok@, word@),
{
    match tok {
        Token::Keyword(w, _) => same_text(w.as_str(), word),
        _ => false,
    }
}

/// The name that `tok` is, if it is one.
fn name_of(tok: &Token) -> (name: Option<String>)
    ensures
        match tok@ {
            Lexeme::Ident(w) => name matches Some(s) && s@ == w,
            _ => name is None,
        },
{
    match tok {
        Token::Ident(w, _) => Some(w.clone()),
        _ => None,
    }
}

/// The operator that `tok` is between two operands at binding level `level`.
fn binary_operator_of(level: u8, tok: &Token) -> (op: Option<Operator>)
    ensures
        op == binary_operator(level as nat, tok@),
{
    match tok {
        Token::Operator(name, _) => {
            let name = name.as_str();
            if level == 1 {
                if same_text(name, "*") {
                    Some(Operator::Mul)
                } else if same_text(name, "/") {
                    Some(Operator::Div)
                } else if same_text(name, "modulo") {
                    Some(Operator::Modulo)
                } else {
                    None
                }
            } else if level == 2 {
                if same_text(name, "+") {
                    Some(Operator::Add)
                } else if same_text(name, "-") {
                    Some(Operator::Sub)
                } else {
                    None
                }
            } else if level == 3 {
                if same_text(name, ">") {
                    Some(Operator::Gt)
                } else if same_text(name, ">=") {
                    Some(Operator::Gte)
                } else if same_text(name, "<") {
                    Some(Operator::Lt)
                } else if same_text(name, "<=") {
                    Some(Operator::Lte)
                } else if same_text(name, "=") {
                    Some(Operator::Equals)
                } else if same_text(name, "!=") {
                    Some(Operator::NotEquals)
                } else {
                    None
                }
            } else if level == 4 {
                if same_text(name, "and") {
                    Some(Operator::LogicalAnd)
                } else if same_text(name, "or") {
                    Some(Operator::LogicalOr)
                } else {
                    None
                }
            } else {
                None
            }
        },
        _ => None,
    }
}

/// Reads an expression.
fn parse_expression(ts: &mut TokenStream) -> (r: Result<Expression, SyntaxError>)
    ensures
        final(ts).gave_expression(old(ts), r, expression(old(ts).lexemes(), old(ts).index())),
    decreases remaining(old(ts).lexemes(), old(ts).index()), 6nat,
{
    prec_4(ts)
}

/// Reads the arguments of a call, from behind its `(` up to its `)`.
#[verifier::loop_isolation(false)]
fn parse_arguments(ts: &mut TokenStream) -> (r: Result<Vec<Expression>, SyntaxError>)
    ensures
        final(ts).gave_arguments(old(ts), r, arguments(old(ts).lexemes(), old(ts).index())),
    decreases remaining(old(ts).lexemes(), old(ts).index()), 8nat,
{
    let ghost toks = ts.lexemes();
    let ghost start = ts.index();
    let mut args: Vec<Expression> = Vec::new();
    match ts.peek() {
        Token::Rp(_) => {
            ts.advance();
            assert(exprs_view(args@) == Seq::<ExprView>::empty());
            return Ok(args);
        },
        _ => {},
    }
    loop
        invariant
            ts.same_tokens(old(ts)),
            start <= ts.index(),
            remaining(toks, ts.index()) <= remaining(toks, start),
            more_arguments(toks, start) == prepend(
                exprs_view(args@),
                ts.index() - start,
                more_arguments(toks, ts.index()),
            ),
        decreases remaining(toks, ts.index()),
    {
        let ghost done = exprs_view(args@);
        let arg = match parse_expression(ts) {
            Ok(arg) => arg,
            Err(err) => {
                return Err(err);
            },
        };
        args.push(arg);
        proof {
            assert(exprs_view(args@) == done + seq![arg@]);
            match more_arguments(toks, ts.index() + 1) {
                Ok((rest, _)) => {
                    assert(done + (seq![arg@] + rest) == (done + seq![arg@]) + rest);
                },
                Err(_) => {},
            }
        }
        match ts.peek() {
            Token::Rp(_) => {
                ts.advance();
                return Ok(args);
            },
            Token::Comma(_) => {
                ts.advance();
            },
            _ => {
                return Err(ts.unexpected(Expected::Comma));
            },
        }
    }
}

/// Reads a primary: an expression in parentheses, an integer literal, a name, a
/// call, or a `-` before an expression.
fn prec_0(ts: &mut TokenStream) -> (r: Result<Expression, SyntaxError>)
    ensures
        final(ts).gave_expression(old(ts), r, primary(old(ts).lexemes(), old(ts).index())),
    decreases remaining(old(ts).lexemes(), old(ts).index()), 0nat,
{
    let first = ts.peek().clone();
    match first {
        Token::Lp(_) => {
            ts.advance();
            let inner = match parse_expression(ts) {
                Ok(inner) => inner,
                Err(err) => {
                    return Err(err);
                },
            };
            match ts.peek() {
                Token::Rp(_) => {
                    ts.advance();
                    Ok(inner)
                },
                _ => Err(ts.unexpected(Expected::RightParen)),
            }
        },
        Token::Number(n, _) => {
            ts.advance();
            Ok(Expression::Integer(n))
        },
        Token::Operator(name, _) => {
            if !same_text(name.as_str(), "-") {
                return Err(ts.unexpected(Expected::Expression));
            }
            ts.advance();
            match parse_expression(ts) {
                Ok(operand) => Ok(
                    Expression::UnaryOp {
                        operator: Operator::Negate,
                        expression: Box::new(operand),
                    },
                ),
                Err(err) => Err(err),
            }
        },
        Token::Ident(name, _) => {
            ts.advance();
            match ts.peek() {
                Token::Lp(_) => {
                    ts.advance();
                    match parse_arguments(ts) {
                        Ok(arguments) => {
                            let call = Expression::Call { function: name, arguments };
                            assert(call@->Call_arguments == exprs_view(arguments@));
                            Ok(call)
                        },
                        Err(err) => Err(err),
                    }
                },
                _ => Ok(Expression::Ident(name)),
            }
        },
        _ => Err(ts.unexpected(Expected::Expression)),
    }
}

/// Reads an expression whose operators are `*`, `/` and `modulo`, or bind tighter.
fn prec_1(ts: &mut TokenStream) -> (r: Result<Expression, SyntaxError>)
    ensures
        final(ts).gave_expression(
            old(ts),
            r,
            expression_level(old(ts).lexemes(), old(ts).index(), 1),
        ),
    decreases remaining(old(ts).lexemes(), old(ts).index()), 2nat,
{
    proof {
        reveal_with_fuel(expression_level, 2);
    }
    let left = match prec_0(ts) {
        Ok(left) => left,
        Err(err) => {
            return Err(err);
        },
    };
    match binary_operator_of(1, ts.peek()) {
        Some(operator) => {
            ts.advance();
            match prec_1(ts) {
                Ok(right) => Ok(
                    Expression::BinaryOp { operator, left: Box::new(left), right: Box::new(right) },
                ),
                Err(err) => Err(err),
            }
        },
        None => Ok(left),
    }
}

/// Reads an expression whose operators are `+` and `-`, or bind tighter.
fn prec_2(ts: &mut TokenStream) -> (r: Result<Expression, SyntaxError>)
    ensures
        final(ts).gave_expression(
            old(ts),
            r,
            expression_level(old(ts).lexemes(), old(ts).index(), 2),
        ),
    decreases remaining(old(ts).lexemes(), old(ts).index()), 3nat,
{
    let left = match prec_1(ts) {
        Ok(left) => left,
        Err(err) => {
            return Err(err);
        },
    };
    match binary_operator_of(2, ts.peek()) {
        Some(operator) => {
            ts.advance();
            match prec_2(ts) {
                Ok(right) => Ok(
                    Expression::BinaryOp { operator, left: Box::new(left), right: Box::new(right) },
                ),
                Err(err) => Err(err),
            }
        },
        None => Ok(left),
    }
}

/// Reads an expression whose operators are comparisons, or bind tighter.
fn prec_3(ts: &mut TokenStream) -> (r: Result<Expression, SyntaxError>)
    ensures
        final(ts).gave_expression(
            old(ts),
            r,
            expression_level(old(ts).lexemes(), old(ts).index(), 3),
        ),
    decreases remaining(old(ts).lexemes(), old(ts).index()), 4nat,
{
    let left = match prec_2(ts) {
        Ok(left) => left,
        Err(err) => {
            return Err(err);
        },
    };
    match binary_operator_of(3, ts.peek()) {
        Some(operator) => {
            ts.advance();
            match prec_3(ts) {
                Ok(right) => Ok(
                    Expression::BinaryOp { operator, left: Box::new(left), right: Box::new(right) },
                ),
                Err(err) => Err(err),
            }
        },
        None => Ok(left),
    }
}

/// Reads an expression whose operators are `and` and `or`, or bind tighter.
fn prec_4(ts: &mut TokenStream) -> (r: Result<Expression, SyntaxError>)
    ensures
        final(ts).gave_expression(
            old(ts),
            r,
            expression_level(old(ts).lexemes(), old(ts).index(), 4),
        ),
    decreases remaining(old(ts).lexemes(), old(ts).index()), 5nat,
{
    let left = match prec_3(ts) {
        Ok(left) => left,
        Err(err) => {
            return Err(err);
        },
    };
    match binary_operator_of(4, ts.peek()) {
        Some(operator) => {
            ts.advance();
            match prec_4(ts) {
                Ok(right) => Ok(
                    Expression::BinaryOp { operator, left: Box::new(left), right: Box::new(right) },
                ),
                Err(err) => Err(err),
            }
        },
        None => Ok(left),
    }
}

/// Reads the next token, and says whether it is `expected`, wherever that was
/// found: the token is the result if it is, and the error if it is another. Either
/// way it has been read. Behind the last token nothing is read, and the token
/// for the end of the source is handed out.
fn match_token(ts: &mut TokenStream, expected: &Token) -> (r: Result<Token, Token>)
    ensures
        final(ts).follows(old(ts), old(ts).taken()),
        old(ts).token(old(ts).index())@ == lexeme_at(old(ts).lexemes(), old(ts).index()),
        r == if old(ts).token(old(ts).index())@ == expected@ {
            Ok::<Token, Token>(old(ts).token(old(ts).index()))
        } else {
            Err::<Token, Token>(old(ts).token(old(ts).index()))
        },
{
    let tok = ts.take();
    if tok == *expected {
        Ok(tok)
    } else {
        Err(tok)
    }
}

/// Reads the next token, which has to be `expected`. If it is another, the result
/// is the error that `what` was looked for.
fn expect_token(ts: &mut TokenStream, expected: Token, what: Expected) -> (r: Result<
    (),
    SyntaxError,
>)
    ensures
        final(ts).follows(old(ts), old(ts).taken()),
        match r {
            Ok(_) => lexeme_at(old(ts).lexemes(), old(ts).index()) == expected@,
            Err(err) => {
                &&& lexeme_at(old(ts).lexemes(), old(ts).index()) != expected@
                &&& err.reports(old(ts), Failure { expected: what, at: old(ts).index() })
            },
        },
{
    match match_token(ts, &expected) {
        Ok(_) => Ok(()),
        Err(found) => Err(SyntaxError { expected: what, found }),
    }
}

/// The keyword `word`, as a token to look for.
fn keyword(word: &str) -> (tok: Token)
    ensures
        tok@ == Lexeme::Keyword(word@),
{
    Token::Keyword(String::from_str(word), ScanState::empty())
}

/// Reads the next token, which has to be a name, and gives that name.
fn expect_name(ts: &mut TokenStream) -> (r: Result<String, SyntaxError>)
    ensures
        match r {
            Ok(name) => {
                &&& lexeme_at(old(ts).lexemes(), old(ts).index()) == Lexeme::Ident(name@)
                &&& final(ts).follows(old(ts), 1)
            },
            Err(err) => {
                &&& !(lexeme_at(old(ts).lexemes(), old(ts).index()) is Ident)
                &&& err.reports(
                    old(ts),
                    Failure { expected: Expected::Identifier, at: old(ts).index() },
                )
                &&& final(ts).follows(old(ts), 0)
            },
        },
{
    match name_of(ts.peek()) {
        Some(name) => {
            ts.advance();
            Ok(name)
        },
        None => Err(ts.unexpected(Expected::Identifier)),
    }
}

/// Reads a statement.
fn parse_statement(ts: &mut TokenStream) -> (r: Result<Statement, SyntaxError>)
    ensures
        final(ts).gave_statement(old(ts), r, statement(old(ts).lexemes(), old(ts).index())),
    decreases remaining(old(ts).lexemes(), old(ts).index()), 12nat,
{
    let first = ts.peek().clone();
    match first {
        Token::Keyword(word, _) => {
            let word = word.as_str();
            if same_text(word, "return") {
                ts.advance();
                parse_return(ts)
            } else if same_text(word, "do") {
                ts.advance();
                parse_do(ts)
            } else if same_text(word, "if") {
                ts.advance();
                parse_if(ts)
            } else if same_text(word, "set") {
                ts.advance();
                parse_set(ts)
            } else if same_text(word, "change") {
                ts.advance();
                parse_change(ts)
            } else if same_text(word, "variable") {
                ts.advance();
                parse_declare(ts)
            } else if same_text(word, "forever") {
                ts.advance();
                parse_forever(ts)
            } else if same_text(word, "while") {
                ts.advance();
                parse_while(ts)
            } else if same_text(word, "for") {
                ts.advance();
                parse_for_each(ts)
            } else {
                Err(ts.unexpected(Expected::Statement))
            }
        },
        Token::Ident(_, _) => parse_call(ts),
        _ => Err(ts.unexpected(Expected::Statement)),
    }
}

/// Reads a `forever` loop, from behind the keyword.
fn parse_forever(ts: &mut TokenStream) -> (r: Result<Statement, SyntaxError>)
    ensures
        final(ts).gave_statement(
            old(ts),
            r,
            forever_statement(old(ts).lexemes(), old(ts).index()),
        ),
    decreases remaining(old(ts).lexemes(), old(ts).index()), 13nat,
{
    match parse_statement(ts) {
        Ok(body) => Ok(Statement::Forever(Box::new(body))),
        Err(err) => Err(err),
    }
}

/// Reads a `while` loop, from behind the keyword.
fn parse_while(ts: &mut TokenStream) -> (r: Result<Statement, SyntaxError>)
    ensures
        final(ts).gave_statement(old(ts), r, while_statement(old(ts).lexemes(), old(ts).index())),
    decreases remaining(old(ts).lexemes(), old(ts).index()), 13nat,
{
    let cond = match parse_expression(ts) {
        Ok(cond) => cond,
        Err(err) => {
            return Err(err);
        },
    };
    match parse_statement(ts) {
        Ok(body) => Ok(Statement::While { cond, body: Box::new(body) }),
        Err(err) => Err(err),
    }
}

/// Reads the step of a `for each` loop: the expression behind `by`, if `by` comes
/// next, else the literal 1.
fn parse_step(ts: &mut TokenStream) -> (r: Result<Expression, SyntaxError>)
    ensures
        match step(old(ts).lexemes(), old(ts).index()) {
            Ok((by, n)) => r matches Ok(x) && x@ == by && final(ts).follows(old(ts), n as int),
            Err(f) => r matches Err(err) && err.reports(old(ts), f) && final(ts).same_tokens(
                old(ts),
            ),
        },
{
    if is_keyword_token(ts.peek(), "by") {
        ts.advance();
        parse_expression(ts)
    } else {
        Ok(Expression::Integer(1))
    }
}

/// Reads a `for each` loop, from behind `for`.
fn parse_for_each(ts: &mut TokenStream) -> (r: Result<Statement, SyntaxError>)
    ensures
        final(ts).gave_statement(
            old(ts),
            r,
            for_each_statement(old(ts).lexemes(), old(ts).index()),
        ),
    decreases remaining(old(ts).lexemes(), old(ts).index()), 14nat,
{
    match expect_token(ts, keyword("each"), Expected::Each) {
        Ok(_) => {},
        Err(err) => {
            return Err(err);
        },
    }
    let ident = match expect_name(ts) {
        Ok(ident) => ident,
        Err(err) => {
            return Err(err);
        },
    };
    match expect_token(ts, keyword("in"), Expected::In) {
        Ok(_) => {},
        Err(err) => {
            return Err(err);
        },
    }
    let start = match parse_expression(ts) {
        Ok(start) => start,
        Err(err) => {
            return Err(err);
        },
    };
    parse_range(ts, ident, start)
}

/// Reads a `for each` loop over `ident` from `start` on, from behind the start
/// value: the kind of the range, the end value, the step, and the body.
fn parse_range(ts: &mut TokenStream, ident: String, start: Expression) -> (r: Result<
    Statement,
    SyntaxError,
>)
    ensures
        final(ts).gave_statement(
            old(ts),
            r,
            for_each_range(old(ts).lexemes(), old(ts).index(), ident@, start@),
        ),
    decreases remaining(old(ts).lexemes(), old(ts).index()), 13nat,
{
    let range_type = if is_keyword_token(ts.peek(), "to") {
        RangeKind::To
    } else if is_keyword_token(ts.peek(), "through") {
        RangeKind::Through
    } else {
        return Err(ts.unexpected(Expected::Range));
    };
    ts.advance();
    let end = match parse_expression(ts) {
        Ok(end) => end,
        Err(err) => {
            return Err(err);
        },
    };
    let by = match parse_step(ts) {
        Ok(by) => by,
        Err(err) => {
            return Err(err);
        },
    };
    match parse_statement(ts) {
        Ok(body) => Ok(
            Statement::ForEach { ident, start, end, by, range_type, body: Box::new(body) },
        ),
        Err(err) => Err(err),
    }
}

/// Reads a `return` statement, from behind the keyword.
fn parse_return(ts: &mut TokenStream) -> (r: Result<Statement, SyntaxError>)
    ensures
        final(ts).gave_statement(
            old(ts),
            r,
            return_statement(old(ts).lexemes(), old(ts).index()),
        ),
{
    match parse_expression(ts) {
        Ok(e) => Ok(Statement::Return(e)),
        Err(err) => Err(err),
    }
}

/// Reads the declaration of a variable, from behind `variable`.
fn parse_declare(ts: &mut TokenStream) -> (r: Result<Statement, SyntaxError>)
    ensures
        final(ts).gave_statement(
            old(ts),
            r,
            declare_statement(old(ts).lexemes(), old(ts).index()),
        ),
{
    match expect_name(ts) {
        Ok(ident) => Ok(Statement::Var(ident)),
        Err(err) => Err(err),
    }
}

/// Reads a block, from behind `do` up to `end`.
#[verifier::loop_isolation(false)]
fn parse_do(ts: &mut TokenStream) -> (r: Result<Statement, SyntaxError>)
    ensures
        final(ts).gave_statement(old(ts), r, do_statement(old(ts).lexemes(), old(ts).index())),
    decreases remaining(old(ts).lexemes(), old(ts).index()), 13nat,
{
    let ghost toks = ts.lexemes();
    let ghost start = ts.index();
    let mut stmts: Vec<Statement> = Vec::new();
    loop
        invariant
            ts.same_tokens(old(ts)),
            start <= ts.index(),
            remaining(toks, ts.index()) <= remaining(toks, start),
            block(toks, start) == prepend(
                stmts_view(stmts@),
                ts.index() - start,
                block(toks, ts.index()),
            ),
        decreases remaining(toks, ts.index()),
    {
        let ghost done = stmts_view(stmts@);
        if is_keyword_token(ts.peek(), "end") {
            ts.advance();
            let block = Statement::Do(stmts);
            assert(block@->Do_0 == done);
            return Ok(block);
        }
        let stmt = match parse_statement(ts) {
            Ok(stmt) => stmt,
            Err(err) => {
                return Err(err);
            },
        };
        stmts.push(stmt);
        proof {
            assert(stmts_view(stmts@) == done + seq![stmt@]);
            match block(toks, ts.index()) {
                Ok((rest, _)) => {
                    assert(done + (seq![stmt@] + rest) == (done + seq![stmt@]) + rest);
                },
                Err(_) => {},
            }
        }
    }
}

/// Reads an `if` statement, from behind the keyword.
fn parse_if(ts: &mut TokenStream) -> (r: Result<Statement, SyntaxError>)
    ensures
        final(ts).gave_statement(old(ts), r, if_statement(old(ts).lexemes(), old(ts).index())),
    decreases remaining(old(ts).lexemes(), old(ts).index()), 14nat,
{
    let cond = match parse_expression(ts) {
        Ok(cond) => cond,
        Err(err) => {
            return Err(err);
        },
    };
    match expect_token(ts, keyword("then"), Expected::Then) {
        Ok(_) => {},
        Err(err) => {
            return Err(err);
        },
    }
    let if_clause = match parse_statement(ts) {
        Ok(if_clause) => if_clause,
        Err(err) => {
            return Err(err);
        },
    };
    match parse_else(ts) {
        Ok(else_clause) => Ok(Statement::If { cond, if_clause: Box::new(if_clause), else_clause }),
        Err(err) => Err(err),
    }
}

/// Reads the `else` branch of an `if` statement, if `else` comes next.
fn parse_else(ts: &mut TokenStream) -> (r: Result<Option<Box<Statement>>, SyntaxError>)
    ensures
        match else_clause(old(ts).lexemes(), old(ts).index()) {
            Ok((branch, n)) => {
                &&& r matches Ok(x)
                &&& match branch {
                    Some(s) => x matches Some(y) && y@ == *s,
                    None => x is None,
                }
                &&& final(ts).follows(old(ts), n as int)
            },
            Err(f) => r matches Err(err) && err.reports(old(ts), f) && final(ts).same_tokens(
                old(ts),
            ),
        },
    decreases remaining(old(ts).lexemes(), old(ts).index()), 13nat,
{
    if is_keyword_token(ts.peek(), "else") {
        ts.advance();
        match parse_statement(ts) {
            Ok(else_clause) => Ok(Some(Box::new(else_clause))),
            Err(err) => Err(err),
        }
    } else {
        Ok(None)
    }
}

/// Reads an assignment, from behind `set`.
fn parse_set(ts: &mut TokenStream) -> (r: Result<Statement, SyntaxError>)
    ensures
        final(ts).gave_statement(old(ts), r, set_statement(old(ts).lexemes(), old(ts).index())),
{
    let ident = match expect_name(ts) {
        Ok(ident) => ident,
        Err(err) => {
            return Err(err);
        },
    };
    match expect_token(ts, keyword("to"), Expected::To) {
        Ok(_) => {},
        Err(err) => {
            return Err(err);
        },
    }
    match parse_expression(ts) {
        Ok(e) => Ok(Statement::Assign(ident, e)),
        Err(err) => Err(err),
    }
}

/// Reads a `change` statement, from behind the keyword.
fn parse_change(ts: &mut TokenStream) -> (r: Result<Statement, SyntaxError>)
    ensures
        final(ts).gave_statement(
            old(ts),
            r,
            change_statement(old(ts).lexemes(), old(ts).index()),
        ),
{
    let ident = match expect_name(ts) {
        Ok(ident) => ident,
        Err(err) => {
            return Err(err);
        },
    };
    match expect_token(ts, keyword("by"), Expected::By) {
        Ok(_) => {},
        Err(err) => {
            return Err(err);
        },
    }
    match parse_expression(ts) {
        Ok(e) => Ok(Statement::Change(ident, e)),
        Err(err) => Err(err),
    }
}

/// Reads a call that stands as a statement.
fn parse_call(ts: &mut TokenStream) -> (r: Result<Statement, SyntaxError>)
    ensures
        final(ts).gave_statement(old(ts), r, call_statement(old(ts).lexemes(), old(ts).index())),
{
    let function = match expect_name(ts) {
        Ok(function) => function,
        Err(err) => {
            return Err(err);
        },
    };
    match expect_token(ts, Token::Lp(ScanState::empty()), Expected::LeftParen) {
        Ok(_) => {},
        Err(err) => {
            return Err(err);
        },
    }
    match parse_arguments(ts) {
        Ok(arguments) => Ok(Statement::Call { function, arguments }),
        Err(err) => Err(err),
    }
}

/// Reads the signature of a function, if one stands there: `with`, and the names of
/// the parameters in parentheses.
#[verifier::loop_isolation(false)]
fn parse_signature(ts: &mut TokenStream) -> (r: Result<Option<Signature>, SyntaxError>)
    ensures
        final(ts).gave_signature(old(ts), r, signature(old(ts).lexemes(), old(ts).index())),
{
    let ghost toks = ts.lexemes();
    if !is_keyword_token(ts.peek(), "with") {
        return Ok(None);
    }
    ts.advance();
    match expect_token(ts, Token::Lp(ScanState::empty()), Expected::LeftParen) {
        Ok(_) => {},
        Err(err) => {
            return Err(err);
        },
    }
    let ghost start = ts.index();
    let mut names: Vec<String> = Vec::new();
    assert(names_view(names@) == Seq::<Seq<char>>::empty());
    match ts.peek() {
        Token::Rp(_) => {
            ts.advance();
            return Ok(Some(names));
        },
        _ => {},
    }
    loop
        invariant
            ts.same_tokens(old(ts)),
            start <= ts.index(),
            parameters(toks, start) == prepend(
                names_view(names@),
                ts.index() - start,
                parameters(toks, ts.index()),
            ),
        decreases remaining(toks, ts.index()),
    {
        let ghost done = names_view(names@);
        let name = match expect_name(ts) {
            Ok(name) => name,
            Err(err) => {
                return Err(err);
            },
        };
        names.push(name);
        proof {
            assert(names_view(names@) == done + seq![name@]);
            match parameters(toks, ts.index() + 1) {
                Ok((rest, _)) => {
                    assert(done + (seq![name@] + rest) == (done + seq![name@]) + rest);
                },
                Err(_) => {},
            }
        }
        match ts.peek() {
            Token::Rp(_) => {
                ts.advance();
                return Ok(Some(names));
            },
            Token::Comma(_) => {
                ts.advance();
            },
            _ => {
                return Err(ts.unexpected(Expected::Comma));
            },
        }
    }
}

/// Reads a function: `to`, its name, its signature if it has one, and its body.
fn parse_function(ts: &mut TokenStream) -> (r: Result<Function, SyntaxError>)
    ensures
        final(ts).gave_function(old(ts), r, function(old(ts).lexemes(), old(ts).index())),
{
    match expect_token(ts, keyword("to"), Expected::To) {
        Ok(_) => {},
        Err(err) => {
            return Err(err);
        },
    }
    let name = match expect_name(ts) {
        Ok(name) => name,
        Err(err) => {
            return Err(err);
        },
    };
    let signature = match parse_signature(ts) {
        Ok(signature) => signature,
        Err(err) => {
            return Err(err);
        },
    };
    match parse_statement(ts) {
        Ok(code) => Ok(Function { name, signature, code }),
        Err(err) => Err(err),
    }
}

/// The result `r` for the functions behind some tokens, with the functions `done` of
/// those tokens before it.
pub open spec fn after(done: Seq<FunctionView>, r: Result<Seq<FunctionView>, Failure>) -> Result<
    Seq<FunctionView>,
    Failure,
> {
    match r {
        Err(f) => Err(f),
        Ok(rest) => Ok(done + rest),
    }
}

/// Reads a program: all the tokens that `ts` has not read, as function after function.
#[verifier::loop_isolation(false)]
pub fn parse_tokens(ts: &mut TokenStream) -> (r: Result<Program, SyntaxError>)
    ensures
        final(ts).same_tokens(old(ts)),
        match functions(old(ts).lexemes(), old(ts).index()) {
            Ok(fs) => r matches Ok(p) && program_view(p@) == fs && final(ts).index() == old(
                ts,
            ).tokens().len(),
            Err(f) => r matches Err(err) && err.reports(old(ts), f),
        },
{
    let ghost toks = ts.lexemes();
    let ghost start = ts.index();
    let mut program: Vec<Function> = Vec::new();
    loop
        invariant
            ts.same_tokens(old(ts)),
            functions(toks, start) == after(program_view(program@), functions(toks, ts.index())),
        decreases remaining(toks, ts.index()),
    {
        let ghost done = program_view(program@);
        if ts.at_end() {
            return Ok(program);
        }
        let func = match parse_function(ts) {
            Ok(func) => func,
            Err(err) => {
                return Err(err);
            },
        };
        program.push(func);
        proof {
            assert(program_view(program@) == done + seq![func@]);
            match functions(toks, ts.index()) {
                Ok(rest) => {
                    assert(done + (seq![func@] + rest) == (done + seq![func@]) + rest);
                },
                Err(_) => {},
            }
        }
    }
}

/// The token that `scans` holds for index `i` of the tokens of the text `t`: behind
/// the last of them, the end of the text.
pub open spec fn scan_at(t: Seq<char>, scans: Seq<Scan>, i: int) -> Scan {
    if 0 <= i < scans.len() {
        scans[i]
    } else {
        Scan { lexeme: Lexeme::Eof, start: t.len() as int, end: t.len() as int }
    }
}

/// What the tokens `scans` are, without their places.
pub open spec fn lexemes_of(scans: Seq<Scan>) -> Seq<Lexeme> {
    Seq::new(scans.len(), |i: int| scans[i].lexeme)
}

/// Reads the program that the scanner has before it.
///
/// The result is the program that the grammar finds in the tokens of the text before
/// the scanner. If they are no program, it is the first place where the grammar is
/// not met: what was expected, and the token that stands there, with its position
/// in the source.
pub fn parse(scanner: Scanner) -> (r: Result<Program, SyntaxError>)
    ensures
        ({
            let t = scanner.stream();
            let scans = tokens_from(t, 0);
            match program(lexemes_of(scans)) {
                Ok(fs) => r matches Ok(p) && program_view(p@) == fs,
                Err(f) => {
                    &&& r matches Err(err)
                    &&& err.expected == f.expected
                    &&& err.found.is_scan(scanner.place(), t, scan_at(t, scans, f.at))
                },
            }
        }),
{
    let ghost t = scanner.stream();
    let ghost scans = tokens_from(t, 0);
    let (tokens, end) = scanner.into_tokens();
    let mut ts = TokenStream { tokens, end, pos: 0 };
    assert(ts.lexemes() == lexemes_of(scans));
    parse_tokens(&mut ts)
}

} // verus!

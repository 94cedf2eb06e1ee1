use crate::tokens::{Token, TokenV};
use vstd::prelude::*;
use vstd::string::StringExecFns;

verus! {

/// Mathematical image of an identifier node.
pub struct IdentifierV {
    pub token: TokenV,
    pub value: Seq<char>,
}

/// Mathematical image of an integer literal node.
pub struct IntegerLiteralV {
    pub token: TokenV,
    pub value: i64,
}

/// Mathematical image of a prefix expression node.
pub struct PrefixExpressionV {
    pub token: TokenV,
    pub operator: Seq<char>,
    pub right: Box<ExpressionV>,
}

/// Mathematical image of an expression tree.
pub enum ExpressionV {
    Identifier(IdentifierV),
    IntegerLiteral(IntegerLiteralV),
    PrefixExpression(PrefixExpressionV),
}

/// Mathematical image of a let statement.
pub struct LetStatementV {
    pub token: TokenV,
    pub name: IdentifierV,
    pub value: Option<ExpressionV>,
}

/// Mathematical image of a return statement.
pub struct ReturnStatementV {
    pub token: TokenV,
    pub return_value: Option<ExpressionV>,
}

/// Mathematical image of an expression statement.
pub struct ExpressionStatementV {
    pub token: TokenV,
    pub expression: Option<ExpressionV>,
}

/// Mathematical image of a statement.
pub enum StatementV {
    Let(LetStatementV),
    Return(ReturnStatementV),
    Expression(ExpressionStatementV),
}

/// An expression in name position, carrying its token and the name's text.
pub struct Identifier {
    pub token: Token,
    pub value: String,
}

/// An integer literal, carrying its token and the parsed 64-bit value.
pub struct IntegerLiteral {
    pub token: Token,
    pub value: i64,
}

/// A unary prefix application: the operator's token and text, and the operand.
pub struct PrefixExpression {
    pub token: Token,
    pub operator: String,
    pub right: Box<Expression>,
}

/// An expression tree: a closed union of the expression node kinds.
pub enum Expression {
    Identifier(Identifier),
    IntegerLiteral(IntegerLiteral),
    PrefixExpression(PrefixExpression),
}

/// `let <name> = <value>;` — the `let` token, the bound name, and the value
/// expression (absent when its parse failed).
pub struct LetStatement {
    pub token: Token,
    pub name: Identifier,
    pub value: Option<Expression>,
}

/// `return <value>;` — the `return` token and the returned expression (absent
/// when its parse failed).
pub struct ReturnStatement {
    pub token: Token,
    pub return_value: Option<Expression>,
}

/// A bare expression in statement position, with the token that opened it.
pub struct ExpressionStatement {
    pub token: Token,
    pub expression: Option<Expression>,
}

/// A statement: a closed union of the statement node kinds.
pub enum Statement {
    Let(LetStatement),
    Return(ReturnStatement),
    Expression(ExpressionStatement),
}

/// The root of a parse: the statements in source order. The program owns its
/// tree outright; nodes never share children.
pub struct Program {
    pub statements: Vec<Statement>,
}

impl View for Identifier {
    type V = IdentifierV;

    open spec fn view(&self) -> IdentifierV {
        IdentifierV { token: self.token@, value: self.value@ }
    }
}

impl View for IntegerLiteral {
    type V = IntegerLiteralV;

    open spec fn view(&self) -> IntegerLiteralV {
        IntegerLiteralV { token: self.token@, value: self.value }
    }
}

impl View for PrefixExpression {
    type V = PrefixExpressionV;

    open spec fn view(&self) -> PrefixExpressionV
        decreases self,
    {
        PrefixExpressionV {
            token: self.token@,
            operator: self.operator@,
            right: Box::new((*self.right)@),
        }
    }
}

impl View for Expression {
    type V = ExpressionV;

    open spec fn view(&self) -> ExpressionV
        decreases self,
    {
        match self {
            Expression::Identifier(x) => ExpressionV::Identifier(x@),
            Expression::IntegerLiteral(x) => ExpressionV::IntegerLiteral(x@),
            Expression::PrefixExpression(x) => ExpressionV::PrefixExpression(x@),
        }
    }
}

/// The view of an optional expression.
pub open spec fn opt_expr_view(e: Option<Expression>) -> Option<ExpressionV> {
    match e {
        Some(x) => Some(x@),
        None => None,
    }
}

impl View for LetStatement {
    type V = LetStatementV;

    open spec fn view(&self) -> LetStatementV {
        LetStatementV { token: self.token@, name: self.name@, value: opt_expr_view(self.value) }
    }
}

impl View for ReturnStatement {
    type V = ReturnStatementV;

    open spec fn view(&self) -> ReturnStatementV {
        ReturnStatementV { token: self.token@, return_value: opt_expr_view(self.return_value) }
    }
}

impl View for ExpressionStatement {
    type V = ExpressionStatementV;

    open spec fn view(&self) -> ExpressionStatementV {
        ExpressionStatementV { token: self.token@, expression: opt_expr_view(self.expression) }
    }
}

impl View for Statement {
    type V = StatementV;

    open spec fn view(&self) -> StatementV {
        match self {
            Statement::Let(x) => StatementV::Let(x@),
            Statement::Return(x) => StatementV::Return(x@),
            Statement::Expression(x) => StatementV::Expression(x@),
        }
    }
}

impl View for Program {
    type V = Seq<StatementV>;

    open spec fn view(&self) -> Seq<StatementV> {
        Seq::new(self.statements@.len(), |i: int| self.statements@[i]@)
    }
}

/// The literal of the token that introduced an expression.
pub open spec fn expr_token_literal(e: ExpressionV) -> Seq<char> {
    match e {
        ExpressionV::Identifier(x) => x.token.literal,
        ExpressionV::IntegerLiteral(x) => x.token.literal,
        ExpressionV::PrefixExpression(x) => x.token.literal,
    }
}

/// Canonical source-like rendering of an expression; prefix applications are
/// parenthesized so the operator's binding is unambiguous in printed form.
pub open spec fn expr_string(e: ExpressionV) -> Seq<char>
    decreases e,
{
    match e {
        ExpressionV::Identifier(x) => x.value,
        ExpressionV::IntegerLiteral(x) => x.token.literal,
        ExpressionV::PrefixExpression(x) => "("@ + x.operator + expr_string(*x.right) + ")"@,
    }
}

/// Rendering of an optional expression: absent renders as empty text.
pub open spec fn opt_expr_string(e: Option<ExpressionV>) -> Seq<char> {
    match e {
        Some(x) => expr_string(x),
        None => Seq::<char>::empty(),
    }
}

/// The literal of the token that introduced a statement.
pub open spec fn stmt_token_literal(s: StatementV) -> Seq<char> {
    match s {
        StatementV::Let(x) => x.token.literal,
        StatementV::Return(x) => x.token.literal,
        StatementV::Expression(x) => x.token.literal,
    }
}

/// Canonical source-like rendering of a statement.
pub open spec fn stmt_string(s: StatementV) -> Seq<char> {
    match s {
        StatementV::Let(x) => x.token.literal + " "@ + x.name.value + " = "@ + opt_expr_string(
            x.value,
        ) + ";"@,
        StatementV::Return(x) => x.token.literal + " "@ + opt_expr_string(x.return_value) + ";"@,
        StatementV::Expression(x) => opt_expr_string(x.expression),
    }
}

/// The literal of the token that introduced a program: its first statement's,
/// or empty for an empty program.
pub open spec fn program_token_literal(stmts: Seq<StatementV>) -> Seq<char> {
    if stmts.len() > 0 {
        stmt_token_literal(stmts[0])
    } else {
        Seq::<char>::empty()
    }
}

/// Rendering of a program: each statement's rendering in order, with no
/// separator (statements supply their own trailing punctuation).
pub open spec fn program_string(stmts: Seq<StatementV>) -> Seq<char>
    decreases stmts.len(),
{
    if stmts.len() == 0 {
        Seq::<char>::empty()
    } else {
        program_string(stmts.drop_last()) + stmt_string(stmts.last())
    }
}

/// Every AST node reports the literal of the token that introduced it, and
/// renders itself back to canonical source-like text.
pub trait Node {
    /// The literal of this node's originating token.
    spec fn spec_token_literal(&self) -> Seq<char>;

    /// The canonical rendering of this node.
    spec fn spec_string(&self) -> Seq<char>;

    fn token_literal(&self) -> (r: String)
        ensures
            r@ == self.spec_token_literal(),
    ;

    fn string(&self) -> (r: String)
        ensures
            r@ == self.spec_string(),
    ;
}

impl Node for Identifier {
    open spec fn spec_token_literal(&self) -> Seq<char> {
        self@.token.literal
    }

    open spec fn spec_string(&self) -> Seq<char> {
        self@.value
    }

    fn token_literal(&self) -> (r: String) {
        self.token.literal.clone()
    }

    fn string(&self) -> (r: String) {
        self.value.clone()
    }
}

impl Node for IntegerLiteral {
    open spec fn spec_token_literal(&self) -> Seq<char> {
        self@.token.literal
    }

    open spec fn spec_string(&self) -> Seq<char> {
        self@.token.literal
    }

    fn token_literal(&self) -> (r: String) {
        self.token.literal.clone()
    }

    fn string(&self) -> (r: String) {
        self.token.literal.clone()
    }
}

impl Node for PrefixExpression {
    open spec fn spec_token_literal(&self) -> Seq<char> {
        self@.token.literal
    }

    open spec fn spec_string(&self) -> Seq<char> {
        expr_string(ExpressionV::PrefixExpression(self@))
    }

    fn token_literal(&self) -> (r: String) {
        self.token.literal.clone()
    }

    fn string(&self) -> (r: String)
        decreases *self,
    {
        let mut out = "(".to_owned();
        out.append(self.operator.as_str());
        let rs = self.right.string();
        out.append(rs.as_str());
        out.append(")");
        proof {
            assert(out@ =~= self.spec_string());
        }
        out
    }
}

impl Node for Expression {
    open spec fn spec_token_literal(&self) -> Seq<char> {
        expr_token_literal(self@)
    }

    open spec fn spec_string(&self) -> Seq<char> {
        expr_string(self@)
    }

    fn token_literal(&self) -> (r: String) {
        match self {
            Expression::Identifier(x) => x.token_literal(),
            Expression::IntegerLiteral(x) => x.token_literal(),
            Expression::PrefixExpression(x) => x.token_literal(),
        }
    }

    fn string(&self) -> (r: String)
        decreases *self,
    {
        match self {
            Expression::Identifier(x) => x.string(),
            Expression::IntegerLiteral(x) => x.string(),
            Expression::PrefixExpression(x) => x.string(),
        }
    }
}

impl Node for LetStatement {
    open spec fn spec_token_literal(&self) -> Seq<char> {
        self@.token.literal
    }

    open spec fn spec_string(&self) -> Seq<char> {
        stmt_string(StatementV::Let(self@))
    }

    fn token_literal(&self) -> (r: String) {
        self.token.literal.clone()
    }

    fn string(&self) -> (r: String) {
        let mut out = self.token_literal();
        out.append(" ");
        let ns = self.name.string();
        out.append(ns.as_str());
        out.append(" = ");
        match &self.value {
            Some(value) => {
                let vs = value.string();
                out.append(vs.as_str());
            },
            None => {},
        }
        out.append(";");
        proof {
            assert(out@ =~= self.spec_string());
        }
        out
    }
}

impl Node for ReturnStatement {
    open spec fn spec_token_literal(&self) -> Seq<char> {
        self@.token.literal
    }

    open spec fn spec_string(&self) -> Seq<char> {
        stmt_string(StatementV::Return(self@))
    }

    fn token_literal(&self) -> (r: String) {
        self.token.literal.clone()
    }

    fn string(&self) -> (r: String) {
        let mut out = self.token_literal();
        out.append(" ");
        match &self.return_value {
            Some(value) => {
                let vs = value.string();
                out.append(vs.as_str());
            },
            None => {},
        }
        out.append(";");
        proof {
            assert(out@ =~= self.spec_string());
        }
        out
    }
}

impl Node for ExpressionStatement {
    open spec fn spec_token_literal(&self) -> Seq<char> {
        self@.token.literal
    }

    open spec fn spec_string(&self) -> Seq<char> {
        stmt_string(StatementV::Expression(self@))
    }

    fn token_literal(&self) -> (r: String) {
        self.token.literal.clone()
    }

    fn string(&self) -> (r: String) {
        match &self.expression {
            Some(expr) => expr.string(),
            None => String::new(),
        }
    }
}

impl Node for Statement {
    open spec fn spec_token_literal(&self) -> Seq<char> {
        stmt_token_literal(self@)
    }

    open spec fn spec_string(&self) -> Seq<char> {
        stmt_string(self@)
    }

    fn token_literal(&self) -> (r: String) {
        match self {
            Statement::Let(x) => x.token_literal(),
            Statement::Return(x) => x.token_literal(),
            Statement::Expression(x) => x.token_literal(),
        }
    }

    fn string(&self) -> (r: String) {
        match self {
            Statement::Let(x) => x.string(),
            Statement::Return(x) => x.string(),
            Statement::Expression(x) => x.string(),
        }
    }
}

impl Node for Program {
    open spec fn spec_token_literal(&self) -> Seq<char> {
        program_token_literal(self@)
    }

    open spec fn spec_string(&self) -> Seq<char> {
        program_string(self@)
    }

    fn token_literal(&self) -> (r: String) {
        if self.statements.len() > 0 {
            self.statements[0].token_literal()
        } else {
            String::new()
        }
    }

    fn string(&self) -> (r: String) {
        let mut out = String::new();
        let n = self.statements.len();
        let mut i: usize = 0;
        while i < n
            invariant
                n == self.statements@.len(),
                i <= n,
                out@ == program_string(self@.take(i as int)),
            decreases n - i,
        {
            let s = self.statements[i].string();
            out.append(s.as_str());
            proof {
                assert(self@.take(i + 1).drop_last() =~= self@.take(i as int));
                assert(self@.take(i + 1).last() == self@[i as int]);
            }
            i = i + 1;
        }
        proof {
            assert(self@.take(n as int) =~= self@);
        }
        out
    }
}

/// Round trip for let/identifier programs: a `let` statement whose token is
/// the `let` keyword and whose value is an identifier renders back to the
/// canonical source form "let <name> = <value>;", and a one-statement program
/// renders to exactly its statement's text.
pub proof fn lemma_let_round_trip(st: StatementV, name: Seq<char>, value: Seq<char>)
    requires
        st matches StatementV::Let(ls) && ls.token.literal == "let"@ && ls.name.value == name && (
        ls.value matches Some(v) && v matches ExpressionV::Identifier(id) && id.value == value),
    ensures
        stmt_string(st) == "let "@ + name + " = "@ + value + ";"@,
        program_string(seq![st]) == stmt_string(st),
{
    reveal_strlit("let");
    reveal_strlit(" ");
    reveal_strlit("let ");
    assert("let"@ + " "@ =~= "let "@);
    assert(stmt_string(st) =~= "let "@ + name + " = "@ + value + ";"@);
    assert(seq![st].drop_last() =~= Seq::<StatementV>::empty());
    assert(seq![st].last() == st);
    assert(program_string(Seq::<StatementV>::empty()) == Seq::<char>::empty());
    assert(program_string(seq![st]) == Seq::<char>::empty() + stmt_string(st));
    assert(Seq::<char>::empty() + stmt_string(st) =~= stmt_string(st));
}

} // verus!

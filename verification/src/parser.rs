use crate::ast::{
    opt_expr_view, Expression, ExpressionStatement, ExpressionStatementV, ExpressionV, Identifier,
    IdentifierV, IntegerLiteral, IntegerLiteralV, LetStatement, LetStatementV, PrefixExpression,
    PrefixExpressionV, Program, ReturnStatement, ReturnStatementV, Statement, StatementV,
};
use crate::lexer::{lex_step, Lexer};
use crate::tokens::{spec_token_type_name, token_type_name, Token, TokenType, TokenV};
use vstd::prelude::*;
use vstd::string::{StrSliceExecFns, StringExecFns};

verus! {

/// Precedence ranks, lowest to highest binding power. This ordering is the
/// single source of truth for how operators bind; prefix operators bind
/// tighter than any binary operator.
pub const LOWEST: u8 = 1;

/// `==` and `!=`.
pub const EQUALS: u8 = 2;

/// `<` and `>`.
pub const LESS_GREATER: u8 = 3;

/// `+` and `-`.
pub const SUM: u8 = 4;

/// `*` and `/`.
pub const PRODUCT: u8 = 5;

/// Unary `!` and `-`.
pub const PREFIX: u8 = 6;

/// Function application.
pub const CALL: u8 = 7;

/// The parser's mathematical state: the input bytes, the lexer's cursor, and
/// the two buffered tokens (the one under examination and one of lookahead).
pub struct ParserV {
    pub input: Seq<u8>,
    pub pos: int,
    pub cur: TokenV,
    pub peek: TokenV,
}

/// The cursor sits inside the input.
pub open spec fn state_ok(s: ParserV) -> bool {
    0 <= s.pos <= s.input.len()
}

/// Shifts the lookahead token into current position and pulls one new token
/// from the lexer.
pub open spec fn spec_advance(s: ParserV) -> ParserV {
    let step = lex_step(s.input, s.pos);
    ParserV { input: s.input, pos: step.pos, cur: s.peek, peek: step.token }
}

/// A token still to be digested counts one; `Eof` counts nothing.
pub open spec fn token_weight(t: TokenV) -> int {
    if t.token_type == TokenType::Eof {
        0
    } else {
        1
    }
}

/// How much undigested material the parser still faces: the unread input plus
/// the buffered non-`Eof` tokens. Every advance over a non-`Eof` current
/// token makes it strictly smaller.
pub open spec fn state_measure(s: ParserV) -> int {
    s.input.len() - s.pos + token_weight(s.cur) + token_weight(s.peek)
}

/// Advancing keeps the cursor inside the input and consumes the weight of the
/// token it digests.
pub proof fn lemma_advance(s: ParserV)
    requires
        state_ok(s),
    ensures
        state_ok(spec_advance(s)),
        state_measure(spec_advance(s)) <= state_measure(s) - token_weight(s.cur),
{
    crate::lexer::lemma_lex_step_bounds(s.input, s.pos);
}

/// Diagnostic for a lookahead mismatch, naming expected and actual kinds.
pub open spec fn spec_peek_error(expected: TokenType, got: TokenType) -> Seq<char> {
    "expected next token to be "@ + spec_token_type_name(expected) + ", got "@
        + spec_token_type_name(got) + " instead"@
}

/// Diagnostic for an expression-starting token with no prefix handler.
pub open spec fn spec_no_prefix_error(t: TokenType) -> Seq<char> {
    "no prefix parse function for "@ + spec_token_type_name(t) + " found"@
}

/// Diagnostic for an integer literal whose text does not fit an i64.
pub open spec fn spec_int_error(literal: Seq<char>) -> Seq<char> {
    "could not parse "@ + literal + " as integer"@
}

/// A decimal digit character.
pub open spec fn is_digit_char(c: char) -> bool {
    '0' <= c && c <= '9'
}

/// Every character of the text is a decimal digit.
pub open spec fn all_digits(s: Seq<char>) -> bool {
    forall|i: int| 0 <= i < s.len() ==> is_digit_char(#[trigger] s[i])
}

/// The numeric value of a digit character.
pub open spec fn digit_value(c: char) -> int {
    (c as u32) - ('0' as u32)
}

/// The value of a digit string read in base ten.
pub open spec fn digits_value(s: Seq<char>) -> int
    decreases s.len(),
{
    if s.len() == 0 {
        0
    } else {
        digits_value(s.drop_last()) * 10 + digit_value(s.last())
    }
}

/// What "parse this literal as a 64-bit signed integer" returns: the base-ten
/// value of a non-empty all-digit string when it fits an i64, nothing
/// otherwise.
pub open spec fn spec_parse_i64(s: Seq<char>) -> Option<i64> {
    if s.len() > 0 && all_digits(s) && digits_value(s) <= i64::MAX {
        Some(digits_value(s) as i64)
    } else {
        None
    }
}

proof fn lemma_digits_value_nonneg(s: Seq<char>)
    requires
        all_digits(s),
    ensures
        digits_value(s) >= 0,
    decreases s.len(),
{
    if s.len() > 0 {
        assert(all_digits(s.drop_last()));
        lemma_digits_value_nonneg(s.drop_last());
        assert(is_digit_char(s.last()));
    }
}

/// The value of a digit string dominates the value of each of its prefixes.
proof fn lemma_digits_value_monotone(s: Seq<char>, j: int)
    requires
        all_digits(s),
        0 <= j <= s.len(),
    ensures
        digits_value(s.take(j)) <= digits_value(s),
    decreases s.len() - j,
{
    if j < s.len() {
        assert(s.take(j + 1).drop_last() =~= s.take(j));
        assert(s.take(j + 1).last() == s[j]);
        assert(all_digits(s.take(j)));
        lemma_digits_value_nonneg(s.take(j));
        assert(is_digit_char(s[j]));
        assert(digits_value(s.take(j + 1)) >= digits_value(s.take(j)));
        lemma_digits_value_monotone(s, j + 1);
    } else {
        assert(s.take(j) =~= s);
    }
}

/// Parses a run of decimal digits as an i64: rejects empty text, any
/// non-digit character, and values beyond i64::MAX.
fn parse_i64_digits(s: &str) -> (r: Option<i64>)
    ensures
        r == spec_parse_i64(s@),
{
    let n = s.unicode_len();
    if n == 0 {
        return None;
    }
    let mut value: i64 = 0;
    let mut i: usize = 0;
    while i < n
        invariant
            n == s@.len(),
            i <= n,
            all_digits(s@.take(i as int)),
            0 <= value,
            value == digits_value(s@.take(i as int)),
        decreases n - i,
    {
        let c = s.get_char(i);
        let u = c as u32;
        if u < ('0' as u32) || u > ('9' as u32) {
            assert(!is_digit_char(s@[i as int]));
            return None;
        }
        let d = (u - ('0' as u32)) as i64;
        if value > (i64::MAX - d) / 10 {
            proof {
                assert(s@.take(i + 1).drop_last() =~= s@.take(i as int));
                assert(s@.take(i + 1).last() == s@[i as int]);
                assert(digits_value(s@.take(i + 1)) > i64::MAX);
                if s@.len() > 0 && all_digits(s@) && digits_value(s@) <= i64::MAX {
                    lemma_digits_value_monotone(s@, i + 1);
                }
            }
            return None;
        }
        proof {
            assert(s@.take(i + 1).drop_last() =~= s@.take(i as int));
            assert(s@.take(i + 1).last() == s@[i as int]);
        }
        value = value * 10 + d;
        i = i + 1;
    }
    proof {
        assert(s@.take(n as int) =~= s@);
    }
    Some(value)
}

/// The view of an optional statement.
pub open spec fn opt_stmt_view(s: Option<Statement>) -> Option<StatementV> {
    match s {
        Some(x) => Some(x@),
        None => None,
    }
}

/// What parsing an expression at the current token yields: the expression (if
/// a prefix handler exists and succeeds), the diagnostics recorded, and the
/// parser state after it. The precedence argument of the executable parser
/// does not appear: with no infix handler registered for the covered grammar,
/// the climbing loop never folds, so precedence cannot change the result.
pub open spec fn spec_parse_expression(s: ParserV) -> (Option<ExpressionV>, Seq<Seq<char>>, ParserV)
    decreases state_measure(s), 1int,
        when state_ok(s)
{
    match s.cur.token_type {
        TokenType::Ident => (
            Some(ExpressionV::Identifier(IdentifierV { token: s.cur, value: s.cur.literal })),
            Seq::<Seq<char>>::empty(),
            s,
        ),
        TokenType::Int => match spec_parse_i64(s.cur.literal) {
            Some(v) => (
                Some(ExpressionV::IntegerLiteral(IntegerLiteralV { token: s.cur, value: v })),
                Seq::<Seq<char>>::empty(),
                s,
            ),
            None => (None, seq![spec_int_error(s.cur.literal)], s),
        },
        TokenType::Bang => spec_parse_prefix_expression(s),
        TokenType::Minus => spec_parse_prefix_expression(s),
        _ => (None, seq![spec_no_prefix_error(s.cur.token_type)], s),
    }
}

/// What parsing a prefix expression yields: the operator token is consumed,
/// the operand is parsed at `PREFIX` precedence, and the node is built only
/// when the operand parse produced an expression.
pub open spec fn spec_parse_prefix_expression(s: ParserV) -> (
    Option<ExpressionV>,
    Seq<Seq<char>>,
    ParserV,
)
    decreases state_measure(s), 0int,
        when state_ok(s) && s.cur.token_type != TokenType::Eof
{
    let s1 = spec_advance(s);
    proof {
        lemma_advance(s);
    }
    let (right, errs, s2) = spec_parse_expression(s1);
    match right {
        Some(r) => (
            Some(
                ExpressionV::PrefixExpression(
                    PrefixExpressionV {
                        token: s.cur,
                        operator: s.cur.literal,
                        right: Box::new(r),
                    },
                ),
            ),
            errs,
            s2,
        ),
        None => (None, errs, s2),
    }
}

/// What parsing a `let` statement yields: `let` must be followed by an
/// identifier and then an assign (else the mismatch is recorded and no node
/// returned); the right-hand side is parsed as a full expression and a
/// trailing semicolon is consumed when present.
pub open spec fn spec_parse_let_statement(s: ParserV) -> (
    Option<StatementV>,
    Seq<Seq<char>>,
    ParserV,
) {
    if s.peek.token_type != TokenType::Ident {
        (None, seq![spec_peek_error(TokenType::Ident, s.peek.token_type)], s)
    } else {
        let s1 = spec_advance(s);
        if s1.peek.token_type != TokenType::Assign {
            (None, seq![spec_peek_error(TokenType::Assign, s1.peek.token_type)], s1)
        } else {
            let s2 = spec_advance(s1);
            let s3 = spec_advance(s2);
            let (value, errs, s4) = spec_parse_expression(s3);
            let s5 = if s4.peek.token_type == TokenType::Semicolon {
                spec_advance(s4)
            } else {
                s4
            };
            (
                Some(
                    StatementV::Let(
                        LetStatementV {
                            token: s.cur,
                            name: IdentifierV { token: s1.cur, value: s1.cur.literal },
                            value,
                        },
                    ),
                ),
                errs,
                s5,
            )
        }
    }
}

/// What parsing a `return` statement yields: the return value is parsed as a
/// full expression and a trailing semicolon is consumed when present.
pub open spec fn spec_parse_return_statement(s: ParserV) -> (
    Option<StatementV>,
    Seq<Seq<char>>,
    ParserV,
) {
    let s1 = spec_advance(s);
    let (return_value, errs, s2) = spec_parse_expression(s1);
    let s3 = if s2.peek.token_type == TokenType::Semicolon {
        spec_advance(s2)
    } else {
        s2
    };
    (Some(StatementV::Return(ReturnStatementV { token: s.cur, return_value })), errs, s3)
}

/// What parsing an expression statement yields: one expression at `LOWEST`
/// precedence, then an optional trailing semicolon.
pub open spec fn spec_parse_expression_statement(s: ParserV) -> (
    Option<StatementV>,
    Seq<Seq<char>>,
    ParserV,
) {
    let (expression, errs, s1) = spec_parse_expression(s);
    let s2 = if s1.peek.token_type == TokenType::Semicolon {
        spec_advance(s1)
    } else {
        s1
    };
    (Some(StatementV::Expression(ExpressionStatementV { token: s.cur, expression })), errs, s2)
}

/// Statement dispatch: `let` and `return` have their own grammars; everything
/// else is an expression statement (the default, not an error).
pub open spec fn spec_parse_statement(s: ParserV) -> (Option<StatementV>, Seq<Seq<char>>, ParserV) {
    match s.cur.token_type {
        TokenType::Let => spec_parse_let_statement(s),
        TokenType::Return => spec_parse_return_statement(s),
        _ => spec_parse_expression_statement(s),
    }
}

/// Expression parsing leaves the measure no larger, and strictly smaller
/// whenever it moved at all.
pub proof fn lemma_parse_expression_measure(s: ParserV)
    requires
        state_ok(s),
    ensures
        ({
            let (e, errs, s1) = spec_parse_expression(s);
            &&& state_ok(s1)
            &&& state_measure(s1) <= state_measure(s)
            &&& s1 == s || state_measure(s1) < state_measure(s)
        }),
    decreases state_measure(s),
{
    match s.cur.token_type {
        TokenType::Bang => {
            lemma_advance(s);
            lemma_parse_expression_measure(spec_advance(s));
        },
        TokenType::Minus => {
            lemma_advance(s);
            lemma_parse_expression_measure(spec_advance(s));
        },
        _ => {},
    }
}

/// Parsing one statement leaves the measure no larger; if the statement's
/// first token was real (not `Eof`), advancing past the statement afterwards
/// is a strict decrease.
pub proof fn lemma_parse_statement_measure(s: ParserV)
    requires
        state_ok(s),
    ensures
        ({
            let (st, errs, s1) = spec_parse_statement(s);
            &&& state_ok(s1)
            &&& state_ok(spec_advance(s1))
            &&& state_measure(s1) <= state_measure(s)
            &&& s.cur.token_type != TokenType::Eof ==> state_measure(spec_advance(s1))
                < state_measure(s)
        }),
{
    let (st, errs, s1) = spec_parse_statement(s);
    match s.cur.token_type {
        TokenType::Let => {
            if s.peek.token_type != TokenType::Ident {
                lemma_advance(s);
            } else {
                lemma_advance(s);
                let t1 = spec_advance(s);
                if t1.peek.token_type != TokenType::Assign {
                    lemma_advance(t1);
                } else {
                    lemma_advance(t1);
                    let t2 = spec_advance(t1);
                    lemma_advance(t2);
                    let t3 = spec_advance(t2);
                    lemma_parse_expression_measure(t3);
                    let (value, errs0, t4) = spec_parse_expression(t3);
                    lemma_advance(t4);
                }
            }
        },
        TokenType::Return => {
            lemma_advance(s);
            let t1 = spec_advance(s);
            lemma_parse_expression_measure(t1);
            let (rv, errs0, t2) = spec_parse_expression(t1);
            lemma_advance(t2);
        },
        _ => {
            lemma_parse_expression_measure(s);
            let (e, errs0, t1) = spec_parse_expression(s);
            lemma_advance(t1);
            if s.cur.token_type != TokenType::Eof {
                lemma_advance(spec_advance(t1));
            }
        },
    }
    lemma_advance(s1);
}

/// What parsing a whole program yields: statements are parsed until the
/// current token is `Eof`; statements that could not be completed contribute
/// nothing but their diagnostics; no error stops the loop.
pub open spec fn spec_parse_program(s: ParserV) -> (Seq<StatementV>, Seq<Seq<char>>, ParserV)
    decreases state_measure(s),
        when state_ok(s)
{
    if s.cur.token_type == TokenType::Eof {
        (Seq::<StatementV>::empty(), Seq::<Seq<char>>::empty(), s)
    } else {
        let (st, errs1, s1) = spec_parse_statement(s);
        let s2 = spec_advance(s1);
        proof {
            lemma_parse_statement_measure(s);
        }
        let (stmts, errs2, s3) = spec_parse_program(s2);
        let all = match st {
            Some(x) => seq![x] + stmts,
            None => stmts,
        };
        (all, errs1 + errs2, s3)
    }
}

/// Recursive-descent statement parser with Pratt-style expression dispatch
/// over a pulled token stream: `cur_token` is under examination, `peek_token`
/// is one token of lookahead, and `errors` accumulates diagnostics — it only
/// grows, and no syntax error stops the parse.
pub struct Parser {
    pub lexer: Lexer,
    pub cur_token: Token,
    pub peek_token: Token,
    pub errors: Vec<String>,
}

impl View for Parser {
    type V = ParserV;

    open spec fn view(&self) -> ParserV {
        ParserV {
            input: self.lexer.input@,
            pos: self.lexer.position as int,
            cur: self.cur_token@,
            peek: self.peek_token@,
        }
    }
}

impl Parser {
    /// The parser is usable: its lexer's invariant holds.
    pub open spec fn wf(&self) -> bool {
        self.lexer.wf()
    }

    pub fn new(lexer: Lexer) -> (p: Parser)
        requires
            lexer.wf(),
        ensures
            p.wf(),
            p.errors@ == Seq::<String>::empty(),
            p@ == spec_advance(
                spec_advance(
                    ParserV {
                        input: lexer.input@,
                        pos: lexer.position as int,
                        cur: TokenV {
                            token_type: TokenType::Illegal,
                            literal: Seq::<char>::empty(),
                        },
                        peek: TokenV {
                            token_type: TokenType::Illegal,
                            literal: Seq::<char>::empty(),
                        },
                    },
                ),
            ),
    {
        let mut parser = Parser {
            lexer,
            cur_token: Token::new(TokenType::Illegal, String::new()),
            peek_token: Token::new(TokenType::Illegal, String::new()),
            errors: Vec::new(),
        };
        parser.next_token();
        parser.next_token();
        parser
    }

    /// Shifts the lookahead token into current position and pulls one new
    /// token from the lexer.
    pub fn next_token(&mut self)
        requires
            old(self).wf(),
        ensures
            final(self).wf(),
            final(self)@ == spec_advance(old(self)@),
            final(self).errors == old(self).errors,
    {
        self.cur_token = self.peek_token.clone();
        self.peek_token = self.lexer.next_token();
    }

    /// The diagnostics recorded so far, in the order they were found.
    pub fn errors(&self) -> (r: &Vec<String>)
        ensures
            *r == self.errors,
    {
        &self.errors
    }

    fn cur_token_is(&self, token_type: TokenType) -> (b: bool)
        ensures
            b == (self@.cur.token_type == token_type),
    {
        self.cur_token.token_type == token_type
    }

    fn peek_token_is(&self, token_type: TokenType) -> (b: bool)
        ensures
            b == (self@.peek.token_type == token_type),
    {
        self.peek_token.token_type == token_type
    }

    /// Records that the grammar required `token_type` next but the lookahead
    /// holds something else.
    fn peek_error(&mut self, token_type: TokenType)
        requires
            old(self).wf(),
        ensures
            final(self).wf(),
            final(self)@ == old(self)@,
            final(self).errors.deep_view() == old(self).errors.deep_view() + seq![
                spec_peek_error(token_type, old(self)@.peek.token_type),
            ],
    {
        let mut msg = "expected next token to be ".to_owned();
        let expected_name = token_type_name(token_type);
        msg.append(expected_name.as_str());
        msg.append(", got ");
        let got_name = token_type_name(self.peek_token.token_type);
        msg.append(got_name.as_str());
        msg.append(" instead");
        proof {
            assert(msg@ =~= spec_peek_error(token_type, old(self)@.peek.token_type));
        }
        self.errors.push(msg);
        proof {
            assert(self.errors.deep_view() =~= old(self).errors.deep_view() + seq![
                spec_peek_error(token_type, old(self)@.peek.token_type),
            ]);
        }
    }

    /// Records that no prefix handler is registered for `token_type`.
    fn no_prefix_parse_fn_error(&mut self, token_type: TokenType)
        requires
            old(self).wf(),
        ensures
            final(self).wf(),
            final(self)@ == old(self)@,
            final(self).errors.deep_view() == old(self).errors.deep_view() + seq![
                spec_no_prefix_error(token_type),
            ],
    {
        let mut msg = "no prefix parse function for ".to_owned();
        let name = token_type_name(token_type);
        msg.append(name.as_str());
        msg.append(" found");
        proof {
            assert(msg@ =~= spec_no_prefix_error(token_type));
        }
        self.errors.push(msg);
        proof {
            assert(self.errors.deep_view() =~= old(self).errors.deep_view() + seq![
                spec_no_prefix_error(token_type),
            ]);
        }
    }

    /// Advances when the lookahead has the required kind; otherwise records
    /// the mismatch and stays put, so the caller abandons the statement.
    fn expect_peek(&mut self, token_type: TokenType) -> (b: bool)
        requires
            old(self).wf(),
        ensures
            final(self).wf(),
            b == (old(self)@.peek.token_type == token_type),
            b ==> final(self)@ == spec_advance(old(self)@) && final(self).errors == old(
                self,
            ).errors,
            !b ==> final(self)@ == old(self)@ && final(self).errors.deep_view() == old(
                self,
            ).errors.deep_view() + seq![spec_peek_error(token_type, old(self)@.peek.token_type)],
    {
        if self.peek_token_is(token_type) {
            self.next_token();
            true
        } else {
            self.peek_error(token_type);
            false
        }
    }

    fn parse_identifier(&self) -> (e: Expression)
        ensures
            e@ == ExpressionV::Identifier(
                IdentifierV { token: self@.cur, value: self@.cur.literal },
            ),
    {
        Expression::Identifier(
            Identifier { token: self.cur_token.clone(), value: self.cur_token.literal.clone() },
        )
    }

    /// Parses the current `Int` token's text as a 64-bit signed integer; a
    /// conversion failure records a diagnostic and yields no expression.
    fn parse_integer_literal(&mut self) -> (r: Option<Expression>)
        requires
            old(self).wf(),
        ensures
            final(self).wf(),
            final(self)@ == old(self)@,
            ({
                let s = old(self)@;
                match spec_parse_i64(s.cur.literal) {
                    Some(v) => opt_expr_view(r) == Some(
                        ExpressionV::IntegerLiteral(IntegerLiteralV { token: s.cur, value: v }),
                    ) && final(self).errors == old(self).errors,
                    None => r is None && final(self).errors.deep_view() == old(
                        self,
                    ).errors.deep_view() + seq![spec_int_error(s.cur.literal)],
                }
            }),
    {
        let parsed = parse_i64_digits(self.cur_token.literal.as_str());
        match parsed {
            Some(value) => Some(
                Expression::IntegerLiteral(
                    IntegerLiteral { token: self.cur_token.clone(), value },
                ),
            ),
            None => {
                let mut msg = "could not parse ".to_owned();
                msg.append(self.cur_token.literal.as_str());
                msg.append(" as integer");
                proof {
                    assert(msg@ =~= spec_int_error(old(self)@.cur.literal));
                }
                self.errors.push(msg);
                proof {
                    assert(self.errors.deep_view() =~= old(self).errors.deep_view() + seq![
                        spec_int_error(old(self)@.cur.literal),
                    ]);
                }
                None
            },
        }
    }

    /// Pratt-style expression parsing: look up the prefix handler for the
    /// current token's kind and let it build the expression; an unhandled
    /// kind records a diagnostic and yields nothing. The precedence argument
    /// governs the infix climbing loop, an extension point: no infix handler
    /// is registered for the covered grammar, so the loop never folds and the
    /// prefix result is the whole expression.
    fn parse_expression(&mut self, precedence: u8) -> (r: Option<Expression>)
        requires
            old(self).wf(),
        ensures
            final(self).wf(),
            ({
                let (e, errs, s1) = spec_parse_expression(old(self)@);
                &&& opt_expr_view(r) == e
                &&& final(self)@ == s1
                &&& final(self).errors.deep_view() == old(self).errors.deep_view() + errs
            }),
        decreases state_measure(self@), 1int,
    {
        match self.cur_token.token_type {
            TokenType::Ident => {
                let e = self.parse_identifier();
                proof {
                    lemma_errors_unchanged(self.errors.deep_view());
                }
                Some(e)
            },
            TokenType::Int => {
                let r = self.parse_integer_literal();
                proof {
                    if r is Some {
                        lemma_errors_unchanged(self.errors.deep_view());
                    }
                }
                r
            },
            TokenType::Bang => self.parse_prefix_expression(),
            TokenType::Minus => self.parse_prefix_expression(),
            _ => {
                let t = self.cur_token.token_type;
                self.no_prefix_parse_fn_error(t);
                None
            },
        }
    }

    /// Builds a prefix-expression node: keeps the operator's token and text,
    /// advances, and parses the operand at `PREFIX` precedence, so the prefix
    /// operator binds tighter than any binary operator would.
    fn parse_prefix_expression(&mut self) -> (r: Option<Expression>)
        requires
            old(self).wf(),
            old(self)@.cur.token_type == TokenType::Bang || old(self)@.cur.token_type
                == TokenType::Minus,
        ensures
            final(self).wf(),
            ({
                let (e, errs, s1) = spec_parse_prefix_expression(old(self)@);
                &&& opt_expr_view(r) == e
                &&& final(self)@ == s1
                &&& final(self).errors.deep_view() == old(self).errors.deep_view() + errs
            }),
        decreases state_measure(self@), 0int,
    {
        let token = self.cur_token.clone();
        let operator = self.cur_token.literal.clone();
        self.next_token();
        proof {
            lemma_advance(old(self)@);
        }
        let right = self.parse_expression(PREFIX);
        match right {
            Some(expr) => Some(
                Expression::PrefixExpression(
                    PrefixExpression { token, operator, right: Box::new(expr) },
                ),
            ),
            None => None,
        }
    }

    /// Parses `let IDENT = EXPR;`: the two structural tokens are demanded via
    /// the lookahead protocol (a mismatch records an error and abandons the
    /// statement), the right-hand side is a full expression, and a trailing
    /// semicolon is consumed when present.
    pub fn parse_let_statement(&mut self) -> (r: Option<Statement>)
        requires
            old(self).wf(),
        ensures
            final(self).wf(),
            ({
                let (st, errs, s1) = spec_parse_let_statement(old(self)@);
                &&& opt_stmt_view(r) == st
                &&& final(self)@ == s1
                &&& final(self).errors.deep_view() == old(self).errors.deep_view() + errs
            }),
    {
        let token = self.cur_token.clone();
        if !self.expect_peek(TokenType::Ident) {
            return None;
        }
        let name = Identifier {
            token: self.cur_token.clone(),
            value: self.cur_token.literal.clone(),
        };
        if !self.expect_peek(TokenType::Assign) {
            return None;
        }
        self.next_token();
        let value = self.parse_expression(LOWEST);
        if self.peek_token_is(TokenType::Semicolon) {
            self.next_token();
        }
        Some(Statement::Let(LetStatement { token, name, value }))
    }

    /// Parses `return EXPR;`: the return value is a full expression, and a
    /// trailing semicolon is consumed when present.
    pub fn parse_return_statement(&mut self) -> (r: Option<Statement>)
        requires
            old(self).wf(),
        ensures
            final(self).wf(),
            ({
                let (st, errs, s1) = spec_parse_return_statement(old(self)@);
                &&& opt_stmt_view(r) == st
                &&& final(self)@ == s1
                &&& final(self).errors.deep_view() == old(self).errors.deep_view() + errs
            }),
    {
        let token = self.cur_token.clone();
        self.next_token();
        let return_value = self.parse_expression(LOWEST);
        if self.peek_token_is(TokenType::Semicolon) {
            self.next_token();
        }
        Some(Statement::Return(ReturnStatement { token, return_value }))
    }

    /// Parses a bare expression in statement position; the trailing semicolon
    /// is optional.
    fn parse_expression_statement(&mut self) -> (r: Option<Statement>)
        requires
            old(self).wf(),
        ensures
            final(self).wf(),
            ({
                let (st, errs, s1) = spec_parse_expression_statement(old(self)@);
                &&& opt_stmt_view(r) == st
                &&& final(self)@ == s1
                &&& final(self).errors.deep_view() == old(self).errors.deep_view() + errs
            }),
    {
        let token = self.cur_token.clone();
        let expression = self.parse_expression(LOWEST);
        if self.peek_token_is(TokenType::Semicolon) {
            self.next_token();
        }
        Some(Statement::Expression(ExpressionStatement { token, expression }))
    }

    /// Statement dispatch on the current token's kind; anything that is not
    /// `let` or `return` is an expression statement, the default case, not an
    /// error case.
    pub fn parse_statement(&mut self) -> (r: Option<Statement>)
        requires
            old(self).wf(),
        ensures
            final(self).wf(),
            ({
                let (st, errs, s1) = spec_parse_statement(old(self)@);
                &&& opt_stmt_view(r) == st
                &&& final(self)@ == s1
                &&& final(self).errors.deep_view() == old(self).errors.deep_view() + errs
            }),
    {
        match self.cur_token.token_type {
            TokenType::Let => self.parse_let_statement(),
            TokenType::Return => self.parse_return_statement(),
            _ => self.parse_expression_statement(),
        }
    }

    /// Parses statements until the current token is `Eof` and returns the
    /// program together with every diagnostic recorded on the way: no syntax
    /// error is fatal, the parser always reaches `Eof` and returns whatever
    /// statements it could build.
    pub fn parse_program(&mut self) -> (program: Program)
        requires
            old(self).wf(),
        ensures
            final(self).wf(),
            ({
                let (stmts, errs, s1) = spec_parse_program(old(self)@);
                &&& program@ == stmts
                &&& final(self)@ == s1
                &&& final(self).errors.deep_view() == old(self).errors.deep_view() + errs
            }),
    {
        let mut program = Program { statements: Vec::new() };
        let ghost s0 = self@;
        let ghost e0 = self.errors.deep_view();
        while !self.cur_token_is(TokenType::Eof)
            invariant
                self.wf(),
                program@ + spec_parse_program(self@).0 == spec_parse_program(s0).0,
                self.errors.deep_view() + spec_parse_program(self@).1 == e0 + spec_parse_program(
                    s0,
                ).1,
                spec_parse_program(self@).2 == spec_parse_program(s0).2,
            decreases state_measure(self@),
        {
            let ghost s_iter = self@;
            let ghost e_iter = self.errors.deep_view();
            let ghost p_iter = program@;
            proof {
                lemma_parse_statement_measure(s_iter);
            }
            let stmt = self.parse_statement();
            match stmt {
                Some(stmt) => {
                    program.statements.push(stmt);
                },
                None => {},
            }
            self.next_token();
            proof {
                let (st, errs1, s1) = spec_parse_statement(s_iter);
                let s2 = spec_advance(s1);
                let (rest, errs2, s3) = spec_parse_program(s2);
                assert(self@ == s2);
                // One unfolding of the program parse at the iteration's state.
                assert(spec_parse_program(s_iter).1 == errs1 + errs2);
                assert(spec_parse_program(s_iter).2 == s3);
                match st {
                    Some(x) => {
                        assert(spec_parse_program(s_iter).0 == seq![x] + rest);
                        assert(program@ =~= p_iter + seq![x]);
                        assert(program@ + rest =~= p_iter + spec_parse_program(s_iter).0);
                    },
                    None => {
                        assert(spec_parse_program(s_iter).0 == rest);
                        assert(program@ + rest =~= p_iter + spec_parse_program(s_iter).0);
                    },
                }
                assert(self.errors.deep_view() =~= e_iter + errs1);
                assert(self.errors.deep_view() + errs2 =~= e_iter + (errs1 + errs2));
            }
        }
        proof {
            assert(program@ + Seq::<StatementV>::empty() =~= program@);
            assert(self.errors.deep_view() + Seq::<Seq<char>>::empty() =~= self.errors.deep_view());
        }
        program
    }
}

/// Appending no diagnostics leaves the list as it stands.
proof fn lemma_errors_unchanged(e: Seq<Seq<char>>)
    ensures
        e == e + Seq::<Seq<char>>::empty(),
{
    assert(e =~= e + Seq::<Seq<char>>::empty());
}


/// A well-formed `let` head is always accepted: when the lookahead is an
/// identifier and the token after it an assign, the statement is built, its
/// name is exactly that identifier token's text, and it carries the `let`
/// token itself.
pub proof fn lemma_let_statement_faithful(s: ParserV)
    requires
        state_ok(s),
        s.peek.token_type == TokenType::Ident,
        spec_advance(s).peek.token_type == TokenType::Assign,
    ensures
        ({
            let (st, errs, s1) = spec_parse_let_statement(s);
            st matches Some(x) && x matches StatementV::Let(ls) && ls.token == s.cur
                && ls.name.token == s.peek && ls.name.value == s.peek.literal
        }),
{
}

/// For a `let` statement whose tokens came from the lexer, `token_literal()`
/// is exactly "let", and the bound name is exactly the identifier that
/// followed `let` in the source.
pub proof fn lemma_let_statement_token_literal(input: Seq<u8>, pos: int, s: ParserV)
    requires
        0 <= pos <= input.len(),
        state_ok(s),
        s.cur == lex_step(input, pos).token,
        s.cur.token_type == TokenType::Let,
        s.peek.token_type == TokenType::Ident,
        spec_advance(s).peek.token_type == TokenType::Assign,
    ensures
        ({
            let (st, errs, s1) = spec_parse_let_statement(s);
            st matches Some(x) && x matches StatementV::Let(ls)
                && crate::ast::stmt_token_literal(x) == "let"@ && ls.name.value == s.peek.literal
        }),
{
    crate::lexer::lemma_keyword_literal(input, pos);
    lemma_let_statement_faithful(s);
}

/// A `return` statement always parses to a node carrying the `return` token
/// itself, whatever follows it.
pub proof fn lemma_return_statement_faithful(s: ParserV)
    requires
        state_ok(s),
    ensures
        ({
            let (st, errs, s1) = spec_parse_return_statement(s);
            st matches Some(x) && x matches StatementV::Return(rs) && rs.token == s.cur
        }),
{
}

/// For a `return` statement whose tokens came from the lexer,
/// `token_literal()` is exactly "return".
pub proof fn lemma_return_statement_token_literal(input: Seq<u8>, pos: int, s: ParserV)
    requires
        0 <= pos <= input.len(),
        state_ok(s),
        s.cur == lex_step(input, pos).token,
        s.cur.token_type == TokenType::Return,
    ensures
        ({
            let (st, errs, s1) = spec_parse_return_statement(s);
            st matches Some(x) && crate::ast::stmt_token_literal(x) == "return"@
        }),
{
    crate::lexer::lemma_keyword_literal(input, pos);
}

/// No parse error is fatal: from any state the program parse reaches `Eof`,
/// handing back whatever statements it could build together with the full
/// error list.
pub proof fn lemma_parse_program_reaches_eof(s: ParserV)
    requires
        state_ok(s),
    ensures
        spec_parse_program(s).2.cur.token_type == TokenType::Eof,
        state_ok(spec_parse_program(s).2),
    decreases state_measure(s),
{
    if s.cur.token_type != TokenType::Eof {
        lemma_parse_statement_measure(s);
        let (st, errs1, s1) = spec_parse_statement(s);
        lemma_parse_program_reaches_eof(spec_advance(s1));
    }
}

/// Integer-literal fidelity: an `Int` token whose digit text fits an i64
/// parses to exactly that numeric value, keeps the original token, and
/// records no diagnostic.
pub proof fn lemma_integer_literal_fidelity(s: ParserV)
    requires
        state_ok(s),
        s.cur.token_type == TokenType::Int,
        spec_parse_i64(s.cur.literal) is Some,
    ensures
        ({
            let (e, errs, s1) = spec_parse_expression(s);
            &&& errs == Seq::<Seq<char>>::empty()
            &&& s1 == s
            &&& e matches Some(x) && x matches ExpressionV::IntegerLiteral(il) && il.token == s.cur
                && Some(il.value) == spec_parse_i64(s.cur.literal)
        }),
{
}

} // verus!


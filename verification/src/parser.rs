//! The parser: tokens to an abstract syntax tree, by one-token-lookahead
//! recursive descent with precedence climbing for binary operators.
//!
//! The grammar is specified by the `*_s` spec functions over the token
//! stream model; the executable parser is proved to return exactly their
//! result. The spec functions are total: paths that a well-formed token
//! stream (one that ends in its only end-of-stream token) can never reach
//! return `never_error`, and the executable parser is proved never to
//! take them.

use vstd::prelude::*;

use crate::ast::{exprs_view, function_decl_view, stmts_view, BinOp, Expr, ExprV, FunctionDecl,
    FunctionDeclV, Program, ProgramV, Stmt, StmtV, Type};
use crate::lexer::mk_span;
use crate::token::{kind_name, Span, Token, TokenKind, TokenKindV, TokenV};

verus! {

/// A parse error: either a specific token was expected and another was
/// found, or no expression could start at a span.
#[derive(Debug)]
pub enum ParseError {
    UnexpectedToken { expected: String, found: Token },
    ExpectedExpression { span: Span },
}

/// Model of a parse error.
pub enum ParseErrorV {
    UnexpectedToken { expected: Seq<char>, found: TokenV },
    ExpectedExpression { span: Span },
}

impl View for ParseError {
    type V = ParseErrorV;

    open spec fn view(&self) -> ParseErrorV {
        match self {
            ParseError::UnexpectedToken { expected, found } => ParseErrorV::UnexpectedToken {
                expected: expected@,
                found: found@,
            },
            ParseError::ExpectedExpression { span } => ParseErrorV::ExpectedExpression {
                span: *span,
            },
        }
    }
}

/// A token stream as the lexer hands it over: non-empty, ending in its
/// only end-of-stream token.
pub open spec fn stream_wf(toks: Seq<TokenV>) -> bool {
    &&& toks.len() >= 1
    &&& toks.last().kind is Eof
    &&& forall|i: int| 0 <= i < toks.len() - 1 ==> !((#[trigger] toks[i]).kind is Eof)
}

/// Placeholder error on paths that no well-formed token stream reaches.
pub open spec fn never_error() -> ParseErrorV {
    ParseErrorV::ExpectedExpression { span: mk_span(0, 0) }
}

/// The operator and precedence of a token, for the tokens that are binary
/// operators. Higher number binds tighter: `* /` at 4, `+ -` at 3,
/// `< <= > >=` at 2, `== !=` at 1.
pub open spec fn binop_prec(k: TokenKindV) -> Option<(BinOp, u8)> {
    match k {
        TokenKindV::Star => Some((BinOp::Mul, 4u8)),
        TokenKindV::Slash => Some((BinOp::Div, 4u8)),
        TokenKindV::Plus => Some((BinOp::Add, 3u8)),
        TokenKindV::Minus => Some((BinOp::Sub, 3u8)),
        TokenKindV::Less => Some((BinOp::Lt, 2u8)),
        TokenKindV::LessEqual => Some((BinOp::Le, 2u8)),
        TokenKindV::Greater => Some((BinOp::Gt, 2u8)),
        TokenKindV::GreaterEqual => Some((BinOp::Ge, 2u8)),
        TokenKindV::EqualEqual => Some((BinOp::Eq, 1u8)),
        TokenKindV::NotEqual => Some((BinOp::NotEq, 1u8)),
        _ => None,
    }
}

/// Consuming one token of exactly the kind `k`: the token and the next
/// position, or an "unexpected token" error naming what was expected.
pub open spec fn expect_s(toks: Seq<TokenV>, pos: nat, k: TokenKindV) -> Result<
    (TokenV, nat),
    ParseErrorV,
> {
    if pos >= toks.len() {
        Err(never_error())
    } else {
        let t = toks[pos as int];
        if t.kind == k {
            Ok((t, (pos + 1) as nat))
        } else {
            Err(ParseErrorV::UnexpectedToken { expected: kind_name(k), found: t })
        }
    }
}

/// A primary expression: an integer literal; an identifier, which is a
/// call if followed by `(` and a local read otherwise; or a parenthesized
/// expression.
pub open spec fn parse_primary_s(toks: Seq<TokenV>, pos: nat) -> Result<(ExprV, nat), ParseErrorV>
    decreases toks.len() - pos, 1int,
{
    if pos >= toks.len() {
        Err(never_error())
    } else {
        let t = toks[pos as int];
        match t.kind {
            TokenKindV::Int(v) => Ok((ExprV::Int(v), (pos + 1) as nat)),
            TokenKindV::Ident(name) => {
                if pos + 1 < toks.len() && toks[pos + 1 as int].kind is LParen {
                    match parse_args_s(toks, (pos + 2) as nat) {
                        Err(e) => Err(e),
                        Ok((args, p2)) => match expect_s(toks, p2, TokenKindV::RParen) {
                            Err(e) => Err(e),
                            Ok((_, p3)) => Ok((ExprV::Call { name, args }, p3)),
                        },
                    }
                } else {
                    Ok((ExprV::Local(name), (pos + 1) as nat))
                }
            },
            TokenKindV::LParen => match parse_expr_s(toks, (pos + 1) as nat) {
                Err(e) => Err(e),
                Ok((e, p2)) => match expect_s(toks, p2, TokenKindV::RParen) {
                    Err(err) => Err(err),
                    Ok((_, p3)) => Ok((e, p3)),
                },
            },
            _ => Err(ParseErrorV::ExpectedExpression { span: t.span }),
        }
    }
}

/// Comma-separated call arguments, ending just before the closing `)`.
/// An immediately closing `)` means no arguments.
pub open spec fn parse_args_s(toks: Seq<TokenV>, pos: nat) -> Result<(Seq<ExprV>, nat), ParseErrorV>
    decreases toks.len() - pos, 6int,
{
    if pos >= toks.len() {
        Err(never_error())
    } else if toks[pos as int].kind is RParen {
        Ok((Seq::empty(), pos))
    } else {
        parse_args_loop_s(toks, pos)
    }
}

/// One or more comma-separated call arguments.
pub open spec fn parse_args_loop_s(toks: Seq<TokenV>, pos: nat) -> Result<
    (Seq<ExprV>, nat),
    ParseErrorV,
>
    decreases toks.len() - pos, 5int,
{
    match parse_expr_s(toks, pos) {
        Err(e) => Err(e),
        Ok((arg, p2)) => {
            if p2 < toks.len() && toks[p2 as int].kind is Comma {
                if pos < p2 {
                    match parse_args_loop_s(toks, (p2 + 1) as nat) {
                        Err(e) => Err(e),
                        Ok((rest, p3)) => Ok((seq![arg] + rest, p3)),
                    }
                } else {
                    Err(never_error())
                }
            } else {
                Ok((seq![arg], p2))
            }
        },
    }
}

/// An expression: precedence climbing from the loosest level.
pub open spec fn parse_expr_s(toks: Seq<TokenV>, pos: nat) -> Result<(ExprV, nat), ParseErrorV>
    decreases toks.len() - pos, 4int,
{
    parse_binary_s(toks, pos, 0)
}

/// A binary-operator expression whose operators all bind at least as
/// tightly as `min_prec`.
pub open spec fn parse_binary_s(toks: Seq<TokenV>, pos: nat, min_prec: u8) -> Result<
    (ExprV, nat),
    ParseErrorV,
>
    decreases toks.len() - pos, 3int,
{
    match parse_primary_s(toks, pos) {
        Err(e) => Err(e),
        Ok((lhs, p2)) => {
            if pos < p2 <= toks.len() {
                parse_bin_loop_s(toks, lhs, p2, min_prec)
            } else {
                Err(never_error())
            }
        },
    }
}

/// Folding further operators onto `lhs`, left-associatively: an operator
/// of precedence `prec` at least `min_prec` takes a right operand parsed
/// at minimum precedence `prec + 1`.
pub open spec fn parse_bin_loop_s(toks: Seq<TokenV>, lhs: ExprV, pos: nat, min_prec: u8) -> Result<
    (ExprV, nat),
    ParseErrorV,
>
    decreases toks.len() - pos, 2int,
{
    if pos >= toks.len() {
        Ok((lhs, pos))
    } else {
        match binop_prec(toks[pos as int].kind) {
            None => Ok((lhs, pos)),
            Some((op, prec)) => {
                if prec < min_prec {
                    Ok((lhs, pos))
                } else {
                    match parse_binary_s(toks, (pos + 1) as nat, (prec + 1) as u8) {
                        Err(e) => Err(e),
                        Ok((rhs, p2)) => {
                            if pos < p2 <= toks.len() {
                                parse_bin_loop_s(
                                    toks,
                                    ExprV::Binary { op, left: Box::new(lhs), right: Box::new(rhs) },
                                    p2,
                                    min_prec,
                                )
                            } else {
                                Err(never_error())
                            }
                        },
                    }
                }
            },
        }
    }
}

/// A `let NAME = EXPR ;` statement.
pub open spec fn parse_let_s(toks: Seq<TokenV>, pos: nat) -> Result<(StmtV, nat), ParseErrorV>
    decreases toks.len() - pos, 5int,
{
    match expect_s(toks, pos, TokenKindV::Let) {
        Err(e) => Err(e),
        Ok((_, p1)) => {
            if p1 >= toks.len() {
                Err(never_error())
            } else {
                let t = toks[p1 as int];
                match t.kind {
                    TokenKindV::Ident(name) => match expect_s(
                        toks,
                        (p1 + 1) as nat,
                        TokenKindV::Equal,
                    ) {
                        Err(e) => Err(e),
                        Ok((_, p2)) => match parse_expr_s(toks, p2) {
                            Err(e) => Err(e),
                            Ok((value, p3)) => match expect_s(toks, p3, TokenKindV::Semicolon) {
                                Err(e) => Err(e),
                                Ok((_, p4)) => Ok((StmtV::Let { name, value }, p4)),
                            },
                        },
                    },
                    _ => Err(ParseErrorV::UnexpectedToken { expected: "identifier"@, found: t }),
                }
            }
        },
    }
}

/// A `return [EXPR] ;` statement: omitting the expression yields a
/// "no value" return distinct from an explicit value.
pub open spec fn parse_return_s(toks: Seq<TokenV>, pos: nat) -> Result<(StmtV, nat), ParseErrorV>
    decreases toks.len() - pos, 5int,
{
    match expect_s(toks, pos, TokenKindV::Return) {
        Err(e) => Err(e),
        Ok((_, p1)) => {
            if p1 < toks.len() && toks[p1 as int].kind is Semicolon {
                Ok((StmtV::Return(None), (p1 + 1) as nat))
            } else {
                match parse_expr_s(toks, p1) {
                    Err(e) => Err(e),
                    Ok((e, p2)) => match expect_s(toks, p2, TokenKindV::Semicolon) {
                        Err(err) => Err(err),
                        Ok((_, p3)) => Ok((StmtV::Return(Some(e)), p3)),
                    },
                }
            }
        },
    }
}

/// An `if EXPR BLOCK [else BLOCK]` statement; without source `else` the
/// else-block is empty.
pub open spec fn parse_if_s(toks: Seq<TokenV>, pos: nat) -> Result<(StmtV, nat), ParseErrorV>
    decreases toks.len() - pos, 5int,
{
    match expect_s(toks, pos, TokenKindV::If) {
        Err(e) => Err(e),
        Ok((_, p1)) => match parse_expr_s(toks, p1) {
            Err(e) => Err(e),
            Ok((cond, p2)) => {
                if pos < p2 <= toks.len() {
                    match parse_block_s(toks, p2) {
                        Err(e) => Err(e),
                        Ok((then_block, p3)) => {
                            if p3 < toks.len() && toks[p3 as int].kind is Else {
                                if pos < p3 {
                                    match parse_block_s(toks, (p3 + 1) as nat) {
                                        Err(e) => Err(e),
                                        Ok((else_block, p4)) => Ok(
                                            (StmtV::If { cond, then_block, else_block }, p4),
                                        ),
                                    }
                                } else {
                                    Err(never_error())
                                }
                            } else {
                                Ok(
                                    (
                                        StmtV::If {
                                            cond,
                                            then_block,
                                            else_block: Seq::empty(),
                                        },
                                        p3,
                                    ),
                                )
                            }
                        },
                    }
                } else {
                    Err(never_error())
                }
            },
        },
    }
}

/// A `while EXPR BLOCK` statement.
pub open spec fn parse_while_s(toks: Seq<TokenV>, pos: nat) -> Result<(StmtV, nat), ParseErrorV>
    decreases toks.len() - pos, 5int,
{
    match expect_s(toks, pos, TokenKindV::While) {
        Err(e) => Err(e),
        Ok((_, p1)) => match parse_expr_s(toks, p1) {
            Err(e) => Err(e),
            Ok((cond, p2)) => {
                if pos < p2 <= toks.len() {
                    match parse_block_s(toks, p2) {
                        Err(e) => Err(e),
                        Ok((body, p3)) => Ok((StmtV::While { cond, body }, p3)),
                    }
                } else {
                    Err(never_error())
                }
            },
        },
    }
}

/// A bare expression statement `EXPR ;`.
pub open spec fn parse_expr_stmt_s(toks: Seq<TokenV>, pos: nat) -> Result<(StmtV, nat), ParseErrorV>
    decreases toks.len() - pos, 5int,
{
    match parse_expr_s(toks, pos) {
        Err(e) => Err(e),
        Ok((e, p2)) => match expect_s(toks, p2, TokenKindV::Semicolon) {
            Err(err) => Err(err),
            Ok((_, p3)) => Ok((StmtV::Expr(e), p3)),
        },
    }
}

/// One statement, dispatched on its leading token.
pub open spec fn parse_stmt_s(toks: Seq<TokenV>, pos: nat) -> Result<(StmtV, nat), ParseErrorV>
    decreases toks.len() - pos, 6int,
{
    if pos >= toks.len() {
        Err(never_error())
    } else {
        match toks[pos as int].kind {
            TokenKindV::Let => parse_let_s(toks, pos),
            TokenKindV::Return => parse_return_s(toks, pos),
            TokenKindV::If => parse_if_s(toks, pos),
            TokenKindV::While => parse_while_s(toks, pos),
            _ => parse_expr_stmt_s(toks, pos),
        }
    }
}

/// The statements of a block, up to the closing `}`.
pub open spec fn parse_stmts_s(toks: Seq<TokenV>, pos: nat) -> Result<(Seq<StmtV>, nat), ParseErrorV>
    decreases toks.len() - pos, 7int,
{
    if pos >= toks.len() {
        Err(never_error())
    } else if toks[pos as int].kind is RBrace {
        Ok((Seq::empty(), pos))
    } else {
        match parse_stmt_s(toks, pos) {
            Err(e) => Err(e),
            Ok((s, p2)) => {
                if pos < p2 <= toks.len() {
                    match parse_stmts_s(toks, p2) {
                        Err(e) => Err(e),
                        Ok((rest, p3)) => Ok((seq![s] + rest, p3)),
                    }
                } else {
                    Err(never_error())
                }
            },
        }
    }
}

/// A block: `{` statements `}`.
pub open spec fn parse_block_s(toks: Seq<TokenV>, pos: nat) -> Result<(Seq<StmtV>, nat), ParseErrorV>
    decreases toks.len() - pos, 8int,
{
    match expect_s(toks, pos, TokenKindV::LBrace) {
        Err(e) => Err(e),
        Ok((_, p1)) => match parse_stmts_s(toks, p1) {
            Err(e) => Err(e),
            Ok((stmts, p2)) => match expect_s(toks, p2, TokenKindV::RBrace) {
                Err(e) => Err(e),
                Ok((_, p3)) => Ok((stmts, p3)),
            },
        },
    }
}

/// One or more comma-separated parameter names; ends without consuming
/// the closing `)`.
pub open spec fn parse_params_loop_s(toks: Seq<TokenV>, pos: nat) -> Result<
    (Seq<Seq<char>>, nat),
    ParseErrorV,
>
    decreases toks.len() - pos, 2int,
{
    if pos >= toks.len() {
        Err(never_error())
    } else {
        let t = toks[pos as int];
        match t.kind {
            TokenKindV::Ident(name) => {
                let p2 = (pos + 1) as nat;
                if p2 < toks.len() && toks[p2 as int].kind is Comma {
                    match parse_params_loop_s(toks, (p2 + 1) as nat) {
                        Err(e) => Err(e),
                        Ok((rest, p3)) => Ok((seq![name] + rest, p3)),
                    }
                } else {
                    Ok((seq![name], p2))
                }
            },
            _ => Err(ParseErrorV::UnexpectedToken { expected: "parameter name"@, found: t }),
        }
    }
}

/// The parameter list after `(`: empty before an immediate `)`, else
/// comma-separated names.
pub open spec fn parse_params_s(toks: Seq<TokenV>, pos: nat) -> Result<
    (Seq<Seq<char>>, nat),
    ParseErrorV,
>
    decreases toks.len() - pos, 3int,
{
    if pos >= toks.len() {
        Err(never_error())
    } else if toks[pos as int].kind is RParen {
        Ok((Seq::empty(), pos))
    } else {
        parse_params_loop_s(toks, pos)
    }
}

/// One function declaration: `fn NAME ( params ) [-> Int] BLOCK`.
pub open spec fn parse_function_s(toks: Seq<TokenV>, pos: nat) -> Result<
    (FunctionDeclV, nat),
    ParseErrorV,
>
    decreases toks.len() - pos, 9int,
{
    match expect_s(toks, pos, TokenKindV::Fn) {
        Err(e) => Err(e),
        Ok((_, p1)) => {
            if p1 >= toks.len() {
                Err(never_error())
            } else {
                let t = toks[p1 as int];
                match t.kind {
                    TokenKindV::Ident(name) => match expect_s(
                        toks,
                        (p1 + 1) as nat,
                        TokenKindV::LParen,
                    ) {
                        Err(e) => Err(e),
                        Ok((_, p2)) => match parse_params_s(toks, p2) {
                            Err(e) => Err(e),
                            Ok((params, p3)) => match expect_s(toks, p3, TokenKindV::RParen) {
                                Err(e) => Err(e),
                                Ok((_, p4)) => {
                                    if p4 < toks.len() && toks[p4 as int].kind is Arrow {
                                        match expect_s(toks, (p4 + 1) as nat, TokenKindV::IntType) {
                                            Err(e) => Err(e),
                                            Ok((_, p5)) => {
                                                if pos < p5 <= toks.len() {
                                                    match parse_block_s(toks, p5) {
                                                        Err(e) => Err(e),
                                                        Ok((body, p6)) => Ok(
                                                            (
                                                                FunctionDeclV {
                                                                    name,
                                                                    params,
                                                                    body,
                                                                    return_type: Some(Type::Int),
                                                                },
                                                                p6,
                                                            ),
                                                        ),
                                                    }
                                                } else {
                                                    Err(never_error())
                                                }
                                            },
                                        }
                                    } else {
                                        if pos < p4 <= toks.len() {
                                            match parse_block_s(toks, p4) {
                                                Err(e) => Err(e),
                                                Ok((body, p6)) => Ok(
                                                    (
                                                        FunctionDeclV {
                                                            name,
                                                            params,
                                                            body,
                                                            return_type: None,
                                                        },
                                                        p6,
                                                    ),
                                                ),
                                            }
                                        } else {
                                            Err(never_error())
                                        }
                                    }
                                },
                            },
                        },
                    },
                    _ => Err(ParseErrorV::UnexpectedToken { expected: "identifier"@, found: t }),
                }
            }
        },
    }
}

/// The function declarations of a program, up to the end-of-stream token.
pub open spec fn parse_functions_s(toks: Seq<TokenV>, pos: nat) -> Result<
    (Seq<FunctionDeclV>, nat),
    ParseErrorV,
>
    decreases toks.len() - pos, 10int,
{
    if pos >= toks.len() {
        Err(never_error())
    } else if toks[pos as int].kind is Eof {
        Ok((Seq::empty(), pos))
    } else {
        match parse_function_s(toks, pos) {
            Err(e) => Err(e),
            Ok((f, p2)) => {
                if pos < p2 <= toks.len() {
                    match parse_functions_s(toks, p2) {
                        Err(e) => Err(e),
                        Ok((rest, p3)) => Ok((seq![f] + rest, p3)),
                    }
                } else {
                    Err(never_error())
                }
            },
        }
    }
}

/// A whole program: function declarations until end of stream.
pub open spec fn parse_program_s(toks: Seq<TokenV>, pos: nat) -> Result<
    (ProgramV, nat),
    ParseErrorV,
> {
    match parse_functions_s(toks, pos) {
        Err(e) => Err(e),
        Ok((fs, p)) => Ok((ProgramV { functions: fs }, p)),
    }
}

} // verus!

// The executable parser.

verus! {

/// The model of a token slice: each token's model, in order.
pub open spec fn toks_view(ts: Seq<Token>) -> Seq<TokenV> {
    Seq::new(ts.len(), |i: int| ts[i]@)
}

/// The model of a parameter list.
pub open spec fn params_view(ps: Seq<String>) -> Seq<Seq<char>> {
    ps.map_values(|p: String| p@)
}

/// One-token-lookahead recursive-descent parser over a lexed token slice.
pub struct Parser<'a> {
    tokens: &'a [Token],
    pos: usize,
}

impl<'a> Parser<'a> {
    /// The model of the token stream this parser reads.
    pub closed spec fn toks(&self) -> Seq<TokenV> {
        toks_view(self.tokens@)
    }

    /// The current cursor position.
    pub closed spec fn cursor(&self) -> nat {
        self.pos as nat
    }

    pub fn new(tokens: &'a [Token]) -> (p: Parser<'a>)
        ensures
            p.toks() == toks_view(tokens@),
            p.cursor() == 0,
    {
        Parser { tokens, pos: 0 }
    }

    fn peek(&self) -> (t: &'a Token)
        requires
            self.cursor() < self.toks().len(),
        ensures
            t@ == self.toks()[self.cursor() as int],
    {
        let tokens = self.tokens;
        &tokens[self.pos]
    }

    fn bump(&mut self) -> (t: &'a Token)
        requires
            old(self).cursor() < old(self).toks().len(),
        ensures
            final(self).toks() == old(self).toks(),
            final(self).cursor() == old(self).cursor() + 1,
            t@ == old(self).toks()[old(self).cursor() as int],
    {
        let tokens = self.tokens;
        let t = &tokens[self.pos];
        self.pos = self.pos + 1;
        t
    }

    /// Consumes one token of exactly the given kind, or reports an
    /// "unexpected token" error naming what was expected.
    fn expect(&mut self, kind: TokenKind) -> (r: Result<&'a Token, ParseError>)
        requires
            stream_wf(old(self).toks()),
            old(self).cursor() < old(self).toks().len(),
            !(kind@ is Eof),
        ensures
            final(self).toks() == old(self).toks(),
            final(self).cursor() <= final(self).toks().len(),
            (match r {
                Ok(t) => {
                    &&& expect_s(old(self).toks(), old(self).cursor(), kind@)
                        == Ok::<(TokenV, nat), ParseErrorV>((t@, final(self).cursor()))
                    &&& final(self).cursor() == old(self).cursor() + 1
                    &&& final(self).cursor() < final(self).toks().len()
                },
                Err(e) => expect_s(old(self).toks(), old(self).cursor(), kind@)
                    == Err::<(TokenV, nat), ParseErrorV>(e@),
            }),
    {
        let ghost toks = self.toks();
        let ghost pos0 = self.cursor();
        let t = self.bump();
        if t.kind == kind {
            proof {
                assert(toks[pos0 as int].kind == kind@);
                assert(toks.last().kind is Eof);
                assert(pos0 < toks.len() - 1);
            }
            Ok(t)
        } else {
            Err(ParseError::UnexpectedToken { expected: kind.name(), found: t.duplicate() })
        }
    }

    /// The operator and precedence of a token, for tokens that are binary
    /// operators; higher numbers bind tighter.
    fn token_to_binop_prec(&self, kind: &TokenKind) -> (r: Option<(BinOp, u8)>)
        ensures
            r == binop_prec(kind@),
            r matches Some(p) ==> 1 <= p.1 <= 4,
    {
        match kind {
            TokenKind::Star => Some((BinOp::Mul, 4)),
            TokenKind::Slash => Some((BinOp::Div, 4)),
            TokenKind::Plus => Some((BinOp::Add, 3)),
            TokenKind::Minus => Some((BinOp::Sub, 3)),
            TokenKind::Less => Some((BinOp::Lt, 2)),
            TokenKind::LessEqual => Some((BinOp::Le, 2)),
            TokenKind::Greater => Some((BinOp::Gt, 2)),
            TokenKind::GreaterEqual => Some((BinOp::Ge, 2)),
            TokenKind::EqualEqual => Some((BinOp::Eq, 1)),
            TokenKind::NotEqual => Some((BinOp::NotEq, 1)),
            _ => None,
        }
    }

    /// A primary expression: an integer literal, a local read or call, or
    /// a parenthesized expression.
    #[verifier::loop_isolation(false)]
    fn parse_primary(&mut self) -> (r: Result<Expr, ParseError>)
        requires
            stream_wf(old(self).toks()),
            old(self).cursor() < old(self).toks().len(),
        ensures
            final(self).toks() == old(self).toks(),
            final(self).cursor() <= final(self).toks().len(),
            (match r {
                Ok(e) => {
                    &&& parse_primary_s(old(self).toks(), old(self).cursor())
                        == Ok::<(ExprV, nat), ParseErrorV>((e@, final(self).cursor()))
                    &&& old(self).cursor() < final(self).cursor() < final(self).toks().len()
                },
                Err(er) => parse_primary_s(old(self).toks(), old(self).cursor())
                    == Err::<(ExprV, nat), ParseErrorV>(er@),
            }),
        decreases old(self).toks().len() - old(self).cursor(), 1int,
    {
        let ghost toks = self.toks();
        let ghost pos0 = self.cursor();
        let t = self.bump();
        match &t.kind {
            TokenKind::Int(v) => {
                proof {
                    assert(pos0 < toks.len() - 1);
                }
                Ok(Expr::Int(*v))
            },
            TokenKind::Ident(name) => {
                proof {
                    assert(pos0 < toks.len() - 1);
                }
                let nxt = self.peek();
                if matches!(nxt.kind, TokenKind::LParen) {
                    let _lp = self.bump();
                    proof {
                        assert(pos0 + 1 < toks.len() - 1);
                    }
                    let ghost args_entry = self.cursor();
                    let mut args: Vec<Expr> = Vec::new();
                    proof {
                        assert(exprs_view(args@) =~= Seq::<ExprV>::empty());
                    }
                    let first = self.peek();
                    if !matches!(first.kind, TokenKind::RParen) {
                        let mut more = true;
                        while more
                            invariant
                                self.toks() == toks,
                                self.cursor() < toks.len(),
                                args_entry <= self.cursor(),
                                more ==> (match parse_args_loop_s(toks, self.cursor()) {
                                    Ok(pr) => parse_args_loop_s(toks, args_entry)
                                        == Ok::<(Seq<ExprV>, nat), ParseErrorV>(
                                        (exprs_view(args@) + pr.0, pr.1),
                                    ),
                                    Err(e) => parse_args_loop_s(toks, args_entry)
                                        == Err::<(Seq<ExprV>, nat), ParseErrorV>(e),
                                }),
                                !more ==> parse_args_loop_s(toks, args_entry)
                                    == Ok::<(Seq<ExprV>, nat), ParseErrorV>(
                                    (exprs_view(args@), self.cursor()),
                                ),
                            decreases toks.len() - self.cursor(), 5int,
                        {
                            let ghost iter_pos = self.cursor();
                            let ghost args_before = exprs_view(args@);
                            let arg = match self.parse_expr() {
                                Ok(a) => a,
                                Err(e) => {
                                    return Err(e);
                                },
                            };
                            args.push(arg);
                            proof {
                                assert(exprs_view(args@) =~= args_before.push(arg@));
                            }
                            let c = self.peek();
                            if matches!(c.kind, TokenKind::Comma) {
                                let _comma = self.bump();
                                proof {
                                    assert(self.cursor() - 1 < toks.len() - 1);
                                    assert(forall|rest: Seq<ExprV>|
                                        args_before + (seq![arg@] + rest) =~= #[trigger] (
                                        exprs_view(args@) + rest));
                                }
                            } else {
                                proof {
                                    assert(parse_args_loop_s(toks, iter_pos)
                                        == Ok::<(Seq<ExprV>, nat), ParseErrorV>(
                                        (seq![arg@], self.cursor()),
                                    ));
                                    assert(args_before + seq![arg@] =~= exprs_view(args@));
                                }
                                more = false;
                            }
                        }
                    }
                    match self.expect(TokenKind::RParen) {
                        Ok(_) => Ok(Expr::Call { name: name.clone(), args }),
                        Err(e) => Err(e),
                    }
                } else {
                    Ok(Expr::Local(name.clone()))
                }
            },
            TokenKind::LParen => {
                let e = match self.parse_expr() {
                    Ok(e) => e,
                    Err(er) => {
                        return Err(er);
                    },
                };
                match self.expect(TokenKind::RParen) {
                    Ok(_) => Ok(e),
                    Err(er) => Err(er),
                }
            },
            _ => Err(ParseError::ExpectedExpression { span: t.span }),
        }
    }

    /// An expression, by precedence climbing from the loosest level.
    fn parse_expr(&mut self) -> (r: Result<Expr, ParseError>)
        requires
            stream_wf(old(self).toks()),
            old(self).cursor() < old(self).toks().len(),
        ensures
            final(self).toks() == old(self).toks(),
            final(self).cursor() <= final(self).toks().len(),
            (match r {
                Ok(e) => {
                    &&& parse_expr_s(old(self).toks(), old(self).cursor())
                        == Ok::<(ExprV, nat), ParseErrorV>((e@, final(self).cursor()))
                    &&& old(self).cursor() < final(self).cursor() < final(self).toks().len()
                },
                Err(er) => parse_expr_s(old(self).toks(), old(self).cursor())
                    == Err::<(ExprV, nat), ParseErrorV>(er@),
            }),
        decreases old(self).toks().len() - old(self).cursor(), 4int,
    {
        self.parse_binary_expr(0)
    }

    /// A binary-operator expression whose operators all bind at least as
    /// tightly as `min_prec`; left-associative, because the right operand
    /// is parsed with minimum precedence one higher than the operator's.
    #[verifier::loop_isolation(false)]
    fn parse_binary_expr(&mut self, min_prec: u8) -> (r: Result<Expr, ParseError>)
        requires
            stream_wf(old(self).toks()),
            old(self).cursor() < old(self).toks().len(),
        ensures
            final(self).toks() == old(self).toks(),
            final(self).cursor() <= final(self).toks().len(),
            (match r {
                Ok(e) => {
                    &&& parse_binary_s(old(self).toks(), old(self).cursor(), min_prec)
                        == Ok::<(ExprV, nat), ParseErrorV>((e@, final(self).cursor()))
                    &&& old(self).cursor() < final(self).cursor() < final(self).toks().len()
                },
                Err(er) => parse_binary_s(old(self).toks(), old(self).cursor(), min_prec)
                    == Err::<(ExprV, nat), ParseErrorV>(er@),
            }),
        decreases old(self).toks().len() - old(self).cursor(), 3int,
    {
        let ghost toks = self.toks();
        let ghost pos0 = self.cursor();
        let mut lhs = match self.parse_primary() {
            Ok(e) => e,
            Err(e) => {
                return Err(e);
            },
        };
        let mut more = true;
        while more
            invariant
                self.toks() == toks,
                pos0 < self.cursor() < toks.len(),
                more ==> parse_binary_s(toks, pos0, min_prec) == parse_bin_loop_s(
                    toks,
                    lhs@,
                    self.cursor(),
                    min_prec,
                ),
                !more ==> parse_binary_s(toks, pos0, min_prec) == Ok::<(ExprV, nat), ParseErrorV>(
                    (lhs@, self.cursor()),
                ),
            decreases toks.len() - self.cursor(), 4int, (if more { 1int } else { 0int }),
        {
            let t = self.peek();
            let opp = self.token_to_binop_prec(&t.kind);
            match opp {
                None => {
                    more = false;
                },
                Some((op, prec)) => {
                    if prec < min_prec {
                        more = false;
                    } else {
                        let _op_tok = self.bump();
                        proof {
                            assert(self.cursor() - 1 < toks.len() - 1);
                        }
                        let rhs = match self.parse_binary_expr(prec + 1) {
                            Ok(e) => e,
                            Err(e) => {
                                return Err(e);
                            },
                        };
                        lhs = Expr::Binary { op, left: Box::new(lhs), right: Box::new(rhs) };
                    }
                },
            }
        }
        Ok(lhs)
    }

    /// A `let NAME = EXPR ;` statement.
    fn parse_let(&mut self) -> (r: Result<Stmt, ParseError>)
        requires
            stream_wf(old(self).toks()),
            old(self).cursor() < old(self).toks().len(),
        ensures
            final(self).toks() == old(self).toks(),
            final(self).cursor() <= final(self).toks().len(),
            (match r {
                Ok(s) => {
                    &&& parse_let_s(old(self).toks(), old(self).cursor())
                        == Ok::<(StmtV, nat), ParseErrorV>((s@, final(self).cursor()))
                    &&& old(self).cursor() < final(self).cursor() < final(self).toks().len()
                },
                Err(er) => parse_let_s(old(self).toks(), old(self).cursor())
                    == Err::<(StmtV, nat), ParseErrorV>(er@),
            }),
        decreases old(self).toks().len() - old(self).cursor(), 5int,
    {
        let ghost toks = self.toks();
        let ghost pos0 = self.cursor();
        match self.expect(TokenKind::Let) {
            Ok(_) => (),
            Err(e) => {
                return Err(e);
            },
        }
        let t = self.bump();
        let name = match &t.kind {
            TokenKind::Ident(s) => s.clone(),
            _ => {
                return Err(ParseError::UnexpectedToken {
                    expected: String::from_str("identifier"),
                    found: t.duplicate(),
                });
            },
        };
        proof {
            assert(pos0 + 1 < toks.len() - 1);
        }
        match self.expect(TokenKind::Equal) {
            Ok(_) => (),
            Err(e) => {
                return Err(e);
            },
        }
        let value = match self.parse_expr() {
            Ok(e) => e,
            Err(e) => {
                return Err(e);
            },
        };
        match self.expect(TokenKind::Semicolon) {
            Ok(_) => (),
            Err(e) => {
                return Err(e);
            },
        }
        Ok(Stmt::Let { name, value })
    }

    /// A `return [EXPR] ;` statement.
    fn parse_return(&mut self) -> (r: Result<Stmt, ParseError>)
        requires
            stream_wf(old(self).toks()),
            old(self).cursor() < old(self).toks().len(),
        ensures
            final(self).toks() == old(self).toks(),
            final(self).cursor() <= final(self).toks().len(),
            (match r {
                Ok(s) => {
                    &&& parse_return_s(old(self).toks(), old(self).cursor())
                        == Ok::<(StmtV, nat), ParseErrorV>((s@, final(self).cursor()))
                    &&& old(self).cursor() < final(self).cursor() < final(self).toks().len()
                },
                Err(er) => parse_return_s(old(self).toks(), old(self).cursor())
                    == Err::<(StmtV, nat), ParseErrorV>(er@),
            }),
        decreases old(self).toks().len() - old(self).cursor(), 5int,
    {
        let ghost toks = self.toks();
        match self.expect(TokenKind::Return) {
            Ok(_) => (),
            Err(e) => {
                return Err(e);
            },
        }
        let t = self.peek();
        if matches!(t.kind, TokenKind::Semicolon) {
            let _semi = self.bump();
            proof {
                assert(self.cursor() - 1 < toks.len() - 1);
            }
            Ok(Stmt::Return(None))
        } else {
            let e = match self.parse_expr() {
                Ok(e) => e,
                Err(er) => {
                    return Err(er);
                },
            };
            match self.expect(TokenKind::Semicolon) {
                Ok(_) => Ok(Stmt::Return(Some(e))),
                Err(er) => Err(er),
            }
        }
    }

    /// An `if EXPR BLOCK [else BLOCK]` statement.
    fn parse_if(&mut self) -> (r: Result<Stmt, ParseError>)
        requires
            stream_wf(old(self).toks()),
            old(self).cursor() < old(self).toks().len(),
        ensures
            final(self).toks() == old(self).toks(),
            final(self).cursor() <= final(self).toks().len(),
            (match r {
                Ok(s) => {
                    &&& parse_if_s(old(self).toks(), old(self).cursor())
                        == Ok::<(StmtV, nat), ParseErrorV>((s@, final(self).cursor()))
                    &&& old(self).cursor() < final(self).cursor() < final(self).toks().len()
                },
                Err(er) => parse_if_s(old(self).toks(), old(self).cursor())
                    == Err::<(StmtV, nat), ParseErrorV>(er@),
            }),
        decreases old(self).toks().len() - old(self).cursor(), 5int,
    {
        let ghost toks = self.toks();
        match self.expect(TokenKind::If) {
            Ok(_) => (),
            Err(e) => {
                return Err(e);
            },
        }
        let cond = match self.parse_expr() {
            Ok(e) => e,
            Err(e) => {
                return Err(e);
            },
        };
        let then_block = match self.parse_block() {
            Ok(b) => b,
            Err(e) => {
                return Err(e);
            },
        };
        let t = self.peek();
        let else_block = if matches!(t.kind, TokenKind::Else) {
            let _else_tok = self.bump();
            proof {
                assert(self.cursor() - 1 < toks.len() - 1);
            }
            match self.parse_block() {
                Ok(b) => b,
                Err(e) => {
                    return Err(e);
                },
            }
        } else {
            Vec::new()
        };
        proof {
            if else_block@.len() == 0 {
                assert(stmts_view(else_block@) =~= Seq::<StmtV>::empty());
            }
        }
        Ok(Stmt::If { cond, then_block, else_block })
    }

    /// A `while EXPR BLOCK` statement.
    fn parse_while(&mut self) -> (r: Result<Stmt, ParseError>)
        requires
            stream_wf(old(self).toks()),
            old(self).cursor() < old(self).toks().len(),
        ensures
            final(self).toks() == old(self).toks(),
            final(self).cursor() <= final(self).toks().len(),
            (match r {
                Ok(s) => {
                    &&& parse_while_s(old(self).toks(), old(self).cursor())
                        == Ok::<(StmtV, nat), ParseErrorV>((s@, final(self).cursor()))
                    &&& old(self).cursor() < final(self).cursor() < final(self).toks().len()
                },
                Err(er) => parse_while_s(old(self).toks(), old(self).cursor())
                    == Err::<(StmtV, nat), ParseErrorV>(er@),
            }),
        decreases old(self).toks().len() - old(self).cursor(), 5int,
    {
        match self.expect(TokenKind::While) {
            Ok(_) => (),
            Err(e) => {
                return Err(e);
            },
        }
        let cond = match self.parse_expr() {
            Ok(e) => e,
            Err(e) => {
                return Err(e);
            },
        };
        match self.parse_block() {
            Ok(body) => Ok(Stmt::While { cond, body }),
            Err(e) => Err(e),
        }
    }

    /// A bare expression statement `EXPR ;`.
    fn parse_expr_stmt(&mut self) -> (r: Result<Stmt, ParseError>)
        requires
            stream_wf(old(self).toks()),
            old(self).cursor() < old(self).toks().len(),
        ensures
            final(self).toks() == old(self).toks(),
            final(self).cursor() <= final(self).toks().len(),
            (match r {
                Ok(s) => {
                    &&& parse_expr_stmt_s(old(self).toks(), old(self).cursor())
                        == Ok::<(StmtV, nat), ParseErrorV>((s@, final(self).cursor()))
                    &&& old(self).cursor() < final(self).cursor() < final(self).toks().len()
                },
                Err(er) => parse_expr_stmt_s(old(self).toks(), old(self).cursor())
                    == Err::<(StmtV, nat), ParseErrorV>(er@),
            }),
        decreases old(self).toks().len() - old(self).cursor(), 5int,
    {
        let e = match self.parse_expr() {
            Ok(e) => e,
            Err(er) => {
                return Err(er);
            },
        };
        match self.expect(TokenKind::Semicolon) {
            Ok(_) => Ok(Stmt::Expr(e)),
            Err(er) => Err(er),
        }
    }

    /// One statement, dispatched on its leading token.
    fn parse_stmt(&mut self) -> (r: Result<Stmt, ParseError>)
        requires
            stream_wf(old(self).toks()),
            old(self).cursor() < old(self).toks().len(),
        ensures
            final(self).toks() == old(self).toks(),
            final(self).cursor() <= final(self).toks().len(),
            (match r {
                Ok(s) => {
                    &&& parse_stmt_s(old(self).toks(), old(self).cursor())
                        == Ok::<(StmtV, nat), ParseErrorV>((s@, final(self).cursor()))
                    &&& old(self).cursor() < final(self).cursor() < final(self).toks().len()
                },
                Err(er) => parse_stmt_s(old(self).toks(), old(self).cursor())
                    == Err::<(StmtV, nat), ParseErrorV>(er@),
            }),
        decreases old(self).toks().len() - old(self).cursor(), 6int,
    {
        let t = self.peek();
        match t.kind {
            TokenKind::Let => self.parse_let(),
            TokenKind::Return => self.parse_return(),
            TokenKind::If => self.parse_if(),
            TokenKind::While => self.parse_while(),
            _ => self.parse_expr_stmt(),
        }
    }

    /// A block: `{` statements `}`.
    #[verifier::loop_isolation(false)]
    #[verifier::rlimit(100)]
    fn parse_block(&mut self) -> (r: Result<Vec<Stmt>, ParseError>)
        requires
            stream_wf(old(self).toks()),
            old(self).cursor() < old(self).toks().len(),
        ensures
            final(self).toks() == old(self).toks(),
            final(self).cursor() <= final(self).toks().len(),
            (match r {
                Ok(b) => {
                    &&& parse_block_s(old(self).toks(), old(self).cursor())
                        == Ok::<(Seq<StmtV>, nat), ParseErrorV>(
                        (stmts_view(b@), final(self).cursor()),
                    )
                    &&& old(self).cursor() < final(self).cursor() < final(self).toks().len()
                },
                Err(er) => parse_block_s(old(self).toks(), old(self).cursor())
                    == Err::<(Seq<StmtV>, nat), ParseErrorV>(er@),
            }),
        decreases old(self).toks().len() - old(self).cursor(), 7int,
    {
        let ghost toks = self.toks();
        match self.expect(TokenKind::LBrace) {
            Ok(_) => (),
            Err(e) => {
                return Err(e);
            },
        }
        let ghost entry = self.cursor();
        let mut stmts: Vec<Stmt> = Vec::new();
        proof {
            assert(stmts_view(stmts@) =~= Seq::<StmtV>::empty());
        }
        let mut more = true;
        while more
            invariant
                self.toks() == toks,
                entry <= self.cursor() < toks.len(),
                more ==> (match parse_stmts_s(toks, self.cursor()) {
                    Ok(pr) => parse_stmts_s(toks, entry) == Ok::<(Seq<StmtV>, nat), ParseErrorV>(
                        (stmts_view(stmts@) + pr.0, pr.1),
                    ),
                    Err(e) => parse_stmts_s(toks, entry) == Err::<(Seq<StmtV>, nat), ParseErrorV>(
                        e,
                    ),
                }),
                !more ==> parse_stmts_s(toks, entry) == Ok::<(Seq<StmtV>, nat), ParseErrorV>(
                    (stmts_view(stmts@), self.cursor()),
                ),
            decreases toks.len() - self.cursor(), 7int, (if more { 1int } else { 0int }),
        {
            let t = self.peek();
            if matches!(t.kind, TokenKind::RBrace) {
                proof {
                    assert(stmts_view(stmts@) + Seq::<StmtV>::empty() =~= stmts_view(stmts@));
                }
                more = false;
            } else {
                let ghost stmts_before = stmts_view(stmts@);
                let s = match self.parse_stmt() {
                    Ok(s) => s,
                    Err(e) => {
                        return Err(e);
                    },
                };
                stmts.push(s);
                proof {
                    assert(stmts_view(stmts@) =~= stmts_before.push(s@));
                    assert(forall|rest: Seq<StmtV>|
                        stmts_before + (seq![s@] + rest) =~= #[trigger] (stmts_view(stmts@)
                            + rest));
                }
            }
        }
        match self.expect(TokenKind::RBrace) {
            Ok(_) => Ok(stmts),
            Err(e) => Err(e),
        }
    }

    /// One function declaration: `fn NAME ( params ) [-> Int] BLOCK`.
    #[verifier::loop_isolation(false)]
    #[verifier::rlimit(100)]
    fn parse_function(&mut self) -> (r: Result<FunctionDecl, ParseError>)
        requires
            stream_wf(old(self).toks()),
            old(self).cursor() < old(self).toks().len(),
        ensures
            final(self).toks() == old(self).toks(),
            final(self).cursor() <= final(self).toks().len(),
            (match r {
                Ok(f) => {
                    &&& parse_function_s(old(self).toks(), old(self).cursor())
                        == Ok::<(FunctionDeclV, nat), ParseErrorV>((f@, final(self).cursor()))
                    &&& old(self).cursor() < final(self).cursor() < final(self).toks().len()
                },
                Err(er) => parse_function_s(old(self).toks(), old(self).cursor())
                    == Err::<(FunctionDeclV, nat), ParseErrorV>(er@),
            }),
        decreases old(self).toks().len() - old(self).cursor(), 8int,
    {
        let ghost toks = self.toks();
        let ghost pos0 = self.cursor();
        match self.expect(TokenKind::Fn) {
            Ok(_) => (),
            Err(e) => {
                return Err(e);
            },
        }
        let t = self.bump();
        let name = match &t.kind {
            TokenKind::Ident(s) => s.clone(),
            _ => {
                return Err(ParseError::UnexpectedToken {
                    expected: String::from_str("identifier"),
                    found: t.duplicate(),
                });
            },
        };
        proof {
            assert(pos0 + 1 < toks.len() - 1);
        }
        match self.expect(TokenKind::LParen) {
            Ok(_) => (),
            Err(e) => {
                return Err(e);
            },
        }
        let ghost params_entry = self.cursor();
        let mut params: Vec<String> = Vec::new();
        proof {
            assert(params_view(params@) =~= Seq::<Seq<char>>::empty());
        }
        let first = self.peek();
        if !matches!(first.kind, TokenKind::RParen) {
            let mut more = true;
            while more
                invariant
                    self.toks() == toks,
                    params_entry <= self.cursor() < toks.len(),
                    more ==> (match parse_params_loop_s(toks, self.cursor()) {
                        Ok(pr) => parse_params_loop_s(toks, params_entry)
                            == Ok::<(Seq<Seq<char>>, nat), ParseErrorV>(
                            (params_view(params@) + pr.0, pr.1),
                        ),
                        Err(e) => parse_params_loop_s(toks, params_entry)
                            == Err::<(Seq<Seq<char>>, nat), ParseErrorV>(e),
                    }),
                    !more ==> parse_params_loop_s(toks, params_entry)
                        == Ok::<(Seq<Seq<char>>, nat), ParseErrorV>(
                        (params_view(params@), self.cursor()),
                    ),
                decreases toks.len() - self.cursor(), 1int,
            {
                let ghost iter_pos = self.cursor();
                let ghost params_before = params_view(params@);
                let pt = self.bump();
                match &pt.kind {
                    TokenKind::Ident(s) => {
                        params.push(s.clone());
                        proof {
                            assert(params_view(params@) =~= params_before.push(s@));
                        }
                    },
                    _ => {
                        return Err(ParseError::UnexpectedToken {
                            expected: String::from_str("parameter name"),
                            found: pt.duplicate(),
                        });
                    },
                }
                proof {
                    assert(iter_pos < toks.len() - 1);
                }
                let c = self.peek();
                if matches!(c.kind, TokenKind::Comma) {
                    let _comma = self.bump();
                    proof {
                        assert(self.cursor() - 1 < toks.len() - 1);
                        assert(forall|rest: Seq<Seq<char>>|
                            params_before + (seq![params_view(params@).last()] + rest) =~= #[trigger] (
                            params_view(params@) + rest));
                    }
                } else {
                    proof {
                        assert(params_before + seq![params_view(params@).last()] =~= params_view(
                            params@,
                        ));
                    }
                    more = false;
                }
            }
        }
        match self.expect(TokenKind::RParen) {
            Ok(_) => (),
            Err(e) => {
                return Err(e);
            },
        }
        let at = self.peek();
        let return_type = if matches!(at.kind, TokenKind::Arrow) {
            let _arrow = self.bump();
            proof {
                assert(self.cursor() - 1 < toks.len() - 1);
            }
            match self.expect(TokenKind::IntType) {
                Ok(_) => (),
                Err(e) => {
                    return Err(e);
                },
            }
            Some(Type::Int)
        } else {
            None
        };
        let body = match self.parse_block() {
            Ok(b) => b,
            Err(e) => {
                return Err(e);
            },
        };
        let result = FunctionDecl { name, params, body, return_type };
        proof {
            assert(result@.params =~= params_view(result.params@));
        }
        Ok(result)
    }

    /// A whole program: function declarations until the end-of-stream
    /// token.
    #[verifier::loop_isolation(false)]
    #[verifier::rlimit(100)]
    #[verifier::spinoff_prover]
    pub fn parse_program(&mut self) -> (r: Result<Program, ParseError>)
        requires
            stream_wf(old(self).toks()),
            old(self).cursor() < old(self).toks().len(),
        ensures
            final(self).toks() == old(self).toks(),
            (match r {
                Ok(p) => parse_program_s(old(self).toks(), old(self).cursor())
                    == Ok::<(ProgramV, nat), ParseErrorV>((p@, final(self).cursor())),
                Err(er) => parse_program_s(old(self).toks(), old(self).cursor())
                    == Err::<(ProgramV, nat), ParseErrorV>(er@),
            }),
    {
        let ghost toks = self.toks();
        let ghost entry = self.cursor();
        let mut functions: Vec<FunctionDecl> = Vec::new();
        proof {
            assert(functions@.map_values(|f: FunctionDecl| function_decl_view(f))
                =~= Seq::<FunctionDeclV>::empty());
        }
        let mut more = true;
        while more
            invariant
                self.toks() == toks,
                entry <= self.cursor() < toks.len(),
                more ==> (match parse_functions_s(toks, self.cursor()) {
                    Ok(pr) => parse_functions_s(toks, entry)
                        == Ok::<(Seq<FunctionDeclV>, nat), ParseErrorV>(
                        (
                            functions@.map_values(
                                |f: FunctionDecl| function_decl_view(f),
                            ) + pr.0,
                            pr.1,
                        ),
                    ),
                    Err(e) => parse_functions_s(toks, entry)
                        == Err::<(Seq<FunctionDeclV>, nat), ParseErrorV>(e),
                }),
                !more ==> parse_functions_s(toks, entry)
                    == Ok::<(Seq<FunctionDeclV>, nat), ParseErrorV>(
                    (
                        functions@.map_values(|f: FunctionDecl| function_decl_view(f)),
                        self.cursor(),
                    ),
                ),
            decreases toks.len() - self.cursor(), 9int, (if more { 1int } else { 0int }),
        {
            let t = self.peek();
            if matches!(t.kind, TokenKind::Eof) {
                proof {
                    let fv = functions@.map_values(
                        |f: FunctionDecl| function_decl_view(f),
                    );
                    assert(fv + Seq::<FunctionDeclV>::empty() =~= fv);
                }
                more = false;
            } else {
                let ghost funcs_before = functions@.map_values(
                    |f: FunctionDecl| function_decl_view(f),
                );
                let f = match self.parse_function() {
                    Ok(f) => f,
                    Err(e) => {
                        return Err(e);
                    },
                };
                functions.push(f);
                proof {
                    let fv_now = functions@.map_values(|f2: FunctionDecl| function_decl_view(f2));
                    assert(fv_now =~= funcs_before.push(f@));
                    assert(forall|rest: Seq<FunctionDeclV>|
                        funcs_before + (seq![f@] + rest) =~= #[trigger] (fv_now + rest));
                }
            }
        }
        Ok(Program { functions })
    }
}

} // verus!

// What the lexer guarantees about its token stream.

verus! {

/// A lexed token stream is well-formed: non-empty and ending in its only
/// end-of-stream token.
pub proof fn lemma_lex_stream_wf(bs: Seq<u8>, pos: nat)
    requires
        pos <= bs.len(),
        crate::lexer::lex_from(bs, pos) is Ok,
    ensures
        stream_wf(crate::lexer::lex_from(bs, pos)->Ok_0),
    decreases bs.len() - pos,
{
    crate::lexer::lemma_next_token_s_bounds(bs, pos);
    let r = crate::lexer::next_token_s(bs, pos);
    match r {
        Ok((t, p2)) => {
            if !(t.kind is Eof) {
                lemma_lex_stream_wf(bs, p2);
                let rest = crate::lexer::lex_from(bs, p2)->Ok_0;
                let whole = crate::lexer::lex_from(bs, pos)->Ok_0;
                assert(whole =~= seq![t] + rest);
                assert(whole.last() == rest.last());
                assert(forall|i: int| 0 <= i < whole.len() - 1 ==> !((#[trigger] whole[i]).kind
                    is Eof)) by {
                    assert(forall|i: int| 1 <= i < whole.len() - 1 ==> whole[i] == rest[i - 1]);
                }
            }
        },
        Err(_) => {},
    }
}

} // verus!

use minilang::ast::{BinOp, Expr, Stmt};
use minilang::lexer::lex_file;
use minilang::parser::{ParseError, Parser};
use minilang::token::TokenKind;

#[test]
fn parse_paren_comparison() {
    let src = "fn main(x, y) -> Int { if (x < y) { return 1; } else { return 0; } }";
    let tokens = lex_file(src).expect("lex");
    let mut p = Parser::new(&tokens);
    let program = p.parse_program().expect("parse");

    // one function
    assert_eq!(program.functions.len(), 1);
    let f = &program.functions[0];
    assert_eq!(f.body.len(), 1);

    match &f.body[0] {
        Stmt::If { cond, then_block, else_block } => {
            // cond should be Binary with Lt
            match cond {
                Expr::Binary { op, left, right } => {
                    match op {
                        BinOp::Lt => (),
                        _ => panic!("expected Lt op"),
                    }

                    match (&**left, &**right) {
                        (Expr::Local(l), Expr::Local(r)) => {
                            assert_eq!(l, "x");
                            assert_eq!(r, "y");
                        }
                        _ => panic!("expected locals in comparison"),
                    }
                }
                _ => panic!("expected binary cond"),
            }

            assert_eq!(then_block.len(), 1);
            assert_eq!(else_block.len(), 1);
        }
        _ => panic!("expected if statement"),
    }
}

#[test]
fn parse_mixed_precedence() {
    let src = "fn main(x, y) -> Int { let z = x + 1 < y; }";
    let tokens = lex_file(src).expect("lex");
    let mut p = Parser::new(&tokens);
    let program = p.parse_program().expect("parse");
    let f = &program.functions[0];

    match &f.body[0] {
        Stmt::Let { name, value } => {
            assert_eq!(name, "z");
            match value {
                Expr::Binary { op, left, right } => {
                    match op {
                        BinOp::Lt => (),
                        _ => panic!("expected Lt op"),
                    }
                    match &**left {
                        Expr::Binary { op: lop, left: lleft, right: _lright } => {
                            match lop {
                                BinOp::Add => (),
                                _ => panic!("expected Add as left op"),
                            }
                            // left operand of add should be local x
                            match &**lleft {
                                Expr::Local(n) => assert_eq!(n, "x"),
                                _ => panic!("expected local x"),
                            }
                        }
                        _ => panic!("expected binary left side"),
                    }
                    match &**right {
                        Expr::Local(n) => assert_eq!(n, "y"),
                        _ => panic!("expected local y"),
                    }
                }
                _ => panic!("expected binary value"),
            }
        }
        _ => panic!("expected let statement"),
    }
}

#[test]
fn parse_parenthesized_complex() {
    let src = "fn main(a,b,c,d) -> Int { let r = (a + b) <= (c - d); }";
    let tokens = lex_file(src).expect("lex");
    let mut p = Parser::new(&tokens);
    let program = p.parse_program().expect("parse");
    let f = &program.functions[0];

    match &f.body[0] {
        Stmt::Let { name, value } => {
            assert_eq!(name, "r");
            match value {
                Expr::Binary { op, left: _left, right: _right } => match op {
                    BinOp::Le => (),
                    _ => panic!("expected Le op"),
                },
                _ => panic!("expected binary value"),
            }
        }
        _ => panic!("expected let statement"),
    }
}

#[test]
fn parse_precedence_mul_into_add() {
    // 1 + 2 * 3 parses with the multiplication as the right operand of
    // the addition
    let src = "fn main() -> Int { return 1 + 2 * 3; }";
    let tokens = lex_file(src).expect("lex");
    let mut p = Parser::new(&tokens);
    let program = p.parse_program().expect("parse");
    match &program.functions[0].body[0] {
        Stmt::Return(Some(Expr::Binary { op, left, right })) => {
            assert!(matches!(op, BinOp::Add));
            assert!(matches!(&**left, Expr::Int(1)));
            match &**right {
                Expr::Binary { op: rop, left: rl, right: rr } => {
                    assert!(matches!(rop, BinOp::Mul));
                    assert!(matches!(&**rl, Expr::Int(2)));
                    assert!(matches!(&**rr, Expr::Int(3)));
                }
                _ => panic!("expected multiplication on the right"),
            }
        }
        _ => panic!("expected return of a binary expression"),
    }
}

#[test]
fn parse_left_associative_sub() {
    // a - b - c parses as (a - b) - c, not a - (b - c)
    let src = "fn main(a, b, c) -> Int { return a - b - c; }";
    let tokens = lex_file(src).expect("lex");
    let mut p = Parser::new(&tokens);
    let program = p.parse_program().expect("parse");
    match &program.functions[0].body[0] {
        Stmt::Return(Some(Expr::Binary { op, left, right })) => {
            assert!(matches!(op, BinOp::Sub));
            match &**left {
                Expr::Binary { op: lop, left: ll, right: lr } => {
                    assert!(matches!(lop, BinOp::Sub));
                    assert!(matches!(&**ll, Expr::Local(n) if n == "a"));
                    assert!(matches!(&**lr, Expr::Local(n) if n == "b"));
                }
                _ => panic!("expected subtraction on the left"),
            }
            assert!(matches!(&**right, Expr::Local(n) if n == "c"));
        }
        _ => panic!("expected return of a binary expression"),
    }
}

#[test]
fn parse_missing_expression_errors() {
    let src = "fn main() -> Int { return ; let x = ; }";
    let tokens = lex_file(src).expect("lex");
    // `return ;` is fine, `let x = ;` is not: no expression can start at `;`
    let mut p = Parser::new(&tokens);
    let err = p.parse_program().expect_err("expected parse error");
    match err {
        ParseError::ExpectedExpression { span } => {
            assert_eq!(span.start, src.find("; }").unwrap());
        }
        _ => panic!("expected an expected-expression error"),
    }
}

#[test]
fn parse_unexpected_token_errors() {
    let src = "fn main( { }";
    let tokens = lex_file(src).expect("lex");
    let mut p = Parser::new(&tokens);
    let err = p.parse_program().expect_err("expected parse error");
    match err {
        ParseError::UnexpectedToken { expected, found } => {
            assert_eq!(expected, "parameter name");
            assert!(matches!(found.kind, TokenKind::LBrace));
        }
        _ => panic!("expected an unexpected-token error"),
    }
}

#[test]
fn token_kind_names() {
    assert_eq!(TokenKind::LParen.name(), "LParen");
    assert_eq!(TokenKind::Ident(String::from("abc")).name(), "identifier");
    assert_eq!(TokenKind::Int(7).name(), "integer literal");
    assert_eq!(TokenKind::Arrow.name(), "Arrow");
}

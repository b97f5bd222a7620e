//! A recursive-descent parser for SQL expressions with the usual operator
//! precedence: OR, AND, NOT, comparison, addition, multiplication, unary
//! minus, then primaries (literals, identifiers, calls, tuples).

use vstd::prelude::*;
use crate::ast::{AExpr, BinaryOperator, Literal, UnaryOperator};
use crate::errors::{ErrorCode, ErrorKind};
use crate::text::eq_ignore_case;
use crate::token::{TokKind, Token};

verus! {

fn parse_error(msg: &str) -> (r: ErrorCode)
    ensures
        r.kind == ErrorKind::Parse,
{
    ErrorCode::new(ErrorKind::Parse, String::from_str(msg))
}

/// Whether the token at `pos` is the given (case-insensitive) keyword.
fn peek_keyword(tokens: &Vec<Token>, pos: usize, kw: &str) -> (r: bool)
    ensures
        r ==> pos < tokens@.len(),
{
    if pos < tokens.len() {
        if matches!(tokens[pos].kind, TokKind::Ident) {
            eq_ignore_case(tokens[pos].text.as_str(), kw)
        } else {
            false
        }
    } else {
        false
    }
}

/// Parses one full expression (an OR chain).
#[verifier::loop_isolation(false)]
fn parse_expr(tokens: &Vec<Token>, pos: &mut usize) -> (r: Result<AExpr, ErrorCode>)
    requires
        *old(pos) <= tokens@.len(),
    ensures
        r is Ok ==> *old(pos) < *final(pos) <= tokens@.len(),
        r is Err ==> *final(pos) <= tokens@.len(),
        r matches Err(e) ==> e.kind == ErrorKind::Parse,
    decreases tokens@.len() - *old(pos), 60int,
{
    proof {
        vstd::std_specs::vec::axiom_spec_len(tokens);
    }
    let mut left = match parse_and_expr(tokens, pos) {
        Ok(e) => e,
        Err(err) => {
            return Err(err);
        },
    };
    while peek_keyword(tokens, *pos, "or")
        invariant
            *old(pos) < *pos <= tokens@.len(),
        decreases tokens@.len() - *pos,
    {
        *pos = *pos + 1;
        let right = match parse_and_expr(tokens, pos) {
            Ok(e) => e,
            Err(err) => {
                return Err(err);
            },
        };
        left = AExpr::BinaryOp {
            op: BinaryOperator::Or,
            left: Box::new(left),
            right: Box::new(right),
        };
    }
    Ok(left)
}

#[verifier::loop_isolation(false)]
fn parse_and_expr(tokens: &Vec<Token>, pos: &mut usize) -> (r: Result<AExpr, ErrorCode>)
    requires
        *old(pos) <= tokens@.len(),
    ensures
        r is Ok ==> *old(pos) < *final(pos) <= tokens@.len(),
        r is Err ==> *final(pos) <= tokens@.len(),
        r matches Err(e) ==> e.kind == ErrorKind::Parse,
    decreases tokens@.len() - *old(pos), 50int,
{
    proof {
        vstd::std_specs::vec::axiom_spec_len(tokens);
    }
    let mut left = match parse_not_expr(tokens, pos) {
        Ok(e) => e,
        Err(err) => {
            return Err(err);
        },
    };
    while peek_keyword(tokens, *pos, "and")
        invariant
            *old(pos) < *pos <= tokens@.len(),
        decreases tokens@.len() - *pos,
    {
        *pos = *pos + 1;
        let right = match parse_not_expr(tokens, pos) {
            Ok(e) => e,
            Err(err) => {
                return Err(err);
            },
        };
        left = AExpr::BinaryOp {
            op: BinaryOperator::And,
            left: Box::new(left),
            right: Box::new(right),
        };
    }
    Ok(left)
}

#[verifier::loop_isolation(false)]
fn parse_not_expr(tokens: &Vec<Token>, pos: &mut usize) -> (r: Result<AExpr, ErrorCode>)
    requires
        *old(pos) <= tokens@.len(),
    ensures
        r is Ok ==> *old(pos) < *final(pos) <= tokens@.len(),
        r is Err ==> *final(pos) <= tokens@.len(),
        r matches Err(e) ==> e.kind == ErrorKind::Parse,
    decreases tokens@.len() - *old(pos), 40int,
{
    proof {
        vstd::std_specs::vec::axiom_spec_len(tokens);
    }
    if peek_keyword(tokens, *pos, "not") {
        *pos = *pos + 1;
        match parse_not_expr(tokens, pos) {
            Ok(e) => Ok(AExpr::UnaryOp { op: UnaryOperator::Not, expr: Box::new(e) }),
            Err(err) => Err(err),
        }
    } else {
        parse_cmp_expr(tokens, pos)
    }
}

fn cmp_op_of(kind: TokKind) -> (r: Option<BinaryOperator>) {
    match kind {
        TokKind::EqT => Some(BinaryOperator::Eq),
        TokKind::NotEqT => Some(BinaryOperator::NotEq),
        TokKind::LtT => Some(BinaryOperator::Lt),
        TokKind::LteT => Some(BinaryOperator::Lte),
        TokKind::GtT => Some(BinaryOperator::Gt),
        TokKind::GteT => Some(BinaryOperator::Gte),
        _ => None,
    }
}

#[verifier::loop_isolation(false)]
fn parse_cmp_expr(tokens: &Vec<Token>, pos: &mut usize) -> (r: Result<AExpr, ErrorCode>)
    requires
        *old(pos) <= tokens@.len(),
    ensures
        r is Ok ==> *old(pos) < *final(pos) <= tokens@.len(),
        r is Err ==> *final(pos) <= tokens@.len(),
        r matches Err(e) ==> e.kind == ErrorKind::Parse,
    decreases tokens@.len() - *old(pos), 30int,
{
    let left = match parse_add_expr(tokens, pos) {
        Ok(e) => e,
        Err(err) => {
            return Err(err);
        },
    };
    if *pos < tokens.len() {
        if let Some(op) = cmp_op_of(tokens[*pos].kind) {
            *pos = *pos + 1;
            let right = match parse_add_expr(tokens, pos) {
                Ok(e) => e,
                Err(err) => {
                    return Err(err);
                },
            };
            return Ok(AExpr::BinaryOp { op, left: Box::new(left), right: Box::new(right) });
        }
    }
    Ok(left)
}

#[verifier::loop_isolation(false)]
fn parse_add_expr(tokens: &Vec<Token>, pos: &mut usize) -> (r: Result<AExpr, ErrorCode>)
    requires
        *old(pos) <= tokens@.len(),
    ensures
        r is Ok ==> *old(pos) < *final(pos) <= tokens@.len(),
        r is Err ==> *final(pos) <= tokens@.len(),
        r matches Err(e) ==> e.kind == ErrorKind::Parse,
    decreases tokens@.len() - *old(pos), 20int,
{
    let mut left = match parse_mul_expr(tokens, pos) {
        Ok(e) => e,
        Err(err) => {
            return Err(err);
        },
    };
    while *pos < tokens.len() && (matches!(tokens[*pos].kind, TokKind::PlusT) || matches!(
        tokens[*pos].kind,
        TokKind::MinusT,
    ))
        invariant
            *old(pos) < *pos <= tokens@.len(),
        decreases tokens@.len() - *pos,
    {
        let op = if matches!(tokens[*pos].kind, TokKind::PlusT) {
            BinaryOperator::Plus
        } else {
            BinaryOperator::Minus
        };
        *pos = *pos + 1;
        let right = match parse_mul_expr(tokens, pos) {
            Ok(e) => e,
            Err(err) => {
                return Err(err);
            },
        };
        left = AExpr::BinaryOp { op, left: Box::new(left), right: Box::new(right) };
    }
    Ok(left)
}

#[verifier::loop_isolation(false)]
fn parse_mul_expr(tokens: &Vec<Token>, pos: &mut usize) -> (r: Result<AExpr, ErrorCode>)
    requires
        *old(pos) <= tokens@.len(),
    ensures
        r is Ok ==> *old(pos) < *final(pos) <= tokens@.len(),
        r is Err ==> *final(pos) <= tokens@.len(),
        r matches Err(e) ==> e.kind == ErrorKind::Parse,
    decreases tokens@.len() - *old(pos), 10int,
{
    let mut left = match parse_unary_expr(tokens, pos) {
        Ok(e) => e,
        Err(err) => {
            return Err(err);
        },
    };
    while *pos < tokens.len() && (matches!(tokens[*pos].kind, TokKind::StarT) || matches!(
        tokens[*pos].kind,
        TokKind::SlashT,
    ) || matches!(tokens[*pos].kind, TokKind::PercentT))
        invariant
            *old(pos) < *pos <= tokens@.len(),
        decreases tokens@.len() - *pos,
    {
        let op = if matches!(tokens[*pos].kind, TokKind::StarT) {
            BinaryOperator::Multiply
        } else if matches!(tokens[*pos].kind, TokKind::SlashT) {
            BinaryOperator::Divide
        } else {
            BinaryOperator::Modulo
        };
        *pos = *pos + 1;
        let right = match parse_unary_expr(tokens, pos) {
            Ok(e) => e,
            Err(err) => {
                return Err(err);
            },
        };
        left = AExpr::BinaryOp { op, left: Box::new(left), right: Box::new(right) };
    }
    Ok(left)
}

#[verifier::loop_isolation(false)]
fn parse_unary_expr(tokens: &Vec<Token>, pos: &mut usize) -> (r: Result<AExpr, ErrorCode>)
    requires
        *old(pos) <= tokens@.len(),
    ensures
        r is Ok ==> *old(pos) < *final(pos) <= tokens@.len(),
        r is Err ==> *final(pos) <= tokens@.len(),
        r matches Err(e) ==> e.kind == ErrorKind::Parse,
    decreases tokens@.len() - *old(pos), 5int,
{
    if *pos < tokens.len() && matches!(tokens[*pos].kind, TokKind::MinusT) {
        *pos = *pos + 1;
        match parse_unary_expr(tokens, pos) {
            Ok(e) => Ok(AExpr::UnaryOp { op: UnaryOperator::Minus, expr: Box::new(e) }),
            Err(err) => Err(err),
        }
    } else {
        parse_primary(tokens, pos)
    }
}

#[verifier::loop_isolation(false)]
fn parse_primary(tokens: &Vec<Token>, pos: &mut usize) -> (r: Result<AExpr, ErrorCode>)
    requires
        *old(pos) <= tokens@.len(),
    ensures
        r is Ok ==> *old(pos) < *final(pos) <= tokens@.len(),
        r is Err ==> *final(pos) <= tokens@.len(),
        r matches Err(e) ==> e.kind == ErrorKind::Parse,
    decreases tokens@.len() - *old(pos), 1int,
{
    if *pos >= tokens.len() {
        return Err(parse_error("unexpected end of expression"));
    }
    let kind = tokens[*pos].kind;
    match kind {
        TokKind::IntLit => {
            let v = tokens[*pos].value;
            *pos = *pos + 1;
            Ok(AExpr::Lit { lit: Literal::Integer(v) })
        },
        TokKind::StrLit => {
            let s = tokens[*pos].text.clone();
            *pos = *pos + 1;
            Ok(AExpr::Lit { lit: Literal::StringLit(s) })
        },
        TokKind::QuotedIdent => {
            let s = tokens[*pos].text.clone();
            *pos = *pos + 1;
            Ok(AExpr::ColumnRef { name: s, quoted: true })
        },
        TokKind::Ident => {
            if peek_keyword(tokens, *pos, "true") {
                *pos = *pos + 1;
                return Ok(AExpr::Lit { lit: Literal::Boolean(true) });
            }
            if peek_keyword(tokens, *pos, "false") {
                *pos = *pos + 1;
                return Ok(AExpr::Lit { lit: Literal::Boolean(false) });
            }
            if peek_keyword(tokens, *pos, "null") {
                *pos = *pos + 1;
                return Ok(AExpr::Lit { lit: Literal::Null });
            }
            let name = tokens[*pos].text.clone();
            *pos = *pos + 1;
            if *pos < tokens.len() && matches!(tokens[*pos].kind, TokKind::LParenT) {
                *pos = *pos + 1;
                let mut args: Vec<AExpr> = Vec::new();
                if *pos < tokens.len() && matches!(tokens[*pos].kind, TokKind::RParenT) {
                    *pos = *pos + 1;
                    return Ok(AExpr::FunctionCall { name, args });
                }
                match parse_expr(tokens, pos) {
                    Ok(e) => {
                        args.push(e);
                    },
                    Err(err) => {
                        return Err(err);
                    },
                }
                while *pos < tokens.len() && matches!(tokens[*pos].kind, TokKind::CommaT)
                    invariant
                        *old(pos) < *pos <= tokens@.len(),
                    decreases tokens@.len() - *pos,
                {
                    *pos = *pos + 1;
                    match parse_expr(tokens, pos) {
                        Ok(e) => {
                            args.push(e);
                        },
                        Err(err) => {
                            return Err(err);
                        },
                    }
                }
                if *pos < tokens.len() && matches!(tokens[*pos].kind, TokKind::RParenT) {
                    *pos = *pos + 1;
                    Ok(AExpr::FunctionCall { name, args })
                } else {
                    Err(parse_error("expected a closing parenthesis after the argument list"))
                }
            } else {
                Ok(AExpr::ColumnRef { name, quoted: false })
            }
        },
        TokKind::LParenT => {
            *pos = *pos + 1;
            let mut exprs: Vec<AExpr> = Vec::new();
            match parse_expr(tokens, pos) {
                Ok(e) => {
                    exprs.push(e);
                },
                Err(err) => {
                    return Err(err);
                },
            }
            while *pos < tokens.len() && matches!(tokens[*pos].kind, TokKind::CommaT)
                invariant
                    *old(pos) < *pos <= tokens@.len(),
                    exprs@.len() >= 1,
                decreases tokens@.len() - *pos,
            {
                *pos = *pos + 1;
                match parse_expr(tokens, pos) {
                    Ok(e) => {
                        exprs.push(e);
                    },
                    Err(err) => {
                        return Err(err);
                    },
                }
            }
            if *pos < tokens.len() && matches!(tokens[*pos].kind, TokKind::RParenT) {
                *pos = *pos + 1;
                if exprs.len() == 1 {
                    match exprs.pop() {
                        Some(e) => Ok(e),
                        None => Err(parse_error("expected an expression")),
                    }
                } else {
                    Ok(AExpr::Tuple { exprs })
                }
            } else {
                Err(parse_error("expected a closing parenthesis"))
            }
        },
        _ => Err(parse_error("unexpected token in expression")),
    }
}

/// Parses one or more comma-separated expressions covering the whole text.
pub fn parse_comma_separated_exprs(tokens: &Vec<Token>) -> (r: Result<Vec<AExpr>, ErrorCode>)
    ensures
        r matches Ok(v) ==> v@.len() >= 1,
        r matches Err(e) ==> e.kind == ErrorKind::Parse,
{
    let mut pos: usize = 0;
    let mut out: Vec<AExpr> = Vec::new();
    match parse_expr(tokens, &mut pos) {
        Ok(e) => {
            out.push(e);
        },
        Err(err) => {
            return Err(err);
        },
    }
    while pos < tokens.len() && matches!(tokens[pos].kind, TokKind::CommaT)
        invariant
            pos <= tokens@.len(),
            out@.len() >= 1,
        decreases tokens@.len() - pos,
    {
        pos = pos + 1;
        match parse_expr(tokens, &mut pos) {
            Ok(e) => {
                out.push(e);
            },
            Err(err) => {
                return Err(err);
            },
        }
    }
    if pos < tokens.len() {
        return Err(parse_error("unexpected trailing tokens after the expression"));
    }
    Ok(out)
}

} // verus!

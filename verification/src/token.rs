//! The SQL expression tokenizer.

use vstd::prelude::*;
use crate::errors::{ErrorCode, ErrorKind};

verus! {

#[derive(Clone, Copy, PartialEq, Eq, Structural, Debug)]
pub enum TokKind {
    Ident,
    QuotedIdent,
    IntLit,
    StrLit,
    PlusT,
    MinusT,
    StarT,
    SlashT,
    PercentT,
    LParenT,
    RParenT,
    CommaT,
    EqT,
    NotEqT,
    LtT,
    LteT,
    GtT,
    GteT,
}

/// One lexical token. `value` carries the parsed number of an integer
/// literal and is zero otherwise.
#[derive(Debug)]
pub struct Token {
    pub kind: TokKind,
    pub text: String,
    pub value: u64,
}

fn parse_error(msg: &str) -> (r: ErrorCode)
    ensures
        r.kind == ErrorKind::Parse,
{
    ErrorCode::new(ErrorKind::Parse, String::from_str(msg))
}

fn is_ident_start(c: char) -> (r: bool)
    ensures
        r == (('a' <= c && c <= 'z') || ('A' <= c && c <= 'Z') || c == '_'),
{
    ('a' <= c && c <= 'z') || ('A' <= c && c <= 'Z') || c == '_'
}

fn is_ident_part(c: char) -> (r: bool)
    ensures
        r == (('a' <= c && c <= 'z') || ('A' <= c && c <= 'Z') || ('0' <= c && c <= '9') || c
            == '_'),
{
    ('a' <= c && c <= 'z') || ('A' <= c && c <= 'Z') || ('0' <= c && c <= '9') || c == '_'
}

fn is_digit(c: char) -> (r: bool)
    ensures
        r == ('0' <= c && c <= '9'),
{
    '0' <= c && c <= '9'
}

/// Splits SQL text into tokens; rejects malformed text (an unterminated
/// quote, an unknown character, a numeric literal too large to hold).
pub fn tokenize_sql(sql: &str) -> (r: Result<Vec<Token>, ErrorCode>)
    ensures
        r matches Err(e) ==> e.kind == ErrorKind::Parse,
{
    let n = sql.unicode_len();
    let mut out: Vec<Token> = Vec::new();
    let mut i: usize = 0;
    while i < n
        invariant
            i <= n,
            n == sql@.len(),
        decreases n - i,
    {
        let c = sql.get_char(i);
        if c == ' ' || c == '\t' || c == '\n' || c == '\r' {
            i = i + 1;
        } else if is_ident_start(c) {
            let start = i;
            i = i + 1;
            while i < n && is_ident_part(sql.get_char(i))
                invariant
                    start < i <= n,
                    n == sql@.len(),
                decreases n - i,
            {
                i = i + 1;
            }
            let text = sql.substring_char(start, i).to_owned();
            out.push(Token { kind: TokKind::Ident, text, value: 0 });
        } else if is_digit(c) {
            let start = i;
            let mut value: u64 = (c as u8 - 48) as u64;
            let mut overflow = false;
            i = i + 1;
            while i < n && is_digit(sql.get_char(i))
                invariant
                    start < i <= n,
                    n == sql@.len(),
                decreases n - i,
            {
                let cc = sql.get_char(i);
                let d = (cc as u8) - 48;
                match value.checked_mul(10) {
                    Some(v10) => match v10.checked_add(d as u64) {
                        Some(v) => {
                            value = v;
                        },
                        None => {
                            overflow = true;
                        },
                    },
                    None => {
                        overflow = true;
                    },
                }
                i = i + 1;
            }
            if overflow {
                return Err(parse_error("numeric literal is too large"));
            }
            let text = sql.substring_char(start, i).to_owned();
            out.push(Token { kind: TokKind::IntLit, text, value });
        } else if c == '\'' {
            let start = i + 1;
            i = i + 1;
            while i < n && sql.get_char(i) != '\''
                invariant
                    start <= i <= n,
                    n == sql@.len(),
                decreases n - i,
            {
                i = i + 1;
            }
            if i >= n {
                return Err(parse_error("unterminated string literal"));
            }
            let text = sql.substring_char(start, i).to_owned();
            out.push(Token { kind: TokKind::StrLit, text, value: 0 });
            i = i + 1;
        } else if c == '"' {
            let start = i + 1;
            i = i + 1;
            while i < n && sql.get_char(i) != '"'
                invariant
                    start <= i <= n,
                    n == sql@.len(),
                decreases n - i,
            {
                i = i + 1;
            }
            if i >= n {
                return Err(parse_error("unterminated quoted identifier"));
            }
            let text = sql.substring_char(start, i).to_owned();
            out.push(Token { kind: TokKind::QuotedIdent, text, value: 0 });
            i = i + 1;
        } else {
            let (kind, width): (TokKind, usize) = if c == '+' {
                (TokKind::PlusT, 1)
            } else if c == '-' {
                (TokKind::MinusT, 1)
            } else if c == '*' {
                (TokKind::StarT, 1)
            } else if c == '/' {
                (TokKind::SlashT, 1)
            } else if c == '%' {
                (TokKind::PercentT, 1)
            } else if c == '(' {
                (TokKind::LParenT, 1)
            } else if c == ')' {
                (TokKind::RParenT, 1)
            } else if c == ',' {
                (TokKind::CommaT, 1)
            } else if c == '=' {
                (TokKind::EqT, 1)
            } else if c == '<' {
                if i + 1 < n && sql.get_char(i + 1) == '=' {
                    (TokKind::LteT, 2)
                } else if i + 1 < n && sql.get_char(i + 1) == '>' {
                    (TokKind::NotEqT, 2)
                } else {
                    (TokKind::LtT, 1)
                }
            } else if c == '>' {
                if i + 1 < n && sql.get_char(i + 1) == '=' {
                    (TokKind::GteT, 2)
                } else {
                    (TokKind::GtT, 1)
                }
            } else if c == '!' {
                if i + 1 < n && sql.get_char(i + 1) == '=' {
                    (TokKind::NotEqT, 2)
                } else {
                    return Err(parse_error("unexpected character in SQL text"));
                }
            } else {
                return Err(parse_error("unexpected character in SQL text"));
            };
            let text = sql.substring_char(i, i + width).to_owned();
            out.push(Token { kind, text, value: 0 });
            i = i + width;
        }
    }
    Ok(out)
}

} // verus!

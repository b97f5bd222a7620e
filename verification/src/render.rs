//! Rendering of lowered expressions as canonical SQL text.

use vstd::prelude::*;
use crate::expr::{Expr, Func};
use crate::scalar::{NumberScalar, Scalar};
use crate::text::{dec_digits, render_u64};
use crate::types::{DataType, NumberDataType};

verus! {

/// The registry name of a function.
pub open spec fn func_text(f: Func) -> Seq<char> {
    match f {
        Func::Plus => "plus"@,
        Func::Minus => "minus"@,
        Func::Multiply => "multiply"@,
        Func::Divide => "divide"@,
        Func::Modulo => "modulo"@,
        Func::EqCmp => "eq"@,
        Func::NotEqCmp => "noteq"@,
        Func::LtCmp => "lt"@,
        Func::LteCmp => "lte"@,
        Func::GtCmp => "gt"@,
        Func::GteCmp => "gte"@,
        Func::AndFn => "and"@,
        Func::OrFn => "or"@,
        Func::NotFn => "not"@,
        Func::Substr => "substr"@,
        Func::Upper => "upper"@,
        Func::Lower => "lower"@,
        Func::ToInt8 => "to_int8"@,
        Func::ToInt16 => "to_int16"@,
        Func::ToInt32 => "to_int32"@,
        Func::ToInt64 => "to_int64"@,
        Func::ToFloat64 => "to_float64"@,
        Func::IsNotNull => "is_not_null"@,
        Func::AssumeNotNull => "assume_not_null"@,
        Func::IfFn => "if"@,
        Func::ArrayFn => "array"@,
        Func::HilbertKey => "hilbert_key"@,
        Func::HilbertIndex => "hilbert_index"@,
        Func::Rand => "rand"@,
        Func::NowFn => "now"@,
    }
}

pub fn func_name(f: Func) -> (r: &'static str)
    ensures
        r@ == func_text(f),
{
    match f {
        Func::Plus => "plus",
        Func::Minus => "minus",
        Func::Multiply => "multiply",
        Func::Divide => "divide",
        Func::Modulo => "modulo",
        Func::EqCmp => "eq",
        Func::NotEqCmp => "noteq",
        Func::LtCmp => "lt",
        Func::LteCmp => "lte",
        Func::GtCmp => "gt",
        Func::GteCmp => "gte",
        Func::AndFn => "and",
        Func::OrFn => "or",
        Func::NotFn => "not",
        Func::Substr => "substr",
        Func::Upper => "upper",
        Func::Lower => "lower",
        Func::ToInt8 => "to_int8",
        Func::ToInt16 => "to_int16",
        Func::ToInt32 => "to_int32",
        Func::ToInt64 => "to_int64",
        Func::ToFloat64 => "to_float64",
        Func::IsNotNull => "is_not_null",
        Func::AssumeNotNull => "assume_not_null",
        Func::IfFn => "if",
        Func::ArrayFn => "array",
        Func::HilbertKey => "hilbert_key",
        Func::HilbertIndex => "hilbert_index",
        Func::Rand => "rand",
        Func::NowFn => "now",
    }
}

/// Decimal digits of a wide value, for decimal constants.
fn render_u128_into(n: u128, acc: &mut String)
    ensures
        final(acc)@ == old(acc)@ + dec_digits(n as nat),
    decreases n,
{
    if n < 10 {
        let d = render_u64(n as u64);
        acc.append(d.as_str());
        proof {
            assert(acc@ =~= old(acc)@ + dec_digits(n as nat));
        }
    } else {
        render_u128_into(n / 10, acc);
        let d = render_u64((n % 10) as u64);
        acc.append(d.as_str());
        proof {
            assert(acc@ =~= old(acc)@ + dec_digits(n as nat));
        }
    }
}

fn render_i64_into(v: i64, acc: &mut String)
    ensures
        final(acc)@ == old(acc)@ + signed_text(v as int),
{
    if v < 0 {
        acc.append("-");
        let m: u64 = ((-(v as i128)) as u64);
        let d = render_u64(m);
        acc.append(d.as_str());
        proof {
            assert(acc@ =~= old(acc)@ + signed_text(v as int));
        }
    } else {
        let d = render_u64(v as u64);
        acc.append(d.as_str());
        proof {
            assert(acc@ =~= old(acc)@ + signed_text(v as int));
        }
    }
}

/// The hexadecimal digit character of a value below sixteen.
pub open spec fn hex_digit_char(d: int) -> char {
    if d < 10 {
        ((d + 48) as u8) as char
    } else {
        ((d + 55) as u8) as char
    }
}

fn hex_digit_str(d: u8) -> (r: &'static str)
    requires
        d < 16,
    ensures
        r@ =~= seq![hex_digit_char(d as int)],
{
    match d {
        0 => {
            proof {
                reveal_strlit("0");
            }
            "0"
        },
        1 => {
            proof {
                reveal_strlit("1");
            }
            "1"
        },
        2 => {
            proof {
                reveal_strlit("2");
            }
            "2"
        },
        3 => {
            proof {
                reveal_strlit("3");
            }
            "3"
        },
        4 => {
            proof {
                reveal_strlit("4");
            }
            "4"
        },
        5 => {
            proof {
                reveal_strlit("5");
            }
            "5"
        },
        6 => {
            proof {
                reveal_strlit("6");
            }
            "6"
        },
        7 => {
            proof {
                reveal_strlit("7");
            }
            "7"
        },
        8 => {
            proof {
                reveal_strlit("8");
            }
            "8"
        },
        9 => {
            proof {
                reveal_strlit("9");
            }
            "9"
        },
        10 => {
            proof {
                reveal_strlit("A");
            }
            "A"
        },
        11 => {
            proof {
                reveal_strlit("B");
            }
            "B"
        },
        12 => {
            proof {
                reveal_strlit("C");
            }
            "C"
        },
        13 => {
            proof {
                reveal_strlit("D");
            }
            "D"
        },
        14 => {
            proof {
                reveal_strlit("E");
            }
            "E"
        },
        _ => {
            proof {
                reveal_strlit("F");
            }
            "F"
        },
    }
}

/// The hexadecimal text of a byte buffer, from position `i` on.
pub open spec fn hex_text(b: Seq<u8>, i: int) -> Seq<char>
    decreases b.len() - i,
{
    if i < 0 || i >= b.len() {
        Seq::empty()
    } else {
        seq![hex_digit_char(b[i] as int / 16), hex_digit_char(b[i] as int % 16)] + hex_text(
            b,
            i + 1,
        )
    }
}

/// The decimal text of a signed value.
pub open spec fn signed_text(v: int) -> Seq<char> {
    if v < 0 {
        "-"@ + dec_digits((-v) as nat)
    } else {
        dec_digits(v as nat)
    }
}

/// The name of a type, as it stands in error messages and cast text.
pub open spec fn type_text(t: DataType) -> Seq<char>
    decreases t,
{
    match t {
        DataType::Null => "NULL"@,
        DataType::Boolean => "Boolean"@,
        DataType::String => "String"@,
        DataType::Binary => "Binary"@,
        DataType::Number(n) => match n {
            NumberDataType::UInt8 => "UInt8"@,
            NumberDataType::UInt16 => "UInt16"@,
            NumberDataType::UInt32 => "UInt32"@,
            NumberDataType::UInt64 => "UInt64"@,
            NumberDataType::Int8 => "Int8"@,
            NumberDataType::Int16 => "Int16"@,
            NumberDataType::Int32 => "Int32"@,
            NumberDataType::Int64 => "Int64"@,
            NumberDataType::Float32 => "Float32"@,
            NumberDataType::Float64 => "Float64"@,
        },
        DataType::Decimal(s) => "Decimal("@ + dec_digits(s.precision as nat) + ", "@ + dec_digits(
            s.scale as nat,
        ) + ")"@,
        DataType::Timestamp => "Timestamp"@,
        DataType::Date => "Date"@,
        DataType::Nullable(inner) => "Nullable("@ + type_text(*inner) + ")"@,
        DataType::Array(inner) => "Array("@ + type_text(*inner) + ")"@,
    }
}

pub fn render_type_into(t: &DataType, acc: &mut String)
    ensures
        final(acc)@ == old(acc)@ + type_text(*t),
    decreases *t,
{
    match t {
        DataType::Null => acc.append("NULL"),
        DataType::Boolean => acc.append("Boolean"),
        DataType::String => acc.append("String"),
        DataType::Binary => acc.append("Binary"),
        DataType::Number(n) => match n {
            NumberDataType::UInt8 => acc.append("UInt8"),
            NumberDataType::UInt16 => acc.append("UInt16"),
            NumberDataType::UInt32 => acc.append("UInt32"),
            NumberDataType::UInt64 => acc.append("UInt64"),
            NumberDataType::Int8 => acc.append("Int8"),
            NumberDataType::Int16 => acc.append("Int16"),
            NumberDataType::Int32 => acc.append("Int32"),
            NumberDataType::Int64 => acc.append("Int64"),
            NumberDataType::Float32 => acc.append("Float32"),
            NumberDataType::Float64 => acc.append("Float64"),
        },
        DataType::Decimal(s) => {
            acc.append("Decimal(");
            let p = render_u64(s.precision as u64);
            acc.append(p.as_str());
            acc.append(", ");
            let sc = render_u64(s.scale as u64);
            acc.append(sc.as_str());
            acc.append(")");
        },
        DataType::Timestamp => acc.append("Timestamp"),
        DataType::Date => acc.append("Date"),
        DataType::Nullable(inner) => {
            acc.append("Nullable(");
            render_type_into(inner, acc);
            acc.append(")");
        },
        DataType::Array(inner) => {
            acc.append("Array(");
            render_type_into(inner, acc);
            acc.append(")");
        },
    }
}

pub fn render_type_string(t: &DataType) -> (r: String)
    ensures
        r@ == type_text(*t),
{
    let mut acc = String::new();
    render_type_into(t, &mut acc);
    acc
}

/// The literal text of a constant. A floating-point constant is written as
/// its IEEE bit pattern, the only exact form this crate keeps for it.
pub open spec fn scalar_text(s: Scalar) -> Seq<char>
    decreases s, 0int,
{
    match s {
        Scalar::Null => "NULL"@,
        Scalar::Boolean(b) => if b {
            "TRUE"@
        } else {
            "FALSE"@
        },
        Scalar::Number(n) => match n {
            NumberScalar::UInt8(v) => dec_digits(v as nat),
            NumberScalar::UInt16(v) => dec_digits(v as nat),
            NumberScalar::UInt32(v) => dec_digits(v as nat),
            NumberScalar::UInt64(v) => dec_digits(v as nat),
            NumberScalar::Int8(v) => signed_text(v as int),
            NumberScalar::Int16(v) => signed_text(v as int),
            NumberScalar::Int32(v) => signed_text(v as int),
            NumberScalar::Int64(v) => signed_text(v as int),
            NumberScalar::Float32Bits(v) => "float32_from_bits("@ + dec_digits(v as nat) + ")"@,
            NumberScalar::Float64Bits(v) => "float64_from_bits("@ + dec_digits(v as nat) + ")"@,
        },
        Scalar::Decimal(v, _) => signed_text(v as int),
        Scalar::Timestamp(v) => signed_text(v as int),
        Scalar::Date(v) => signed_text(v as int),
        Scalar::String(x) => "'"@ + x@ + "'"@,
        Scalar::Binary(b) => "0x"@ + hex_text(b@, 0),
        Scalar::Array(items) => "["@ + scalar_list_text(items@, 0) + "]"@,
    }
}

/// The comma-separated text of array elements, from position `i` on.
pub open spec fn scalar_list_text(items: Seq<Scalar>, i: int) -> Seq<char>
    decreases items, items.len() - i,
{
    if i < 0 || i >= items.len() {
        Seq::empty()
    } else if i == items.len() - 1 {
        scalar_text(items[i])
    } else {
        scalar_text(items[i]) + ", "@ + scalar_list_text(items, i + 1)
    }
}

pub fn render_scalar_into(s: &Scalar, acc: &mut String)
    ensures
        final(acc)@ == old(acc)@ + scalar_text(*s),
    decreases *s,
{
    match s {
        Scalar::Null => acc.append("NULL"),
        Scalar::Boolean(b) => {
            if *b {
                acc.append("TRUE")
            } else {
                acc.append("FALSE")
            }
        },
        Scalar::Number(n) => match n {
            NumberScalar::UInt8(v) => {
                let d = render_u64(*v as u64);
                acc.append(d.as_str());
            },
            NumberScalar::UInt16(v) => {
                let d = render_u64(*v as u64);
                acc.append(d.as_str());
            },
            NumberScalar::UInt32(v) => {
                let d = render_u64(*v as u64);
                acc.append(d.as_str());
            },
            NumberScalar::UInt64(v) => {
                let d = render_u64(*v);
                acc.append(d.as_str());
            },
            NumberScalar::Int8(v) => render_i64_into(*v as i64, acc),
            NumberScalar::Int16(v) => render_i64_into(*v as i64, acc),
            NumberScalar::Int32(v) => render_i64_into(*v as i64, acc),
            NumberScalar::Int64(v) => render_i64_into(*v, acc),
            NumberScalar::Float32Bits(v) => {
                acc.append("float32_from_bits(");
                let d = render_u64(*v as u64);
                acc.append(d.as_str());
                acc.append(")");
            },
            NumberScalar::Float64Bits(v) => {
                acc.append("float64_from_bits(");
                let d = render_u64(*v);
                acc.append(d.as_str());
                acc.append(")");
            },
        },
        Scalar::Decimal(v, _) => {
            if *v < 0 {
                acc.append("-");
                let m: u128 = (-(*v as i128 + 1)) as u128 + 1;
                proof {
                    assert(m as nat == (-(*v as int)) as nat);
                }
                render_u128_into(m, acc);
                proof {
                    assert(acc@ =~= old(acc)@ + scalar_text(*s));
                }
            } else {
                render_u128_into(*v as u128, acc);
            }
        },
        Scalar::Timestamp(v) => render_i64_into(*v, acc),
        Scalar::Date(v) => render_i64_into(*v as i64, acc),
        Scalar::String(x) => {
            acc.append("'");
            acc.append(x.as_str());
            acc.append("'");
        },
        Scalar::Binary(b) => {
            acc.append("0x");
            let ghost whole = old(acc)@ + "0x"@ + hex_text(b@, 0);
            let mut i: usize = 0;
            #[verifier::loop_isolation(false)]
            while i < b.len()
                invariant
                    i <= b@.len(),
                    acc@ + hex_text(b@, i as int) == whole,
                decreases b.len() - i,
            {
                acc.append(hex_digit_str(b[i] / 16));
                acc.append(hex_digit_str(b[i] % 16));
                i = i + 1;
                proof {
                    assert(acc@ + hex_text(b@, i as int) =~= whole);
                }
            }
            proof {
                assert(acc@ =~= whole);
                assert(whole =~= old(acc)@ + scalar_text(*s));
            }
        },
        Scalar::Array(items) => {
            acc.append("[");
            let ghost pre = acc@;
            let n = items.len();
            let mut i: usize = 0;
            #[verifier::loop_isolation(false)]
            while i < n
                invariant
                    i <= n,
                    n == items@.len(),
                    *s == Scalar::Array(*items),
                    i == 0 ==> acc@ == pre,
                    0 < i < n ==> acc@ + ", "@ + scalar_list_text(items@, i as int) == pre
                        + scalar_list_text(items@, 0),
                    i == n && n > 0 ==> acc@ == pre + scalar_list_text(items@, 0),
                decreases n - i,
            {
                proof {
                    assert(*items == s->Array_0);
                    assert(decreases_to!(*s => s->Array_0));
                    assert(decreases_to!(*items => items@));
                    assert(decreases_to!(items@ => items@[i as int]));
                }
                let ghost before = acc@;
                if i > 0 {
                    acc.append(", ");
                }
                render_scalar_into(&items[i], acc);
                proof {
                    if i == 0 {
                        if n == 1 {
                            assert(acc@ =~= pre + scalar_list_text(items@, 0));
                        } else {
                            assert(acc@ + ", "@ + scalar_list_text(items@, 1) =~= pre
                                + scalar_list_text(items@, 0));
                        }
                    } else {
                        if i + 1 == n {
                            assert(acc@ =~= before + ", "@ + scalar_text(items@[i as int]));
                            assert(acc@ =~= pre + scalar_list_text(items@, 0));
                        } else {
                            assert(acc@ + ", "@ + scalar_list_text(items@, i + 1) =~= pre
                                + scalar_list_text(items@, 0));
                        }
                    }
                }
                i = i + 1;
            }
            acc.append("]");
            proof {
                if n == 0 {
                    assert(scalar_list_text(items@, 0) == Seq::<char>::empty());
                }
                assert(acc@ =~= old(acc)@ + scalar_text(*s));
            }
        },
    }
}

/// The canonical SQL text of a lowered expression: constants as literals,
/// columns by name, calls in prefix form, casts spelled out.
pub open spec fn expr_text(e: Expr) -> Seq<char>
    decreases e, 0int,
{
    match e {
        Expr::Constant { scalar, .. } => scalar_text(scalar),
        Expr::ColumnRef { name, .. } => name@,
        Expr::FunctionCall { func, args, .. } => func_text(func) + "("@ + expr_list_text(
            args@,
            0,
        ) + ")"@,
        Expr::Cast { expr, dest_type } => "CAST("@ + expr_text(*expr) + " AS "@ + type_text(
            dest_type,
        ) + ")"@,
    }
}

/// The comma-separated text of an argument list, from position `i` on.
pub open spec fn expr_list_text(args: Seq<Expr>, i: int) -> Seq<char>
    decreases args, args.len() - i,
{
    if i < 0 || i >= args.len() {
        Seq::empty()
    } else if i == args.len() - 1 {
        expr_text(args[i])
    } else {
        expr_text(args[i]) + ", "@ + expr_list_text(args, i + 1)
    }
}

pub fn render_expr_into(e: &Expr, acc: &mut String)
    ensures
        final(acc)@ == old(acc)@ + expr_text(*e),
    decreases *e,
{
    match e {
        Expr::Constant { scalar, .. } => render_scalar_into(scalar, acc),
        Expr::ColumnRef { name, .. } => acc.append(name.as_str()),
        Expr::FunctionCall { func, args, .. } => {
            acc.append(func_name(*func));
            acc.append("(");
            let ghost pre = acc@;
            let n = args.len();
            let mut i: usize = 0;
            #[verifier::loop_isolation(false)]
            while i < n
                invariant
                    i <= n,
                    n == args@.len(),
                    *e == (Expr::FunctionCall {
                        func: e->FunctionCall_func,
                        args: *args,
                        return_type: e->FunctionCall_return_type,
                    }),
                    i == 0 ==> acc@ == pre,
                    0 < i < n ==> acc@ + ", "@ + expr_list_text(args@, i as int) == pre
                        + expr_list_text(args@, 0),
                    i == n && n > 0 ==> acc@ == pre + expr_list_text(args@, 0),
                decreases n - i,
            {
                proof {
                    assert(*args == e->FunctionCall_args);
                    assert(decreases_to!(*e => e->FunctionCall_args));
                    assert(decreases_to!(*args => args@));
                    assert(decreases_to!(args@ => args@[i as int]));
                }
                let ghost before = acc@;
                if i > 0 {
                    acc.append(", ");
                }
                render_expr_into(&args[i], acc);
                proof {
                    if i == 0 {
                        if n == 1 {
                            assert(acc@ =~= pre + expr_list_text(args@, 0));
                        } else {
                            assert(acc@ + ", "@ + expr_list_text(args@, 1) =~= pre
                                + expr_list_text(args@, 0));
                        }
                    } else {
                        if i + 1 == n {
                            assert(acc@ =~= before + ", "@ + expr_text(args@[i as int]));
                            assert(acc@ =~= pre + expr_list_text(args@, 0));
                        } else {
                            assert(acc@ + ", "@ + expr_list_text(args@, i + 1) =~= pre
                                + expr_list_text(args@, 0));
                        }
                    }
                }
                i = i + 1;
            }
            acc.append(")");
            proof {
                if n == 0 {
                    assert(expr_list_text(args@, 0) == Seq::<char>::empty());
                }
                assert(acc@ =~= old(acc)@ + expr_text(*e));
            }
        },
        Expr::Cast { expr, dest_type } => {
            acc.append("CAST(");
            render_expr_into(expr, acc);
            acc.append(" AS ");
            render_type_into(dest_type, acc);
            acc.append(")");
        },
    }
}

pub fn render_expr_string(e: &Expr) -> (r: String)
    ensures
        r@ == expr_text(*e),
{
    let mut acc = String::new();
    render_expr_into(e, &mut acc);
    acc
}

} // verus!

//! Constant evaluation and folding of deterministic expressions.
//!
//! Only value-free computations fold: integer arithmetic and comparisons,
//! boolean logic, null tests, integer casts, and value passthrough. String
//! transforms and the engine-supplied clustering transforms never fold.

use vstd::prelude::*;
use crate::errors::{ErrorCode, ErrorKind};
use crate::expr::{Expr, Func};
use crate::scalar::{lemma_scalar_eqv_refl, scalar_eqv, NumberScalar, Scalar};
use crate::types::{DataType, NumberDataType};

verus! {

/// Equivalence of evaluation outcomes.
pub open spec fn opt_scalar_eqv(a: Option<Scalar>, b: Option<Scalar>) -> bool {
    &&& (a is Some <==> b is Some)
    &&& (a matches Some(x) ==> b matches Some(y) && scalar_eqv(x, y))
}

/// The mathematical value of an integer-like scalar.
pub open spec fn scalar_int_value(s: Scalar) -> Option<int> {
    match s {
        Scalar::Boolean(b) => Some(
            if b {
                1int
            } else {
                0int
            },
        ),
        Scalar::Number(n) => match n {
            NumberScalar::UInt8(v) => Some(v as int),
            NumberScalar::UInt16(v) => Some(v as int),
            NumberScalar::UInt32(v) => Some(v as int),
            NumberScalar::UInt64(v) => Some(v as int),
            NumberScalar::Int8(v) => Some(v as int),
            NumberScalar::Int16(v) => Some(v as int),
            NumberScalar::Int32(v) => Some(v as int),
            NumberScalar::Int64(v) => Some(v as int),
            _ => None,
        },
        Scalar::Date(v) => Some(v as int),
        Scalar::Timestamp(v) => Some(v as int),
        _ => None,
    }
}

/// Builds the integer scalar of the given width, when the value fits.
pub open spec fn make_int_scalar(v: int, n: NumberDataType) -> Option<Scalar> {
    match n {
        NumberDataType::UInt8 => if 0 <= v <= u8::MAX {
            Some(Scalar::Number(NumberScalar::UInt8(v as u8)))
        } else {
            None
        },
        NumberDataType::UInt16 => if 0 <= v <= u16::MAX {
            Some(Scalar::Number(NumberScalar::UInt16(v as u16)))
        } else {
            None
        },
        NumberDataType::UInt32 => if 0 <= v <= u32::MAX {
            Some(Scalar::Number(NumberScalar::UInt32(v as u32)))
        } else {
            None
        },
        NumberDataType::UInt64 => if 0 <= v <= u64::MAX {
            Some(Scalar::Number(NumberScalar::UInt64(v as u64)))
        } else {
            None
        },
        NumberDataType::Int8 => if i8::MIN <= v <= i8::MAX {
            Some(Scalar::Number(NumberScalar::Int8(v as i8)))
        } else {
            None
        },
        NumberDataType::Int16 => if i16::MIN <= v <= i16::MAX {
            Some(Scalar::Number(NumberScalar::Int16(v as i16)))
        } else {
            None
        },
        NumberDataType::Int32 => if i32::MIN <= v <= i32::MAX {
            Some(Scalar::Number(NumberScalar::Int32(v as i32)))
        } else {
            None
        },
        NumberDataType::Int64 => if i64::MIN <= v <= i64::MAX {
            Some(Scalar::Number(NumberScalar::Int64(v as i64)))
        } else {
            None
        },
        _ => None,
    }
}

/// Conversion of a constant to a destination type: integer narrowing and
/// widening with range checks, null passing into nullable targets, identity
/// on equal base kinds. Anything else is not constant-convertible.
pub open spec fn cast_scalar_spec(s: Scalar, dest: DataType) -> Option<Scalar>
    decreases dest,
{
    match dest {
        DataType::Nullable(inner) => if s is Null {
            Some(Scalar::Null)
        } else {
            cast_scalar_spec(s, *inner)
        },
        DataType::Number(n) => if n.spec_is_float() {
            None
        } else {
            match scalar_int_value(s) {
                Some(v) => make_int_scalar(v, n),
                None => None,
            }
        },
        DataType::Boolean => if s is Boolean {
            Some(s)
        } else {
            None
        },
        DataType::String => if s is String {
            Some(s)
        } else {
            None
        },
        DataType::Binary => if s is Binary {
            Some(s)
        } else {
            None
        },
        DataType::Date => match scalar_int_value(s) {
            Some(v) => if i32::MIN <= v <= i32::MAX {
                Some(Scalar::Date(v as i32))
            } else {
                None
            },
            None => None,
        },
        DataType::Timestamp => match scalar_int_value(s) {
            Some(v) => if i64::MIN <= v <= i64::MAX {
                Some(Scalar::Timestamp(v as i64))
            } else {
                None
            },
            None => None,
        },
        _ => None,
    }
}

/// The value of a registry function on constant arguments, or `None` when
/// the function does not constant-evaluate (or fails, e.g. division by
/// zero or overflow). SQL nulls propagate through strict functions.
pub open spec fn apply_func_spec(f: Func, vals: Seq<Scalar>) -> Option<Scalar> {
    match f {
        Func::Plus | Func::Minus | Func::Multiply | Func::Divide | Func::Modulo => {
            if vals.len() != 2 {
                None
            } else if vals[0] is Null || vals[1] is Null {
                Some(Scalar::Null)
            } else {
                match (vals[0], vals[1]) {
                    (Scalar::Number(NumberScalar::Int64(a)), Scalar::Number(NumberScalar::Int64(b))) => {
                        let v = match f {
                            Func::Plus => a.checked_add(b),
                            Func::Minus => a.checked_sub(b),
                            Func::Multiply => a.checked_mul(b),
                            Func::Divide => a.checked_div(b),
                            _ => a.checked_rem(b),
                        };
                        match v {
                            Some(x) => Some(Scalar::Number(NumberScalar::Int64(x))),
                            None => None,
                        }
                    },
                    _ => None,
                }
            }
        },
        Func::EqCmp | Func::NotEqCmp | Func::LtCmp | Func::LteCmp | Func::GtCmp
        | Func::GteCmp => {
            if vals.len() != 2 {
                None
            } else if vals[0] is Null || vals[1] is Null {
                Some(Scalar::Null)
            } else {
                match (vals[0], vals[1]) {
                    (Scalar::Number(NumberScalar::Int64(a)), Scalar::Number(NumberScalar::Int64(b))) => {
                        Some(
                            Scalar::Boolean(
                                match f {
                                    Func::EqCmp => a == b,
                                    Func::NotEqCmp => a != b,
                                    Func::LtCmp => a < b,
                                    Func::LteCmp => a <= b,
                                    Func::GtCmp => a > b,
                                    _ => a >= b,
                                },
                            ),
                        )
                    },
                    (Scalar::String(a), Scalar::String(b)) => {
                        match f {
                            Func::EqCmp => Some(Scalar::Boolean(a@ == b@)),
                            Func::NotEqCmp => Some(Scalar::Boolean(a@ != b@)),
                            _ => None,
                        }
                    },
                    (Scalar::Boolean(a), Scalar::Boolean(b)) => {
                        match f {
                            Func::EqCmp => Some(Scalar::Boolean(a == b)),
                            Func::NotEqCmp => Some(Scalar::Boolean(a != b)),
                            _ => None,
                        }
                    },
                    _ => None,
                }
            }
        },
        Func::AndFn | Func::OrFn => {
            if vals.len() != 2 {
                None
            } else if vals[0] is Null || vals[1] is Null {
                Some(Scalar::Null)
            } else {
                match (vals[0], vals[1]) {
                    (Scalar::Boolean(a), Scalar::Boolean(b)) => Some(
                        Scalar::Boolean(
                            if f == Func::AndFn {
                                a && b
                            } else {
                                a || b
                            },
                        ),
                    ),
                    _ => None,
                }
            }
        },
        Func::NotFn => {
            if vals.len() != 1 {
                None
            } else if vals[0] is Null {
                Some(Scalar::Null)
            } else {
                match vals[0] {
                    Scalar::Boolean(a) => Some(Scalar::Boolean(!a)),
                    _ => None,
                }
            }
        },
        Func::ToInt8 => apply_to_int_spec(vals, NumberDataType::Int8),
        Func::ToInt16 => apply_to_int_spec(vals, NumberDataType::Int16),
        Func::ToInt32 => apply_to_int_spec(vals, NumberDataType::Int32),
        Func::ToInt64 => apply_to_int_spec(vals, NumberDataType::Int64),
        Func::IsNotNull => {
            if vals.len() != 1 {
                None
            } else {
                Some(Scalar::Boolean(!(vals[0] is Null)))
            }
        },
        Func::AssumeNotNull => {
            if vals.len() == 1 && !(vals[0] is Null) {
                Some(vals[0])
            } else {
                None
            }
        },
        _ => None,
    }
}

pub open spec fn apply_to_int_spec(vals: Seq<Scalar>, n: NumberDataType) -> Option<Scalar> {
    if vals.len() != 1 {
        None
    } else if vals[0] is Null {
        Some(Scalar::Null)
    } else {
        match scalar_int_value(vals[0]) {
            Some(v) => make_int_scalar(v, n),
            None => None,
        }
    }
}

/// The value of a constant expression: `None` where constant evaluation is
/// impossible or fails. Column references have no value here; the only
/// evaluation context is a single synthetic row with no columns.
pub open spec fn eval_spec(e: Expr) -> Option<Scalar>
    decreases e, 0int,
{
    match e {
        Expr::Constant { scalar, .. } => Some(scalar),
        Expr::ColumnRef { .. } => None,
        Expr::Cast { expr, dest_type } => match eval_spec(*expr) {
            Some(s) => cast_scalar_spec(s, dest_type),
            None => None,
        },
        Expr::FunctionCall { func, args, .. } => {
            if func == Func::IfFn {
                // The conditional is lazy: only the selected branch is
                // evaluated, so a null-guarded branch never fails.
                if args@.len() != 3 {
                    None
                } else {
                    match eval_spec(args@[0]) {
                        Some(Scalar::Boolean(c)) => if c {
                            eval_spec(args@[1])
                        } else {
                            eval_spec(args@[2])
                        },
                        Some(Scalar::Null) => Some(Scalar::Null),
                        _ => None,
                    }
                }
            } else {
                match eval_args_spec(args@, 0) {
                    Some(vals) => apply_func_spec(func, vals),
                    None => None,
                }
            }
        },
    }
}

/// The values of the argument suffix starting at `i`.
pub open spec fn eval_args_spec(args: Seq<Expr>, i: int) -> Option<Seq<Scalar>>
    decreases args, args.len() - i,
{
    if i < 0 || i >= args.len() {
        Some(Seq::empty())
    } else {
        match eval_spec(args[i]) {
            Some(v) => match eval_args_spec(args, i + 1) {
                Some(rest) => Some(seq![v] + rest),
                None => None,
            },
            None => None,
        }
    }
}

/// Equivalent scalars have the same integer value.
pub proof fn lemma_int_value_eqv(a: Scalar, b: Scalar)
    requires
        scalar_eqv(a, b),
    ensures
        scalar_int_value(a) == scalar_int_value(b),
{
}

/// Conversion respects scalar equivalence.
pub proof fn lemma_cast_eqv(a: Scalar, b: Scalar, d: DataType)
    requires
        scalar_eqv(a, b),
    ensures
        opt_scalar_eqv(cast_scalar_spec(a, d), cast_scalar_spec(b, d)),
    decreases d,
{
    lemma_int_value_eqv(a, b);
    match d {
        DataType::Nullable(inner) => {
            if !(a is Null) {
                lemma_cast_eqv(a, b, *inner);
            }
        },
        _ => {},
    }
}

/// Function application respects scalar equivalence of the arguments.
pub proof fn lemma_apply_eqv(f: Func, a: Seq<Scalar>, b: Seq<Scalar>)
    requires
        a.len() == b.len(),
        forall|i: int| 0 <= i < a.len() ==> scalar_eqv(#[trigger] a[i], b[i]),
    ensures
        opt_scalar_eqv(apply_func_spec(f, a), apply_func_spec(f, b)),
{
    if a.len() >= 1 {
        assert(scalar_eqv(a[0], b[0]));
        lemma_int_value_eqv(a[0], b[0]);
    }
    if a.len() >= 2 {
        assert(scalar_eqv(a[1], b[1]));
    }
    if a.len() >= 3 {
        assert(scalar_eqv(a[2], b[2]));
    }
}

/// Either every argument evaluates and the suffix values line up one for
/// one, or the whole argument list fails to evaluate.
pub proof fn lemma_eval_args(args: Seq<Expr>, i: int)
    requires
        0 <= i <= args.len(),
    ensures
        (eval_args_spec(args, i) is Some) <==> (forall|j: int|
            i <= j < args.len() ==> (#[trigger] eval_spec(args[j])) is Some),
        eval_args_spec(args, i) matches Some(ws) ==> ws.len() == args.len() - i && forall|j: int|
            i <= j < args.len() ==> #[trigger] eval_spec(args[j]) == Some(ws[j - i]),
    decreases args.len() - i,
{
    if i < args.len() {
        lemma_eval_args(args, i + 1);
        match eval_spec(args[i]) {
            Some(v) => {
                match eval_args_spec(args, i + 1) {
                    Some(rest) => {
                        let ws = seq![v] + rest;
                        assert(eval_args_spec(args, i) == Some(ws));
                        assert(ws[0] == v);
                        assert(forall|j: int|
                            i < j < args.len() ==> #[trigger] ws[j - i] == rest[j - (i + 1)]);
                    },
                    None => {},
                }
            },
            None => {},
        }
    }
}

fn eval_error() -> (r: ErrorCode)
    ensures
        r.kind == ErrorKind::Evaluation,
{
    ErrorCode::new(
        ErrorKind::Evaluation,
        String::from_str("the expression cannot be evaluated to a constant"),
    )
}

/// Executable integer value of a scalar.
fn scalar_to_int(s: &Scalar) -> (r: Option<i128>)
    ensures
        r matches Some(v) ==> scalar_int_value(*s) == Some(v as int),
        r is None ==> scalar_int_value(*s) is None,
{
    match s {
        Scalar::Boolean(b) => Some(if *b { 1 } else { 0 }),
        Scalar::Number(n) => match n {
            NumberScalar::UInt8(v) => Some(*v as i128),
            NumberScalar::UInt16(v) => Some(*v as i128),
            NumberScalar::UInt32(v) => Some(*v as i128),
            NumberScalar::UInt64(v) => Some(*v as i128),
            NumberScalar::Int8(v) => Some(*v as i128),
            NumberScalar::Int16(v) => Some(*v as i128),
            NumberScalar::Int32(v) => Some(*v as i128),
            NumberScalar::Int64(v) => Some(*v as i128),
            _ => None,
        },
        Scalar::Date(v) => Some(*v as i128),
        Scalar::Timestamp(v) => Some(*v as i128),
        _ => None,
    }
}

/// Executable integer construction with range checks.
fn build_int_scalar(v: i128, n: NumberDataType) -> (r: Option<Scalar>)
    ensures
        r == make_int_scalar(v as int, n),
{
    match n {
        NumberDataType::UInt8 => if 0 <= v && v <= u8::MAX as i128 {
            Some(Scalar::Number(NumberScalar::UInt8(v as u8)))
        } else {
            None
        },
        NumberDataType::UInt16 => if 0 <= v && v <= u16::MAX as i128 {
            Some(Scalar::Number(NumberScalar::UInt16(v as u16)))
        } else {
            None
        },
        NumberDataType::UInt32 => if 0 <= v && v <= u32::MAX as i128 {
            Some(Scalar::Number(NumberScalar::UInt32(v as u32)))
        } else {
            None
        },
        NumberDataType::UInt64 => if 0 <= v && v <= u64::MAX as i128 {
            Some(Scalar::Number(NumberScalar::UInt64(v as u64)))
        } else {
            None
        },
        NumberDataType::Int8 => if i8::MIN as i128 <= v && v <= i8::MAX as i128 {
            Some(Scalar::Number(NumberScalar::Int8(v as i8)))
        } else {
            None
        },
        NumberDataType::Int16 => if i16::MIN as i128 <= v && v <= i16::MAX as i128 {
            Some(Scalar::Number(NumberScalar::Int16(v as i16)))
        } else {
            None
        },
        NumberDataType::Int32 => if i32::MIN as i128 <= v && v <= i32::MAX as i128 {
            Some(Scalar::Number(NumberScalar::Int32(v as i32)))
        } else {
            None
        },
        NumberDataType::Int64 => if i64::MIN as i128 <= v && v <= i64::MAX as i128 {
            Some(Scalar::Number(NumberScalar::Int64(v as i64)))
        } else {
            None
        },
        _ => None,
    }
}

/// Executable mirror of [`cast_scalar_spec`].
pub fn cast_scalar(s: Scalar, dest: &DataType) -> (r: Result<Scalar, ErrorCode>)
    ensures
        r is Ok <==> cast_scalar_spec(s, *dest) is Some,
        r matches Ok(v) ==> scalar_eqv(v, cast_scalar_spec(s, *dest)->Some_0),
        r matches Err(e) ==> e.kind == ErrorKind::Evaluation,
    decreases *dest,
{
    match dest {
        DataType::Nullable(inner) => {
            if matches!(s, Scalar::Null) {
                Ok(Scalar::Null)
            } else {
                cast_scalar(s, inner)
            }
        },
        DataType::Number(n) => {
            if n.is_float() {
                Err(eval_error())
            } else {
                match scalar_to_int(&s) {
                    Some(v) => match build_int_scalar(v, *n) {
                        Some(out) => {
                            proof {
                                lemma_scalar_eqv_refl(out);
                            }
                            Ok(out)
                        },
                        None => Err(eval_error()),
                    },
                    None => Err(eval_error()),
                }
            }
        },
        DataType::Boolean => {
            if matches!(s, Scalar::Boolean(_)) {
                proof {
                    lemma_scalar_eqv_refl(s);
                }
                Ok(s)
            } else {
                Err(eval_error())
            }
        },
        DataType::String => {
            if matches!(s, Scalar::String(_)) {
                proof {
                    lemma_scalar_eqv_refl(s);
                }
                Ok(s)
            } else {
                Err(eval_error())
            }
        },
        DataType::Binary => {
            if matches!(s, Scalar::Binary(_)) {
                proof {
                    lemma_scalar_eqv_refl(s);
                }
                Ok(s)
            } else {
                Err(eval_error())
            }
        },
        DataType::Date => {
            match scalar_to_int(&s) {
                Some(v) => if i32::MIN as i128 <= v && v <= i32::MAX as i128 {
                    Ok(Scalar::Date(v as i32))
                } else {
                    Err(eval_error())
                },
                None => Err(eval_error()),
            }
        },
        DataType::Timestamp => {
            match scalar_to_int(&s) {
                Some(v) => if i64::MIN as i128 <= v && v <= i64::MAX as i128 {
                    Ok(Scalar::Timestamp(v as i64))
                } else {
                    Err(eval_error())
                },
                None => Err(eval_error()),
            }
        },
        _ => Err(eval_error()),
    }
}

/// Executable mirror of [`apply_func_spec`], exact on the given values.
pub fn apply_func(f: Func, vals: Vec<Scalar>) -> (r: Result<Scalar, ErrorCode>)
    ensures
        r is Ok <==> apply_func_spec(f, vals@) is Some,
        r matches Ok(v) ==> apply_func_spec(f, vals@) == Some(v),
        r matches Err(e) ==> e.kind == ErrorKind::Evaluation,
{
    match f {
        Func::Plus | Func::Minus | Func::Multiply | Func::Divide | Func::Modulo => {
            if vals.len() != 2 {
                return Err(eval_error());
            }
            if matches!(vals[0], Scalar::Null) || matches!(vals[1], Scalar::Null) {
                return Ok(Scalar::Null);
            }
            match (&vals[0], &vals[1]) {
                (
                    Scalar::Number(NumberScalar::Int64(a)),
                    Scalar::Number(NumberScalar::Int64(b)),
                ) => {
                    let v = match f {
                        Func::Plus => a.checked_add(*b),
                        Func::Minus => a.checked_sub(*b),
                        Func::Multiply => a.checked_mul(*b),
                        Func::Divide => a.checked_div(*b),
                        _ => a.checked_rem(*b),
                    };
                    match v {
                        Some(x) => Ok(Scalar::Number(NumberScalar::Int64(x))),
                        None => Err(eval_error()),
                    }
                },
                _ => Err(eval_error()),
            }
        },
        Func::EqCmp | Func::NotEqCmp | Func::LtCmp | Func::LteCmp | Func::GtCmp
        | Func::GteCmp => {
            if vals.len() != 2 {
                return Err(eval_error());
            }
            if matches!(vals[0], Scalar::Null) || matches!(vals[1], Scalar::Null) {
                return Ok(Scalar::Null);
            }
            match (&vals[0], &vals[1]) {
                (
                    Scalar::Number(NumberScalar::Int64(a)),
                    Scalar::Number(NumberScalar::Int64(b)),
                ) => Ok(
                    Scalar::Boolean(
                        match f {
                            Func::EqCmp => *a == *b,
                            Func::NotEqCmp => *a != *b,
                            Func::LtCmp => *a < *b,
                            Func::LteCmp => *a <= *b,
                            Func::GtCmp => *a > *b,
                            _ => *a >= *b,
                        },
                    ),
                ),
                (Scalar::String(a), Scalar::String(b)) => {
                    match f {
                        Func::EqCmp => Ok(Scalar::Boolean(*a == *b)),
                        Func::NotEqCmp => Ok(Scalar::Boolean(!(*a == *b))),
                        _ => Err(eval_error()),
                    }
                },
                (Scalar::Boolean(a), Scalar::Boolean(b)) => {
                    match f {
                        Func::EqCmp => Ok(Scalar::Boolean(*a == *b)),
                        Func::NotEqCmp => Ok(Scalar::Boolean(*a != *b)),
                        _ => Err(eval_error()),
                    }
                },
                _ => Err(eval_error()),
            }
        },
        Func::AndFn | Func::OrFn => {
            if vals.len() != 2 {
                return Err(eval_error());
            }
            if matches!(vals[0], Scalar::Null) || matches!(vals[1], Scalar::Null) {
                return Ok(Scalar::Null);
            }
            match (&vals[0], &vals[1]) {
                (Scalar::Boolean(a), Scalar::Boolean(b)) => Ok(
                    Scalar::Boolean(
                        if matches!(f, Func::AndFn) {
                            *a && *b
                        } else {
                            *a || *b
                        },
                    ),
                ),
                _ => Err(eval_error()),
            }
        },
        Func::NotFn => {
            if vals.len() != 1 {
                return Err(eval_error());
            }
            match &vals[0] {
                Scalar::Null => Ok(Scalar::Null),
                Scalar::Boolean(a) => Ok(Scalar::Boolean(!*a)),
                _ => Err(eval_error()),
            }
        },
        Func::ToInt8 => apply_to_int(vals, NumberDataType::Int8),
        Func::ToInt16 => apply_to_int(vals, NumberDataType::Int16),
        Func::ToInt32 => apply_to_int(vals, NumberDataType::Int32),
        Func::ToInt64 => apply_to_int(vals, NumberDataType::Int64),
        Func::IsNotNull => {
            if vals.len() != 1 {
                return Err(eval_error());
            }
            Ok(Scalar::Boolean(!matches!(vals[0], Scalar::Null)))
        },
        Func::AssumeNotNull => {
            if vals.len() != 1 || matches!(vals[0], Scalar::Null) {
                return Err(eval_error());
            }
            let mut vals = vals;
            let v = vals.remove(0);
            Ok(v)
        },
        _ => Err(eval_error()),
    }
}

fn apply_to_int(vals: Vec<Scalar>, n: NumberDataType) -> (r: Result<Scalar, ErrorCode>)
    ensures
        r is Ok <==> apply_to_int_spec(vals@, n) is Some,
        r matches Ok(v) ==> apply_to_int_spec(vals@, n) == Some(v),
        r matches Err(e) ==> e.kind == ErrorKind::Evaluation,
{
    if vals.len() != 1 {
        return Err(eval_error());
    }
    if matches!(vals[0], Scalar::Null) {
        return Ok(Scalar::Null);
    }
    match scalar_to_int(&vals[0]) {
        Some(v) => match build_int_scalar(v, n) {
            Some(out) => Ok(out),
            None => Err(eval_error()),
        },
        None => Err(eval_error()),
    }
}

/// Evaluates a constant expression against the single synthetic row.
/// Succeeds exactly where [`eval_spec`] has a value.
#[verifier::loop_isolation(false)]
pub fn eval_expr(e: &Expr) -> (r: Result<Scalar, ErrorCode>)
    ensures
        r is Ok <==> eval_spec(*e) is Some,
        r matches Ok(s) ==> scalar_eqv(s, eval_spec(*e)->Some_0),
        r matches Err(err) ==> err.kind == ErrorKind::Evaluation,
    decreases *e,
{
    match e {
        Expr::Constant { scalar, .. } => {
            let s = scalar.clone();
            Ok(s)
        },
        Expr::ColumnRef { .. } => Err(eval_error()),
        Expr::Cast { expr, dest_type } => {
            match eval_expr(expr) {
                Ok(v) => {
                    let ghost vv = v;
                    let ghost inner_val = eval_spec(*e->Cast_expr)->Some_0;
                    proof {
                        lemma_cast_eqv(vv, inner_val, *dest_type);
                    }
                    match cast_scalar(v, dest_type) {
                        Ok(out) => {
                            proof {
                                crate::scalar::lemma_scalar_eqv_trans(
                                    out,
                                    cast_scalar_spec(vv, *dest_type)->Some_0,
                                    cast_scalar_spec(inner_val, *dest_type)->Some_0,
                                );
                            }
                            Ok(out)
                        },
                        Err(err) => Err(err),
                    }
                },
                Err(err) => Err(err),
            }
        },
        Expr::FunctionCall { func, args, .. } => {
            if matches!(func, Func::IfFn) {
                if args.len() != 3 {
                    return Err(eval_error());
                }
                proof {
                    assert(*args == e->FunctionCall_args);
                    assert(decreases_to!(*e => e->FunctionCall_args));
                    assert(decreases_to!(*args => args@));
                    assert(decreases_to!(args@ => args@[0int]));
                    assert(decreases_to!(args@ => args@[1int]));
                    assert(decreases_to!(args@ => args@[2int]));
                }
                let cond = match eval_expr(&args[0]) {
                    Ok(c) => c,
                    Err(err) => {
                        return Err(err);
                    },
                };
                return match cond {
                    Scalar::Boolean(c) => if c {
                        eval_expr(&args[1])
                    } else {
                        eval_expr(&args[2])
                    },
                    Scalar::Null => Ok(Scalar::Null),
                    _ => Err(eval_error()),
                };
            }
            let mut vals: Vec<Scalar> = Vec::new();
            let mut i: usize = 0;
            while i < args.len()
                invariant
                    i <= args.len(),
                    vals@.len() == i,
                    forall|j: int| 0 <= j < i ==> (#[trigger] eval_spec(args@[j])) is Some,
                    forall|j: int|
                        0 <= j < i ==> scalar_eqv(
                            #[trigger] vals@[j],
                            eval_spec(args@[j])->Some_0,
                        ),
                decreases args.len() - i,
            {
                proof {
                    assert(*args == e->FunctionCall_args);
                    assert(decreases_to!(*e => e->FunctionCall_args));
                    assert(decreases_to!(*args => args@));
                    assert(decreases_to!(args@ => args@[i as int]));
                }
                match eval_expr(&args[i]) {
                    Ok(v) => {
                        vals.push(v);
                    },
                    Err(err) => {
                        proof {
                            lemma_eval_args(args@, 0);
                        }
                        return Err(err);
                    },
                }
                i = i + 1;
            }
            proof {
                lemma_eval_args(args@, 0);
                let ws = eval_args_spec(args@, 0)->Some_0;
                assert forall|j: int| 0 <= j < args@.len() implies scalar_eqv(
                    #[trigger] vals@[j],
                    ws[j],
                ) by {
                    assert(eval_spec(args@[j]) == Some(ws[j - 0]));
                }
                lemma_apply_eqv(*func, vals@, ws);
            }
            apply_func(*func, vals)
        },
    }
}


/// The folded form of an expression: a constant is already folded; a
/// deterministic evaluation replaces the tree with its literal value; a
/// failed evaluation leaves the tree unchanged.
pub open spec fn fold_spec(e: Expr) -> Expr {
    if e is Constant {
        e
    } else {
        match eval_spec(e) {
            Some(s) => Expr::Constant { scalar: s, data_type: e.spec_data_type() },
            None => e,
        }
    }
}

/// Folding an already-folded (constant) expression returns it unchanged.
pub proof fn lemma_fold_constant(e: Expr)
    requires
        e is Constant,
    ensures
        fold_spec(e) == e,
{
}

/// Folding is idempotent.
pub proof fn lemma_fold_idempotent(e: Expr)
    ensures
        fold_spec(fold_spec(e)) == fold_spec(e),
{
}

/// Folding preserves the expression's type.
pub proof fn lemma_fold_type(e: Expr)
    ensures
        fold_spec(e).spec_data_type() == e.spec_data_type(),
{
}

/// Replaces the expression by its constant value when it evaluates;
/// hands it back unchanged otherwise (including every constant).
pub fn fold(e: Expr) -> (r: Expr)
    ensures
        crate::expr::expr_eqv(r, fold_spec(e)),
        e is Constant ==> r == e,
        eval_spec(e) is None ==> r == e,
        r.spec_data_type() == e.spec_data_type(),
{
    if matches!(e, Expr::Constant { .. }) {
        proof {
            crate::expr::lemma_expr_eqv_refl(e);
        }
        return e;
    }
    let dt = e.data_type();
    match eval_expr(&e) {
        Ok(s) => Expr::Constant { scalar: s, data_type: dt },
        Err(_) => {
            proof {
                crate::expr::lemma_expr_eqv_refl(e);
            }
            e
        },
    }
}

/// Structurally equivalent expressions evaluate to equivalent outcomes.
pub proof fn lemma_eval_eqv(a: Expr, b: Expr)
    requires
        crate::expr::expr_eqv(a, b),
    ensures
        opt_scalar_eqv(eval_spec(a), eval_spec(b)),
    decreases a, 0int,
{
    match (a, b) {
        (Expr::Cast { expr: ea, dest_type: ta }, Expr::Cast { expr: eb, dest_type: tb }) => {
            lemma_eval_eqv(*ea, *eb);
            match (eval_spec(*ea), eval_spec(*eb)) {
                (Some(x), Some(y)) => {
                    lemma_cast_eqv(x, y, ta);
                    assert(opt_scalar_eqv(cast_scalar_spec(x, ta), cast_scalar_spec(y, tb)));
                },
                _ => {},
            }
        },
        (
            Expr::FunctionCall { func: fa, args: aa, .. },
            Expr::FunctionCall { func: fb, args: ab, .. },
        ) => {
            if fa == Func::IfFn {
                if aa@.len() == 3 {
                    lemma_eval_eqv(aa@[0], ab@[0]);
                    lemma_eval_eqv(aa@[1], ab@[1]);
                    lemma_eval_eqv(aa@[2], ab@[2]);
                }
            } else {
                lemma_eval_args_eqv(aa@, ab@, 0);
                match (eval_args_spec(aa@, 0), eval_args_spec(ab@, 0)) {
                    (Some(x), Some(y)) => {
                        lemma_apply_eqv(fa, x, y);
                    },
                    _ => {},
                }
            }
        },
        _ => {},
    }
}

pub proof fn lemma_eval_args_eqv(a: Seq<Expr>, b: Seq<Expr>, i: int)
    requires
        0 <= i,
        a.len() == b.len(),
        forall|j: int| 0 <= j < a.len() ==> crate::expr::expr_eqv(#[trigger] a[j], b[j]),
    ensures
        eval_args_spec(a, i) is Some <==> eval_args_spec(b, i) is Some,
        eval_args_spec(a, i) matches Some(x) ==> eval_args_spec(b, i) matches Some(y)
            && x.len() == y.len() && forall|k: int| 0 <= k < x.len() ==> scalar_eqv(
            #[trigger] x[k],
            y[k],
        ),
    decreases a, a.len() - i,
{
    if 0 <= i < a.len() {
        lemma_eval_eqv(a[i], b[i]);
        lemma_eval_args_eqv(a, b, i + 1);
        match (eval_spec(a[i]), eval_spec(b[i])) {
            (Some(va), Some(vb)) => {
                match (eval_args_spec(a, i + 1), eval_args_spec(b, i + 1)) {
                    (Some(ra), Some(rb)) => {
                        let xa = seq![va] + ra;
                        let xb = seq![vb] + rb;
                        assert(eval_args_spec(a, i) == Some(xa));
                        assert(eval_args_spec(b, i) == Some(xb));
                        assert forall|k: int| 0 <= k < xa.len() implies scalar_eqv(
                            #[trigger] xa[k],
                            xb[k],
                        ) by {
                            if k == 0 {
                                assert(xa[0] == va && xb[0] == vb);
                            } else {
                                assert(xa[k] == ra[k - 1] && xb[k] == rb[k - 1]);
                            }
                        }
                    },
                    _ => {},
                }
            },
            _ => {},
        }
    }
}

} // verus!

//! The built-in function registry: signatures, implicit-cast targets and
//! explicit cast insertion.

use vstd::prelude::*;
use crate::errors::{ErrorCode, ErrorKind};
use crate::expr::{Expr, Func};
use crate::types::{DataType, NumberDataType};

verus! {

/// Non-float machine integer types.
pub open spec fn is_integer(t: DataType) -> bool {
    t matches DataType::Number(n) && !n.spec_is_float()
}

pub fn type_is_integer(t: &DataType) -> (r: bool)
    ensures
        r == is_integer(*t),
{
    match t {
        DataType::Number(n) => !n.is_float(),
        _ => false,
    }
}

/// The common 64-bit signed target for arithmetic, nullable when the
/// argument is.
pub open spec fn int64_target(t: DataType) -> DataType {
    if t is Nullable {
        DataType::Nullable(Box::new(DataType::Number(NumberDataType::Int64)))
    } else {
        DataType::Number(NumberDataType::Int64)
    }
}

pub open spec fn uint64_target(t: DataType) -> DataType {
    if t is Nullable {
        DataType::Nullable(Box::new(DataType::Number(NumberDataType::UInt64)))
    } else {
        DataType::Number(NumberDataType::UInt64)
    }
}

pub fn make_int64_target(t: &DataType) -> (r: DataType)
    ensures
        r == int64_target(*t),
{
    if t.is_nullable() {
        DataType::Nullable(Box::new(DataType::Number(NumberDataType::Int64)))
    } else {
        DataType::Number(NumberDataType::Int64)
    }
}

pub fn make_uint64_target(t: &DataType) -> (r: DataType)
    ensures
        r == uint64_target(*t),
{
    if t.is_nullable() {
        DataType::Nullable(Box::new(DataType::Number(NumberDataType::UInt64)))
    } else {
        DataType::Number(NumberDataType::UInt64)
    }
}

/// `t` wrapped nullable when `b` holds.
pub open spec fn wrap_null_if(b: bool, t: DataType) -> DataType {
    if b {
        t.spec_wrap_nullable()
    } else {
        t
    }
}

/// Argument classes accepted by the per-dimension clustering key transform.
pub open spec fn hilbert_arg_ok(t: DataType) -> bool {
    ||| t is Number
    ||| t is String
    ||| t is Binary
    ||| t is Boolean
    ||| t is Date
    ||| t is Timestamp
    ||| t is Decimal
}

/// Argument classes accepted by the fixed-width integer casts.
pub open spec fn to_int_arg_ok(t: DataType) -> bool {
    ||| is_integer(t)
    ||| t is Boolean
    ||| t is Date
    ||| t is Timestamp
}

/// The return type of a registry function on the given argument types, or
/// `None` when no overload accepts them. This is the whole signature table.
pub open spec fn spec_infer(f: Func, ts: Seq<DataType>) -> Option<DataType> {
    match f {
        Func::Plus | Func::Minus | Func::Multiply | Func::Divide | Func::Modulo => {
            if ts.len() == 2 && is_integer(ts[0].spec_remove_nullable()) && is_integer(
                ts[1].spec_remove_nullable(),
            ) {
                Some(
                    wrap_null_if(
                        ts[0] is Nullable || ts[1] is Nullable,
                        DataType::Number(NumberDataType::Int64),
                    ),
                )
            } else {
                None
            }
        },
        Func::EqCmp | Func::NotEqCmp | Func::LtCmp | Func::LteCmp | Func::GtCmp
        | Func::GteCmp => {
            if ts.len() == 2 && cmp_args_ok(ts[0].spec_remove_nullable(), ts[1].spec_remove_nullable()) {
                Some(wrap_null_if(ts[0] is Nullable || ts[1] is Nullable, DataType::Boolean))
            } else {
                None
            }
        },
        Func::AndFn | Func::OrFn => {
            if ts.len() == 2 && ts[0].spec_remove_nullable() is Boolean
                && ts[1].spec_remove_nullable() is Boolean {
                Some(wrap_null_if(ts[0] is Nullable || ts[1] is Nullable, DataType::Boolean))
            } else {
                None
            }
        },
        Func::NotFn => {
            if ts.len() == 1 && ts[0].spec_remove_nullable() is Boolean {
                Some(wrap_null_if(ts[0] is Nullable, DataType::Boolean))
            } else {
                None
            }
        },
        Func::Substr => {
            if ts.len() == 3 && ts[0].spec_remove_nullable() is String && is_integer(
                ts[1].spec_remove_nullable(),
            ) && is_integer(ts[2].spec_remove_nullable()) {
                Some(
                    wrap_null_if(
                        ts[0] is Nullable || ts[1] is Nullable || ts[2] is Nullable,
                        DataType::String,
                    ),
                )
            } else {
                None
            }
        },
        Func::Upper | Func::Lower => {
            if ts.len() == 1 && ts[0].spec_remove_nullable() is String {
                Some(wrap_null_if(ts[0] is Nullable, DataType::String))
            } else {
                None
            }
        },
        Func::ToInt8 => spec_infer_to_int(ts, NumberDataType::Int8),
        Func::ToInt16 => spec_infer_to_int(ts, NumberDataType::Int16),
        Func::ToInt32 => spec_infer_to_int(ts, NumberDataType::Int32),
        Func::ToInt64 => spec_infer_to_int(ts, NumberDataType::Int64),
        Func::ToFloat64 => {
            if ts.len() == 1 && (ts[0].spec_remove_nullable() is Number
                || ts[0].spec_remove_nullable() is Decimal) {
                Some(wrap_null_if(ts[0] is Nullable, DataType::Number(NumberDataType::Float64)))
            } else {
                None
            }
        },
        Func::IsNotNull => {
            if ts.len() == 1 {
                Some(DataType::Boolean)
            } else {
                None
            }
        },
        Func::AssumeNotNull => {
            if ts.len() == 1 && !(ts[0] is Null) {
                Some(ts[0].spec_remove_nullable())
            } else {
                None
            }
        },
        Func::IfFn => {
            if ts.len() == 3 && ts[0].spec_remove_nullable() is Boolean
                && ts[1].spec_remove_nullable() == ts[2].spec_remove_nullable() {
                Some(
                    wrap_null_if(
                        ts[1] is Nullable || ts[2] is Nullable,
                        ts[1].spec_remove_nullable(),
                    ),
                )
            } else {
                None
            }
        },
        Func::ArrayFn => {
            if ts.len() >= 1 && (forall|i: int| 0 <= i < ts.len() ==> #[trigger] ts[i] == ts[0]) {
                Some(DataType::Array(Box::new(ts[0])))
            } else {
                None
            }
        },
        Func::HilbertKey => {
            if ts.len() == 1 && hilbert_arg_ok(ts[0].spec_remove_nullable()) {
                Some(wrap_null_if(ts[0] is Nullable, DataType::Binary))
            } else {
                None
            }
        },
        Func::HilbertIndex => {
            if ts.len() == 2 && ts[0] == DataType::Array(Box::new(DataType::Binary)) && ts[1]
                == DataType::Number(NumberDataType::UInt64) {
                Some(DataType::Binary)
            } else {
                None
            }
        },
        Func::Rand => {
            if ts.len() == 0 {
                Some(DataType::Number(NumberDataType::Float64))
            } else {
                None
            }
        },
        Func::NowFn => {
            if ts.len() == 0 {
                Some(DataType::Timestamp)
            } else {
                None
            }
        },
    }
}

pub open spec fn spec_infer_to_int(ts: Seq<DataType>, n: NumberDataType) -> Option<DataType> {
    if ts.len() == 1 && to_int_arg_ok(ts[0].spec_remove_nullable()) {
        Some(wrap_null_if(ts[0] is Nullable, DataType::Number(n)))
    } else {
        None
    }
}

/// Comparable pairs, after stripping nullability.
pub open spec fn cmp_args_ok(a: DataType, b: DataType) -> bool {
    ||| (is_integer(a) && is_integer(b))
    ||| (a == b && (a is String || a is Boolean || a is Date || a is Timestamp))
}

/// The implicit-cast target of the `i`-th argument: arithmetic and integer
/// comparison promote to 64-bit integers; everything else is taken as is.
pub open spec fn spec_target(f: Func, ts: Seq<DataType>, i: int) -> DataType {
    match f {
        Func::Plus | Func::Minus | Func::Multiply | Func::Divide | Func::Modulo => int64_target(
            ts[i],
        ),
        Func::EqCmp | Func::NotEqCmp | Func::LtCmp | Func::LteCmp | Func::GtCmp
        | Func::GteCmp => {
            if is_integer(ts[0].spec_remove_nullable()) && is_integer(
                ts[1].spec_remove_nullable(),
            ) {
                int64_target(ts[i])
            } else {
                ts[i]
            }
        },
        Func::Substr => {
            if i == 1 {
                int64_target(ts[1])
            } else if i == 2 {
                uint64_target(ts[2])
            } else {
                ts[i]
            }
        },
        _ => ts[i],
    }
}

pub fn compute_target(f: Func, ts: &Vec<DataType>, i: usize) -> (r: DataType)
    requires
        i < ts@.len(),
        spec_infer(f, ts@) is Some,
    ensures
        r == spec_target(f, ts@, i as int),
{
    match f {
        Func::Plus | Func::Minus | Func::Multiply | Func::Divide | Func::Modulo => {
            make_int64_target(&ts[i])
        },
        Func::EqCmp | Func::NotEqCmp | Func::LtCmp | Func::LteCmp | Func::GtCmp
        | Func::GteCmp => {
            let a = ts[0].remove_nullable();
            let b = ts[1].remove_nullable();
            if type_is_integer(&a) && type_is_integer(&b) {
                make_int64_target(&ts[i])
            } else {
                ts[i].clone()
            }
        },
        Func::Substr => {
            if i == 1 {
                make_int64_target(&ts[1])
            } else if i == 2 {
                make_uint64_target(&ts[2])
            } else {
                ts[i].clone()
            }
        },
        _ => ts[i].clone(),
    }
}

/// The types of a lowered argument list.
pub open spec fn spec_types_of(args: Seq<Expr>) -> Seq<DataType> {
    Seq::new(args.len(), |i: int| args[i].spec_data_type())
}

/// Executable mirror of [`spec_infer`]: resolves the overload or reports a
/// semantic error.
#[verifier::loop_isolation(false)]
pub fn infer_return_type(f: Func, ts: &Vec<DataType>) -> (r: Result<DataType, ErrorCode>)
    ensures
        r matches Ok(rt) ==> spec_infer(f, ts@) == Some(rt),
        r is Ok <==> spec_infer(f, ts@) is Some,
        r matches Err(e) ==> e.kind == ErrorKind::Semantic,
{
    match f {
        Func::Plus | Func::Minus | Func::Multiply | Func::Divide | Func::Modulo => {
            if ts.len() == 2 {
                let a = ts[0].remove_nullable();
                let b = ts[1].remove_nullable();
                if type_is_integer(&a) && type_is_integer(&b) {
                    let nullable = ts[0].is_nullable() || ts[1].is_nullable();
                    let base = DataType::Number(NumberDataType::Int64);
                    return Ok(if nullable { base.wrap_nullable() } else { base });
                }
            }
            Err(no_overload_error())
        },
        Func::EqCmp | Func::NotEqCmp | Func::LtCmp | Func::LteCmp | Func::GtCmp
        | Func::GteCmp => {
            if ts.len() == 2 {
                let a = ts[0].remove_nullable();
                let b = ts[1].remove_nullable();
                let ok = (type_is_integer(&a) && type_is_integer(&b)) || (a.eq_type(&b) && (match a {
                    DataType::String | DataType::Boolean | DataType::Date
                    | DataType::Timestamp => true,
                    _ => false,
                }));
                if ok {
                    let nullable = ts[0].is_nullable() || ts[1].is_nullable();
                    let base = DataType::Boolean;
                    return Ok(if nullable { base.wrap_nullable() } else { base });
                }
            }
            Err(no_overload_error())
        },
        Func::AndFn | Func::OrFn => {
            if ts.len() == 2 {
                let a = ts[0].remove_nullable();
                let b = ts[1].remove_nullable();
                if matches!(a, DataType::Boolean) && matches!(b, DataType::Boolean) {
                    let nullable = ts[0].is_nullable() || ts[1].is_nullable();
                    let base = DataType::Boolean;
                    return Ok(if nullable { base.wrap_nullable() } else { base });
                }
            }
            Err(no_overload_error())
        },
        Func::NotFn => {
            if ts.len() == 1 {
                let a = ts[0].remove_nullable();
                if matches!(a, DataType::Boolean) {
                    let base = DataType::Boolean;
                    return Ok(if ts[0].is_nullable() { base.wrap_nullable() } else { base });
                }
            }
            Err(no_overload_error())
        },
        Func::Substr => {
            if ts.len() == 3 {
                let a = ts[0].remove_nullable();
                let b = ts[1].remove_nullable();
                let c = ts[2].remove_nullable();
                if matches!(a, DataType::String) && type_is_integer(&b) && type_is_integer(&c) {
                    let nullable = ts[0].is_nullable() || ts[1].is_nullable()
                        || ts[2].is_nullable();
                    let base = DataType::String;
                    return Ok(if nullable { base.wrap_nullable() } else { base });
                }
            }
            Err(no_overload_error())
        },
        Func::Upper | Func::Lower => {
            if ts.len() == 1 {
                let a = ts[0].remove_nullable();
                if matches!(a, DataType::String) {
                    let base = DataType::String;
                    return Ok(if ts[0].is_nullable() { base.wrap_nullable() } else { base });
                }
            }
            Err(no_overload_error())
        },
        Func::ToInt8 => infer_to_int(ts, NumberDataType::Int8),
        Func::ToInt16 => infer_to_int(ts, NumberDataType::Int16),
        Func::ToInt32 => infer_to_int(ts, NumberDataType::Int32),
        Func::ToInt64 => infer_to_int(ts, NumberDataType::Int64),
        Func::ToFloat64 => {
            if ts.len() == 1 {
                let a = ts[0].remove_nullable();
                let ok = match a {
                    DataType::Number(_) | DataType::Decimal(_) => true,
                    _ => false,
                };
                if ok {
                    let base = DataType::Number(NumberDataType::Float64);
                    return Ok(if ts[0].is_nullable() { base.wrap_nullable() } else { base });
                }
            }
            Err(no_overload_error())
        },
        Func::IsNotNull => {
            if ts.len() == 1 {
                Ok(DataType::Boolean)
            } else {
                Err(no_overload_error())
            }
        },
        Func::AssumeNotNull => {
            if ts.len() == 1 && !matches!(ts[0], DataType::Null) {
                Ok(ts[0].remove_nullable())
            } else {
                Err(no_overload_error())
            }
        },
        Func::IfFn => {
            if ts.len() == 3 {
                let c = ts[0].remove_nullable();
                let a = ts[1].remove_nullable();
                let b = ts[2].remove_nullable();
                if matches!(c, DataType::Boolean) && a.eq_type(&b) {
                    let nullable = ts[1].is_nullable() || ts[2].is_nullable();
                    return Ok(if nullable { a.wrap_nullable() } else { a });
                }
            }
            Err(no_overload_error())
        },
        Func::ArrayFn => {
            if ts.len() >= 1 {
                let mut i: usize = 1;
                while i < ts.len()
                    invariant
                        1 <= i <= ts@.len(),
                        forall|j: int| 0 <= j < i ==> #[trigger] ts@[j] == ts@[0],
                    decreases ts@.len() - i,
                {
                    if !ts[i].eq_type(&ts[0]) {
                        proof {
                            assert(ts@[i as int] != ts@[0]);
                        }
                        return Err(no_overload_error());
                    }
                    i = i + 1;
                }
                Ok(DataType::Array(Box::new(ts[0].clone())))
            } else {
                Err(no_overload_error())
            }
        },
        Func::HilbertKey => {
            if ts.len() == 1 {
                let a = ts[0].remove_nullable();
                let ok = match a {
                    DataType::Number(_) | DataType::String | DataType::Binary
                    | DataType::Boolean | DataType::Date | DataType::Timestamp
                    | DataType::Decimal(_) => true,
                    _ => false,
                };
                if ok {
                    let base = DataType::Binary;
                    return Ok(if ts[0].is_nullable() { base.wrap_nullable() } else { base });
                }
            }
            Err(no_overload_error())
        },
        Func::HilbertIndex => {
            if ts.len() == 2 {
                let want = DataType::Array(Box::new(DataType::Binary));
                if ts[0].eq_type(&want) && ts[1].eq_type(
                    &DataType::Number(NumberDataType::UInt64),
                ) {
                    return Ok(DataType::Binary);
                }
            }
            Err(no_overload_error())
        },
        Func::Rand => {
            if ts.len() == 0 {
                Ok(DataType::Number(NumberDataType::Float64))
            } else {
                Err(no_overload_error())
            }
        },
        Func::NowFn => {
            if ts.len() == 0 {
                Ok(DataType::Timestamp)
            } else {
                Err(no_overload_error())
            }
        },
    }
}

fn infer_to_int(ts: &Vec<DataType>, n: NumberDataType) -> (r: Result<DataType, ErrorCode>)
    ensures
        r matches Ok(rt) ==> spec_infer_to_int(ts@, n) == Some(rt),
        r is Ok <==> spec_infer_to_int(ts@, n) is Some,
        r matches Err(e) ==> e.kind == ErrorKind::Semantic,
{
    if ts.len() == 1 {
        let a = ts[0].remove_nullable();
        let ok = type_is_integer(&a) || match a {
            DataType::Boolean | DataType::Date | DataType::Timestamp => true,
            _ => false,
        };
        if ok {
            let base = DataType::Number(n);
            return Ok(if ts[0].is_nullable() { base.wrap_nullable() } else { base });
        }
    }
    Err(no_overload_error())
}

fn no_overload_error() -> (r: ErrorCode)
    ensures
        r.kind == ErrorKind::Semantic,
{
    ErrorCode::new(
        ErrorKind::Semantic,
        String::from_str("no overload of the function accepts the argument types"),
    )
}

/// `e` wrapped in an explicit cast when its type differs from the target;
/// returned unchanged otherwise.
pub open spec fn spec_wrap_cast(e: Expr, t: DataType) -> Expr {
    if e.spec_data_type() == t {
        e
    } else {
        Expr::Cast { expr: Box::new(e), dest_type: t }
    }
}

/// Wrapping is idempotent: a second wrap with the same target changes
/// nothing, because the first wrap's result already has that type.
pub proof fn lemma_wrap_cast_idempotent(e: Expr, t: DataType)
    ensures
        spec_wrap_cast(spec_wrap_cast(e, t), t) == spec_wrap_cast(e, t),
{
}

/// Inserts an explicit cast node when the expression's type is not the
/// target type; otherwise hands the expression back unchanged.
pub fn wrap_cast(expr: Expr, target: &DataType) -> (r: Expr)
    ensures
        r == spec_wrap_cast(expr, *target),
        r.spec_data_type() == *target,
{
    let ty = expr.data_type();
    if ty.eq_type(target) {
        expr
    } else {
        Expr::Cast { expr: Box::new(expr), dest_type: target.clone() }
    }
}

/// Base classes between which an explicit cast may be attempted.
pub open spec fn castable_base(t: DataType) -> bool {
    ||| t is Number
    ||| t is Boolean
    ||| t is Date
    ||| t is Timestamp
    ||| t is Decimal
    ||| t is String
}

/// Whether an explicit cast from `src` to `dest` is accepted by the
/// registry. Evaluation may still fail on particular values.
pub open spec fn castable(src: DataType, dest: DataType) -> bool {
    ||| src == dest
    ||| (castable_base(src.spec_remove_nullable()) && castable_base(dest.spec_remove_nullable()))
    ||| (src is Null && dest is Nullable)
}

fn base_is_castable(t: &DataType) -> (r: bool)
    ensures
        r == castable_base(*t),
{
    match t {
        DataType::Number(_) | DataType::Boolean | DataType::Date | DataType::Timestamp
        | DataType::Decimal(_) | DataType::String => true,
        _ => false,
    }
}

/// Validates that the expression can be cast to the declared type and wraps
/// it; rejects conversions the registry does not know.
pub fn check_cast(expr: Expr, dest: &DataType) -> (r: Result<Expr, ErrorCode>)
    ensures
        r matches Ok(e) ==> e == spec_wrap_cast(expr, *dest) && e.spec_data_type() == *dest,
        r is Ok <==> castable(expr.spec_data_type(), *dest),
        r matches Err(err) ==> err.kind == ErrorKind::Semantic,
{
    let src = expr.data_type();
    let ok = src.eq_type(dest) || (base_is_castable(&src.remove_nullable()) && base_is_castable(
        &dest.remove_nullable(),
    )) || (matches!(src, DataType::Null) && dest.is_nullable());
    if ok {
        Ok(wrap_cast(expr, dest))
    } else {
        Err(
            ErrorCode::new(
                ErrorKind::Semantic,
                String::from_str("the expression cannot be cast to the declared type"),
            ),
        )
    }
}

/// `e` is the registry's application of `func` to `args`: a call node whose
/// return type the registry inferred and whose arguments are the given ones,
/// each wrapped in its implicit cast where needed.
pub open spec fn checked_call(e: Expr, func: Func, args: Seq<Expr>) -> bool {
    &&& e matches Expr::FunctionCall { func: f2, args: a2, return_type: rt }
    &&& f2 == func
    &&& spec_infer(func, spec_types_of(args)) == Some(rt)
    &&& a2@.len() == args.len()
    &&& forall|i: int|
        0 <= i < args.len() ==> #[trigger] a2@[i] == spec_wrap_cast(
            args[i],
            spec_target(func, spec_types_of(args), i),
        )
}

/// Resolves `func` against the registry on the argument list's types,
/// inserts the implicit casts the signature asks for, and builds the call
/// node; fails with a semantic error when no overload accepts the types.
#[verifier::loop_isolation(false)]
pub fn check_function(func: Func, args: Vec<Expr>) -> (r: Result<Expr, ErrorCode>)
    ensures
        r matches Ok(e) ==> checked_call(e, func, args@),
        r is Ok <==> spec_infer(func, spec_types_of(args@)) is Some,
        r matches Err(err) ==> err.kind == ErrorKind::Semantic,
{
    let ghost orig = args@;
    let mut ts: Vec<DataType> = Vec::new();
    let mut i: usize = 0;
    while i < args.len()
        invariant
            i <= args.len(),
            ts@.len() == i,
            forall|j: int| 0 <= j < i ==> ts@[j] == args@[j].spec_data_type(),
        decreases args.len() - i,
    {
        ts.push(args[i].data_type());
        i = i + 1;
    }
    proof {
        assert(ts@ =~= spec_types_of(orig));
    }
    let rt = match infer_return_type(func, &ts) {
        Ok(rt) => rt,
        Err(e) => {
            return Err(e);
        },
    };

    let mut rest = args;
    let mut out: Vec<Expr> = Vec::new();
    let mut i: usize = 0;
    while i < ts.len()
        invariant
            i <= ts@.len(),
            rest@ =~= orig.subrange(i as int, orig.len() as int),
            out@.len() == i,
            forall|j: int|
                0 <= j < i ==> #[trigger] out@[j] == spec_wrap_cast(
                    orig[j],
                    spec_target(func, spec_types_of(orig), j),
                ),
        decreases ts@.len() - i,
    {
        let e = rest.remove(0);
        proof {
            assert(e == orig[i as int]);
            assert(rest@ =~= orig.subrange(i + 1, orig.len() as int));
        }
        let target = compute_target(func, &ts, i);
        let wrapped = wrap_cast(e, &target);
        out.push(wrapped);
        i = i + 1;
    }
    Ok(Expr::FunctionCall { func, args: out, return_type: rt })
}

} // verus!

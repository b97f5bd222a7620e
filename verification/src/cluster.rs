//! Clustering-key compilation: linear (lexicographic) keys with bounded
//! string prefixes, and Hilbert-curve keys over width-normalized dimensions.

use vstd::prelude::*;
use crate::errors::{ErrorCode, ErrorKind};
use crate::eval::{eval_args_spec, eval_spec};
use crate::expr::{expr_eqv, Expr, Func};
use crate::registry::check_function;
use crate::scalar::{scalar_eqv, NumberScalar, Scalar};
use crate::types::{DataType, NumberDataType};

verus! {

/// The fixed prefix length, in characters, that bounds a string sort key.
pub const STRING_PREFIX_LEN: u64 = 8;

/// A key expression already truncated: syntactically a prefix-truncation
/// call at the top.
pub open spec fn is_substr_call(e: Expr) -> bool {
    e matches Expr::FunctionCall { func: Func::Substr, .. }
}

/// A linear key must be truncated when its nullable-stripped type is the
/// string type and it is not already a prefix-truncation call.
pub open spec fn needs_truncation(e: Expr) -> bool {
    e.spec_data_type().spec_remove_nullable() is String && !is_substr_call(e)
}

/// `x` is `e` wrapped in the fixed-width prefix truncation.
pub open spec fn truncation_of(x: Expr, e: Expr) -> bool {
    &&& x matches Expr::FunctionCall { func: Func::Substr, args, .. }
    &&& args@.len() == 3
    &&& args@[0] == e
    &&& args@[1] matches Expr::Constant {
        scalar: Scalar::Number(NumberScalar::Int64(p)),
        ..
    } && p == 1
    &&& args@[2] matches Expr::Constant {
        scalar: Scalar::Number(NumberScalar::UInt64(l)),
        ..
    } && l == STRING_PREFIX_LEN
}

/// Truncating never doubles: the wrapped key is itself a truncation call,
/// so it is never wrapped again.
pub proof fn lemma_truncation_not_doubled(x: Expr, e: Expr)
    requires
        truncation_of(x, e),
    ensures
        !needs_truncation(x),
{
}

fn needs_truncation_exec(e: &Expr) -> (r: bool)
    ensures
        r == needs_truncation(*e),
{
    let inner = e.data_type().remove_nullable();
    if matches!(inner, DataType::String) {
        !matches!(e, Expr::FunctionCall { func: Func::Substr, .. })
    } else {
        false
    }
}

/// Wraps a string-typed key in the fixed 8-character prefix truncation
/// unless it is already one; leaves every other key untouched.
pub fn wrap_string_truncation(e: Expr) -> (r: Result<Expr, ErrorCode>)
    ensures
        r is Ok,
        r matches Ok(x) ==> if needs_truncation(e) {
            truncation_of(x, e)
        } else {
            x == e
        },
        r matches Ok(x) ==> !needs_truncation(x),
{
    if !needs_truncation_exec(&e) {
        return Ok(e);
    }
    let ghost e0 = e;
    let pos = Expr::Constant {
        scalar: Scalar::Number(NumberScalar::Int64(1)),
        data_type: DataType::Number(NumberDataType::Int64),
    };
    let len = Expr::Constant {
        scalar: Scalar::Number(NumberScalar::UInt64(STRING_PREFIX_LEN)),
        data_type: DataType::Number(NumberDataType::UInt64),
    };
    let mut args: Vec<Expr> = Vec::new();
    args.push(e);
    args.push(pos);
    args.push(len);
    proof {
        assert(args@[0] == e0);
    }
    match check_function(Func::Substr, args) {
        Ok(x) => {
            proof {
                let ts = crate::registry::spec_types_of(seq![e0, pos, len]);
                assert(ts[0] == e0.spec_data_type());
                assert(crate::registry::spec_target(Func::Substr, ts, 0) == ts[0]);
            }
            Ok(x)
        },
        Err(err) => Err(err),
    }
}

/// Compiles a list of already-bound key expressions for linear clustering:
/// string-typed keys are truncated to the fixed prefix, all other keys pass
/// through unchanged, and no key ever leaves still in need of truncation.
pub fn compile_linear_cluster_keys(exprs: Vec<Expr>) -> (r: Result<Vec<Expr>, ErrorCode>)
    ensures
        r is Ok,
        r matches Ok(out) ==> {
            &&& out@.len() == exprs@.len()
            &&& forall|i: int|
                0 <= i < out@.len() ==> if needs_truncation(exprs@[i]) {
                    truncation_of(#[trigger] out@[i], exprs@[i])
                } else {
                    out@[i] == exprs@[i]
                }
            &&& forall|i: int| 0 <= i < out@.len() ==> !needs_truncation(#[trigger] out@[i])
        },
{
    let ghost orig = exprs@;
    let mut rest = exprs;
    let mut out: Vec<Expr> = Vec::new();
    let n = rest.len();
    let mut i: usize = 0;
    #[verifier::loop_isolation(false)]
    while i < n
        invariant
            i <= n,
            n == orig.len(),
            rest@ =~= orig.subrange(i as int, orig.len() as int),
            out@.len() == i,
            forall|j: int|
                0 <= j < i ==> if needs_truncation(orig[j]) {
                    truncation_of(#[trigger] out@[j], orig[j])
                } else {
                    out@[j] == orig[j]
                },
            forall|j: int| 0 <= j < i ==> !needs_truncation(#[trigger] out@[j]),
        decreases n - i,
    {
        let e = rest.remove(0);
        proof {
            assert(e == orig[i as int]);
            assert(rest@ =~= orig.subrange(i + 1, orig.len() as int));
        }
        match wrap_string_truncation(e) {
            Ok(x) => {
                out.push(x);
            },
            Err(err) => {
                return Err(err);
            },
        }
        i = i + 1;
    }
    Ok(out)
}

/// The canonical byte width of a clustering dimension, or `None` for types
/// clustering does not support.
pub open spec fn spec_hilbert_byte_size(t: DataType) -> Option<int>
    decreases t,
{
    match t {
        DataType::Nullable(inner) => if *inner is Nullable {
            None
        } else {
            spec_hilbert_byte_size(*inner)
        },
        DataType::Number(n) => Some(n.spec_byte_size() as int),
        DataType::Date => Some(4),
        DataType::Timestamp => Some(8),
        DataType::Decimal(s) => Some(
            if s.precision <= 38 {
                16int
            } else {
                32int
            },
        ),
        DataType::Boolean => Some(1),
        DataType::String => Some(24),
        _ => None,
    }
}

/// Canonical byte width of a dimension type; an error names the types that
/// Hilbert clustering cannot order.
pub fn hilbert_byte_size(data_type: &DataType) -> (r: Result<usize, ErrorCode>)
    ensures
        r matches Ok(v) ==> spec_hilbert_byte_size(*data_type) == Some(v as int),
        r is Ok <==> spec_hilbert_byte_size(*data_type) is Some,
        r matches Err(e) ==> e.kind == ErrorKind::Internal,
    decreases *data_type,
{
    match data_type {
        DataType::Nullable(inner) => {
            if matches!(**inner, DataType::Nullable(_)) {
                Err(
                    ErrorCode::new(
                        ErrorKind::Internal,
                        String::from_str("a nullable type cannot nest another nullable type"),
                    ),
                )
            } else {
                hilbert_byte_size(inner)
            }
        },
        DataType::Number(n) => Ok(n.byte_size()),
        DataType::Date => Ok(4),
        DataType::Timestamp => Ok(8),
        DataType::Decimal(s) => Ok(if s.precision <= 38 {
            16
        } else {
            32
        }),
        DataType::Boolean => Ok(1),
        DataType::String => Ok(24),
        _ => Err(
            ErrorCode::new(
                ErrorKind::Internal,
                String::from_str("unsupported data type for hilbert clustering"),
            ),
        ),
    }
}

/// Every supported width is one of the canonical sizes.
pub proof fn lemma_byte_size_values(t: DataType)
    ensures
        spec_hilbert_byte_size(t) matches Some(v) ==> (v == 1 || v == 2 || v == 4 || v == 8 || v
            == 16 || v == 24 || v == 32),
    decreases t,
{
    match t {
        DataType::Nullable(inner) => {
            lemma_byte_size_values(*inner);
        },
        _ => {},
    }
}

/// The guard that replaces a null dimension value by the all-ones sentinel
/// of the common width, so nulls sort last and never reach the index.
pub open spec fn null_guard_rel(g: Expr, k: Expr, w: int) -> bool {
    &&& g matches Expr::FunctionCall { func: Func::IfFn, args: gargs, .. }
    &&& gargs@.len() == 3
    &&& gargs@[0] matches Expr::FunctionCall { func: Func::IsNotNull, args: a0, .. }
        && a0@.len() == 1 && expr_eqv(a0@[0], k)
    &&& gargs@[1] matches Expr::FunctionCall { func: Func::AssumeNotNull, args: a1, .. }
        && a1@.len() == 1 && expr_eqv(a1@[0], k)
    &&& gargs@[2] matches Expr::Constant { scalar: Scalar::Binary(b), .. } && b@.len() == w
        && (forall|i: int| 0 <= i < w ==> b@[i] == 0xFFu8)
}

/// On a null dimension value the guard evaluates to the all-ones sentinel
/// of the chosen width — never to null.
pub proof fn lemma_null_guard_on_null(g: Expr, k: Expr, w: int)
    requires
        null_guard_rel(g, k, w),
        eval_spec(k) == Some(Scalar::Null),
    ensures
        eval_spec(g) matches Some(s) && (s matches Scalar::Binary(b) && b@.len() == w && forall|
            i: int,
        | 0 <= i < w ==> b@[i] == 0xFFu8),
{
    let gargs = g->FunctionCall_args;
    let a0 = gargs@[0];
    let k0 = a0->FunctionCall_args@[0];
    crate::eval::lemma_eval_eqv(k0, k);
    let x = eval_spec(k0)->Some_0;
    assert(scalar_eqv(x, Scalar::Null));
    assert(x == Scalar::Null);
    let a0args = a0->FunctionCall_args;
    assert(eval_args_spec(a0args@, 1) == Some(Seq::<Scalar>::empty()));
    assert(eval_args_spec(a0args@, 0) == Some(seq![x] + Seq::<Scalar>::empty()));
    let vals = (seq![x] + Seq::<Scalar>::empty());
    assert(vals.len() == 1 && vals[0] == Scalar::Null);
    assert(crate::eval::apply_func_spec(Func::IsNotNull, vals) == Some(Scalar::Boolean(false)));
    assert(eval_spec(a0) == Some(Scalar::Boolean(false)));
    assert(eval_spec(g) == eval_spec(gargs@[2]));
}

/// The widest canonical byte width among the first `i` dimensions.
pub open spec fn width_max_pre(lows: Seq<Expr>, i: int) -> int
    decreases i,
{
    if i <= 0 {
        0
    } else {
        let rest = width_max_pre(lows, i - 1);
        let b = spec_hilbert_byte_size(lows[i - 1].spec_data_type())->Some_0;
        if b > rest {
            b
        } else {
            rest
        }
    }
}

/// The common width the dimensions are normalized to: the widest canonical
/// width, capped at eight bytes.
pub open spec fn common_width(lows: Seq<Expr>) -> int {
    if width_max_pre(lows, lows.len() as int) > 8 {
        8int
    } else {
        width_max_pre(lows, lows.len() as int)
    }
}

/// Builds the null guard around one per-dimension key: `is_not_null(k) ?
/// assume_not_null(k) : <all-ones sentinel of the common width>`.
pub fn wrap_hilbert_null_guard(key: Expr, width: usize) -> (r: Result<Expr, ErrorCode>)
    requires
        1 <= width,
    ensures
        r matches Ok(g) ==> null_guard_rel(g, key, width as int),
        r matches Err(e) ==> e.kind == ErrorKind::Semantic,
        key.spec_data_type() == DataType::Nullable(Box::new(DataType::Binary)) ==> r is Ok
            && (r matches Ok(g) ==> g.spec_data_type() == DataType::Binary),
{
    let ghost k0 = key;
    let key_copy = key.clone();
    proof {
        crate::expr::lemma_expr_eqv_data_type(key_copy, k0);
        assert(crate::registry::spec_types_of(seq![key_copy]) =~= seq![k0.spec_data_type()]);
    }
    let mut not_null_args: Vec<Expr> = Vec::new();
    not_null_args.push(key_copy);
    let is_not_null = match check_function(Func::IsNotNull, not_null_args) {
        Ok(x) => x,
        Err(err) => {
            return Err(err);
        },
    };
    proof {
        assert(crate::registry::spec_types_of(seq![k0]) =~= seq![k0.spec_data_type()]);
    }
    let mut assume_args: Vec<Expr> = Vec::new();
    assume_args.push(key);
    let assume_not_null = match check_function(Func::AssumeNotNull, assume_args) {
        Ok(x) => x,
        Err(err) => {
            return Err(err);
        },
    };
    proof {
        crate::expr::lemma_expr_eqv_refl(k0);
        if k0.spec_data_type() == DataType::Nullable(Box::new(DataType::Binary)) {
            assert(is_not_null.spec_data_type() == DataType::Boolean);
            assert(assume_not_null.spec_data_type() == DataType::Binary);
        }
    }
    let mut sentinel_bytes: Vec<u8> = Vec::new();
    let mut i: usize = 0;
    while i < width
        invariant
            i <= width,
            sentinel_bytes@.len() == i,
            forall|j: int| 0 <= j < i ==> sentinel_bytes@[j] == 0xFFu8,
        decreases width - i,
    {
        sentinel_bytes.push(0xFF);
        i = i + 1;
    }
    let sentinel = Expr::Constant {
        scalar: Scalar::Binary(sentinel_bytes),
        data_type: DataType::Binary,
    };
    proof {
        if k0.spec_data_type() == DataType::Nullable(Box::new(DataType::Binary)) {
            assert(crate::registry::spec_types_of(seq![is_not_null, assume_not_null, sentinel])
                =~= seq![DataType::Boolean, DataType::Binary, DataType::Binary]);
        }
    }
    let mut if_args: Vec<Expr> = Vec::new();
    if_args.push(is_not_null);
    if_args.push(assume_not_null);
    if_args.push(sentinel);
    check_function(Func::IfFn, if_args)
}

fn common_cast_func(w: usize) -> (r: Option<Func>)
    ensures
        r is Some <==> (w == 1 || w == 2 || w == 4 || w == 8),
        r matches Some(c) ==> (c == Func::ToInt8 || c == Func::ToInt16 || c == Func::ToInt32 || c
            == Func::ToInt64),
{
    match w {
        1 => Some(Func::ToInt8),
        2 => Some(Func::ToInt16),
        4 => Some(Func::ToInt32),
        8 => Some(Func::ToInt64),
        _ => None,
    }
}

/// Compiles already-bound dimension expressions into the single Hilbert
/// index expression: dimensionality must be 2 to 5; every dimension is
/// width-normalized, transformed to its per-dimension key, null-guarded
/// when nullable, and the keys are combined into one index call. It
/// succeeds on every list of 2 to 5 dimensions whose types clustering
/// supports.
#[verifier::loop_isolation(false)]
pub fn compile_hilbert_cluster_key(exprs: Vec<Expr>) -> (r: Result<Vec<Expr>, ErrorCode>)
    ensures
        exprs@.len() < 2 || exprs@.len() > 5 ==> (r matches Err(e) && e.kind
            == ErrorKind::InvalidClusterKeys),
        (2 <= exprs@.len() <= 5 && (forall|i: int|
            0 <= i < exprs@.len() ==> spec_hilbert_byte_size(
                (#[trigger] exprs@[i]).spec_data_type(),
            ) is Some)) ==> r is Ok,
        r matches Ok(out) ==> {
            &&& 2 <= exprs@.len() <= 5
            &&& out@.len() == 1
            &&& out@[0] matches Expr::FunctionCall { func: Func::HilbertIndex, args: iargs, .. }
                && iargs@.len() == 2 && (iargs@[0] matches Expr::FunctionCall {
                func: Func::ArrayFn,
                args: karr,
                ..
            } && karr@.len() == exprs@.len()) && iargs@[1] == (Expr::Constant {
                scalar: Scalar::Number(NumberScalar::UInt64(common_width(exprs@) as u64)),
                data_type: DataType::Number(NumberDataType::UInt64),
            })
        },
        r matches Err(e) ==> e.kind == ErrorKind::InvalidClusterKeys || e.kind
            == ErrorKind::Internal || e.kind == ErrorKind::Semantic,
{
    let n = exprs.len();
    if n < 2 || n > 5 {
        return Err(
            ErrorCode::new(
                ErrorKind::InvalidClusterKeys,
                String::from_str("Hilbert clustering requires the dimension to be between 2 and 5"),
            ),
        );
    }

    let mut byte_sizes: Vec<usize> = Vec::new();
    let mut max_size: usize = 0;
    let mut i: usize = 0;
    while i < n
        invariant
            i <= n,
            n == exprs@.len(),
            byte_sizes@.len() == i,
            max_size <= 32,
            forall|j: int| 0 <= j < i ==> #[trigger] byte_sizes@[j] <= 32,
            forall|j: int|
                0 <= j < i ==> spec_hilbert_byte_size((#[trigger] exprs@[j]).spec_data_type())
                    == Some(byte_sizes@[j] as int),
            max_size == width_max_pre(exprs@, i as int),
            i > 0 ==> (max_size == 1 || max_size == 2 || max_size == 4 || max_size == 8
                || max_size == 16 || max_size == 24 || max_size == 32),
        decreases n - i,
    {
        let t = exprs[i].data_type();
        let b = match hilbert_byte_size(&t) {
            Ok(b) => b,
            Err(err) => {
                return Err(err);
            },
        };
        proof {
            lemma_byte_size_values(t);
        }
        if b > max_size || i == 0 {
            max_size = b;
        }
        byte_sizes.push(b);
        i = i + 1;
        proof {
            assert(max_size == width_max_pre(exprs@, i as int));
        }
    }

    let w: usize = if max_size > 8 {
        8
    } else {
        max_size
    };
    let common = match common_cast_func(w) {
        Some(c) => c,
        None => {
            return Err(
                ErrorCode::new(
                    ErrorKind::Internal,
                    String::from_str("no common integer width for the dimensions"),
                ),
            );
        },
    };

    let ghost orig = exprs@;
    proof {
        assert(w == common_width(exprs@));
    }
    let mut rest = exprs;
    let mut keys: Vec<Expr> = Vec::new();
    let mut i: usize = 0;
    while i < n
        invariant
            i <= n,
            rest@ =~= orig.subrange(i as int, orig.len() as int),
            keys@.len() == i,
            byte_sizes@.len() == n,
            1 <= w <= 8,
            w == common_width(orig),
            forall|j: int| 0 <= j < i ==> (#[trigger] keys@[j]).spec_data_type()
                == DataType::Binary,
        decreases n - i,
    {
        let e = rest.remove(0);
        proof {
            assert(e == orig[i as int]);
            assert(rest@ =~= orig.subrange(i + 1, orig.len() as int));
            assert(spec_hilbert_byte_size(e.spec_data_type()) == Some(byte_sizes@[i as int] as int));
        }
        let ghost t0 = e.spec_data_type();
        let inner = e.data_type().remove_nullable();
        let cast_fn: Option<Func> = match inner {
            DataType::Date | DataType::Timestamp | DataType::Boolean => {
                proof {
                    assert(crate::registry::to_int_arg_ok(t0.spec_remove_nullable()));
                }
                Some(common)
            },
            DataType::Decimal(_) => Some(Func::ToFloat64),
            DataType::Number(nt) => {
                if w > byte_sizes[i] {
                    if matches!(nt, NumberDataType::Float32) {
                        Some(Func::ToFloat64)
                    } else {
                        proof {
                            // A 64-bit float is already at the maximal width,
                            // so only integer types reach the common cast.
                            lemma_byte_size_strip(t0);
                            assert(spec_hilbert_byte_size(inner) == Some(
                                byte_sizes@[i as int] as int,
                            ));
                            assert(nt != NumberDataType::Float64);
                            assert(crate::registry::to_int_arg_ok(t0.spec_remove_nullable()));
                        }
                        Some(common)
                    }
                } else {
                    None
                }
            },
            _ => None,
        };
        proof {
            lemma_byte_size_strip(t0);
            lemma_supported_is_hilbert_arg(inner);
        }
        proof {
            assert(crate::registry::spec_types_of(seq![e]) =~= seq![t0]);
            match cast_fn {
                Some(c) => {
                    assert(c == Func::ToFloat64 || c == Func::ToInt8 || c == Func::ToInt16 || c
                        == Func::ToInt32 || c == Func::ToInt64);
                    assert(crate::registry::spec_infer(c, seq![t0]) is Some);
                    assert(crate::registry::spec_infer(
                        c,
                        seq![t0],
                    )->Some_0.spec_remove_nullable() is Number);
                },
                None => {},
            }
        }
        let ghost e_pre = e;
        let e = match cast_fn {
            Some(c) => {
                let mut cast_args: Vec<Expr> = Vec::new();
                cast_args.push(e);
                proof {
                    assert(cast_args@ =~= seq![e_pre]);
                }
                match check_function(c, cast_args) {
                    Ok(x) => {
                        proof {
                            assert(crate::registry::spec_types_of(seq![e_pre]) =~= seq![t0]);
                            assert(x.spec_data_type() == crate::registry::spec_infer(
                                c,
                                seq![t0],
                            )->Some_0);
                        }
                        x
                    },
                    Err(err) => {
                        return Err(err);
                    },
                }
            },
            None => e,
        };
        proof {
            assert(crate::registry::hilbert_arg_ok(e.spec_data_type().spec_remove_nullable()));
            assert(crate::registry::spec_types_of(seq![e]) =~= seq![e.spec_data_type()]);
        }
        let mut key_args: Vec<Expr> = Vec::new();
        key_args.push(e);
        let key = match check_function(Func::HilbertKey, key_args) {
            Ok(x) => x,
            Err(err) => {
                return Err(err);
            },
        };
        let key = if key.data_type().is_nullable() {
            proof {
                assert(key.spec_data_type() == DataType::Nullable(Box::new(DataType::Binary)));
            }
            match wrap_hilbert_null_guard(key, w) {
                Ok(g) => g,
                Err(err) => {
                    return Err(err);
                },
            }
        } else {
            key
        };
        keys.push(key);
        i = i + 1;
    }

    proof {
        assert(crate::registry::spec_types_of(keys@) =~= Seq::new(
            keys@.len(),
            |j: int| DataType::Binary,
        ));
        assert(crate::registry::spec_infer(
            Func::ArrayFn,
            crate::registry::spec_types_of(keys@),
        ) is Some);
    }
    let array = match check_function(Func::ArrayFn, keys) {
        Ok(x) => x,
        Err(err) => {
            return Err(err);
        },
    };
    let width_const = Expr::Constant {
        scalar: Scalar::Number(NumberScalar::UInt64(w as u64)),
        data_type: DataType::Number(NumberDataType::UInt64),
    };
    proof {
        assert(array.spec_data_type() == DataType::Array(Box::new(DataType::Binary)));
        assert(crate::registry::spec_types_of(seq![array, width_const]) =~= seq![
            DataType::Array(Box::new(DataType::Binary)),
            DataType::Number(NumberDataType::UInt64),
        ]);
    }
    let ghost keys_n = n as int;
    let ghost array0 = array;
    let ghost width0 = width_const;
    let mut index_args: Vec<Expr> = Vec::new();
    index_args.push(array);
    index_args.push(width_const);
    proof {
        assert(index_args@ =~= seq![array0, width0]);
    }
    let result = match check_function(Func::HilbertIndex, index_args) {
        Ok(x) => x,
        Err(err) => {
            return Err(err);
        },
    };
    proof {
        let iargs = result->FunctionCall_args;
        assert(iargs@[0] == array0 && iargs@[1] == width0);
        assert(array0->FunctionCall_args@.len() == keys_n);
    }
    let mut out: Vec<Expr> = Vec::new();
    out.push(result);
    Ok(out)
}

/// Stripping nullability does not change a supported dimension's canonical
/// width, and the stripped type is never nullable again.
proof fn lemma_byte_size_strip(t: DataType)
    requires
        spec_hilbert_byte_size(t) is Some,
    ensures
        spec_hilbert_byte_size(t) == spec_hilbert_byte_size(t.spec_remove_nullable()),
        !(t.spec_remove_nullable() is Nullable),
{
}

/// Every type with a canonical width is accepted by the per-dimension key
/// transform.
proof fn lemma_supported_is_hilbert_arg(t: DataType)
    requires
        spec_hilbert_byte_size(t) is Some,
        !(t is Nullable),
    ensures
        crate::registry::hilbert_arg_ok(t),
{
}

/// Truncation preserves schema-boundness: the wrapper adds only constants.
pub proof fn lemma_truncation_bound(x: Expr, e: Expr, fields: Seq<crate::schema::TableField>)
    requires
        truncation_of(x, e),
        e.bound_to(fields),
    ensures
        x.bound_to(fields),
{
    let args = x->FunctionCall_args;
    assert forall|i: int| 0 <= i < args@.len() implies (#[trigger] args@[i]).bound_to(fields) by {
        if i == 0 {
            assert(args@[0] == e);
        } else if i == 1 {
            assert(args@[1] is Constant);
        } else {
            assert(args@[2] is Constant);
        }
    }
}

/// Types on which linear clustering keys may be declared.
pub open spec fn allowed_cluster_type(t: DataType) -> bool {
    ||| t is Number
    ||| t is String
    ||| t is Timestamp
    ||| t is Date
    ||| t is Boolean
    ||| t is Decimal
}

pub fn allowed_cluster_type_exec(t: &DataType) -> (r: bool)
    ensures
        r == allowed_cluster_type(*t),
{
    match t {
        DataType::Number(_) | DataType::String | DataType::Timestamp | DataType::Date
        | DataType::Boolean | DataType::Decimal(_) => true,
        _ => false,
    }
}

} // verus!

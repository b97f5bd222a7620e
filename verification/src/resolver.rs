//! The type checker: resolves a parsed expression against a name-resolution
//! scope into a typed scalar expression with a concrete result type.

use vstd::prelude::*;
use crate::ast::{AExpr, BinaryOperator, Literal, UnaryOperator};
use crate::binding::{BindContext, ColumnBinding, ExprContext, Visibility};
use crate::errors::{ErrorCode, ErrorKind};
use crate::expr::{AggFunc, Func};
use crate::registry::{compute_target, infer_return_type, spec_infer, spec_target};
use crate::scalar::{NumberScalar, Scalar};
use crate::schema::{NameResolutionContext, TableField};
use crate::sexpr::ScalarExpr;
use crate::text::{eq_ignore_case, lower_seq, to_lowercase_string};
use crate::types::{DataType, NumberDataType};

verus! {

/// What a function name resolves to in the registry.
#[derive(Clone, Copy, PartialEq, Eq, Structural, Debug)]
pub enum FuncName {
    ScalarFn(Func),
    AggregateFn(AggFunc),
}

/// The registry's name table, on already-lowercased names.
pub open spec fn spec_lookup_function(n: Seq<char>) -> Option<FuncName> {
    if n == "substr"@ {
        Some(FuncName::ScalarFn(Func::Substr))
    } else if n == "upper"@ {
        Some(FuncName::ScalarFn(Func::Upper))
    } else if n == "lower"@ {
        Some(FuncName::ScalarFn(Func::Lower))
    } else if n == "to_int8"@ {
        Some(FuncName::ScalarFn(Func::ToInt8))
    } else if n == "to_int16"@ {
        Some(FuncName::ScalarFn(Func::ToInt16))
    } else if n == "to_int32"@ {
        Some(FuncName::ScalarFn(Func::ToInt32))
    } else if n == "to_int64"@ {
        Some(FuncName::ScalarFn(Func::ToInt64))
    } else if n == "to_float64"@ {
        Some(FuncName::ScalarFn(Func::ToFloat64))
    } else if n == "is_not_null"@ {
        Some(FuncName::ScalarFn(Func::IsNotNull))
    } else if n == "assume_not_null"@ {
        Some(FuncName::ScalarFn(Func::AssumeNotNull))
    } else if n == "if"@ {
        Some(FuncName::ScalarFn(Func::IfFn))
    } else if n == "array"@ {
        Some(FuncName::ScalarFn(Func::ArrayFn))
    } else if n == "hilbert_key"@ {
        Some(FuncName::ScalarFn(Func::HilbertKey))
    } else if n == "hilbert_index"@ {
        Some(FuncName::ScalarFn(Func::HilbertIndex))
    } else if n == "rand"@ {
        Some(FuncName::ScalarFn(Func::Rand))
    } else if n == "now"@ {
        Some(FuncName::ScalarFn(Func::NowFn))
    } else if n == "not"@ {
        Some(FuncName::ScalarFn(Func::NotFn))
    } else if n == "sum"@ {
        Some(FuncName::AggregateFn(AggFunc::Sum))
    } else if n == "count"@ {
        Some(FuncName::AggregateFn(AggFunc::CountFn))
    } else if n == "min"@ {
        Some(FuncName::AggregateFn(AggFunc::MinFn))
    } else if n == "max"@ {
        Some(FuncName::AggregateFn(AggFunc::MaxFn))
    } else {
        None
    }
}

/// Resolves a function name, case-insensitively, against the registry.
pub fn lookup_function(name: &str) -> (r: Option<FuncName>)
    ensures
        r == spec_lookup_function(lower_seq(name@)),
{
    let n = to_lowercase_string(name);
    if n == String::from_str("substr") {
        Some(FuncName::ScalarFn(Func::Substr))
    } else if n == String::from_str("upper") {
        Some(FuncName::ScalarFn(Func::Upper))
    } else if n == String::from_str("lower") {
        Some(FuncName::ScalarFn(Func::Lower))
    } else if n == String::from_str("to_int8") {
        Some(FuncName::ScalarFn(Func::ToInt8))
    } else if n == String::from_str("to_int16") {
        Some(FuncName::ScalarFn(Func::ToInt16))
    } else if n == String::from_str("to_int32") {
        Some(FuncName::ScalarFn(Func::ToInt32))
    } else if n == String::from_str("to_int64") {
        Some(FuncName::ScalarFn(Func::ToInt64))
    } else if n == String::from_str("to_float64") {
        Some(FuncName::ScalarFn(Func::ToFloat64))
    } else if n == String::from_str("is_not_null") {
        Some(FuncName::ScalarFn(Func::IsNotNull))
    } else if n == String::from_str("assume_not_null") {
        Some(FuncName::ScalarFn(Func::AssumeNotNull))
    } else if n == String::from_str("if") {
        Some(FuncName::ScalarFn(Func::IfFn))
    } else if n == String::from_str("array") {
        Some(FuncName::ScalarFn(Func::ArrayFn))
    } else if n == String::from_str("hilbert_key") {
        Some(FuncName::ScalarFn(Func::HilbertKey))
    } else if n == String::from_str("hilbert_index") {
        Some(FuncName::ScalarFn(Func::HilbertIndex))
    } else if n == String::from_str("rand") {
        Some(FuncName::ScalarFn(Func::Rand))
    } else if n == String::from_str("now") {
        Some(FuncName::ScalarFn(Func::NowFn))
    } else if n == String::from_str("not") {
        Some(FuncName::ScalarFn(Func::NotFn))
    } else if n == String::from_str("sum") {
        Some(FuncName::AggregateFn(AggFunc::Sum))
    } else if n == String::from_str("count") {
        Some(FuncName::AggregateFn(AggFunc::CountFn))
    } else if n == String::from_str("min") {
        Some(FuncName::AggregateFn(AggFunc::MinFn))
    } else if n == String::from_str("max") {
        Some(FuncName::AggregateFn(AggFunc::MaxFn))
    } else {
        None
    }
}

/// Binary operators are sugar for registry functions.
pub fn op_to_func(op: BinaryOperator) -> (r: Func)
    ensures
        r == spec_op_func(op),
{
    match op {
        BinaryOperator::Plus => Func::Plus,
        BinaryOperator::Minus => Func::Minus,
        BinaryOperator::Multiply => Func::Multiply,
        BinaryOperator::Divide => Func::Divide,
        BinaryOperator::Modulo => Func::Modulo,
        BinaryOperator::Eq => Func::EqCmp,
        BinaryOperator::NotEq => Func::NotEqCmp,
        BinaryOperator::Lt => Func::LtCmp,
        BinaryOperator::Lte => Func::LteCmp,
        BinaryOperator::Gt => Func::GtCmp,
        BinaryOperator::Gte => Func::GteCmp,
        BinaryOperator::And => Func::AndFn,
        BinaryOperator::Or => Func::OrFn,
    }
}

/// Every column reference in the tree carries the name and type of the
/// binding at its position in the scope.
pub open spec fn scalar_bound(s: ScalarExpr, bindings: Seq<ColumnBinding>) -> bool
    decreases s,
{
    match s {
        ScalarExpr::BoundColumnRef { column } => {
            &&& column.index < bindings.len()
            &&& column.column_name@ == bindings[column.index as int].column_name@
            &&& column.data_type == bindings[column.index as int].data_type
        },
        ScalarExpr::Constant { .. } => true,
        ScalarExpr::FunctionCall { args, .. } => forall|i: int|
            0 <= i < args@.len() ==> scalar_bound(#[trigger] args@[i], bindings),
        ScalarExpr::Cast { expr, .. } => scalar_bound(*expr, bindings),
        ScalarExpr::Aggregate { args, .. } => forall|i: int|
            0 <= i < args@.len() ==> scalar_bound(#[trigger] args@[i], bindings),
    }
}

/// A scope-bound tree is schema-bound when the scope mirrors the schema.
pub proof fn lemma_scalar_bound_fields(
    s: ScalarExpr,
    bindings: Seq<ColumnBinding>,
    fields: Seq<TableField>,
)
    requires
        scalar_bound(s, bindings),
        bindings.len() == fields.len(),
        forall|i: int|
            0 <= i < bindings.len() ==> (#[trigger] bindings[i]).column_name@ == fields[i].name@
                && bindings[i].data_type == fields[i].data_type,
    ensures
        s.bound_to(fields),
    decreases s,
{
    match s {
        ScalarExpr::FunctionCall { args, .. } => {
            assert forall|i: int| 0 <= i < args@.len() implies (#[trigger] args@[i]).bound_to(
                fields,
            ) by {
                lemma_scalar_bound_fields(args@[i], bindings, fields);
            }
        },
        ScalarExpr::Cast { expr, .. } => {
            lemma_scalar_bound_fields(*expr, bindings, fields);
        },
        ScalarExpr::Aggregate { args, .. } => {
            assert forall|i: int| 0 <= i < args@.len() implies (#[trigger] args@[i]).bound_to(
                fields,
            ) by {
                lemma_scalar_bound_fields(args@[i], bindings, fields);
            }
        },
        _ => {},
    }
}


/// A binding is a lookup hit: visible, and its name matches the identifier
/// under the case rule. Invisible bindings are never offered to unqualified
/// lookup.
pub open spec fn name_hit(b: ColumnBinding, name: Seq<char>, case_sensitive: bool) -> bool {
    &&& b.visibility == Visibility::Visible
    &&& if case_sensitive {
        b.column_name@ == name
    } else {
        lower_seq(b.column_name@) == lower_seq(name)
    }
}

/// Which case rule applies to an identifier.
pub open spec fn ident_case_sensitive(ctx: NameResolutionContext, quoted: bool) -> bool {
    if quoted {
        ctx.quoted_ident_case_sensitive
    } else {
        ctx.unquoted_ident_case_sensitive
    }
}

/// The binding an identifier selects: in a normal scope the unique hit; in
/// a lambda body the latest hit, which shadows earlier ones.
pub open spec fn selected_binding(
    bindings: Seq<ColumnBinding>,
    ec: ExprContext,
    case_sensitive: bool,
    name: Seq<char>,
    b: ColumnBinding,
) -> bool {
    exists|k: int|
        {
            &&& 0 <= k < bindings.len()
            &&& #[trigger] bindings[k] == b
            &&& name_hit(b, name, case_sensitive)
            &&& forall|j: int|
                k < j < bindings.len() ==> !name_hit(#[trigger] bindings[j], name, case_sensitive)
            &&& (ec == ExprContext::Normal ==> forall|j: int|
                0 <= j < k ==> !name_hit(#[trigger] bindings[j], name, case_sensitive))
        }
}

/// The type of a literal: integers take the narrowest 64-bit type that
/// holds them, preferring the signed one.
pub open spec fn spec_lit_type(lit: Literal) -> DataType {
    match lit {
        Literal::Integer(v) => if v <= i64::MAX {
            DataType::Number(NumberDataType::Int64)
        } else {
            DataType::Number(NumberDataType::UInt64)
        },
        Literal::StringLit(_) => DataType::String,
        Literal::Boolean(_) => DataType::Boolean,
        Literal::Null => DataType::Null,
    }
}

/// The typed constant a literal resolves to.
pub open spec fn lit_resolves_to(s: ScalarExpr, lit: Literal) -> bool {
    &&& s matches ScalarExpr::Constant { scalar, data_type }
    &&& data_type == spec_lit_type(lit)
    &&& match lit {
        Literal::Integer(v) => scalar == if v <= i64::MAX {
            Scalar::Number(NumberScalar::Int64(v as i64))
        } else {
            Scalar::Number(NumberScalar::UInt64(v))
        },
        Literal::StringLit(x) => scalar matches Scalar::String(y) && y@ == x@,
        Literal::Boolean(b) => scalar == Scalar::Boolean(b),
        Literal::Null => scalar == Scalar::Null,
    }
}

/// The types of a typed argument list.
pub open spec fn spec_stypes_of(args: Seq<ScalarExpr>) -> Seq<DataType> {
    Seq::new(args.len(), |i: int| args[i].spec_data_type())
}

/// A typed argument wrapped in an implicit cast when its type is not the
/// signature's target.
pub open spec fn spec_wrap_cast_scalar(s: ScalarExpr, t: DataType) -> ScalarExpr {
    if s.spec_data_type() == t {
        s
    } else {
        ScalarExpr::Cast { expr: Box::new(s), dest_type: t }
    }
}

/// `s` is the registry's application of `func` to the typed arguments: the
/// inferred return type, and each argument behind its implicit cast.
pub open spec fn scalar_checked_call(s: ScalarExpr, func: Func, args: Seq<ScalarExpr>) -> bool {
    &&& s matches ScalarExpr::FunctionCall { func: f2, args: a2, return_type: rt }
    &&& f2 == func
    &&& spec_infer(func, spec_stypes_of(args)) == Some(rt)
    &&& a2@.len() == args.len()
    &&& forall|i: int|
        0 <= i < args.len() ==> #[trigger] a2@[i] == spec_wrap_cast_scalar(
            args[i],
            spec_target(func, spec_stypes_of(args), i),
        )
}

/// The registry function a binary operator stands for.
pub open spec fn spec_op_func(op: BinaryOperator) -> Func {
    match op {
        BinaryOperator::Plus => Func::Plus,
        BinaryOperator::Minus => Func::Minus,
        BinaryOperator::Multiply => Func::Multiply,
        BinaryOperator::Divide => Func::Divide,
        BinaryOperator::Modulo => Func::Modulo,
        BinaryOperator::Eq => Func::EqCmp,
        BinaryOperator::NotEq => Func::NotEqCmp,
        BinaryOperator::Lt => Func::LtCmp,
        BinaryOperator::Lte => Func::LteCmp,
        BinaryOperator::Gt => Func::GtCmp,
        BinaryOperator::Gte => Func::GteCmp,
        BinaryOperator::And => Func::AndFn,
        BinaryOperator::Or => Func::OrFn,
    }
}

/// The return type of an aggregate on the given argument types.
pub open spec fn spec_infer_aggregate(agg: AggFunc, ts: Seq<DataType>) -> Option<DataType> {
    if ts.len() != 1 {
        None
    } else {
        match agg {
            AggFunc::Sum => Some(DataType::Number(NumberDataType::Int64)),
            AggFunc::CountFn => Some(DataType::Number(NumberDataType::UInt64)),
            AggFunc::MinFn | AggFunc::MaxFn => Some(ts[0]),
        }
    }
}

/// The zero constant that desugars unary minus: `-e` resolves as `0 - e`.
pub open spec fn int64_zero_const() -> ScalarExpr {
    ScalarExpr::Constant {
        scalar: Scalar::Number(NumberScalar::Int64(0)),
        data_type: DataType::Number(NumberDataType::Int64),
    }
}

/// How a parsed expression resolves in a scope: identifiers select their
/// binding under the policy, literals their typed constant, operators and
/// named functions the registry's checked application over recursively
/// resolved arguments (with implicit casts), aggregate names an aggregate
/// node. This is the type checker's whole input-output relation.
pub open spec fn resolves_to(
    s: ScalarExpr,
    ast: AExpr,
    bindings: Seq<ColumnBinding>,
    ec: ExprContext,
    ctx: NameResolutionContext,
) -> bool
    decreases ast,
{
    match ast {
        AExpr::ColumnRef { name, quoted } => {
            &&& s matches ScalarExpr::BoundColumnRef { column }
            &&& selected_binding(bindings, ec, ident_case_sensitive(ctx, quoted), name@, column)
        },
        AExpr::Lit { lit } => lit_resolves_to(s, lit),
        AExpr::BinaryOp { op, left, right } => exists|rs: Seq<ScalarExpr>|
            #![trigger spec_stypes_of(rs)]
            {
                &&& rs.len() == 2
                &&& resolves_to(rs[0], *left, bindings, ec, ctx)
                &&& resolves_to(rs[1], *right, bindings, ec, ctx)
                &&& scalar_checked_call(s, spec_op_func(op), rs)
            },
        AExpr::UnaryOp { op, expr } => exists|rs: Seq<ScalarExpr>|
            #![trigger spec_stypes_of(rs)]
            {
                &&& match op {
                    UnaryOperator::Minus => {
                        &&& rs.len() == 2
                        &&& rs[0] == int64_zero_const()
                        &&& resolves_to(rs[1], *expr, bindings, ec, ctx)
                        &&& scalar_checked_call(s, Func::Minus, rs)
                    },
                    UnaryOperator::Not => {
                        &&& rs.len() == 1
                        &&& resolves_to(rs[0], *expr, bindings, ec, ctx)
                        &&& scalar_checked_call(s, Func::NotFn, rs)
                    },
                }
            },
        AExpr::FunctionCall { name, args } => exists|rs: Seq<ScalarExpr>|
            #![trigger spec_stypes_of(rs)]
            {
                &&& rs.len() == args@.len()
                &&& forall|i: int|
                    0 <= i < rs.len() ==> resolves_to(#[trigger] rs[i], args@[i], bindings, ec, ctx)
                &&& fncall_matches(s, name@, rs)
            },
        AExpr::Tuple { .. } => false,
    }
}


/// An expression is resolvable in a scope when some typed tree stands in
/// the resolution relation with it.
pub open spec fn resolvable(
    ast: AExpr,
    bindings: Seq<ColumnBinding>,
    ec: ExprContext,
    ctx: NameResolutionContext,
) -> bool {
    exists|sc: ScalarExpr| #[trigger] resolves_to(sc, ast, bindings, ec, ctx)
}

/// Selection picks one binding: two selected bindings are the same.
pub proof fn lemma_selected_unique(
    bindings: Seq<ColumnBinding>,
    ec: ExprContext,
    cs: bool,
    name: Seq<char>,
    b1: ColumnBinding,
    b2: ColumnBinding,
)
    requires
        selected_binding(bindings, ec, cs, name, b1),
        selected_binding(bindings, ec, cs, name, b2),
    ensures
        b1 == b2,
{
    let k1 = choose|k: int|
        {
            &&& 0 <= k < bindings.len()
            &&& #[trigger] bindings[k] == b1
            &&& name_hit(b1, name, cs)
            &&& forall|j: int| k < j < bindings.len() ==> !name_hit(#[trigger] bindings[j], name, cs)
            &&& (ec == ExprContext::Normal ==> forall|j: int|
                0 <= j < k ==> !name_hit(#[trigger] bindings[j], name, cs))
        };
    let k2 = choose|k: int|
        {
            &&& 0 <= k < bindings.len()
            &&& #[trigger] bindings[k] == b2
            &&& name_hit(b2, name, cs)
            &&& forall|j: int| k < j < bindings.len() ==> !name_hit(#[trigger] bindings[j], name, cs)
            &&& (ec == ExprContext::Normal ==> forall|j: int|
                0 <= j < k ==> !name_hit(#[trigger] bindings[j], name, cs))
        };
    if k1 < k2 {
        assert(!name_hit(bindings[k2], name, cs));
    } else if k2 < k1 {
        assert(!name_hit(bindings[k1], name, cs));
    }
}

/// The relation determines the result type: any two resolutions of one
/// expression in one scope carry the same type.
pub proof fn lemma_resolves_type_unique(
    s1: ScalarExpr,
    s2: ScalarExpr,
    ast: AExpr,
    bindings: Seq<ColumnBinding>,
    ec: ExprContext,
    ctx: NameResolutionContext,
)
    requires
        resolves_to(s1, ast, bindings, ec, ctx),
        resolves_to(s2, ast, bindings, ec, ctx),
    ensures
        s1.spec_data_type() == s2.spec_data_type(),
    decreases ast,
{
    match ast {
        AExpr::ColumnRef { name, quoted } => {
            lemma_selected_unique(
                bindings,
                ec,
                ident_case_sensitive(ctx, quoted),
                name@,
                s1->BoundColumnRef_column,
                s2->BoundColumnRef_column,
            );
        },
        AExpr::Lit { .. } => {},
        AExpr::BinaryOp { op, left, right } => {
            let rs1 = choose|rs: Seq<ScalarExpr>|
                #![trigger spec_stypes_of(rs)]
                {
                    &&& rs.len() == 2
                    &&& resolves_to(rs[0], *left, bindings, ec, ctx)
                    &&& resolves_to(rs[1], *right, bindings, ec, ctx)
                    &&& scalar_checked_call(s1, spec_op_func(op), rs)
                };
            let rs2 = choose|rs: Seq<ScalarExpr>|
                #![trigger spec_stypes_of(rs)]
                {
                    &&& rs.len() == 2
                    &&& resolves_to(rs[0], *left, bindings, ec, ctx)
                    &&& resolves_to(rs[1], *right, bindings, ec, ctx)
                    &&& scalar_checked_call(s2, spec_op_func(op), rs)
                };
            lemma_resolves_type_unique(rs1[0], rs2[0], *left, bindings, ec, ctx);
            lemma_resolves_type_unique(rs1[1], rs2[1], *right, bindings, ec, ctx);
            assert(spec_stypes_of(rs1) =~= spec_stypes_of(rs2));
        },
        AExpr::UnaryOp { op, expr } => {
            let rs1 = choose|rs: Seq<ScalarExpr>|
                #![trigger spec_stypes_of(rs)]
                {
                    &&& match op {
                        UnaryOperator::Minus => {
                            &&& rs.len() == 2
                            &&& rs[0] == int64_zero_const()
                            &&& resolves_to(rs[1], *expr, bindings, ec, ctx)
                            &&& scalar_checked_call(s1, Func::Minus, rs)
                        },
                        UnaryOperator::Not => {
                            &&& rs.len() == 1
                            &&& resolves_to(rs[0], *expr, bindings, ec, ctx)
                            &&& scalar_checked_call(s1, Func::NotFn, rs)
                        },
                    }
                };
            let rs2 = choose|rs: Seq<ScalarExpr>|
                #![trigger spec_stypes_of(rs)]
                {
                    &&& match op {
                        UnaryOperator::Minus => {
                            &&& rs.len() == 2
                            &&& rs[0] == int64_zero_const()
                            &&& resolves_to(rs[1], *expr, bindings, ec, ctx)
                            &&& scalar_checked_call(s2, Func::Minus, rs)
                        },
                        UnaryOperator::Not => {
                            &&& rs.len() == 1
                            &&& resolves_to(rs[0], *expr, bindings, ec, ctx)
                            &&& scalar_checked_call(s2, Func::NotFn, rs)
                        },
                    }
                };
            match op {
                UnaryOperator::Minus => {
                    lemma_resolves_type_unique(rs1[1], rs2[1], *expr, bindings, ec, ctx);
                },
                UnaryOperator::Not => {
                    lemma_resolves_type_unique(rs1[0], rs2[0], *expr, bindings, ec, ctx);
                },
            }
            assert(spec_stypes_of(rs1) =~= spec_stypes_of(rs2));
        },
        AExpr::FunctionCall { name, args } => {
            let rs1 = choose|rs: Seq<ScalarExpr>|
                #![trigger spec_stypes_of(rs)]
                {
                    &&& rs.len() == args@.len()
                    &&& forall|i: int|
                        0 <= i < rs.len() ==> resolves_to(
                            #[trigger] rs[i],
                            args@[i],
                            bindings,
                            ec,
                            ctx,
                        )
                    &&& fncall_matches(s1, name@, rs)
                };
            let rs2 = choose|rs: Seq<ScalarExpr>|
                #![trigger spec_stypes_of(rs)]
                {
                    &&& rs.len() == args@.len()
                    &&& forall|i: int|
                        0 <= i < rs.len() ==> resolves_to(
                            #[trigger] rs[i],
                            args@[i],
                            bindings,
                            ec,
                            ctx,
                        )
                    &&& fncall_matches(s2, name@, rs)
                };
            assert forall|i: int| 0 <= i < rs1.len() implies #[trigger] rs1[i].spec_data_type()
                == rs2[i].spec_data_type() by {
                lemma_resolves_type_unique(rs1[i], rs2[i], args@[i], bindings, ec, ctx);
            }
            assert(spec_stypes_of(rs1) =~= spec_stypes_of(rs2));
        },
        AExpr::Tuple { .. } => {},
    }
}

/// The witness list behind a unary resolution.
pub open spec fn unary_witness(
    sc: ScalarExpr,
    op: UnaryOperator,
    expr: AExpr,
    bindings: Seq<ColumnBinding>,
    ec: ExprContext,
    ctx: NameResolutionContext,
) -> Seq<ScalarExpr> {
    choose|rs: Seq<ScalarExpr>|
        #![trigger spec_stypes_of(rs)]
        {
            &&& match op {
                UnaryOperator::Minus => {
                    &&& rs.len() == 2
                    &&& rs[0] == int64_zero_const()
                    &&& resolves_to(rs[1], expr, bindings, ec, ctx)
                    &&& scalar_checked_call(sc, Func::Minus, rs)
                },
                UnaryOperator::Not => {
                    &&& rs.len() == 1
                    &&& resolves_to(rs[0], expr, bindings, ec, ctx)
                    &&& scalar_checked_call(sc, Func::NotFn, rs)
                },
            }
        }
}

/// The function-call arm of the resolution relation, shared by its uses.
pub open spec fn fncall_matches(s: ScalarExpr, name: Seq<char>, rs: Seq<ScalarExpr>) -> bool {
    match spec_lookup_function(lower_seq(name)) {
        Some(FuncName::ScalarFn(f)) => scalar_checked_call(s, f, rs),
        Some(FuncName::AggregateFn(agg)) => {
            &&& s matches ScalarExpr::Aggregate { agg: a2, args: a3, return_type: rt }
            &&& a2 == agg
            &&& a3@ == rs
            &&& spec_infer_aggregate(agg, spec_stypes_of(rs)) == Some(rt)
        },
        None => false,
    }
}

fn semantic_error(msg: &str) -> (r: ErrorCode)
    ensures
        r.kind == ErrorKind::Semantic,
{
    ErrorCode::new(ErrorKind::Semantic, String::from_str(msg))
}

/// Identifier lookup against the visible bindings of the scope. In a lambda
/// body the latest matching binding shadows earlier ones; elsewhere two
/// matches make the name ambiguous.
#[verifier::loop_isolation(false)]
fn lookup_column(
    bind_context: &BindContext,
    ctx: &NameResolutionContext,
    name: &str,
    quoted: bool,
) -> (r: Result<ColumnBinding, ErrorCode>)
    requires
        bind_context.wf(),
    ensures
        r matches Ok(b) ==> {
            &&& b.index < bind_context.bindings@.len()
            &&& b.column_name@ == bind_context.bindings@[b.index as int].column_name@
            &&& b.data_type == bind_context.bindings@[b.index as int].data_type
            &&& selected_binding(
                bind_context.bindings@,
                bind_context.expr_context,
                ident_case_sensitive(*ctx, quoted),
                name@,
                b,
            )
        },
        bind_context.bindings@.len() == 0 ==> r is Err,
        (exists|b: ColumnBinding|
            selected_binding(
                bind_context.bindings@,
                bind_context.expr_context,
                ident_case_sensitive(*ctx, quoted),
                name@,
                b,
            )) ==> r is Ok,
        r matches Err(e) ==> e.kind == ErrorKind::Semantic,
{
    let case_sensitive = if quoted {
        ctx.quoted_ident_case_sensitive
    } else {
        ctx.unquoted_ident_case_sensitive
    };
    let ghost cs = ident_case_sensitive(*ctx, quoted);
    let bindings = bind_context.all_column_bindings();
    let mut found: Option<usize> = None;
    let mut ambiguous = false;
    let mut i: usize = 0;
    while i < bindings.len()
        invariant
            i <= bindings@.len(),
            case_sensitive == cs,
            found is None ==> !ambiguous && forall|j: int|
                0 <= j < i ==> !name_hit(#[trigger] bindings@[j], name@, cs),
            found matches Some(k) ==> 0 <= k < i && name_hit(bindings@[k as int], name@, cs)
                && forall|j: int| k < j < i ==> !name_hit(#[trigger] bindings@[j], name@, cs),
            found matches Some(k) ==> (ambiguous || (forall|j: int|
                0 <= j < k ==> !name_hit(#[trigger] bindings@[j], name@, cs))),
            ambiguous ==> exists|j1: int, j2: int|
                0 <= j1 < j2 < i && name_hit(#[trigger] bindings@[j1], name@, cs) && name_hit(
                    #[trigger] bindings@[j2],
                    name@,
                    cs,
                ),
        decreases bindings@.len() - i,
    {
        let b = &bindings[i];
        let visible = matches!(b.visibility, Visibility::Visible);
        let matched = if visible {
            if case_sensitive {
                str_eq(name, b.column_name.as_str())
            } else {
                eq_ignore_case(name, b.column_name.as_str())
            }
        } else {
            false
        };
        proof {
            assert(matched == name_hit(bindings@[i as int], name@, cs));
        }
        if matched {
            if found.is_some() {
                proof {
                    let k = found->Some_0;
                    assert(0 <= k < i && name_hit(bindings@[k as int], name@, cs) && name_hit(
                        bindings@[i as int],
                        name@,
                        cs,
                    ));
                }
                ambiguous = true;
            }
            found = Some(i);
        }
        i = i + 1;
    }
    let in_lambda = matches!(bind_context.expr_context, ExprContext::InLambdaFunction);
    if ambiguous && !in_lambda {
        proof {
            // Two hits rule out a selected binding in a normal scope: the
            // selection demands a unique hit there.
            if exists|b: ColumnBinding|
                selected_binding(bind_context.bindings@, bind_context.expr_context, cs, name@, b) {
                let b = choose|b: ColumnBinding|
                    selected_binding(
                        bind_context.bindings@,
                        bind_context.expr_context,
                        cs,
                        name@,
                        b,
                    );
                let k = choose|k: int|
                    {
                        &&& 0 <= k < bindings@.len()
                        &&& #[trigger] bindings@[k] == b
                        &&& name_hit(b, name@, cs)
                        &&& forall|j: int|
                            k < j < bindings@.len() ==> !name_hit(
                                #[trigger] bindings@[j],
                                name@,
                                cs,
                            )
                        &&& (bind_context.expr_context == ExprContext::Normal ==> forall|j: int|
                            0 <= j < k ==> !name_hit(#[trigger] bindings@[j], name@, cs))
                    };
                let (j1, j2) = choose|j1: int, j2: int|
                    0 <= j1 < j2 < bindings@.len() && name_hit(
                        #[trigger] bindings@[j1],
                        name@,
                        cs,
                    ) && name_hit(#[trigger] bindings@[j2], name@, cs);
                assert(j1 != k || j2 != k);
                assert(false);
            }
        }
        let mut msg = String::from_str("the column name ");
        msg.append(name);
        msg.append(" is ambiguous in this scope");
        return Err(ErrorCode::new(ErrorKind::Semantic, msg));
    }
    match found {
        Some(k) => {
            let b = bindings[k].clone();
            proof {
                assert(bind_context.bindings@[k as int].index == k);
                assert(b == bindings@[k as int]);
                assert(b.index == k);
                assert(selected_binding(
                    bind_context.bindings@,
                    bind_context.expr_context,
                    cs,
                    name@,
                    b,
                )) by {
                    assert(bindings@[k as int] == b && name_hit(b, name@, cs) && (forall|j: int|
                        k < j < bindings@.len() ==> !name_hit(
                            #[trigger] bindings@[j],
                            name@,
                            cs,
                        )) && (bind_context.expr_context == ExprContext::Normal ==> forall|j: int|
                        0 <= j < k ==> !name_hit(#[trigger] bindings@[j], name@, cs)));
                }
            }
            Ok(b)
        },
        None => {
            proof {
                if exists|b: ColumnBinding|
                    selected_binding(
                        bind_context.bindings@,
                        bind_context.expr_context,
                        cs,
                        name@,
                        b,
                    ) {
                    let b = choose|b: ColumnBinding|
                        selected_binding(
                            bind_context.bindings@,
                            bind_context.expr_context,
                            cs,
                            name@,
                            b,
                        );
                    let k = choose|k: int|
                        {
                            &&& 0 <= k < bindings@.len()
                            &&& #[trigger] bindings@[k] == b
                            &&& name_hit(b, name@, cs)
                            &&& forall|j: int|
                                k < j < bindings@.len() ==> !name_hit(
                                    #[trigger] bindings@[j],
                                    name@,
                                    cs,
                                )
                            &&& (bind_context.expr_context == ExprContext::Normal ==> forall|
                                j: int,
                            |
                                0 <= j < k ==> !name_hit(#[trigger] bindings@[j], name@, cs))
                        };
                    assert(name_hit(bindings@[k], name@, cs));
                    assert(false);
                }
            }
            let mut msg = String::from_str("the column name ");
            msg.append(name);
            msg.append(" cannot be resolved in this scope");
            Err(ErrorCode::new(ErrorKind::Semantic, msg))
        },
    }
}

/// Compares `name == b.column_name` on `&str`.
fn str_eq(a: &str, b: &str) -> (r: bool)
    ensures
        r == (a@ == b@),
{
    let sa = a.to_owned();
    let sb = b.to_owned();
    sa == sb
}

/// Resolves a literal to a typed constant.
fn resolve_literal(lit: &Literal) -> (r: (ScalarExpr, DataType))
    ensures
        r.1 == r.0.spec_data_type(),
        forall|bindings: Seq<ColumnBinding>| scalar_bound(r.0, bindings),
        lit_resolves_to(r.0, *lit),
{
    match lit {
        Literal::Integer(v) => {
            if *v <= i64::MAX as u64 {
                let t = DataType::Number(NumberDataType::Int64);
                (
                    ScalarExpr::Constant {
                        scalar: Scalar::Number(
                            NumberScalar::Int64(*v as i64),
                        ),
                        data_type: t.clone(),
                    },
                    t,
                )
            } else {
                let t = DataType::Number(NumberDataType::UInt64);
                (
                    ScalarExpr::Constant {
                        scalar: Scalar::Number(
                            NumberScalar::UInt64(*v),
                        ),
                        data_type: t.clone(),
                    },
                    t,
                )
            }
        },
        Literal::StringLit(x) => {
            let t = DataType::String;
            (
                ScalarExpr::Constant {
                    scalar: Scalar::String(x.clone()),
                    data_type: t.clone(),
                },
                t,
            )
        },
        Literal::Boolean(b) => {
            let t = DataType::Boolean;
            (
                ScalarExpr::Constant {
                    scalar: Scalar::Boolean(*b),
                    data_type: t.clone(),
                },
                t,
            )
        },
        Literal::Null => {
            let t = DataType::Null;
            (
                ScalarExpr::Constant { scalar: Scalar::Null, data_type: t.clone() },
                t,
            )
        },
    }
}

/// Builds a registry call over typed arguments, inserting the implicit
/// casts the signature asks for.
#[verifier::loop_isolation(false)]
fn build_function_call(func: Func, args: Vec<ScalarExpr>, ghost_bindings: Ghost<Seq<ColumnBinding>>) -> (r: Result<
    (ScalarExpr, DataType),
    ErrorCode,
>)
    requires
        forall|i: int| 0 <= i < args@.len() ==> scalar_bound(#[trigger] args@[i], ghost_bindings@),
    ensures
        r matches Ok(p) ==> p.1 == p.0.spec_data_type() && scalar_bound(p.0, ghost_bindings@),
        r matches Ok(p) ==> scalar_checked_call(p.0, func, args@),
        r is Ok <==> spec_infer(func, spec_stypes_of(args@)) is Some,
        r matches Err(e) ==> e.kind == ErrorKind::Semantic,
{
    let ghost orig = args@;
    let mut ts: Vec<DataType> = Vec::new();
    let mut i: usize = 0;
    while i < args.len()
        invariant
            i <= args@.len(),
            ts@.len() == i,
            forall|j: int| 0 <= j < i ==> ts@[j] == args@[j].spec_data_type(),
        decreases args@.len() - i,
    {
        ts.push(args[i].data_type());
        i = i + 1;
    }
    proof {
        assert(ts@ =~= spec_stypes_of(orig));
    }
    let rt = match infer_return_type(func, &ts) {
        Ok(rt) => rt,
        Err(e) => {
            return Err(e);
        },
    };
    let mut rest = args;
    let mut out: Vec<ScalarExpr> = Vec::new();
    let mut i: usize = 0;
    while i < ts.len()
        invariant
            i <= ts@.len(),
            ts@.len() == orig.len(),
            rest@ =~= orig.subrange(i as int, orig.len() as int),
            out@.len() == i,
            forall|j: int| 0 <= j < i ==> scalar_bound(#[trigger] out@[j], ghost_bindings@),
            forall|j: int|
                0 <= j < i ==> #[trigger] out@[j] == spec_wrap_cast_scalar(
                    orig[j],
                    spec_target(func, spec_stypes_of(orig), j),
                ),
        decreases ts@.len() - i,
    {
        let e = rest.remove(0);
        proof {
            assert(e == orig[i as int]);
            assert(rest@ =~= orig.subrange(i + 1, orig.len() as int));
        }
        let target = compute_target(func, &ts, i);
        let et = e.data_type();
        let wrapped = if et.eq_type(&target) {
            e
        } else {
            ScalarExpr::Cast { expr: Box::new(e), dest_type: target }
        };
        out.push(wrapped);
        i = i + 1;
    }
    let call = ScalarExpr::FunctionCall { func, args: out, return_type: rt.clone() };
    Ok((call, rt))
}

/// The return type of an aggregate on the given argument types.
fn infer_aggregate(agg: AggFunc, ts: &Vec<DataType>) -> (r: Result<DataType, ErrorCode>)
    ensures
        r matches Ok(rt) ==> spec_infer_aggregate(agg, ts@) == Some(rt),
        r is Ok <==> spec_infer_aggregate(agg, ts@) is Some,
        r matches Err(e) ==> e.kind == ErrorKind::Semantic,
{
    if ts.len() != 1 {
        return Err(semantic_error("the aggregate takes exactly one argument"));
    }
    match agg {
        AggFunc::Sum => Ok(DataType::Number(NumberDataType::Int64)),
        AggFunc::CountFn => Ok(DataType::Number(NumberDataType::UInt64)),
        AggFunc::MinFn | AggFunc::MaxFn => Ok(ts[0].clone()),
    }
}

/// Resolves a parsed expression against the scope: identifier lookup,
/// literal typing, function-signature resolution with implicit casts.
/// Against an empty scope an expression that mentions any identifier fails.
#[verifier::loop_isolation(false)]
pub fn resolve(
    bind_context: &BindContext,
    ctx: &NameResolutionContext,
    ast: &AExpr,
) -> (r: Result<Box<(ScalarExpr, DataType)>, ErrorCode>)
    requires
        bind_context.wf(),
    ensures
        r matches Ok(p) ==> (*p).1 == (*p).0.spec_data_type(),
        r matches Ok(p) ==> scalar_bound((*p).0, bind_context.bindings@),
        r matches Ok(p) ==> resolves_to(
            (*p).0,
            *ast,
            bind_context.bindings@,
            bind_context.expr_context,
            *ctx,
        ),
        bind_context.bindings@.len() == 0 && ast.has_ident() ==> r is Err,
        ast is Lit ==> r is Ok,
        (*ast) matches AExpr::ColumnRef { name, quoted } && (exists|b: ColumnBinding|
            selected_binding(
                bind_context.bindings@,
                bind_context.expr_context,
                ident_case_sensitive(*ctx, quoted),
                name@,
                b,
            )) ==> r is Ok,
        resolvable(*ast, bind_context.bindings@, bind_context.expr_context, *ctx) ==> r is Ok,
        r matches Err(e) ==> e.kind == ErrorKind::Semantic,
    decreases *ast,
{
    match ast {
        AExpr::ColumnRef { name, quoted } => {
            proof {
                if resolvable(*ast, bind_context.bindings@, bind_context.expr_context, *ctx) {
                    let sc = choose|sc: ScalarExpr|
                        #[trigger] resolves_to(
                            sc,
                            *ast,
                            bind_context.bindings@,
                            bind_context.expr_context,
                            *ctx,
                        );
                    assert(selected_binding(
                        bind_context.bindings@,
                        bind_context.expr_context,
                        ident_case_sensitive(*ctx, *quoted),
                        name@,
                        sc->BoundColumnRef_column,
                    ));
                }
            }
            let column = match lookup_column(bind_context, ctx, name.as_str(), *quoted) {
                Ok(b) => b,
                Err(e) => {
                    return Err(e);
                },
            };
            let t = column.data_type.clone();
            Ok(Box::new((ScalarExpr::BoundColumnRef { column }, t)))
        },
        AExpr::Lit { lit } => {
            let (s, t) = resolve_literal(lit);
            Ok(Box::new((s, t)))
        },
        AExpr::BinaryOp { op, left, right } => {
            let ghost rv = resolvable(*ast, bind_context.bindings@, bind_context.expr_context, *ctx);
            let ghost bnd = bind_context.bindings@;
            let ghost ec = bind_context.expr_context;
            proof {
                if rv {
                    let sc = choose|sc: ScalarExpr|
                        #[trigger] resolves_to(sc, *ast, bnd, ec, *ctx);
                    let rs = choose|rs: Seq<ScalarExpr>|
                        #![trigger spec_stypes_of(rs)]
                        {
                            &&& rs.len() == 2
                            &&& resolves_to(rs[0], **left, bnd, ec, *ctx)
                            &&& resolves_to(rs[1], **right, bnd, ec, *ctx)
                            &&& scalar_checked_call(sc, spec_op_func(*op), rs)
                        };
                    assert(resolvable(**left, bnd, ec, *ctx));
                    assert(resolvable(**right, bnd, ec, *ctx));
                }
            }
            let l = match resolve(bind_context, ctx, left) {
                Ok(p) => p,
                Err(e) => {
                    return Err(e);
                },
            };
            let rr = match resolve(bind_context, ctx, right) {
                Ok(p) => p,
                Err(e) => {
                    return Err(e);
                },
            };
            let (l0, _lt) = *l;
            let (r0, _rt) = *rr;
            let ghost wl = l0;
            let ghost wr = r0;
            let mut args: Vec<ScalarExpr> = Vec::new();
            args.push(l0);
            args.push(r0);
            proof {
                assert(args@ =~= seq![wl, wr]);
            }
            proof {
                if rv {
                    let sc = choose|sc: ScalarExpr|
                        #[trigger] resolves_to(sc, *ast, bnd, ec, *ctx);
                    let rs = choose|rs: Seq<ScalarExpr>|
                        #![trigger spec_stypes_of(rs)]
                        {
                            &&& rs.len() == 2
                            &&& resolves_to(rs[0], **left, bnd, ec, *ctx)
                            &&& resolves_to(rs[1], **right, bnd, ec, *ctx)
                            &&& scalar_checked_call(sc, spec_op_func(*op), rs)
                        };
                    lemma_resolves_type_unique(wl, rs[0], **left, bnd, ec, *ctx);
                    lemma_resolves_type_unique(wr, rs[1], **right, bnd, ec, *ctx);
                    assert(spec_stypes_of(seq![wl, wr]) =~= spec_stypes_of(rs));
                    assert(spec_infer(spec_op_func(*op), spec_stypes_of(seq![wl, wr])) is Some);
                }
            }
            match build_function_call(
                op_to_func(*op),
                args,
                Ghost(bind_context.bindings@),
            ) {
                Ok(p) => {
                    proof {
                        let ws = seq![wl, wr];
                        assert(spec_stypes_of(ws).len() == 2);
                        assert(resolves_to(
                            wl,
                            *ast->BinaryOp_left,
                            bind_context.bindings@,
                            bind_context.expr_context,
                            *ctx,
                        ));
                        assert(resolves_to(
                            wr,
                            *ast->BinaryOp_right,
                            bind_context.bindings@,
                            bind_context.expr_context,
                            *ctx,
                        ));
                        assert(scalar_checked_call(p.0, spec_op_func(*op), ws));
                        assert(resolves_to(
                            p.0,
                            *ast,
                            bind_context.bindings@,
                            bind_context.expr_context,
                            *ctx,
                        ));
                    }
                    Ok(Box::new(p))
                },
                Err(e) => Err(e),
            }
        },
        AExpr::UnaryOp { op, expr } => {
            let ghost rv = resolvable(*ast, bind_context.bindings@, bind_context.expr_context, *ctx);
            let ghost bnd = bind_context.bindings@;
            let ghost ec = bind_context.expr_context;
            proof {
                if rv {
                    let sc = choose|sc: ScalarExpr|
                        #[trigger] resolves_to(sc, *ast, bnd, ec, *ctx);
                    let rs = unary_witness(sc, *op, **expr, bnd, ec, *ctx);
                    match op {
                        UnaryOperator::Minus => {
                            assert(resolvable(**expr, bnd, ec, *ctx)) by {
                                assert(resolves_to(rs[1], **expr, bnd, ec, *ctx));
                            }
                        },
                        UnaryOperator::Not => {
                            assert(resolvable(**expr, bnd, ec, *ctx)) by {
                                assert(resolves_to(rs[0], **expr, bnd, ec, *ctx));
                            }
                        },
                    }
                }
            }
            let inner = match resolve(bind_context, ctx, expr) {
                Ok(p) => p,
                Err(e) => {
                    return Err(e);
                },
            };
            let (i0, _it) = *inner;
            let ghost wi = i0;
            match op {
                UnaryOperator::Minus => {
                    let zero = ScalarExpr::Constant {
                        scalar: Scalar::Number(
                            NumberScalar::Int64(0),
                        ),
                        data_type: DataType::Number(NumberDataType::Int64),
                    };
                    let mut args: Vec<ScalarExpr> = Vec::new();
                    args.push(zero);
                    args.push(i0);
                    proof {
                        assert(args@ =~= seq![int64_zero_const(), wi]);
                        if rv {
                            let sc = choose|sc: ScalarExpr|
                                #[trigger] resolves_to(sc, *ast, bnd, ec, *ctx);
                            let rs = unary_witness(sc, *op, **expr, bnd, ec, *ctx);
                            lemma_resolves_type_unique(wi, rs[1], **expr, bnd, ec, *ctx);
                            assert(spec_stypes_of(seq![int64_zero_const(), wi]) =~= spec_stypes_of(
                                rs,
                            ));
                            assert(spec_infer(
                                Func::Minus,
                                spec_stypes_of(seq![int64_zero_const(), wi]),
                            ) is Some);
                        }
                    }
                    match build_function_call(Func::Minus, args, Ghost(bind_context.bindings@)) {
                        Ok(p) => {
                            proof {
                                let ws = seq![int64_zero_const(), wi];
                                assert(spec_stypes_of(ws).len() == 2);
                                assert(resolves_to(
                                    wi,
                                    *ast->UnaryOp_expr,
                                    bind_context.bindings@,
                                    bind_context.expr_context,
                                    *ctx,
                                ));
                                assert(scalar_checked_call(p.0, Func::Minus, ws));
                            }
                            Ok(Box::new(p))
                        },
                        Err(e) => Err(e),
                    }
                },
                UnaryOperator::Not => {
                    let mut args: Vec<ScalarExpr> = Vec::new();
                    args.push(i0);
                    proof {
                        assert(args@ =~= seq![wi]);
                        if rv {
                            let sc = choose|sc: ScalarExpr|
                                #[trigger] resolves_to(sc, *ast, bnd, ec, *ctx);
                            let rs = unary_witness(sc, *op, **expr, bnd, ec, *ctx);
                            lemma_resolves_type_unique(wi, rs[0], **expr, bnd, ec, *ctx);
                            assert(spec_stypes_of(seq![wi]) =~= spec_stypes_of(rs));
                            assert(spec_infer(Func::NotFn, spec_stypes_of(seq![wi])) is Some);
                        }
                    }
                    match build_function_call(Func::NotFn, args, Ghost(bind_context.bindings@)) {
                        Ok(p) => {
                            proof {
                                let ws = seq![wi];
                                assert(spec_stypes_of(ws).len() == 1);
                                assert(resolves_to(
                                    wi,
                                    *ast->UnaryOp_expr,
                                    bind_context.bindings@,
                                    bind_context.expr_context,
                                    *ctx,
                                ));
                                assert(scalar_checked_call(p.0, Func::NotFn, ws));
                            }
                            Ok(Box::new(p))
                        },
                        Err(e) => Err(e),
                    }
                },
            }
        },
        AExpr::FunctionCall { name, args } => {
            let ghost rv = resolvable(*ast, bind_context.bindings@, bind_context.expr_context, *ctx);
            let ghost bnd = bind_context.bindings@;
            let ghost ec = bind_context.expr_context;
            let ghost rsw: Seq<ScalarExpr> = choose|rs: Seq<ScalarExpr>|
                #![trigger spec_stypes_of(rs)]
                {
                    &&& rs.len() == args@.len()
                    &&& forall|i: int|
                        0 <= i < rs.len() ==> resolves_to(#[trigger] rs[i], args@[i], bnd, ec, *ctx)
                    &&& fncall_matches(
                        choose|sc: ScalarExpr| #[trigger] resolves_to(sc, *ast, bnd, ec, *ctx),
                        name@,
                        rs,
                    )
                };
            proof {
                if rv {
                    let sc = choose|sc: ScalarExpr| #[trigger] resolves_to(sc, *ast, bnd, ec, *ctx);
                    assert(rsw.len() == args@.len() && (forall|i: int|
                        0 <= i < rsw.len() ==> resolves_to(#[trigger] rsw[i], args@[i], bnd, ec, *ctx))
                        && fncall_matches(sc, name@, rsw));
                    assert(spec_lookup_function(lower_seq(name@)) is Some);
                }
            }
            let fname = match lookup_function(name.as_str()) {
                Some(f) => f,
                None => {
                    let mut msg = String::from_str("the function name ");
                    msg.append(name.as_str());
                    msg.append(" is not in the registry");
                    return Err(ErrorCode::new(ErrorKind::Semantic, msg));
                },
            };
            let mut resolved: Vec<ScalarExpr> = Vec::new();
            let mut i: usize = 0;
            while i < args.len()
                invariant
                    i <= args@.len(),
                    resolved@.len() == i,
                    forall|j: int|
                        0 <= j < i ==> scalar_bound(
                            #[trigger] resolved@[j],
                            bind_context.bindings@,
                        ),
                    forall|j: int|
                        0 <= j < i ==> resolves_to(
                            #[trigger] resolved@[j],
                            args@[j],
                            bind_context.bindings@,
                            bind_context.expr_context,
                            *ctx,
                        ),
                    bind_context.bindings@.len() == 0 ==> forall|j: int|
                        0 <= j < i ==> !(#[trigger] args@[j]).has_ident(),
                decreases args@.len() - i,
            {
                proof {
                    assert(*args == ast->FunctionCall_args);
                    assert(decreases_to!(*ast => ast->FunctionCall_args));
                    assert(decreases_to!(*args => args@));
                    assert(decreases_to!(args@ => args@[i as int]));
                    if rv {
                        assert(resolvable(args@[i as int], bnd, ec, *ctx)) by {
                            assert(resolves_to(rsw[i as int], args@[i as int], bnd, ec, *ctx));
                        }
                    }
                }
                match resolve(bind_context, ctx, &args[i]) {
                    Ok(p) => {
                        let (s, _t) = *p;
                        resolved.push(s);
                    },
                    Err(e) => {
                        return Err(e);
                    },
                }
                i = i + 1;
            }
            proof {
                if bind_context.bindings@.len() == 0 && ast.has_ident() {
                    let k = choose|k: int|
                        0 <= k < args@.len() && (#[trigger] args@[k]).has_ident();
                    assert(!args@[k].has_ident());
                }
            }
            let ghost rs = resolved@;
            proof {
                assert(spec_lookup_function(lower_seq(name@)) == Some(fname));
                assert(spec_stypes_of(rs).len() == rs.len());
                if rv {
                    assert forall|j: int| 0 <= j < rs.len() implies #[trigger] rs[j].spec_data_type()
                        == rsw[j].spec_data_type() by {
                        lemma_resolves_type_unique(rs[j], rsw[j], args@[j], bnd, ec, *ctx);
                    }
                    assert(spec_stypes_of(rs) =~= spec_stypes_of(rsw));
                }
            }
            match fname {
                FuncName::ScalarFn(f) => {
                    match build_function_call(f, resolved, Ghost(bind_context.bindings@)) {
                        Ok(p) => {
                            proof {
                                assert(scalar_checked_call(p.0, f, rs));
                                assert(resolves_to(
                                    p.0,
                                    *ast,
                                    bind_context.bindings@,
                                    bind_context.expr_context,
                                    *ctx,
                                ));
                            }
                            Ok(Box::new(p))
                        },
                        Err(e) => Err(e),
                    }
                },
                FuncName::AggregateFn(agg) => {
                    let mut ts: Vec<DataType> = Vec::new();
                    let mut i: usize = 0;
                    while i < resolved.len()
                        invariant
                            i <= resolved@.len(),
                            ts@.len() == i,
                            forall|j: int| 0 <= j < i ==> ts@[j] == resolved@[j].spec_data_type(),
                        decreases resolved@.len() - i,
                    {
                        ts.push(resolved[i].data_type());
                        i = i + 1;
                    }
                    proof {
                        assert(ts@ =~= spec_stypes_of(rs));
                    }
                    let rt = match infer_aggregate(agg, &ts) {
                        Ok(rt) => rt,
                        Err(e) => {
                            return Err(e);
                        },
                    };
                    let out = ScalarExpr::Aggregate { agg, args: resolved, return_type: rt.clone() };
                    proof {
                        assert(resolves_to(
                            out,
                            *ast,
                            bind_context.bindings@,
                            bind_context.expr_context,
                            *ctx,
                        ));
                    }
                    Ok(Box::new((out, rt)))
                },
            }
        },
        AExpr::Tuple { .. } => {
            proof {
                if resolvable(*ast, bind_context.bindings@, bind_context.expr_context, *ctx) {
                    let sc = choose|sc: ScalarExpr|
                        #[trigger] resolves_to(
                            sc,
                            *ast,
                            bind_context.bindings@,
                            bind_context.expr_context,
                            *ctx,
                        );
                    assert(false);
                }
            }
            Err(semantic_error("a tuple cannot stand as a scalar expression here"))
        },
    }
}

} // verus!

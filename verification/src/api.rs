//! The public compilation entry points: expression parsing against a table
//! scope, filter compilation, computed-column and default-value handling,
//! and clustering-key analysis.

use vstd::prelude::*;
use crate::ast::{normalize_identifiers, normalized_ast, render_ast, render_ast_string, AExpr};
use crate::binding::{bind_table, BindContext, ColumnBinding, ExprContext, Visibility};
use crate::cluster::{
    compile_hilbert_cluster_key, compile_linear_cluster_keys, lemma_truncation_bound,
    needs_truncation, truncation_of,
};
use crate::errors::{ErrorCode, ErrorKind};
use crate::eval::fold;
use crate::expr::{expr_eqv, Expr, Func};
use crate::registry::{check_cast, check_function};
use crate::resolver::{lemma_scalar_bound_fields, resolve, resolves_to};
use crate::scalar::{is_default_scalar, Scalar};
use crate::schema::{nrc_of, NameResolutionContext, Settings, TableField, TableMeta, TableSchema};
use crate::sexpr::{lemma_lowers_to_bound, ScalarExpr};
use crate::token::tokenize_sql;
use crate::types::DataType;

verus! {

/// A scope built from a schema alone: the i-th binding carries the i-th
/// field's name and type at position i, visible, with no table provenance.
pub open spec fn schema_scope(bs: Seq<ColumnBinding>, fields: Seq<TableField>) -> bool {
    &&& bs.len() == fields.len()
    &&& forall|i: int|
        0 <= i < bs.len() ==> {
            &&& (#[trigger] bs[i]).index == i
            &&& bs[i].column_name@ == fields[i].name@
            &&& bs[i].data_type == fields[i].data_type
            &&& bs[i].visibility == Visibility::Visible
        }
}

/// A lambda-extended scope: the given bindings, then one visible binding
/// per lambda parameter at positions continuing the sequence.
pub open spec fn lambda_scope(
    ext: Seq<ColumnBinding>,
    base: Seq<ColumnBinding>,
    cols: Seq<(String, DataType)>,
) -> bool {
    &&& ext.len() == base.len() + cols.len()
    &&& forall|i: int| 0 <= i < base.len() ==> #[trigger] ext[i] == base[i]
    &&& forall|i: int|
        0 <= i < cols.len() ==> {
            &&& (#[trigger] ext[base.len() + i]).index == base.len() + i
            &&& ext[base.len() + i].column_name@ == cols[i].0@
            &&& ext[base.len() + i].data_type == cols[i].1
            &&& ext[base.len() + i].visibility == Visibility::Visible
        }
}

/// Each output expression is the lowering of its input expression's
/// resolution against the scope, one for one and in order.
pub open spec fn resolved_list(
    scs: Seq<ScalarExpr>,
    asts: Seq<AExpr>,
    out: Seq<Expr>,
    bindings: Seq<ColumnBinding>,
    ec: ExprContext,
    ctx: NameResolutionContext,
) -> bool {
    &&& scs.len() == asts.len()
    &&& out.len() == asts.len()
    &&& forall|i: int|
        0 <= i < asts.len() ==> resolves_to(#[trigger] scs[i], asts[i], bindings, ec, ctx)
            && crate::sexpr::lowers_to(out[i], scs[i])
}

/// There is a per-expression resolution witnessing the whole list.
pub open spec fn lowered_all(
    asts: Seq<AExpr>,
    out: Seq<Expr>,
    bindings: Seq<ColumnBinding>,
    ec: ExprContext,
    ctx: NameResolutionContext,
) -> bool {
    exists|scs: Seq<ScalarExpr>| #[trigger] resolved_list(scs, asts, out, bindings, ec, ctx)
}

/// The outputs are the lowered resolutions, in order, of some expression
/// list against the table's scope. The expression list itself comes from
/// the crate's parser, whose text-to-tree step carries no specification,
/// so it is existentially quantified here.
pub open spec fn parsed_against_table(
    v: Seq<Expr>,
    table: TableMeta,
    ctx: NameResolutionContext,
) -> bool {
    exists|asts: Seq<AExpr>, bs: Seq<ColumnBinding>|
        #[trigger] lowered_all(asts, v, bs, ExprContext::Normal, ctx)
            && crate::binding::table_scope(bs, table)
}

/// The keys are the lowered resolutions of some key list against the
/// table's scope, each string-typed key behind the fixed truncation and
/// every other key unchanged.
pub open spec fn linear_keys_of(v: Seq<Expr>, table: TableMeta, ctx: NameResolutionContext) -> bool {
    exists|asts: Seq<AExpr>, bs: Seq<ColumnBinding>, lows: Seq<Expr>|
        {
            &&& #[trigger] lowered_all(asts, lows, bs, ExprContext::Normal, ctx)
            &&& crate::binding::table_scope(bs, table)
            &&& v.len() == lows.len()
            &&& forall|i: int|
                0 <= i < v.len() ==> if needs_truncation(lows[i]) {
                    truncation_of(#[trigger] v[i], lows[i])
                } else {
                    v[i] == lows[i]
                }
        }
}

/// The one filter is the lowered resolution of some expression against the
/// table's scope.
pub open spec fn filter_of(f: Expr, table: TableMeta, ctx: NameResolutionContext) -> bool {
    exists|a: AExpr, bs: Seq<ColumnBinding>, sc: ScalarExpr|
        {
            &&& #[trigger] resolves_to(sc, a, bs, ExprContext::Normal, ctx)
            &&& crate::binding::table_scope(bs, table)
            &&& crate::sexpr::lowers_to(f, sc)
        }
}

/// The result is the lowered resolution of some expression against a
/// schema-only scope.
pub open spec fn computed_of(e: Expr, fields: Seq<TableField>, ctx: NameResolutionContext) -> bool {
    exists|a: AExpr, bs: Seq<ColumnBinding>, sc: ScalarExpr|
        {
            &&& #[trigger] resolves_to(sc, a, bs, ExprContext::Normal, ctx)
            &&& schema_scope(bs, fields)
            &&& crate::sexpr::lowers_to(e, sc)
        }
}

/// The index was built over 2 to 5 resolved dimensions of the table.
pub open spec fn hilbert_dims_of(table: TableMeta, ctx: NameResolutionContext) -> bool {
    exists|asts: Seq<AExpr>, lows: Seq<Expr>, bs: Seq<ColumnBinding>|
        {
            &&& #[trigger] lowered_all(asts, lows, bs, ExprContext::Normal, ctx)
            &&& crate::binding::table_scope(bs, table)
            &&& 2 <= lows.len() <= 5
        }
}

/// The analysis output: each returned expression is the lowering of the
/// matching key's resolution against the table's scope, and the rendered
/// text is the parenthesized, comma-joined rendering of exactly those keys
/// with identifiers normalized per the policy.
pub open spec fn analyzed_keys_of(
    text: Seq<char>,
    v: Seq<Expr>,
    table: TableMeta,
    ctx: NameResolutionContext,
) -> bool {
    exists|ks: Seq<AExpr>, ns: Seq<AExpr>, bs: Seq<ColumnBinding>, scs: Seq<ScalarExpr>|
        #![trigger resolved_list(scs, ks, v, bs, ExprContext::Normal, ctx), crate::ast::render_ast_list(ns, 0)]
        {
            &&& resolved_list(scs, ks, v, bs, ExprContext::Normal, ctx)
            &&& crate::binding::table_scope(bs, table)
            &&& ns.len() == ks.len()
            &&& forall|i: int| 0 <= i < ks.len() ==> normalized_ast(#[trigger] ns[i], ks[i], ctx)
            &&& text == "("@ + crate::ast::render_ast_list(ns, 0) + ")"@
        }
}

/// A compiled predicate and its logical negation, for predicate pushdown.
#[derive(Debug)]
pub struct Filters {
    pub filter: Expr,
    pub inverted_filter: Expr,
}

/// Parses SQL text into one or more lowered expressions bound to the
/// table's schema: every column reference carries an in-range position and
/// that field's name and declared type.
pub fn parse_exprs(settings: &Settings, table: &TableMeta, sql: &str) -> (r: Result<
    Vec<Expr>,
    ErrorCode,
>)
    ensures
        r matches Ok(v) ==> forall|i: int|
            0 <= i < v@.len() ==> (#[trigger] v@[i]).bound_to(table.schema.fields@),
        r matches Ok(v) ==> v@.len() >= 1,
        r matches Ok(v) ==> parsed_against_table(v@, *table, nrc_of(*settings)),
        r matches Err(e) ==> e.kind == ErrorKind::Parse || e.kind == ErrorKind::Semantic,
{
    let (bind_context, _metadata) = match bind_table(table) {
        Ok(p) => p,
        Err(e) => {
            return Err(e);
        },
    };
    let name_ctx = NameResolutionContext::from_settings(settings);
    let tokens = match tokenize_sql(sql) {
        Ok(t) => t,
        Err(e) => {
            return Err(e);
        },
    };
    let asts = match crate::parser::parse_comma_separated_exprs(&tokens) {
        Ok(a) => a,
        Err(e) => {
            return Err(e);
        },
    };
    match resolve_and_lower_all(&bind_context, &name_ctx, &asts, Ghost(table.schema.fields@)) {
        Ok(v) => {
            proof {
                assert(lowered_all(
                    asts@,
                    v@,
                    bind_context.bindings@,
                    ExprContext::Normal,
                    nrc_of(*settings),
                ));
                assert(parsed_against_table(v@, *table, nrc_of(*settings)));
            }
            Ok(v)
        },
        Err(e) => Err(e),
    }
}

/// Resolves and lowers each parsed expression against an already-built
/// scope whose bindings mirror the given schema fields.
fn resolve_and_lower_all(
    bind_context: &BindContext,
    name_ctx: &NameResolutionContext,
    asts: &Vec<AExpr>,
    fields: Ghost<Seq<TableField>>,
) -> (r: Result<Vec<Expr>, ErrorCode>)
    requires
        bind_context.wf(),
        bind_context.bindings@.len() == fields@.len(),
        forall|i: int|
            0 <= i < bind_context.bindings@.len() ==> (
            #[trigger] bind_context.bindings@[i]).column_name@ == fields@[i].name@
                && bind_context.bindings@[i].data_type == fields@[i].data_type,
    ensures
        r matches Ok(v) ==> forall|i: int|
            0 <= i < v@.len() ==> (#[trigger] v@[i]).bound_to(fields@),
        r matches Ok(v) ==> v@.len() == asts@.len(),
        r matches Ok(v) ==> lowered_all(
            asts@,
            v@,
            bind_context.bindings@,
            bind_context.expr_context,
            *name_ctx,
        ),
        r matches Err(e) ==> e.kind == ErrorKind::Semantic,
{
    let mut out: Vec<Expr> = Vec::new();
    let ghost mut scs: Seq<ScalarExpr> = Seq::empty();
    let mut i: usize = 0;
    while i < asts.len()
        invariant
            i <= asts@.len(),
            out@.len() == i,
            bind_context.wf(),
            bind_context.bindings@.len() == fields@.len(),
            forall|j: int|
                0 <= j < bind_context.bindings@.len() ==> (
                #[trigger] bind_context.bindings@[j]).column_name@ == fields@[j].name@
                    && bind_context.bindings@[j].data_type == fields@[j].data_type,
            forall|j: int| 0 <= j < i ==> (#[trigger] out@[j]).bound_to(fields@),
            scs.len() == i,
            forall|j: int|
                0 <= j < i ==> resolves_to(
                    #[trigger] scs[j],
                    asts@[j],
                    bind_context.bindings@,
                    bind_context.expr_context,
                    *name_ctx,
                ) && crate::sexpr::lowers_to(out@[j], scs[j]),
        decreases asts@.len() - i,
    {
        let p = match resolve(bind_context, name_ctx, &asts[i]) {
            Ok(p) => p,
            Err(e) => {
                return Err(e);
            },
        };
        let (scalar, _t) = *p;
        let ghost sc0 = scalar;
        let expr = match scalar.as_expr() {
            Ok(e) => e,
            Err(e) => {
                return Err(e);
            },
        };
        proof {
            lemma_scalar_bound_fields(scalar, bind_context.bindings@, fields@);
            lemma_lowers_to_bound(expr, scalar, fields@);
            scs = scs.push(sc0);
        }
        out.push(expr);
        i = i + 1;
    }
    proof {
        assert(resolved_list(
            scs,
            asts@,
            out@,
            bind_context.bindings@,
            bind_context.expr_context,
            *name_ctx,
        ));
        assert(lowered_all(
            asts@,
            out@,
            bind_context.bindings@,
            bind_context.expr_context,
            *name_ctx,
        ));
    }
    Ok(out)
}

/// Builds the filter pair from compiled expressions: exactly one expression
/// is accepted, and its logical negation is compiled beside it.
pub fn compile_filters(exprs: Vec<Expr>) -> (r: Result<Filters, ErrorCode>)
    ensures
        exprs@.len() != 1 ==> (r matches Err(e) && e.kind == ErrorKind::BadDataValueType),
        exprs@.len() == 1 && crate::registry::spec_infer(
            Func::NotFn,
            seq![exprs@[0].spec_data_type()],
        ) is Some ==> r is Ok,
        r matches Ok(f) ==> {
            &&& exprs@.len() == 1
            &&& f.filter == exprs@[0]
            &&& f.inverted_filter matches Expr::FunctionCall { func: Func::NotFn, args, .. }
                && args@.len() == 1 && expr_eqv(args@[0], f.filter)
        },
        r matches Err(e) ==> e.kind == ErrorKind::BadDataValueType || e.kind
            == ErrorKind::Semantic,
{
    if exprs.len() != 1 {
        let mut msg = String::from_str("expected a single filter expression, but got ");
        let count = crate::text::render_u64(exprs.len() as u64);
        msg.append(count.as_str());
        return Err(ErrorCode::new(ErrorKind::BadDataValueType, msg));
    }
    let mut exprs = exprs;
    let filter = exprs.remove(0);
    let ghost f0 = filter;
    let copy = filter.clone();
    let mut not_args: Vec<Expr> = Vec::new();
    not_args.push(copy);
    proof {
        crate::expr::lemma_expr_eqv_data_type(copy, f0);
        assert(crate::registry::spec_types_of(seq![copy]) =~= seq![f0.spec_data_type()]);
    }
    let inverted = match check_function(Func::NotFn, not_args) {
        Ok(x) => x,
        Err(e) => {
            return Err(e);
        },
    };
    Ok(Filters { filter, inverted_filter: inverted })
}

/// Takes the one expression a single-expression statement allows; any
/// other count is a count-mismatch error naming the count.
pub fn single_expression(asts: Vec<AExpr>) -> (r: Result<AExpr, ErrorCode>)
    ensures
        asts@.len() != 1 <==> r is Err,
        r matches Err(e) ==> e.kind == ErrorKind::BadDataValueType,
        r matches Ok(a) ==> asts@.len() == 1 && a == asts@[0],
{
    if asts.len() != 1 {
        let mut msg = String::from_str("expected a single expression, but got ");
        let count = crate::text::render_u64(asts.len() as u64);
        msg.append(count.as_str());
        return Err(ErrorCode::new(ErrorKind::BadDataValueType, msg));
    }
    let mut asts = asts;
    let a = asts.remove(0);
    Ok(a)
}

/// Compiles filter text: parse, resolve against the table, and pair the one
/// accepted predicate with its negation; two or more comma-separated
/// expressions are rejected with a count-mismatch error.
pub fn parse_to_filters(settings: &Settings, table: &TableMeta, sql: &str) -> (r: Result<
    Filters,
    ErrorCode,
>)
    ensures
        r matches Ok(f) ==> {
            &&& f.filter.bound_to(table.schema.fields@)
            &&& filter_of(f.filter, *table, nrc_of(*settings))
            &&& f.inverted_filter matches Expr::FunctionCall { func: Func::NotFn, args, .. }
                && args@.len() == 1 && expr_eqv(args@[0], f.filter)
        },
        r matches Err(e) ==> e.kind == ErrorKind::Parse || e.kind == ErrorKind::Semantic
            || e.kind == ErrorKind::BadDataValueType,
{
    let exprs = match parse_exprs(settings, table, sql) {
        Ok(v) => v,
        Err(e) => {
            return Err(e);
        },
    };
    let ghost saved = exprs@;
    match compile_filters(exprs) {
        Ok(f) => {
            proof {
                let (a2, b2) = choose|a2: Seq<AExpr>, b2: Seq<ColumnBinding>|
                    #[trigger] lowered_all(a2, saved, b2, ExprContext::Normal, nrc_of(*settings))
                        && crate::binding::table_scope(b2, *table);
                let scs = choose|scs: Seq<ScalarExpr>|
                    #[trigger] resolved_list(
                        scs,
                        a2,
                        saved,
                        b2,
                        ExprContext::Normal,
                        nrc_of(*settings),
                    );
                assert(resolves_to(scs[0], a2[0], b2, ExprContext::Normal, nrc_of(*settings)));
                assert(crate::sexpr::lowers_to(f.filter, scs[0]));
                assert(filter_of(f.filter, *table, nrc_of(*settings)));
            }
            Ok(f)
        },
        Err(e) => Err(e),
    }
}

/// Compiles one computed-column expression against a schema-only scope.
pub fn parse_computed_expr(settings: &Settings, schema: &TableSchema, sql: &str) -> (r: Result<
    Expr,
    ErrorCode,
>)
    ensures
        r matches Ok(e) ==> e.bound_to(schema.fields@),
        r matches Ok(e) ==> computed_of(e, schema.fields@, nrc_of(*settings)),
        r matches Err(e) ==> e.kind == ErrorKind::Parse || e.kind == ErrorKind::Semantic
            || e.kind == ErrorKind::BadDataValueType,
{
    let mut bind_context = BindContext::new();
    let fields = &schema.fields;
    let mut index: usize = 0;
    while index < fields.len()
        invariant
            index <= fields@.len(),
            bind_context.wf(),
            bind_context.expr_context == ExprContext::Normal,
            bind_context.bindings@.len() == index,
            schema_scope(bind_context.bindings@, fields@.subrange(0, index as int)),
            forall|j: int|
                0 <= j < index ==> (#[trigger] bind_context.bindings@[j]).column_name@
                    == fields@[j].name@ && bind_context.bindings@[j].data_type
                    == fields@[j].data_type,
        decreases fields@.len() - index,
    {
        let f = &fields[index];
        let binding = ColumnBinding {
            database_name: None,
            table_name: None,
            column_name: f.name.clone(),
            index,
            data_type: f.data_type.clone(),
            visibility: Visibility::Visible,
            virtual_computed_expr: None,
            table_index: None,
        };
        bind_context.add_column_binding(binding);
        index = index + 1;
        proof {
            assert(fields@.subrange(0, index as int) =~= fields@.subrange(
                0,
                index - 1,
            ).push(fields@[index - 1]));
        }
    }
    proof {
        assert(fields@.subrange(0, fields@.len() as int) =~= fields@);
        assert(schema_scope(bind_context.bindings@, fields@));
    }
    let name_ctx = NameResolutionContext::from_settings(settings);
    let tokens = match tokenize_sql(sql) {
        Ok(t) => t,
        Err(e) => {
            return Err(e);
        },
    };
    let asts = match crate::parser::parse_comma_separated_exprs(&tokens) {
        Ok(a) => a,
        Err(e) => {
            return Err(e);
        },
    };
    let ast = match single_expression(asts) {
        Ok(a) => a,
        Err(e) => {
            return Err(e);
        },
    };
    let mut single: Vec<AExpr> = Vec::new();
    single.push(ast);
    let mut out = match resolve_and_lower_all(
        &bind_context,
        &name_ctx,
        &single,
        Ghost(schema.fields@),
    ) {
        Ok(v) => v,
        Err(e) => {
            return Err(e);
        },
    };
    let ghost lows = out@;
    let e = out.remove(0);
    proof {
        assert(lowered_all(
            single@,
            lows,
            bind_context.bindings@,
            ExprContext::Normal,
            nrc_of(*settings),
        ));
        let scs = choose|scs: Seq<ScalarExpr>|
            #[trigger] resolved_list(
                scs,
                single@,
                lows,
                bind_context.bindings@,
                ExprContext::Normal,
                nrc_of(*settings),
            );
        assert(resolves_to(
            scs[0],
            single@[0],
            bind_context.bindings@,
            ExprContext::Normal,
            nrc_of(*settings),
        ));
        assert(schema_scope(bind_context.bindings@, schema.fields@));
        assert(crate::sexpr::lowers_to(e, scs[0]));
        assert(computed_of(e, schema.fields@, nrc_of(*settings)));
    }
    Ok(e)
}

/// Compiles a default-value expression against a scope with no columns and
/// renders it: a type mismatch with the declared column type is silently
/// cast; a deterministic expression is folded to its constant before
/// rendering. Any expression that mentions a column name fails, since the
/// scope holds none.
pub fn parse_default_expr_to_string(
    settings: &Settings,
    field: &TableField,
    ast: &AExpr,
) -> (r: Result<(String, bool), ErrorCode>)
    ensures
        ast.has_ident() ==> r is Err,
        ast is Lit ==> r is Ok,
        r matches Err(e) ==> e.kind == ErrorKind::Semantic,
        r matches Ok(p) ==> exists|sc: ScalarExpr, e: Expr, g: Expr|
            #![trigger resolves_to(sc, *ast, Seq::<ColumnBinding>::empty(), ExprContext::Normal, nrc_of(*settings)), crate::sexpr::lowers_to(e, crate::resolver::spec_wrap_cast_scalar(sc, field.data_type)), crate::render::expr_text(g)]
            {
                &&& resolves_to(
                    sc,
                    *ast,
                    Seq::<ColumnBinding>::empty(),
                    ExprContext::Normal,
                    nrc_of(*settings),
                )
                &&& sc.evaluable()
                &&& crate::sexpr::lowers_to(
                    e,
                    crate::resolver::spec_wrap_cast_scalar(sc, field.data_type),
                )
                &&& p.1 == e.deterministic()
                &&& (p.1 ==> expr_eqv(g, crate::eval::fold_spec(e)))
                &&& (!p.1 ==> g == e)
                &&& p.0@ == crate::render::expr_text(g)
            },
{
    let bind_context = BindContext::new();
    let name_ctx = NameResolutionContext::from_settings(settings);
    proof {
        assert(bind_context.bindings@ =~= Seq::<ColumnBinding>::empty());
    }
    let p = match resolve(&bind_context, &name_ctx, ast) {
        Ok(p) => p,
        Err(e) => {
            return Err(e);
        },
    };
    let (scalar, data_type) = *p;
    let ghost sc0 = scalar;
    proof {
        if ast is Lit {
            assert(scalar is Constant);
        }
    }
    if !scalar.is_evaluable() {
        let mut msg = String::from_str("the default value expression `");
        let shown = render_ast_string(ast);
        msg.append(shown.as_str());
        msg.append("` is invalid");
        return Err(ErrorCode::new(ErrorKind::Semantic, msg));
    }
    let scalar = if data_type.eq_type(&field.data_type) {
        scalar
    } else {
        ScalarExpr::Cast { expr: Box::new(scalar), dest_type: field.data_type.clone() }
    };
    proof {
        assert(scalar == crate::resolver::spec_wrap_cast_scalar(sc0, field.data_type));
        assert(scalar.evaluable());
    }
    let expr = match scalar.as_expr() {
        Ok(e) => e,
        Err(e) => {
            return Err(e);
        },
    };
    let ghost e0 = expr;
    if expr.is_deterministic() {
        let folded = fold(expr);
        let ghost g0 = folded;
        let text = crate::render::render_expr_string(&folded);
        proof {
            assert(crate::sexpr::lowers_to(
                e0,
                crate::resolver::spec_wrap_cast_scalar(sc0, field.data_type),
            ));
            assert(expr_eqv(g0, crate::eval::fold_spec(e0)));
            assert(text@ == crate::render::expr_text(g0));
        }
        Ok((text, true))
    } else {
        let text = crate::render::render_expr_string(&expr);
        proof {
            assert(crate::sexpr::lowers_to(
                e0,
                crate::resolver::spec_wrap_cast_scalar(sc0, field.data_type),
            ));
            assert(text@ == crate::render::expr_text(e0));
        }
        Ok((text, false))
    }
}

/// Compiles a computed-column expression and returns its normalized text.
/// Computed columns are strict-typed: a type other than the declared one is
/// rejected without an implicit cast, and a non-deterministic expression is
/// rejected too.
pub fn parse_computed_expr_to_string(
    settings: &Settings,
    table_schema: &TableSchema,
    field: &TableField,
    ast: &AExpr,
) -> (r: Result<String, ErrorCode>)
    ensures
        r matches Ok(s) ==> exists|b: AExpr|
            normalized_ast(b, *ast, nrc_of(*settings)) && s@ == render_ast(b),
        r matches Ok(s) ==> exists|bs: Seq<ColumnBinding>, sc: ScalarExpr, e: Expr|
            #![trigger resolves_to(sc, *ast, bs, ExprContext::Normal, nrc_of(*settings)), crate::sexpr::lowers_to(e, sc)]
            {
                &&& schema_scope(bs, table_schema.fields@)
                &&& resolves_to(sc, *ast, bs, ExprContext::Normal, nrc_of(*settings))
                &&& sc.evaluable()
                &&& sc.spec_data_type() == field.data_type
                &&& crate::sexpr::lowers_to(e, sc)
                &&& e.deterministic()
            },
        (*ast) matches AExpr::Lit { lit } && crate::resolver::spec_lit_type(lit)
            == field.data_type ==> r is Ok,
        r matches Err(e) ==> e.kind == ErrorKind::Semantic,
{
    let mut bind_context = BindContext::new();
    let fields = &table_schema.fields;
    let mut index: usize = 0;
    while index < fields.len()
        invariant
            index <= fields@.len(),
            bind_context.wf(),
            bind_context.bindings@.len() == index,
            bind_context.expr_context == ExprContext::Normal,
            schema_scope(bind_context.bindings@, fields@.subrange(0, index as int)),
        decreases fields@.len() - index,
    {
        let f = &fields[index];
        let binding = ColumnBinding {
            database_name: None,
            table_name: None,
            column_name: f.name.clone(),
            index,
            data_type: f.data_type.clone(),
            visibility: Visibility::Visible,
            virtual_computed_expr: None,
            table_index: None,
        };
        bind_context.add_column_binding(binding);
        index = index + 1;
        proof {
            assert(fields@.subrange(0, index as int) =~= fields@.subrange(
                0,
                index - 1,
            ).push(fields@[index - 1]));
        }
    }
    proof {
        assert(fields@.subrange(0, fields@.len() as int) =~= fields@);
        assert(schema_scope(bind_context.bindings@, fields@));
    }
    let name_ctx = NameResolutionContext::from_settings(settings);
    let p = match resolve(&bind_context, &name_ctx, ast) {
        Ok(p) => p,
        Err(e) => {
            return Err(e);
        },
    };
    let (scalar, data_type) = *p;
    let ghost sc0 = scalar;
    proof {
        if ast is Lit {
            assert(scalar is Constant);
        }
    }
    if !scalar.is_evaluable() {
        let mut msg = String::from_str("the computed column expression `");
        let shown = render_ast_string(ast);
        msg.append(shown.as_str());
        msg.append("` is invalid");
        return Err(ErrorCode::new(ErrorKind::Semantic, msg));
    }
    if !data_type.eq_type(&field.data_type) {
        let mut msg = String::from_str("expected the computed column expression to have type ");
        let declared = crate::render::render_type_string(&field.data_type);
        msg.append(declared.as_str());
        msg.append(", but `");
        let shown = render_ast_string(ast);
        msg.append(shown.as_str());
        msg.append("` has type ");
        let actual = crate::render::render_type_string(&data_type);
        msg.append(actual.as_str());
        return Err(ErrorCode::new(ErrorKind::Semantic, msg));
    }
    let expr = match scalar.as_expr() {
        Ok(e) => e,
        Err(e) => {
            return Err(e);
        },
    };
    let ghost e0 = expr;
    if !expr.is_deterministic() {
        proof {
            if ast is Lit {
                assert(e0 is Constant);
            }
        }
        let mut msg = String::from_str("the computed column expression `");
        let shown = render_ast_string(ast);
        msg.append(shown.as_str());
        msg.append("` is not deterministic");
        return Err(ErrorCode::new(ErrorKind::Semantic, msg));
    }
    let normalized = normalize_identifiers(ast, &name_ctx);
    proof {
        assert(crate::sexpr::lowers_to(e0, sc0));
    }
    Ok(render_ast_string(&normalized))
}

/// Resolves an expression inside a lambda body: the lambda's parameters are
/// appended to the scope at positions continuing the sequence, visible and
/// shadowing outer names of the same label.
pub fn parse_lambda_expr(
    settings: &Settings,
    bind_context: BindContext,
    columns: &Vec<(String, DataType)>,
    ast: &AExpr,
) -> (r: Result<Box<(ScalarExpr, DataType)>, ErrorCode>)
    requires
        bind_context.wf(),
        bind_context.bindings@.len() + columns@.len() <= usize::MAX,
    ensures
        r matches Ok(p) ==> (*p).1 == (*p).0.spec_data_type(),
        ast is Lit ==> r is Ok,
        r matches Err(e) ==> e.kind == ErrorKind::Semantic,
        r matches Ok(p) ==> exists|ext: Seq<ColumnBinding>|
            #![trigger resolves_to((*p).0, *ast, ext, ExprContext::InLambdaFunction, nrc_of(*settings))]
            {
                &&& lambda_scope(ext, bind_context.bindings@, columns@)
                &&& resolves_to(
                    (*p).0,
                    *ast,
                    ext,
                    ExprContext::InLambdaFunction,
                    nrc_of(*settings),
                )
            },
{
    let ghost base = bind_context.bindings@;
    let mut bind_context = bind_context;
    bind_context.set_expr_context(ExprContext::InLambdaFunction);
    let column_len = bind_context.all_column_bindings().len();
    let mut idx: usize = 0;
    while idx < columns.len()
        invariant
            idx <= columns@.len(),
            column_len == base.len(),
            column_len + columns@.len() <= usize::MAX,
            bind_context.wf(),
            bind_context.expr_context == ExprContext::InLambdaFunction,
            bind_context.bindings@.len() == column_len + idx,
            forall|i: int| 0 <= i < base.len() ==> #[trigger] bind_context.bindings@[i] == base[i],
            forall|i: int|
                0 <= i < idx ==> {
                    &&& (#[trigger] bind_context.bindings@[base.len() + i]).index == base.len() + i
                    &&& bind_context.bindings@[base.len() + i].column_name@ == columns@[i].0@
                    &&& bind_context.bindings@[base.len() + i].data_type == columns@[i].1
                    &&& bind_context.bindings@[base.len() + i].visibility == Visibility::Visible
                },
        decreases columns@.len() - idx,
    {
        let (name, data_type) = &columns[idx];
        let binding = ColumnBinding {
            database_name: None,
            table_name: None,
            column_name: name.clone(),
            index: column_len + idx,
            data_type: data_type.clone(),
            visibility: Visibility::Visible,
            virtual_computed_expr: None,
            table_index: None,
        };
        bind_context.add_column_binding(binding);
        idx = idx + 1;
    }
    proof {
        assert(lambda_scope(bind_context.bindings@, base, columns@));
    }
    let name_ctx = NameResolutionContext::from_settings(settings);
    resolve(&bind_context, &name_ctx, ast)
}

/// Unwraps a parenthesized tuple of keys into its elements; a bare
/// expression stands alone. More than one top-level expression is an
/// internal error: the grammar hands clustering either one expression or
/// one tuple.
fn unwrap_tuple(asts: Vec<AExpr>) -> (r: Result<Vec<AExpr>, ErrorCode>)
    requires
        asts@.len() >= 1,
    ensures
        r matches Ok(v) ==> v@.len() >= 1,
        r matches Err(e) ==> e.kind == ErrorKind::Internal,
{
    if asts.len() != 1 {
        return Err(
            ErrorCode::new(
                ErrorKind::Internal,
                String::from_str("the cluster key list must be one expression or one tuple"),
            ),
        );
    }
    let mut asts = asts;
    let ast = asts.remove(0);
    match ast {
        AExpr::Tuple { exprs } => {
            if exprs.len() == 0 {
                Err(
                    ErrorCode::new(
                        ErrorKind::Internal,
                        String::from_str("the cluster key tuple is empty"),
                    ),
                )
            } else {
                Ok(exprs)
            }
        },
        other => {
            let mut v: Vec<AExpr> = Vec::new();
            v.push(other);
            Ok(v)
        },
    }
}

/// Compiles linear clustering keys: each expression is bound to the table
/// and every string-typed key leaves wrapped in the fixed prefix
/// truncation, never doubly.
pub fn parse_cluster_keys(settings: &Settings, table: &TableMeta, cluster_key_str: &str) -> (r:
    Result<Vec<Expr>, ErrorCode>)
    ensures
        r matches Ok(v) ==> forall|i: int|
            0 <= i < v@.len() ==> (#[trigger] v@[i]).bound_to(table.schema.fields@),
        r matches Ok(v) ==> forall|i: int| 0 <= i < v@.len() ==> !needs_truncation(#[trigger] v@[i]),
        r matches Ok(v) ==> linear_keys_of(v@, *table, nrc_of(*settings)),
        r matches Err(e) ==> e.kind == ErrorKind::Parse || e.kind == ErrorKind::Semantic
            || e.kind == ErrorKind::Internal,
{
    let (bind_context, _metadata) = match bind_table(table) {
        Ok(p) => p,
        Err(e) => {
            return Err(e);
        },
    };
    let name_ctx = NameResolutionContext::from_settings(settings);
    let tokens = match tokenize_sql(cluster_key_str) {
        Ok(t) => t,
        Err(e) => {
            return Err(e);
        },
    };
    let asts = match crate::parser::parse_comma_separated_exprs(&tokens) {
        Ok(a) => a,
        Err(e) => {
            return Err(e);
        },
    };
    let asts = match unwrap_tuple(asts) {
        Ok(a) => a,
        Err(e) => {
            return Err(e);
        },
    };
    let exprs = match resolve_and_lower_all(
        &bind_context,
        &name_ctx,
        &asts,
        Ghost(table.schema.fields@),
    ) {
        Ok(v) => v,
        Err(e) => {
            return Err(e);
        },
    };
    let ghost pre = exprs@;
    let ghost fields = table.schema.fields@;
    match compile_linear_cluster_keys(exprs) {
        Ok(out) => {
            proof {
                assert forall|i: int| 0 <= i < out@.len() implies (#[trigger] out@[i]).bound_to(
                    fields,
                ) by {
                    if needs_truncation(pre[i]) {
                        lemma_truncation_bound(out@[i], pre[i], fields);
                    }
                }
                assert(lowered_all(
                    asts@,
                    pre,
                    bind_context.bindings@,
                    ExprContext::Normal,
                    nrc_of(*settings),
                ));
                assert(linear_keys_of(out@, *table, nrc_of(*settings)));
            }
            Ok(out)
        },
        Err(e) => Err(e),
    }
}

/// Compiles Hilbert clustering keys: 2 to 5 dimensions, each width
/// normalized, transformed and null-guarded, combined into exactly one
/// index expression.
pub fn parse_hilbert_cluster_key(
    settings: &Settings,
    table: &TableMeta,
    cluster_key_str: &str,
) -> (r: Result<Vec<Expr>, ErrorCode>)
    ensures
        r matches Ok(v) ==> v@.len() == 1 && (v@[0] matches Expr::FunctionCall {
            func: Func::HilbertIndex,
            args: iargs,
            ..
        } && iargs@.len() == 2 && iargs@[0] matches Expr::FunctionCall {
            func: Func::ArrayFn,
            ..
        }),
        r matches Ok(v) ==> hilbert_dims_of(*table, nrc_of(*settings)),
        r matches Err(e) ==> e.kind == ErrorKind::Parse || e.kind == ErrorKind::Semantic
            || e.kind == ErrorKind::Internal || e.kind == ErrorKind::InvalidClusterKeys,
{
    let (bind_context, _metadata) = match bind_table(table) {
        Ok(p) => p,
        Err(e) => {
            return Err(e);
        },
    };
    let name_ctx = NameResolutionContext::from_settings(settings);
    let tokens = match tokenize_sql(cluster_key_str) {
        Ok(t) => t,
        Err(e) => {
            return Err(e);
        },
    };
    let asts = match crate::parser::parse_comma_separated_exprs(&tokens) {
        Ok(a) => a,
        Err(e) => {
            return Err(e);
        },
    };
    let asts = match unwrap_tuple(asts) {
        Ok(a) => a,
        Err(e) => {
            return Err(e);
        },
    };
    // The dimensionality is checked before any key is resolved, so a wrong
    // count is reported even when a key would not resolve.
    if asts.len() < 2 || asts.len() > 5 {
        return Err(
            ErrorCode::new(
                ErrorKind::InvalidClusterKeys,
                String::from_str("Hilbert clustering requires the dimension to be between 2 and 5"),
            ),
        );
    }
    let exprs = match resolve_and_lower_all(
        &bind_context,
        &name_ctx,
        &asts,
        Ghost(table.schema.fields@),
    ) {
        Ok(v) => v,
        Err(e) => {
            return Err(e);
        },
    };
    let ghost lows = exprs@;
    match compile_hilbert_cluster_key(exprs) {
        Ok(v) => {
            proof {
                assert(lowered_all(
                    asts@,
                    lows,
                    bind_context.bindings@,
                    ExprContext::Normal,
                    nrc_of(*settings),
                ));
                assert(hilbert_dims_of(*table, nrc_of(*settings)));
            }
            Ok(v)
        },
        Err(e) => Err(e),
    }
}

/// Validates and compiles clustering keys for analysis: each key must
/// reference exactly one column, be evaluable and deterministic, and have a
/// clusterable type; the normalized key text is rendered beside the
/// compiled expressions.
pub fn analyze_cluster_keys(settings: &Settings, table: &TableMeta, sql: &str) -> (r: Result<
    (String, Vec<Expr>),
    ErrorCode,
>)
    ensures
        r matches Ok(p) ==> forall|i: int|
            0 <= i < p.1@.len() ==> (#[trigger] p.1@[i]).bound_to(table.schema.fields@)
                && p.1@[i].deterministic() && crate::cluster::allowed_cluster_type(
                p.1@[i].spec_data_type().spec_remove_nullable(),
            ) && (exists|c: int| p.1@[i].cols() == Set::<int>::empty().insert(c)),
        r matches Ok(p) ==> p.1@.len() >= 1,
        r matches Ok(p) ==> analyzed_keys_of(p.0@, p.1@, *table, nrc_of(*settings)),
        r matches Err(e) ==> e.kind == ErrorKind::Parse || e.kind == ErrorKind::Semantic
            || e.kind == ErrorKind::Internal || e.kind == ErrorKind::InvalidClusterKeys,
{
    let name_ctx = NameResolutionContext::from_settings(settings);
    let tokens = match tokenize_sql(sql) {
        Ok(t) => t,
        Err(e) => {
            return Err(e);
        },
    };
    let asts = match crate::parser::parse_comma_separated_exprs(&tokens) {
        Ok(a) => a,
        Err(e) => {
            return Err(e);
        },
    };
    let asts = match unwrap_tuple(asts) {
        Ok(a) => a,
        Err(e) => {
            return Err(e);
        },
    };
    let (bind_context, _metadata) = match bind_table(table) {
        Ok(p) => p,
        Err(e) => {
            return Err(e);
        },
    };

    let ghost fields = table.schema.fields@;
    let mut exprs: Vec<Expr> = Vec::new();
    let mut rendered = String::new();
    rendered.append("(");
    let ghost mut ns: Seq<AExpr> = Seq::empty();
    let ghost mut scs: Seq<ScalarExpr> = Seq::empty();
    let mut i: usize = 0;
    while i < asts.len()
        invariant
            i <= asts@.len(),
            exprs@.len() == i,
            ns.len() == i,
            scs.len() == i,
            name_ctx == nrc_of(*settings),
            rendered@ == "("@ + crate::ast::render_ast_list_prefix(ns, i as int),
            forall|j: int|
                0 <= j < i ==> resolves_to(
                    #[trigger] scs[j],
                    asts@[j],
                    bind_context.bindings@,
                    ExprContext::Normal,
                    nrc_of(*settings),
                ) && crate::sexpr::lowers_to(exprs@[j], scs[j]),
            forall|j: int|
                0 <= j < i ==> normalized_ast(#[trigger] ns[j], asts@[j], nrc_of(*settings)),
            bind_context.expr_context == ExprContext::Normal,
            bind_context.wf(),
            bind_context.bindings@.len() == fields.len(),
            forall|j: int|
                0 <= j < bind_context.bindings@.len() ==> crate::binding::binding_matches_field(
                    #[trigger] bind_context.bindings@[j],
                    fields[j],
                    j,
                ),
            forall|j: int|
                0 <= j < i ==> (#[trigger] exprs@[j]).bound_to(fields) && exprs@[j].deterministic()
                    && crate::cluster::allowed_cluster_type(
                    exprs@[j].spec_data_type().spec_remove_nullable(),
                ) && (exists|c: int| exprs@[j].cols() == Set::<int>::empty().insert(c)),
        decreases asts@.len() - i,
    {
        let ast = &asts[i];
        let p = match resolve(&bind_context, &name_ctx, ast) {
            Ok(p) => p,
            Err(e) => {
                return Err(e);
            },
        };
        let (scalar, _t) = *p;
        let ghost sc0 = scalar;
        let used = scalar.used_columns();
        if used.len() != 1 || !scalar.is_evaluable() {
            let mut msg = String::from_str("the cluster by expression `");
            let shown = render_ast_string(ast);
            msg.append(shown.as_str());
            msg.append("` is invalid");
            return Err(ErrorCode::new(ErrorKind::InvalidClusterKeys, msg));
        }
        let expr = match scalar.as_expr() {
            Ok(e) => e,
            Err(e) => {
                return Err(e);
            },
        };
        if !expr.is_deterministic() {
            let mut msg = String::from_str("the cluster by expression `");
            let shown = render_ast_string(ast);
            msg.append(shown.as_str());
            msg.append("` is not deterministic");
            return Err(ErrorCode::new(ErrorKind::InvalidClusterKeys, msg));
        }
        let inner = expr.data_type().remove_nullable();
        if !crate::cluster::allowed_cluster_type_exec(&inner) {
            let mut msg = String::from_str("the data type ");
            let shown_type = crate::render::render_type_string(&inner);
            msg.append(shown_type.as_str());
            msg.append(" is unsupported for the cluster by expression `");
            let shown = render_ast_string(ast);
            msg.append(shown.as_str());
            msg.append("`");
            return Err(ErrorCode::new(ErrorKind::InvalidClusterKeys, msg));
        }
        proof {
            assert forall|j: int|
                0 <= j < bind_context.bindings@.len() implies (
            #[trigger] bind_context.bindings@[j]).column_name@ == fields[j].name@
                && bind_context.bindings@[j].data_type == fields[j].data_type by {
                assert(crate::binding::binding_matches_field(
                    bind_context.bindings@[j],
                    fields[j],
                    j,
                ));
            }
            lemma_scalar_bound_fields(scalar, bind_context.bindings@, fields);
            lemma_lowers_to_bound(expr, scalar, fields);
            crate::sexpr::lemma_scalar_cols_bounded(scalar);
            crate::sexpr::lemma_lowers_to_cols(expr, scalar);
            let c0 = used@[0] as int;
            assert forall|y: int| expr.cols().contains(y) implies y == c0 by {
                assert(scalar.cols().contains(y));
                assert(0 <= y <= usize::MAX);
                let x = y as usize;
                assert(scalar.cols().contains(x as int));
                assert(used@.contains(x));
                let k = choose|k: int| 0 <= k < used@.len() && used@[k] == x;
                assert(k == 0);
            }
            assert(used@.contains(used@[0]));
            assert(scalar.cols().contains(used@[0] as int));
            assert(expr.cols() =~= Set::<int>::empty().insert(c0));
            assert(crate::sexpr::lowers_to(expr, sc0));
            scs = scs.push(sc0);
        }
        exprs.push(expr);

        if i > 0 {
            rendered.append(", ");
        }
        let normalized = normalize_identifiers(ast, &name_ctx);
        let text = render_ast_string(&normalized);
        rendered.append(text.as_str());
        proof {
            crate::ast::lemma_render_prefix_push(ns, normalized, i as int);
            ns = ns.push(normalized);
            if i == 0 {
                assert(crate::ast::render_ast_list_prefix(ns, 1) == render_ast(ns[0]));
                assert(rendered@ =~= "("@ + crate::ast::render_ast_list_prefix(ns, 1));
            } else {
                assert(crate::ast::render_ast_list_prefix(ns, i + 1)
                    == crate::ast::render_ast_list_prefix(ns, i as int) + ", "@ + render_ast(
                    ns[i as int],
                ));
                assert(rendered@ =~= "("@ + crate::ast::render_ast_list_prefix(ns, i + 1));
            }
        }
        i = i + 1;
    }
    rendered.append(")");
    proof {
        crate::ast::lemma_render_prefix_full(ns);
        assert(rendered@ =~= "("@ + crate::ast::render_ast_list(ns, 0) + ")"@);
        assert(resolved_list(
            scs,
            asts@,
            exprs@,
            bind_context.bindings@,
            ExprContext::Normal,
            nrc_of(*settings),
        ));
        assert(analyzed_keys_of(rendered@, exprs@, *table, nrc_of(*settings)));
    }
    Ok((rendered, exprs))
}

/// The default value of a column: the declared default expression compiled
/// against a zero-column scope, cast to the declared type and evaluated to
/// one constant; the type's canonical zero value when none is declared.
pub fn field_default_value(settings: &Settings, field: &TableField) -> (r: Result<
    Scalar,
    ErrorCode,
>)
    ensures
        field.default_expr is None ==> (r matches Ok(s) && is_default_scalar(field.data_type, s)),
        field.default_expr is Some ==> (r matches Ok(s) ==> exists|e: Expr|
            #![trigger crate::registry::spec_wrap_cast(e, field.data_type)]
            {
                &&& e.bound_to(Seq::<TableField>::empty())
                &&& crate::registry::castable(e.spec_data_type(), field.data_type)
                &&& crate::eval::eval_spec(
                    crate::registry::spec_wrap_cast(e, field.data_type),
                ) matches Some(v) && crate::scalar::scalar_eqv(s, v)
            }),
        r matches Err(e) ==> e.kind == ErrorKind::Parse || e.kind == ErrorKind::Semantic
            || e.kind == ErrorKind::BadDataValueType || e.kind == ErrorKind::Evaluation,
{
    let default_expr: &Option<String> = &field.default_expr;
    match default_expr {
        None => Ok(crate::scalar::default_scalar(&field.data_type)),
        Some(text) => {
            let table = TableMeta::empty();
            let mut exprs = match parse_exprs(settings, &table, text.as_str()) {
                Ok(v) => v,
                Err(e) => {
                    return Err(e);
                },
            };
            if exprs.len() != 1 {
                let mut msg = String::from_str("invalid default value for column ");
                msg.append(field.name.as_str());
                msg.append(": expected a single expression, but got ");
                let count = crate::text::render_u64(exprs.len() as u64);
                msg.append(count.as_str());
                return Err(ErrorCode::new(ErrorKind::BadDataValueType, msg));
            }
            let expr = exprs.remove(0);
            let ghost parsed = expr;
            proof {
                assert(table.schema.fields@ =~= Seq::<TableField>::empty());
            }
            let expr = match check_cast(expr, &field.data_type) {
                Ok(e) => e,
                Err(e) => {
                    return Err(e);
                },
            };
            proof {
                assert(expr == crate::registry::spec_wrap_cast(parsed, field.data_type));
            }
            crate::eval::eval_expr(&expr)
        },
    }
}

} // verus!

//! End-to-end tests of the expression compilation pipeline.

use expr_compiler::api::{
    analyze_cluster_keys, field_default_value, parse_cluster_keys, parse_computed_expr,
    parse_computed_expr_to_string, parse_default_expr_to_string, parse_exprs,
    parse_hilbert_cluster_key, parse_lambda_expr, parse_to_filters,
};
use expr_compiler::ast::AExpr;
use expr_compiler::binding::BindContext;
use expr_compiler::errors::ErrorKind;
use expr_compiler::expr::{Expr, Func};
use expr_compiler::parser::parse_comma_separated_exprs;
use expr_compiler::scalar::{NumberScalar, Scalar};
use expr_compiler::schema::{Settings, TableField, TableMeta, TableSchema};
use expr_compiler::token::tokenize_sql;
use expr_compiler::types::{DataType, NumberDataType};

fn settings() -> Settings {
    Settings { unquoted_ident_case_sensitive: false, quoted_ident_case_sensitive: true }
}

fn table(fields: Vec<TableField>) -> TableMeta {
    TableMeta { name: String::from("t"), schema: TableSchema { fields } }
}

fn field(name: &str, t: DataType) -> TableField {
    TableField::new(String::from(name), t)
}

fn int32() -> DataType {
    DataType::Number(NumberDataType::Int32)
}

fn int64() -> DataType {
    DataType::Number(NumberDataType::Int64)
}

fn parse_one_ast(sql: &str) -> AExpr {
    let tokens = tokenize_sql(sql).unwrap();
    let mut asts = parse_comma_separated_exprs(&tokens).unwrap();
    assert_eq!(asts.len(), 1);
    asts.remove(0)
}

#[test]
fn parse_exprs_binds_column_positions() {
    let t = table(vec![field("a", int32()), field("b", DataType::String)]);
    let exprs = parse_exprs(&settings(), &t, "a + 1").unwrap();
    assert_eq!(exprs.len(), 1);
    match &exprs[0] {
        Expr::FunctionCall { func: Func::Plus, args, return_type } => {
            assert_eq!(args.len(), 2);
            assert!(matches!(return_type, DataType::Number(NumberDataType::Int64)));
            // `a` is Int32, so it is promoted by an implicit cast around the
            // column reference at position 0.
            match &args[0] {
                Expr::Cast { expr, dest_type } => {
                    assert!(matches!(dest_type, DataType::Number(NumberDataType::Int64)));
                    match expr.as_ref() {
                        Expr::ColumnRef { index, name, .. } => {
                            assert_eq!(*index, 0);
                            assert_eq!(name.as_str(), "a");
                        }
                        other => panic!("expected a column reference, got {:?}", kind_of(other)),
                    }
                }
                other => panic!("expected a cast, got {:?}", kind_of(other)),
            }
            match &args[1] {
                Expr::Constant {
                    scalar: Scalar::Number(NumberScalar::Int64(1)),
                    ..
                } => {}
                other => panic!("expected the constant 1, got {:?}", kind_of(other)),
            }
        }
        other => panic!("expected a plus call, got {:?}", kind_of(other)),
    }
}

fn kind_of(e: &Expr) -> &'static str {
    match e {
        Expr::Constant { .. } => "constant",
        Expr::ColumnRef { .. } => "column",
        Expr::FunctionCall { .. } => "call",
        Expr::Cast { .. } => "cast",
    }
}

#[test]
fn parse_exprs_unresolved_identifier_fails() {
    let t = table(vec![field("a", int32())]);
    let err = parse_exprs(&settings(), &t, "missing + 1").unwrap_err();
    assert_eq!(err.kind(), ErrorKind::Semantic);
}

#[test]
fn parse_exprs_case_insensitive_lookup() {
    let t = table(vec![field("MyCol", int32())]);
    assert!(parse_exprs(&settings(), &t, "mycol").is_ok());
    assert!(parse_exprs(&settings(), &t, "MYCOL").is_ok());
    // A quoted identifier keeps its case under the usual policy.
    assert!(parse_exprs(&settings(), &t, "\"MyCol\"").is_ok());
    let err = parse_exprs(&settings(), &t, "\"mycol\"").unwrap_err();
    assert_eq!(err.kind(), ErrorKind::Semantic);
}

#[test]
fn parse_exprs_ambiguous_name_fails() {
    let t = table(vec![field("a", int32()), field("a", int64())]);
    let err = parse_exprs(&settings(), &t, "a").unwrap_err();
    assert_eq!(err.kind(), ErrorKind::Semantic);
}

#[test]
fn filters_single_expression_gets_negation() {
    let t = table(vec![field("a", int32())]);
    let filters = parse_to_filters(&settings(), &t, "a > 1").unwrap();
    match &filters.inverted_filter {
        Expr::FunctionCall { func: Func::NotFn, args, .. } => {
            assert_eq!(args.len(), 1);
            assert!(matches!(&args[0], Expr::FunctionCall { func: Func::GtCmp, .. }));
        }
        other => panic!("expected a negation call, got {:?}", kind_of(other)),
    }
    assert!(matches!(&filters.filter, Expr::FunctionCall { func: Func::GtCmp, .. }));
}

#[test]
fn filters_two_expressions_fail_with_count_mismatch() {
    let t = table(vec![field("a", int32()), field("b", DataType::String)]);
    let err = parse_to_filters(&settings(), &t, "a > 1, b = 'x'").unwrap_err();
    assert_eq!(err.kind(), ErrorKind::BadDataValueType);
}

#[test]
fn default_value_without_expression_is_type_zero() {
    let f = field("c", int32());
    let v = field_default_value(&settings(), &f).unwrap();
    assert!(matches!(v, Scalar::Number(NumberScalar::Int32(0))));
}

#[test]
fn default_value_folds_constant_arithmetic() {
    let mut f = field("c", int32());
    f.default_expr = Some(String::from("1 + 1"));
    let v = field_default_value(&settings(), &f).unwrap();
    assert!(matches!(v, Scalar::Number(NumberScalar::Int32(2))));
}

#[test]
fn default_value_referencing_a_column_fails() {
    let mut f = field("c", int32());
    f.default_expr = Some(String::from("other_col + 1"));
    let err = field_default_value(&settings(), &f).unwrap_err();
    assert_eq!(err.kind(), ErrorKind::Semantic);
}

#[test]
fn default_value_division_by_zero_fails_evaluation() {
    let mut f = field("c", int32());
    f.default_expr = Some(String::from("1 / 0"));
    let err = field_default_value(&settings(), &f).unwrap_err();
    assert_eq!(err.kind(), ErrorKind::Evaluation);
}

#[test]
fn default_expr_to_string_folds_and_reports_deterministic() {
    let f = field("c", int32());
    let ast = parse_one_ast("1 + 1");
    let (text, deterministic) = parse_default_expr_to_string(&settings(), &f, &ast).unwrap();
    assert_eq!(text, "2");
    assert!(deterministic);
}

#[test]
fn default_expr_to_string_type_mismatch_is_silently_cast() {
    // The literal types as Int64; the declared column type is Int32. The
    // default path inserts the cast and still accepts the expression.
    let f = field("c", int32());
    let ast = parse_one_ast("7");
    let (text, deterministic) = parse_default_expr_to_string(&settings(), &f, &ast).unwrap();
    assert_eq!(text, "7");
    assert!(deterministic);
}

#[test]
fn default_expr_to_string_nondeterministic_is_kept_unfolded() {
    let f = field("c", DataType::Number(NumberDataType::Float64));
    let ast = parse_one_ast("rand()");
    let (text, deterministic) = parse_default_expr_to_string(&settings(), &f, &ast).unwrap();
    assert_eq!(text, "rand()");
    assert!(!deterministic);
}

#[test]
fn default_expr_to_string_rejects_identifiers() {
    let f = field("c", int32());
    let ast = parse_one_ast("some_col");
    let err = parse_default_expr_to_string(&settings(), &f, &ast).unwrap_err();
    assert_eq!(err.kind(), ErrorKind::Semantic);
}

#[test]
fn computed_column_type_mismatch_is_rejected() {
    let schema = TableSchema { fields: vec![field("a", int32())] };
    let f = field("c", int64());
    let ast = parse_one_ast("a");
    let err = parse_computed_expr_to_string(&settings(), &schema, &f, &ast).unwrap_err();
    assert_eq!(err.kind(), ErrorKind::Semantic);
}

#[test]
fn computed_column_matching_type_renders_normalized_text() {
    let schema = TableSchema { fields: vec![field("MyCol", int64())] };
    let f = field("c", int64());
    let ast = parse_one_ast("MyCol + 1");
    let text = parse_computed_expr_to_string(&settings(), &schema, &f, &ast).unwrap();
    assert_eq!(text, "(mycol + 1)");
}

#[test]
fn computed_column_nondeterministic_is_rejected() {
    let schema = TableSchema { fields: vec![field("a", int64())] };
    let f = field("c", DataType::Number(NumberDataType::Float64));
    let ast = parse_one_ast("rand()");
    let err = parse_computed_expr_to_string(&settings(), &schema, &f, &ast).unwrap_err();
    assert_eq!(err.kind(), ErrorKind::Semantic);
}

#[test]
fn computed_expr_compiles_against_schema() {
    let schema = TableSchema { fields: vec![field("a", int64()), field("b", int64())] };
    let e = parse_computed_expr(&settings(), &schema, "a + b").unwrap();
    assert!(matches!(e, Expr::FunctionCall { func: Func::Plus, .. }));
    let err = parse_computed_expr(&settings(), &schema, "a, b").unwrap_err();
    assert_eq!(err.kind(), ErrorKind::BadDataValueType);
}

#[test]
fn cluster_keys_truncate_string_columns_once() {
    let t = table(vec![field("s", DataType::String), field("n", int32())]);
    let exprs = parse_cluster_keys(&settings(), &t, "(s, n)").unwrap();
    assert_eq!(exprs.len(), 2);
    match &exprs[0] {
        Expr::FunctionCall { func: Func::Substr, args, .. } => {
            assert!(matches!(&args[0], Expr::ColumnRef { index: 0, .. }));
            assert!(matches!(
                &args[1],
                Expr::Constant { scalar: Scalar::Number(NumberScalar::Int64(1)), .. }
            ));
            assert!(matches!(
                &args[2],
                Expr::Constant { scalar: Scalar::Number(NumberScalar::UInt64(8)), .. }
            ));
        }
        other => panic!("expected a substr call, got {:?}", kind_of(other)),
    }
    assert!(matches!(&exprs[1], Expr::ColumnRef { index: 1, .. }));
}

#[test]
fn cluster_keys_skip_existing_truncation() {
    let t = table(vec![field("s", DataType::String)]);
    let exprs = parse_cluster_keys(&settings(), &t, "substr(s, 1, 8)").unwrap();
    assert_eq!(exprs.len(), 1);
    match &exprs[0] {
        Expr::FunctionCall { func: Func::Substr, args, .. } => {
            // The argument is the bare column: no second truncation layer.
            assert!(matches!(&args[0], Expr::ColumnRef { .. }));
        }
        other => panic!("expected a substr call, got {:?}", kind_of(other)),
    }
}

#[test]
fn cluster_keys_wrap_other_string_functions() {
    let t = table(vec![field("s", DataType::String)]);
    let exprs = parse_cluster_keys(&settings(), &t, "upper(s)").unwrap();
    match &exprs[0] {
        Expr::FunctionCall { func: Func::Substr, args, .. } => {
            assert!(matches!(&args[0], Expr::FunctionCall { func: Func::Upper, .. }));
        }
        other => panic!("expected a substr call, got {:?}", kind_of(other)),
    }
}

#[test]
fn hilbert_rejects_one_and_six_dimensions() {
    let t = table(vec![
        field("a", int32()),
        field("b", int32()),
        field("c", int32()),
        field("d", int32()),
        field("e", int32()),
        field("f", int32()),
    ]);
    let err = parse_hilbert_cluster_key(&settings(), &t, "(a)").unwrap_err();
    assert_eq!(err.kind(), ErrorKind::InvalidClusterKeys);
    let err = parse_hilbert_cluster_key(&settings(), &t, "(a, b, c, d, e, f)").unwrap_err();
    assert_eq!(err.kind(), ErrorKind::InvalidClusterKeys);
}

#[test]
fn hilbert_accepts_two_to_five_dimensions() {
    let t = table(vec![
        field("a", int32()),
        field("b", int64()),
        field("c", DataType::String),
        field("d", DataType::Boolean),
        field("e", DataType::Date),
    ]);
    for sql in ["(a, b)", "(a, b, c)", "(a, b, c, d)", "(a, b, c, d, e)"] {
        let exprs = parse_hilbert_cluster_key(&settings(), &t, sql).unwrap();
        assert_eq!(exprs.len(), 1);
        assert!(matches!(&exprs[0], Expr::FunctionCall { func: Func::HilbertIndex, .. }));
    }
}

#[test]
fn hilbert_accepts_nullable_dimensions() {
    let t = table(vec![
        field("a", DataType::Nullable(Box::new(int32()))),
        field("b", int64()),
    ]);
    let exprs = parse_hilbert_cluster_key(&settings(), &t, "(a, b)").unwrap();
    assert_eq!(exprs.len(), 1);
}

#[test]
fn hilbert_null_dimension_evaluates_to_all_ones_sentinel() {
    // A per-dimension key that evaluates to null is replaced by the
    // all-ones sentinel of the chosen width, never by null.
    let key = Expr::Constant {
        scalar: Scalar::Null,
        data_type: DataType::Nullable(Box::new(DataType::Binary)),
    };
    let guard = expr_compiler::cluster::wrap_hilbert_null_guard(key, 4).unwrap();
    let v = expr_compiler::eval::eval_expr(&guard).unwrap();
    match v {
        Scalar::Binary(b) => assert_eq!(b, vec![0xFF, 0xFF, 0xFF, 0xFF]),
        _ => panic!("expected a binary sentinel"),
    }
}

#[test]
fn hilbert_guard_passes_non_null_values_through() {
    let key = Expr::Constant {
        scalar: Scalar::Binary(vec![1, 2]),
        data_type: DataType::Nullable(Box::new(DataType::Binary)),
    };
    let guard = expr_compiler::cluster::wrap_hilbert_null_guard(key, 2).unwrap();
    let v = expr_compiler::eval::eval_expr(&guard).unwrap();
    match v {
        Scalar::Binary(b) => assert_eq!(b, vec![1, 2]),
        _ => panic!("expected the original bytes"),
    }
}

#[test]
fn analyze_cluster_keys_renders_normalized_list() {
    let t = table(vec![field("MyCol", int32()), field("s", DataType::String)]);
    let (text, exprs) = analyze_cluster_keys(&settings(), &t, "(MyCol, s)").unwrap();
    assert_eq!(text, "(mycol, s)");
    assert_eq!(exprs.len(), 2);
}

#[test]
fn analyze_cluster_keys_rejects_nondeterministic_and_zero_column_keys() {
    let t = table(vec![field("a", int32())]);
    let err = analyze_cluster_keys(&settings(), &t, "rand()").unwrap_err();
    assert_eq!(err.kind(), ErrorKind::InvalidClusterKeys);
    let err = analyze_cluster_keys(&settings(), &t, "1 + 1").unwrap_err();
    assert_eq!(err.kind(), ErrorKind::InvalidClusterKeys);
}

#[test]
fn analyze_cluster_keys_rejects_unsupported_types() {
    let t = table(vec![field("arr", DataType::Array(Box::new(int32())))]);
    let err = analyze_cluster_keys(&settings(), &t, "arr").unwrap_err();
    assert_eq!(err.kind(), ErrorKind::InvalidClusterKeys);
}

#[test]
fn lambda_parameters_extend_the_scope() {
    let bind_context = BindContext::new();
    let columns = vec![(String::from("x"), int64())];
    let ast = parse_one_ast("x + 1");
    let p = parse_lambda_expr(&settings(), bind_context, &columns, &ast).unwrap();
    assert!(matches!(p.1, DataType::Number(NumberDataType::Int64)));
}

#[test]
fn fold_returns_constants_unchanged_and_folds_arithmetic() {
    let five = Expr::Constant {
        scalar: Scalar::Number(NumberScalar::Int64(5)),
        data_type: int64(),
    };
    let folded = expr_compiler::eval::fold(five);
    assert!(matches!(
        folded,
        Expr::Constant { scalar: Scalar::Number(NumberScalar::Int64(5)), .. }
    ));

    let one = Expr::Constant {
        scalar: Scalar::Number(NumberScalar::Int64(1)),
        data_type: int64(),
    };
    let two = Expr::Constant {
        scalar: Scalar::Number(NumberScalar::Int64(2)),
        data_type: int64(),
    };
    let sum = expr_compiler::registry::check_function(Func::Plus, vec![one, two]).unwrap();
    let folded = expr_compiler::eval::fold(sum);
    assert!(matches!(
        folded,
        Expr::Constant { scalar: Scalar::Number(NumberScalar::Int64(3)), .. }
    ));
    // Folding the folded expression changes nothing further.
    let folded_again = expr_compiler::eval::fold(folded);
    assert!(matches!(
        folded_again,
        Expr::Constant { scalar: Scalar::Number(NumberScalar::Int64(3)), .. }
    ));
}

#[test]
fn wrap_cast_never_doubles() {
    let one = Expr::Constant {
        scalar: Scalar::Number(NumberScalar::Int64(1)),
        data_type: int64(),
    };
    let same = expr_compiler::registry::wrap_cast(one, &int64());
    assert!(matches!(same, Expr::Constant { .. }));

    let cast = expr_compiler::registry::wrap_cast(same, &int32());
    match &cast {
        Expr::Cast { expr, .. } => assert!(matches!(expr.as_ref(), Expr::Constant { .. })),
        other => panic!("expected a cast, got {:?}", kind_of(other)),
    }
    // A second wrap with the same target leaves the single cast in place.
    let cast_again = expr_compiler::registry::wrap_cast(cast, &int32());
    match &cast_again {
        Expr::Cast { expr, .. } => assert!(matches!(expr.as_ref(), Expr::Constant { .. })),
        other => panic!("expected a cast, got {:?}", kind_of(other)),
    }
}

#[test]
fn tokenizer_rejects_malformed_text() {
    assert_eq!(tokenize_sql("'abc").unwrap_err().kind(), ErrorKind::Parse);
    assert_eq!(tokenize_sql("@").unwrap_err().kind(), ErrorKind::Parse);
    assert_eq!(
        tokenize_sql("99999999999999999999999").unwrap_err().kind(),
        ErrorKind::Parse
    );
}

#[test]
fn parser_rejects_malformed_expressions() {
    let t = table(vec![field("a", int32())]);
    assert_eq!(parse_exprs(&settings(), &t, "1 +").unwrap_err().kind(), ErrorKind::Parse);
    assert_eq!(parse_exprs(&settings(), &t, "(a").unwrap_err().kind(), ErrorKind::Parse);
    assert_eq!(parse_exprs(&settings(), &t, "a b").unwrap_err().kind(), ErrorKind::Parse);
}

#[test]
fn parser_handles_precedence_and_keywords() {
    let t = table(vec![field("a", int64())]);
    // 1 + 2 * 3 folds to 7, not 9, when used as a default value.
    let mut f = field("c", int64());
    f.default_expr = Some(String::from("1 + 2 * 3"));
    let v = field_default_value(&settings(), &f).unwrap();
    assert!(matches!(v, Scalar::Number(NumberScalar::Int64(7))));

    // Boolean connectives parse and type-check.
    assert!(parse_exprs(&settings(), &t, "a > 1 AND NOT (a < 0) OR a = 5").is_ok());
}

#[test]
fn aggregates_resolve_but_cannot_be_lowered() {
    let t = table(vec![field("a", int32())]);
    let err = parse_exprs(&settings(), &t, "sum(a)").unwrap_err();
    assert_eq!(err.kind(), ErrorKind::Semantic);
}

#[test]
fn unknown_functions_are_semantic_errors() {
    let t = table(vec![field("a", int32())]);
    let err = parse_exprs(&settings(), &t, "no_such_fn(a)").unwrap_err();
    assert_eq!(err.kind(), ErrorKind::Semantic);
}

#[test]
fn invisible_columns_are_not_offered_to_lookup() {
    let mut f = field("hidden", int32());
    f.path_indices = Some(vec![0]);
    let t = table(vec![f, field("a", int32())]);
    let err = parse_exprs(&settings(), &t, "hidden").unwrap_err();
    assert_eq!(err.kind(), ErrorKind::Semantic);
    // The visible column at position 1 still resolves to its own index.
    let exprs = parse_exprs(&settings(), &t, "a").unwrap();
    assert!(matches!(&exprs[0], Expr::ColumnRef { index: 1, .. }));
}

#[test]
fn hilbert_unsupported_dimension_type_is_internal_error() {
    let t = table(vec![
        field("arr", DataType::Array(Box::new(int32()))),
        field("n", int32()),
    ]);
    let err = parse_hilbert_cluster_key(&settings(), &t, "(arr, n)").unwrap_err();
    assert_eq!(err.kind(), ErrorKind::Internal);
}

#[test]
fn cluster_keys_reject_bare_comma_separated_lists() {
    // The grammar hands clustering one expression or one tuple; a bare list
    // is an upstream invariant violation.
    let t = table(vec![field("a", int32()), field("b", int32())]);
    let err = parse_cluster_keys(&settings(), &t, "a, b").unwrap_err();
    assert_eq!(err.kind(), ErrorKind::Internal);
}

#[test]
fn default_value_null_for_nullable_column() {
    let mut f = field("c", DataType::Nullable(Box::new(int32())));
    f.default_expr = Some(String::from("NULL"));
    let v = field_default_value(&settings(), &f).unwrap();
    assert!(matches!(v, Scalar::Null));
}

#[test]
fn default_value_string_literal() {
    let mut f = field("c", DataType::String);
    f.default_expr = Some(String::from("'abc'"));
    let v = field_default_value(&settings(), &f).unwrap();
    match v {
        Scalar::String(s) => assert_eq!(s, "abc"),
        _ => panic!("expected a string value"),
    }
}

#[test]
fn default_value_boolean_comparison_folds() {
    let mut f = field("c", DataType::Boolean);
    f.default_expr = Some(String::from("'ab' = 'ab'"));
    let v = field_default_value(&settings(), &f).unwrap();
    assert!(matches!(v, Scalar::Boolean(true)));
}

#[test]
fn default_value_overflow_fails_evaluation() {
    let mut f = field("c", int64());
    f.default_expr = Some(String::from("9223372036854775807 + 1"));
    let err = field_default_value(&settings(), &f).unwrap_err();
    assert_eq!(err.kind(), ErrorKind::Evaluation);
}

#[test]
fn default_value_narrowing_out_of_range_fails() {
    // 300 does not fit the declared UInt8 column.
    let mut f = field("c", DataType::Number(NumberDataType::UInt8));
    f.default_expr = Some(String::from("300"));
    let err = field_default_value(&settings(), &f).unwrap_err();
    assert_eq!(err.kind(), ErrorKind::Evaluation);
}

#[test]
fn lookup_errors_name_the_identifier() {
    let t = table(vec![field("a", int32())]);
    let err = parse_exprs(&settings(), &t, "missing_col").unwrap_err();
    assert!(err.message().contains("missing_col"));
    let t2 = table(vec![field("a", int32()), field("a", int64())]);
    let err = parse_exprs(&settings(), &t2, "a").unwrap_err();
    assert!(err.message().contains("ambiguous"));
}

#[test]
fn computed_column_errors_render_the_expression() {
    // `a + 1` promotes to Int64, so an Int32 declared type mismatches.
    let schema = TableSchema { fields: vec![field("a", int32())] };
    let f = field("c", int32());
    let ast = parse_one_ast("a + 1");
    let err = parse_computed_expr_to_string(&settings(), &schema, &f, &ast).unwrap_err();
    let msg = err.message();
    assert!(msg.contains("(a + 1)"));
    assert!(msg.contains("Int32"));
    assert!(msg.contains("Int64"));
}

#[test]
fn cluster_errors_render_the_expression() {
    let t = table(vec![field("a", int32())]);
    let err = analyze_cluster_keys(&settings(), &t, "rand()").unwrap_err();
    assert!(err.message().contains("rand()"));
}

#[test]
fn count_mismatch_errors_state_the_count() {
    let t = table(vec![field("a", int32()), field("b", int32())]);
    let err = parse_to_filters(&settings(), &t, "a > 1, b > 2").unwrap_err();
    assert!(err.message().contains("got 2"));
    let schema = TableSchema { fields: vec![field("a", int32())] };
    let err = parse_computed_expr(&settings(), &schema, "a, a").unwrap_err();
    assert!(err.message().contains("got 2"));
    let mut f = field("c", int32());
    f.default_expr = Some(String::from("1, 2, 3"));
    let err = field_default_value(&settings(), &f).unwrap_err();
    assert!(err.message().contains("c"));
    assert!(err.message().contains("got 3"));
}

#[test]
fn hilbert_dimensionality_is_checked_before_resolution() {
    // Six dimensions, one of them unresolvable: the dimensionality error
    // wins, as it does when the count is checked first.
    let t = table(vec![
        field("a", int32()),
        field("b", int32()),
        field("c", int32()),
        field("d", int32()),
        field("e", int32()),
    ]);
    let err =
        parse_hilbert_cluster_key(&settings(), &t, "(a, b, c, d, e, no_such_col)").unwrap_err();
    assert_eq!(err.kind(), ErrorKind::InvalidClusterKeys);
}

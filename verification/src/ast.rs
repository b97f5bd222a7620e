//! The abstract syntax of parsed SQL expressions, their canonical rendered
//! text, and identifier normalization.

use vstd::prelude::*;
use crate::schema::NameResolutionContext;
use crate::text::{dec_digits, lower_seq, to_lowercase_string};

verus! {

#[derive(Clone, Copy, PartialEq, Eq, Structural, Debug)]
pub enum BinaryOperator {
    Plus,
    Minus,
    Multiply,
    Divide,
    Modulo,
    Eq,
    NotEq,
    Lt,
    Lte,
    Gt,
    Gte,
    And,
    Or,
}

#[derive(Clone, Copy, PartialEq, Eq, Structural, Debug)]
pub enum UnaryOperator {
    Minus,
    Not,
}

/// A parsed literal.
#[derive(Debug)]
pub enum Literal {
    Integer(u64),
    StringLit(String),
    Boolean(bool),
    Null,
}

/// A parsed SQL expression.
#[derive(Debug)]
pub enum AExpr {
    ColumnRef { name: String, quoted: bool },
    Lit { lit: Literal },
    BinaryOp { op: BinaryOperator, left: Box<AExpr>, right: Box<AExpr> },
    UnaryOp { op: UnaryOperator, expr: Box<AExpr> },
    FunctionCall { name: String, args: Vec<AExpr> },
    Tuple { exprs: Vec<AExpr> },
}

impl AExpr {
    /// Whether the tree mentions any identifier (column reference).
    pub open spec fn has_ident(self) -> bool
        decreases self,
    {
        match self {
            AExpr::ColumnRef { .. } => true,
            AExpr::Lit { .. } => false,
            AExpr::BinaryOp { left, right, .. } => left.has_ident() || right.has_ident(),
            AExpr::UnaryOp { expr, .. } => expr.has_ident(),
            AExpr::FunctionCall { args, .. } => exists|i: int|
                0 <= i < args@.len() && (#[trigger] args@[i]).has_ident(),
            AExpr::Tuple { exprs } => exists|i: int|
                0 <= i < exprs@.len() && (#[trigger] exprs@[i]).has_ident(),
        }
    }
}

pub open spec fn op_text(op: BinaryOperator) -> Seq<char> {
    match op {
        BinaryOperator::Plus => "+"@,
        BinaryOperator::Minus => "-"@,
        BinaryOperator::Multiply => "*"@,
        BinaryOperator::Divide => "/"@,
        BinaryOperator::Modulo => "%"@,
        BinaryOperator::Eq => "="@,
        BinaryOperator::NotEq => "<>"@,
        BinaryOperator::Lt => "<"@,
        BinaryOperator::Lte => "<="@,
        BinaryOperator::Gt => ">"@,
        BinaryOperator::Gte => ">="@,
        BinaryOperator::And => "AND"@,
        BinaryOperator::Or => "OR"@,
    }
}

fn op_str(op: BinaryOperator) -> (r: &'static str)
    ensures
        r@ == op_text(op),
{
    match op {
        BinaryOperator::Plus => "+",
        BinaryOperator::Minus => "-",
        BinaryOperator::Multiply => "*",
        BinaryOperator::Divide => "/",
        BinaryOperator::Modulo => "%",
        BinaryOperator::Eq => "=",
        BinaryOperator::NotEq => "<>",
        BinaryOperator::Lt => "<",
        BinaryOperator::Lte => "<=",
        BinaryOperator::Gt => ">",
        BinaryOperator::Gte => ">=",
        BinaryOperator::And => "AND",
        BinaryOperator::Or => "OR",
    }
}

pub open spec fn unary_op_text(op: UnaryOperator) -> Seq<char> {
    match op {
        UnaryOperator::Minus => "-"@,
        UnaryOperator::Not => "NOT"@,
    }
}

fn unary_op_str(op: UnaryOperator) -> (r: &'static str)
    ensures
        r@ == unary_op_text(op),
{
    match op {
        UnaryOperator::Minus => "-",
        UnaryOperator::Not => "NOT",
    }
}

/// The canonical rendered text of an expression: fully parenthesized
/// operator applications, quoted strings, upper-case keywords.
pub open spec fn render_ast(a: AExpr) -> Seq<char>
    decreases a, 0int,
{
    match a {
        AExpr::ColumnRef { name, quoted } => if quoted {
            "\""@ + name@ + "\""@
        } else {
            name@
        },
        AExpr::Lit { lit } => match lit {
            Literal::Integer(v) => dec_digits(v as nat),
            Literal::StringLit(s) => "'"@ + s@ + "'"@,
            Literal::Boolean(b) => if b {
                "TRUE"@
            } else {
                "FALSE"@
            },
            Literal::Null => "NULL"@,
        },
        AExpr::BinaryOp { op, left, right } => "("@ + render_ast(*left) + " "@ + op_text(op)
            + " "@ + render_ast(*right) + ")"@,
        AExpr::UnaryOp { op, expr } => "("@ + unary_op_text(op) + " "@ + render_ast(*expr)
            + ")"@,
        AExpr::FunctionCall { name, args } => name@ + "("@ + render_ast_list(args@, 0) + ")"@,
        AExpr::Tuple { exprs } => "("@ + render_ast_list(exprs@, 0) + ")"@,
    }
}

/// The rendered comma-separated argument list, from position `i` on.
pub open spec fn render_ast_list(args: Seq<AExpr>, i: int) -> Seq<char>
    decreases args, args.len() - i,
{
    if i < 0 || i >= args.len() {
        Seq::empty()
    } else if i == args.len() - 1 {
        render_ast(args[i])
    } else {
        render_ast(args[i]) + ", "@ + render_ast_list(args, i + 1)
    }
}

/// Renders into an accumulator.
#[verifier::loop_isolation(false)]
pub fn render_ast_into(a: &AExpr, acc: &mut String)
    ensures
        final(acc)@ == old(acc)@ + render_ast(*a),
    decreases *a,
{
    match a {
        AExpr::ColumnRef { name, quoted } => {
            if *quoted {
                acc.append("\"");
                acc.append(name.as_str());
                acc.append("\"");
            } else {
                acc.append(name.as_str());
            }
        },
        AExpr::Lit { lit } => {
            match lit {
                Literal::Integer(v) => {
                    let d = crate::text::render_u64(*v);
                    acc.append(d.as_str());
                },
                Literal::StringLit(s) => {
                    acc.append("'");
                    acc.append(s.as_str());
                    acc.append("'");
                },
                Literal::Boolean(b) => {
                    if *b {
                        acc.append("TRUE");
                    } else {
                        acc.append("FALSE");
                    }
                },
                Literal::Null => {
                    acc.append("NULL");
                },
            }
        },
        AExpr::BinaryOp { op, left, right } => {
            acc.append("(");
            render_ast_into(left, acc);
            acc.append(" ");
            acc.append(op_str(*op));
            acc.append(" ");
            render_ast_into(right, acc);
            acc.append(")");
        },
        AExpr::UnaryOp { op, expr } => {
            acc.append("(");
            acc.append(unary_op_str(*op));
            acc.append(" ");
            render_ast_into(expr, acc);
            acc.append(")");
        },
        AExpr::FunctionCall { name, args } => {
            acc.append(name.as_str());
            acc.append("(");
            render_list_into(a, args, acc);
            acc.append(")");
        },
        AExpr::Tuple { exprs } => {
            acc.append("(");
            render_list_into(a, exprs, acc);
            acc.append(")");
        },
    }
}

/// Renders a comma-separated list; `parent` only carries the termination
/// measure.
#[verifier::loop_isolation(false)]
fn render_list_into(parent: &AExpr, args: &Vec<AExpr>, acc: &mut String)
    requires
        decreases_to!(*parent => *args),
    ensures
        final(acc)@ == old(acc)@ + render_ast_list(args@, 0),
    decreases *parent, 1int,
{
    let n = args.len();
    let mut i: usize = 0;
    while i < n
        invariant
            i <= n,
            n == args@.len(),
            acc@ == old(acc)@ + render_ast_list_prefix(args@, i as int),
        decreases n - i,
    {
        proof {
            assert(decreases_to!(*args => args@));
            assert(decreases_to!(args@ => args@[i as int]));
        }
        if i > 0 {
            acc.append(", ");
        }
        render_ast_into(&args[i], acc);
        i = i + 1;
        proof {
            lemma_render_prefix(args@, i as int);
        }
    }
    proof {
        if n == 0 {
            assert(render_ast_list(args@, 0) == Seq::<char>::empty());
        }
        assert(acc@ == old(acc)@ + render_ast_list_prefix(args@, n as int));
        lemma_render_prefix_full(args@);
    }
}

/// The rendered text of the first `i` list elements, with its separators.
pub open spec fn render_ast_list_prefix(args: Seq<AExpr>, i: int) -> Seq<char>
    decreases i,
{
    if i <= 0 || i > args.len() {
        Seq::empty()
    } else if i == 1 {
        render_ast(args[0])
    } else {
        render_ast_list_prefix(args, i - 1) + ", "@ + render_ast(args[i - 1])
    }
}

proof fn lemma_render_prefix(args: Seq<AExpr>, i: int)
    requires
        1 <= i <= args.len(),
    ensures
        render_ast_list_prefix(args, i) == if i == 1 {
            render_ast(args[0])
        } else {
            render_ast_list_prefix(args, i - 1) + ", "@ + render_ast(args[i - 1])
        },
{
}

/// A prefix reads only the elements before its bound: pushing one more
/// element extends the rendered prefix by a separator and that element.
pub proof fn lemma_render_prefix_push(args: Seq<AExpr>, x: AExpr, i: int)
    requires
        0 <= i <= args.len(),
    ensures
        render_ast_list_prefix(args.push(x), i) == render_ast_list_prefix(args, i),
    decreases i,
{
    if i > 0 {
        lemma_render_prefix_push(args, x, i - 1);
        assert(args.push(x)[i - 1] == args[i - 1]);
    }
}

/// The full prefix equals the suffix-style rendering from the start.
pub proof fn lemma_render_prefix_full(args: Seq<AExpr>)
    ensures
        render_ast_list_prefix(args, args.len() as int) == render_ast_list(args, 0),
{
    lemma_render_split(args, args.len() as int);
}

/// Prefix + suffix views agree: rendering the first `i` elements and then
/// from `i` on equals rendering from the start.
proof fn lemma_render_split(args: Seq<AExpr>, i: int)
    requires
        0 <= i <= args.len(),
    ensures
        render_ast_list(args, 0) == if i == 0 {
            render_ast_list(args, 0)
        } else if i == args.len() {
            render_ast_list_prefix(args, i)
        } else {
            render_ast_list_prefix(args, i) + ", "@ + render_ast_list(args, i)
        },
    decreases i,
{
    if i > 0 {
        lemma_render_split(args, i - 1);
        if i < args.len() {
            assert(render_ast_list(args, i - 1) == render_ast(args[i - 1]) + ", "@
                + render_ast_list(args, i));
            assert((render_ast_list_prefix(args, i - 1) + ", "@ + (render_ast(args[i - 1]) + ", "@
                + render_ast_list(args, i))) =~= ((render_ast_list_prefix(args, i - 1) + ", "@
                + render_ast(args[i - 1])) + ", "@ + render_ast_list(args, i)));
        } else {
            if i == 1 {
                assert(render_ast_list(args, 0) == render_ast(args[0]));
            } else {
                assert(render_ast_list(args, i - 1) == render_ast(args[i - 1]));
            }
        }
    }
}

/// Renders the expression as canonical SQL text.
pub fn render_ast_string(a: &AExpr) -> (r: String)
    ensures
        r@ == render_ast(*a),
{
    let mut acc = String::new();
    render_ast_into(a, &mut acc);
    acc
}

/// `b` is `a` with every identifier folded as the policy asks: unquoted
/// identifiers and function names lower-cased under a case-insensitive
/// policy, everything else untouched.
pub open spec fn normalized_ast(b: AExpr, a: AExpr, ctx: NameResolutionContext) -> bool
    decreases a,
{
    match a {
        AExpr::ColumnRef { name, quoted } => {
            &&& b matches AExpr::ColumnRef { name: n2, quoted: q2 }
            &&& q2 == quoted
            &&& n2@ == if (if quoted {
                ctx.quoted_ident_case_sensitive
            } else {
                ctx.unquoted_ident_case_sensitive
            }) {
                name@
            } else {
                lower_seq(name@)
            }
        },
        AExpr::Lit { lit } => {
            &&& b matches AExpr::Lit { lit: l2 }
            &&& lit_eqv(l2, lit)
        },
        AExpr::BinaryOp { op, left, right } => {
            &&& b matches AExpr::BinaryOp { op: o2, left: l2, right: r2 }
            &&& o2 == op
            &&& normalized_ast(*l2, *left, ctx)
            &&& normalized_ast(*r2, *right, ctx)
        },
        AExpr::UnaryOp { op, expr } => {
            &&& b matches AExpr::UnaryOp { op: o2, expr: e2 }
            &&& o2 == op
            &&& normalized_ast(*e2, *expr, ctx)
        },
        AExpr::FunctionCall { name, args } => {
            &&& b matches AExpr::FunctionCall { name: n2, args: a2 }
            &&& n2@ == if ctx.unquoted_ident_case_sensitive {
                name@
            } else {
                lower_seq(name@)
            }
            &&& a2@.len() == args@.len()
            &&& forall|i: int| 0 <= i < args@.len() ==> normalized_ast(#[trigger] a2@[i], args@[i], ctx)
        },
        AExpr::Tuple { exprs } => {
            &&& b matches AExpr::Tuple { exprs: e2 }
            &&& e2@.len() == exprs@.len()
            &&& forall|i: int| 0 <= i < exprs@.len() ==> normalized_ast(#[trigger] e2@[i], exprs@[i], ctx)
        },
    }
}

pub open spec fn lit_eqv(b: Literal, a: Literal) -> bool {
    match (b, a) {
        (Literal::StringLit(x), Literal::StringLit(y)) => x@ == y@,
        _ => b == a,
    }
}

/// Rewrites the tree, folding identifiers as the policy asks. This is the
/// explicit recursive form of the identifier-normalizing visitor.
#[verifier::loop_isolation(false)]
pub fn normalize_identifiers(a: &AExpr, ctx: &NameResolutionContext) -> (r: AExpr)
    ensures
        normalized_ast(r, *a, *ctx),
    decreases *a,
{
    match a {
        AExpr::ColumnRef { name, quoted } => {
            let cs = if *quoted {
                ctx.quoted_ident_case_sensitive
            } else {
                ctx.unquoted_ident_case_sensitive
            };
            let n2 = if cs {
                name.clone()
            } else {
                to_lowercase_string(name.as_str())
            };
            AExpr::ColumnRef { name: n2, quoted: *quoted }
        },
        AExpr::Lit { lit } => AExpr::Lit {
            lit: match lit {
                Literal::Integer(v) => Literal::Integer(*v),
                Literal::StringLit(s) => Literal::StringLit(s.clone()),
                Literal::Boolean(b) => Literal::Boolean(*b),
                Literal::Null => Literal::Null,
            },
        },
        AExpr::BinaryOp { op, left, right } => AExpr::BinaryOp {
            op: *op,
            left: Box::new(normalize_identifiers(left, ctx)),
            right: Box::new(normalize_identifiers(right, ctx)),
        },
        AExpr::UnaryOp { op, expr } => AExpr::UnaryOp {
            op: *op,
            expr: Box::new(normalize_identifiers(expr, ctx)),
        },
        AExpr::FunctionCall { name, args } => {
            let n2 = if ctx.unquoted_ident_case_sensitive {
                name.clone()
            } else {
                to_lowercase_string(name.as_str())
            };
            let mut out: Vec<AExpr> = Vec::new();
            let mut i: usize = 0;
            while i < args.len()
                invariant
                    i <= args.len(),
                    out@.len() == i,
                    forall|j: int|
                        0 <= j < i ==> normalized_ast(#[trigger] out@[j], args@[j], *ctx),
                decreases args.len() - i,
            {
                proof {
                    assert(*args == a->FunctionCall_args);
                    assert(decreases_to!(*a => a->FunctionCall_args));
                    assert(decreases_to!(*args => args@));
                    assert(decreases_to!(args@ => args@[i as int]));
                }
                let x = normalize_identifiers(&args[i], ctx);
                out.push(x);
                i = i + 1;
            }
            AExpr::FunctionCall { name: n2, args: out }
        },
        AExpr::Tuple { exprs } => {
            let mut out: Vec<AExpr> = Vec::new();
            let mut i: usize = 0;
            while i < exprs.len()
                invariant
                    i <= exprs.len(),
                    out@.len() == i,
                    forall|j: int|
                        0 <= j < i ==> normalized_ast(#[trigger] out@[j], exprs@[j], *ctx),
                decreases exprs.len() - i,
            {
                proof {
                    assert(*exprs == a->Tuple_exprs);
                    assert(decreases_to!(*a => a->Tuple_exprs));
                    assert(decreases_to!(*exprs => exprs@));
                    assert(decreases_to!(exprs@ => exprs@[i as int]));
                }
                let x = normalize_identifiers(&exprs[i], ctx);
                out.push(x);
                i = i + 1;
            }
            AExpr::Tuple { exprs: out }
        },
    }
}

/// Normalization is a fixed point: a normalized tree normalizes to itself,
/// so rendering and re-normalizing the rendered text changes nothing.
pub proof fn lemma_normalize_fixed_point(b: AExpr, a: AExpr, ctx: NameResolutionContext)
    requires
        normalized_ast(b, a, ctx),
    ensures
        normalized_ast(b, b, ctx),
    decreases a,
{
    match a {
        AExpr::ColumnRef { name, quoted } => {
            let n2 = b->ColumnRef_name;
            if !(if quoted {
                ctx.quoted_ident_case_sensitive
            } else {
                ctx.unquoted_ident_case_sensitive
            }) {
                crate::text::lemma_lower_seq_idempotent(name@);
            }
        },
        AExpr::Lit { .. } => {},
        AExpr::BinaryOp { left, right, .. } => {
            lemma_normalize_fixed_point(*b->BinaryOp_left, *left, ctx);
            lemma_normalize_fixed_point(*b->BinaryOp_right, *right, ctx);
        },
        AExpr::UnaryOp { expr, .. } => {
            lemma_normalize_fixed_point(*b->UnaryOp_expr, *expr, ctx);
        },
        AExpr::FunctionCall { name, args } => {
            let a2 = b->FunctionCall_args;
            if !ctx.unquoted_ident_case_sensitive {
                crate::text::lemma_lower_seq_idempotent(name@);
            }
            assert forall|i: int| 0 <= i < a2@.len() implies normalized_ast(
                #[trigger] a2@[i],
                a2@[i],
                ctx,
            ) by {
                lemma_normalize_fixed_point(a2@[i], args@[i], ctx);
            }
        },
        AExpr::Tuple { exprs } => {
            let e2 = b->Tuple_exprs;
            assert forall|i: int| 0 <= i < e2@.len() implies normalized_ast(
                #[trigger] e2@[i],
                e2@[i],
                ctx,
            ) by {
                lemma_normalize_fixed_point(e2@[i], exprs@[i], ctx);
            }
        },
    }
}

} // verus!

//! Column-index-bound executable expressions: the output of lowering.

use vstd::prelude::*;
use crate::scalar::{scalar_eqv, Scalar};
use crate::schema::TableField;
use crate::types::DataType;

verus! {

/// A scalar built-in of the function registry.
#[derive(Clone, Copy, PartialEq, Eq, Structural, Debug)]
pub enum Func {
    Plus,
    Minus,
    Multiply,
    Divide,
    Modulo,
    EqCmp,
    NotEqCmp,
    LtCmp,
    LteCmp,
    GtCmp,
    GteCmp,
    AndFn,
    OrFn,
    NotFn,
    Substr,
    Upper,
    Lower,
    ToInt8,
    ToInt16,
    ToInt32,
    ToInt64,
    ToFloat64,
    IsNotNull,
    AssumeNotNull,
    IfFn,
    ArrayFn,
    HilbertKey,
    HilbertIndex,
    Rand,
    NowFn,
}

/// An aggregate of the function registry. Aggregates may be resolved, but
/// they are not evaluable row-independently and cannot be lowered.
#[derive(Clone, Copy, PartialEq, Eq, Structural, Debug)]
pub enum AggFunc {
    Sum,
    CountFn,
    MinFn,
    MaxFn,
}

/// Whether a registry entry is deterministic: a tree is foldable only if
/// every function node in it is.
pub open spec fn func_deterministic(f: Func) -> bool {
    !(f == Func::Rand || f == Func::NowFn)
}

pub fn func_is_deterministic(f: Func) -> (r: bool)
    ensures
        r == func_deterministic(f),
{
    match f {
        Func::Rand | Func::NowFn => false,
        _ => true,
    }
}

/// A lowered (executable) expression: every column reference carries its
/// physical position; every node carries its concrete result type.
#[derive(Debug)]
pub enum Expr {
    Constant { scalar: Scalar, data_type: DataType },
    ColumnRef { index: usize, name: String, data_type: DataType },
    FunctionCall { func: Func, args: Vec<Expr>, return_type: DataType },
    Cast { expr: Box<Expr>, dest_type: DataType },
}

impl Expr {
    /// The result type recorded at the root node.
    pub open spec fn spec_data_type(self) -> DataType {
        match self {
            Expr::Constant { data_type, .. } => data_type,
            Expr::ColumnRef { data_type, .. } => data_type,
            Expr::FunctionCall { return_type, .. } => return_type,
            Expr::Cast { dest_type, .. } => dest_type,
        }
    }

    pub fn data_type(&self) -> (r: DataType)
        ensures
            r == self.spec_data_type(),
    {
        match self {
            Expr::Constant { data_type, .. } => data_type.clone(),
            Expr::ColumnRef { data_type, .. } => data_type.clone(),
            Expr::FunctionCall { return_type, .. } => return_type.clone(),
            Expr::Cast { dest_type, .. } => dest_type.clone(),
        }
    }

    /// Every function node in the tree is deterministic.
    pub open spec fn deterministic(self) -> bool
        decreases self,
    {
        match self {
            Expr::Constant { .. } => true,
            Expr::ColumnRef { .. } => true,
            Expr::FunctionCall { func, args, .. } => func_deterministic(func) && forall|i: int|
                0 <= i < args@.len() ==> (#[trigger] args@[i]).deterministic(),
            Expr::Cast { expr, .. } => expr.deterministic(),
        }
    }

    /// All column positions the tree references.
    pub open spec fn cols(self) -> Set<int>
        decreases self,
    {
        match self {
            Expr::Constant { .. } => Set::empty(),
            Expr::ColumnRef { index, .. } => Set::empty().insert(index as int),
            Expr::FunctionCall { args, .. } => Set::new(
                |c: int|
                    exists|i: int|
                        0 <= i < args@.len() && (#[trigger] args@[i]).cols().contains(c),
            ),
            Expr::Cast { expr, .. } => expr.cols(),
        }
    }

    /// The tree is bound to the given schema: every referenced position is
    /// in range and carries that field's name and declared type.
    pub open spec fn bound_to(self, fields: Seq<TableField>) -> bool
        decreases self,
    {
        match self {
            Expr::Constant { .. } => true,
            Expr::ColumnRef { index, name, data_type } => {
                &&& index < fields.len()
                &&& name@ == fields[index as int].name@
                &&& data_type == fields[index as int].data_type
            },
            Expr::FunctionCall { args, .. } => forall|i: int|
                0 <= i < args@.len() ==> (#[trigger] args@[i]).bound_to(fields),
            Expr::Cast { expr, .. } => expr.bound_to(fields),
        }
    }

    #[verifier::loop_isolation(false)]
    pub fn is_deterministic(&self) -> (r: bool)
        ensures
            r == self.deterministic(),
        decreases *self,
    {
        match self {
            Expr::Constant { .. } => true,
            Expr::ColumnRef { .. } => true,
            Expr::FunctionCall { func, args, .. } => {
                if !func_is_deterministic(*func) {
                    return false;
                }
                let mut i: usize = 0;
                while i < args.len()
                    invariant
                        i <= args.len(),
                        forall|j: int| 0 <= j < i ==> (#[trigger] args@[j]).deterministic(),
                    decreases args.len() - i,
                {
                    proof {
                        assert(*args == self->FunctionCall_args);
                        assert(decreases_to!(*self => self->FunctionCall_args));
                        assert(decreases_to!(*args => args@));
                        assert(decreases_to!(args@ => args@[i as int]));
                    }
                    if !args[i].is_deterministic() {
                        return false;
                    }
                    i = i + 1;
                }
                true
            },
            Expr::Cast { expr, .. } => expr.is_deterministic(),
        }
    }

    #[verifier::loop_isolation(false)]
    pub fn clone(&self) -> (r: Expr)
        ensures
            expr_eqv(r, *self),
        decreases *self,
    {
        match self {
            Expr::Constant { scalar, data_type } => Expr::Constant {
                scalar: scalar.clone(),
                data_type: data_type.clone(),
            },
            Expr::ColumnRef { index, name, data_type } => Expr::ColumnRef {
                index: *index,
                name: name.clone(),
                data_type: data_type.clone(),
            },
            Expr::FunctionCall { func, args, return_type } => {
                let mut out: Vec<Expr> = Vec::new();
                let mut i: usize = 0;
                while i < args.len()
                    invariant
                        i <= args.len(),
                        out@.len() == i,
                        forall|j: int| 0 <= j < i ==> expr_eqv(#[trigger] out@[j], args@[j]),
                    decreases args.len() - i,
                {
                    proof {
                        assert(*args == self->FunctionCall_args);
                        assert(decreases_to!(*self => self->FunctionCall_args));
                        assert(decreases_to!(*args => args@));
                        assert(decreases_to!(args@ => args@[i as int]));
                    }
                    let c = args[i].clone();
                    out.push(c);
                    i = i + 1;
                }
                Expr::FunctionCall { func: *func, args: out, return_type: return_type.clone() }
            },
            Expr::Cast { expr, dest_type } => Expr::Cast {
                expr: Box::new((**expr).clone()),
                dest_type: dest_type.clone(),
            },
        }
    }
}

/// Structural equivalence of expressions: strings and argument vectors are
/// compared by contents, everything else by value.
pub open spec fn expr_eqv(a: Expr, b: Expr) -> bool
    decreases a,
{
    match (a, b) {
        (
            Expr::Constant { scalar: sa, data_type: ta },
            Expr::Constant { scalar: sb, data_type: tb },
        ) => scalar_eqv(sa, sb) && ta == tb,
        (
            Expr::ColumnRef { index: ia, name: na, data_type: ta },
            Expr::ColumnRef { index: ib, name: nb, data_type: tb },
        ) => ia == ib && na@ == nb@ && ta == tb,
        (
            Expr::FunctionCall { func: fa, args: aa, return_type: ra },
            Expr::FunctionCall { func: fb, args: ab, return_type: rb },
        ) => {
            &&& fa == fb
            &&& ra == rb
            &&& aa@.len() == ab@.len()
            &&& forall|i: int| 0 <= i < aa@.len() ==> expr_eqv(#[trigger] aa@[i], ab@[i])
        },
        (
            Expr::Cast { expr: ea, dest_type: ta },
            Expr::Cast { expr: eb, dest_type: tb },
        ) => expr_eqv(*ea, *eb) && ta == tb,
        _ => false,
    }
}

/// Equivalent expressions record the same result type.
pub proof fn lemma_expr_eqv_data_type(a: Expr, b: Expr)
    requires
        expr_eqv(a, b),
    ensures
        a.spec_data_type() == b.spec_data_type(),
{
}

pub proof fn lemma_expr_eqv_refl(a: Expr)
    ensures
        expr_eqv(a, a),
    decreases a,
{
    match a {
        Expr::Constant { scalar, .. } => {
            crate::scalar::lemma_scalar_eqv_refl(scalar);
        },
        Expr::FunctionCall { args, .. } => {
            assert forall|i: int| 0 <= i < args@.len() implies expr_eqv(
                #[trigger] args@[i],
                args@[i],
            ) by {
                lemma_expr_eqv_refl(args@[i]);
            }
        },
        Expr::Cast { expr, .. } => {
            lemma_expr_eqv_refl(*expr);
        },
        _ => {},
    }
}

} // verus!

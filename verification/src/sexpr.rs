//! Typed scalar expressions: the output of type checking, still carrying
//! full column bindings, before lowering to physical positions.

use vstd::prelude::*;
use crate::binding::ColumnBinding;
use crate::errors::{ErrorCode, ErrorKind};
use crate::expr::{AggFunc, Expr, Func};
use crate::scalar::{scalar_eqv, Scalar};
use crate::schema::TableField;
use crate::types::DataType;

verus! {

/// A type-checked scalar expression. Every node carries a fully resolved,
/// concrete type; every column reference carries one binding of the scope
/// it was resolved in.
#[derive(Debug)]
pub enum ScalarExpr {
    BoundColumnRef { column: ColumnBinding },
    Constant { scalar: Scalar, data_type: DataType },
    FunctionCall { func: Func, args: Vec<ScalarExpr>, return_type: DataType },
    Cast { expr: Box<ScalarExpr>, dest_type: DataType },
    Aggregate { agg: AggFunc, args: Vec<ScalarExpr>, return_type: DataType },
}

impl ScalarExpr {
    /// The result type recorded at the root node.
    pub open spec fn spec_data_type(self) -> DataType {
        match self {
            ScalarExpr::BoundColumnRef { column } => column.data_type,
            ScalarExpr::Constant { data_type, .. } => data_type,
            ScalarExpr::FunctionCall { return_type, .. } => return_type,
            ScalarExpr::Cast { dest_type, .. } => dest_type,
            ScalarExpr::Aggregate { return_type, .. } => return_type,
        }
    }

    pub fn data_type(&self) -> (r: DataType)
        ensures
            r == self.spec_data_type(),
    {
        match self {
            ScalarExpr::BoundColumnRef { column } => column.data_type.clone(),
            ScalarExpr::Constant { data_type, .. } => data_type.clone(),
            ScalarExpr::FunctionCall { return_type, .. } => return_type.clone(),
            ScalarExpr::Cast { dest_type, .. } => dest_type.clone(),
            ScalarExpr::Aggregate { return_type, .. } => return_type.clone(),
        }
    }

    /// Free of aggregate forms: computable row-independently.
    pub open spec fn evaluable(self) -> bool
        decreases self,
    {
        match self {
            ScalarExpr::BoundColumnRef { .. } => true,
            ScalarExpr::Constant { .. } => true,
            ScalarExpr::FunctionCall { args, .. } => forall|i: int|
                0 <= i < args@.len() ==> (#[trigger] args@[i]).evaluable(),
            ScalarExpr::Cast { expr, .. } => expr.evaluable(),
            ScalarExpr::Aggregate { .. } => false,
        }
    }

    #[verifier::loop_isolation(false)]
    pub fn is_evaluable(&self) -> (r: bool)
        ensures
            r == self.evaluable(),
        decreases *self,
    {
        match self {
            ScalarExpr::BoundColumnRef { .. } => true,
            ScalarExpr::Constant { .. } => true,
            ScalarExpr::FunctionCall { args, .. } => {
                let mut i: usize = 0;
                while i < args.len()
                    invariant
                        i <= args.len(),
                        forall|j: int| 0 <= j < i ==> (#[trigger] args@[j]).evaluable(),
                    decreases args.len() - i,
                {
                    proof {
                        assert(*args == self->FunctionCall_args);
                        assert(decreases_to!(*self => self->FunctionCall_args));
                        assert(decreases_to!(*args => args@));
                        assert(decreases_to!(args@ => args@[i as int]));
                    }
                    if !args[i].is_evaluable() {
                        return false;
                    }
                    i = i + 1;
                }
                true
            },
            ScalarExpr::Cast { expr, .. } => expr.is_evaluable(),
            ScalarExpr::Aggregate { .. } => false,
        }
    }

    /// All column positions referenced through bindings.
    pub open spec fn cols(self) -> Set<int>
        decreases self,
    {
        match self {
            ScalarExpr::BoundColumnRef { column } => Set::empty().insert(column.index as int),
            ScalarExpr::Constant { .. } => Set::empty(),
            ScalarExpr::FunctionCall { args, .. } => Set::new(
                |c: int|
                    exists|i: int|
                        0 <= i < args@.len() && (#[trigger] args@[i]).cols().contains(c),
            ),
            ScalarExpr::Cast { expr, .. } => expr.cols(),
            ScalarExpr::Aggregate { args, .. } => Set::new(
                |c: int|
                    exists|i: int|
                        0 <= i < args@.len() && (#[trigger] args@[i]).cols().contains(c),
            ),
        }
    }

    /// Every column reference is in range and mirrors the schema field at
    /// its position.
    pub open spec fn bound_to(self, fields: Seq<TableField>) -> bool
        decreases self,
    {
        match self {
            ScalarExpr::BoundColumnRef { column } => {
                &&& column.index < fields.len()
                &&& column.column_name@ == fields[column.index as int].name@
                &&& column.data_type == fields[column.index as int].data_type
            },
            ScalarExpr::Constant { .. } => true,
            ScalarExpr::FunctionCall { args, .. } => forall|i: int|
                0 <= i < args@.len() ==> (#[trigger] args@[i]).bound_to(fields),
            ScalarExpr::Cast { expr, .. } => expr.bound_to(fields),
            ScalarExpr::Aggregate { args, .. } => forall|i: int|
                0 <= i < args@.len() ==> (#[trigger] args@[i]).bound_to(fields),
        }
    }

    /// Collects the distinct referenced column positions, in first-use order.
    #[verifier::loop_isolation(false)]
    pub fn collect_columns(&self, acc: &mut Vec<usize>)
        ensures
            final(acc)@.no_duplicates() <== old(acc)@.no_duplicates(),
            forall|x: usize|
                #[trigger] final(acc)@.contains(x) ==> (old(acc)@.contains(x)
                    || self.cols().contains(x as int)),
            forall|x: usize| #[trigger] old(acc)@.contains(x) ==> final(acc)@.contains(x),
            forall|x: usize|
                #[trigger] self.cols().contains(x as int) ==> final(acc)@.contains(x),
        decreases *self,
    {
        match self {
            ScalarExpr::BoundColumnRef { column } => {
                let idx = column.index;
                let already = contains_usize(acc, idx);
                if already {
                    proof {
                        assert forall|x: usize|
                            self.cols().contains(x as int) implies acc@.contains(x) by {
                            assert(x as int == idx as int);
                            assert(x == idx);
                        }
                    }
                }
                if !already {
                    let ghost pre = acc@;
                    acc.push(idx);
                    proof {
                        assert forall|x: usize|
                            acc@.contains(x) <==> (pre.contains(x) || x == idx) by {
                            if acc@.contains(x) {
                                let k = choose|k: int| 0 <= k < acc@.len() && acc@[k] == x;
                                if k < pre.len() {
                                    assert(pre[k] == x);
                                }
                            }
                            if pre.contains(x) {
                                let k = choose|k: int| 0 <= k < pre.len() && pre[k] == x;
                                assert(acc@[k] == x);
                            }
                            if x == idx {
                                assert(acc@[pre.len() as int] == x);
                            }
                        }
                        assert forall|x: usize|
                            self.cols().contains(x as int) implies acc@.contains(x) by {
                            assert(x as int == idx as int);
                            assert(x == idx);
                        }
                        if old(acc)@.no_duplicates() {
                            assert forall|k: int, l: int|
                                0 <= k < acc@.len() && 0 <= l < acc@.len() && k != l implies acc@[k]
                                != acc@[l] by {
                                if k < pre.len() && l < pre.len() {
                                } else if l == pre.len() && k < pre.len() {
                                    assert(acc@[l] == idx);
                                    assert(acc@[k] == pre[k]);
                                    assert(pre.contains(pre[k]));
                                } else if k == pre.len() && l < pre.len() {
                                    assert(acc@[k] == idx);
                                    assert(acc@[l] == pre[l]);
                                    assert(pre.contains(pre[l]));
                                }
                            }
                            assert(acc@.no_duplicates());
                        }
                    }
                }
            },
            ScalarExpr::Constant { .. } => {
                proof {
                    assert(self.cols() =~= Set::<int>::empty());
                }
            },
            ScalarExpr::FunctionCall { args, .. } => {
                let mut i: usize = 0;
                while i < args.len()
                    invariant
                        i <= args.len(),
                        acc@.no_duplicates() <== old(acc)@.no_duplicates(),
                        forall|x: usize|
                            acc@.contains(x) <==> (old(acc)@.contains(x) || exists|j: int|
                                0 <= j < i && (#[trigger] args@[j]).cols().contains(x as int)),
                    decreases args.len() - i,
                {
                    proof {
                        assert(*args == self->FunctionCall_args);
                        assert(decreases_to!(*self => self->FunctionCall_args));
                        assert(decreases_to!(*args => args@));
                        assert(decreases_to!(args@ => args@[i as int]));
                    }
                    let ghost pre = acc@;
                    args[i].collect_columns(acc);
                    proof {
                        assert forall|x: usize|
                            acc@.contains(x) <==> (old(acc)@.contains(x) || exists|j: int|
                                0 <= j < i + 1 && (#[trigger] args@[j]).cols().contains(
                                    x as int,
                                )) by {
                            assert(acc@.contains(x) <==> (pre.contains(x)
                                || args@[i as int].cols().contains(x as int)));
                            assert(pre.contains(x) <==> (old(acc)@.contains(x) || exists|j: int|
                                0 <= j < i && (#[trigger] args@[j]).cols().contains(x as int)));
                            lemma_cols_exists_extend(args@, i as int, x as int);
                        }
                    }
                    i = i + 1;
                }
                proof {
                    assert forall|x: usize|
                        acc@.contains(x) <==> (old(acc)@.contains(x) || self.cols().contains(
                            x as int,
                        )) by {
                        if self.cols().contains(x as int) {
                            assert(exists|j: int|
                                0 <= j < args@.len() && (#[trigger] args@[j]).cols().contains(
                                    x as int,
                                ));
                        }
                    }
                }
            },
            ScalarExpr::Cast { expr, .. } => {
                expr.collect_columns(acc);
                proof {
                    assert forall|x: usize|
                        self.cols().contains(x as int) implies acc@.contains(x) by {
                        assert((*expr).cols().contains(x as int));
                    }
                }
            },
            ScalarExpr::Aggregate { args, .. } => {
                let mut i: usize = 0;
                while i < args.len()
                    invariant
                        i <= args.len(),
                        acc@.no_duplicates() <== old(acc)@.no_duplicates(),
                        forall|x: usize|
                            acc@.contains(x) <==> (old(acc)@.contains(x) || exists|j: int|
                                0 <= j < i && (#[trigger] args@[j]).cols().contains(x as int)),
                    decreases args.len() - i,
                {
                    proof {
                        assert(*args == self->Aggregate_args);
                        assert(decreases_to!(*self => self->Aggregate_args));
                        assert(decreases_to!(*args => args@));
                        assert(decreases_to!(args@ => args@[i as int]));
                    }
                    let ghost pre = acc@;
                    args[i].collect_columns(acc);
                    proof {
                        assert forall|x: usize|
                            acc@.contains(x) <==> (old(acc)@.contains(x) || exists|j: int|
                                0 <= j < i + 1 && (#[trigger] args@[j]).cols().contains(
                                    x as int,
                                )) by {
                            assert(acc@.contains(x) <==> (pre.contains(x)
                                || args@[i as int].cols().contains(x as int)));
                            assert(pre.contains(x) <==> (old(acc)@.contains(x) || exists|j: int|
                                0 <= j < i && (#[trigger] args@[j]).cols().contains(x as int)));
                            lemma_cols_exists_extend(args@, i as int, x as int);
                        }
                    }
                    i = i + 1;
                }
                proof {
                    assert forall|x: usize|
                        acc@.contains(x) <==> (old(acc)@.contains(x) || self.cols().contains(
                            x as int,
                        )) by {
                        if self.cols().contains(x as int) {
                            assert(exists|j: int|
                                0 <= j < args@.len() && (#[trigger] args@[j]).cols().contains(
                                    x as int,
                                ));
                        }
                    }
                }
            },
        }
    }

    /// The distinct referenced column positions.
    pub fn used_columns(&self) -> (r: Vec<usize>)
        ensures
            r@.no_duplicates(),
            forall|x: usize| r@.contains(x) <==> self.cols().contains(x as int),
    {
        let mut acc: Vec<usize> = Vec::new();
        self.collect_columns(&mut acc);
        acc
    }
}

proof fn lemma_cols_exists_extend(args: Seq<ScalarExpr>, i: int, x: int)
    requires
        0 <= i < args.len(),
    ensures
        (exists|j: int| 0 <= j < i + 1 && (#[trigger] args[j]).cols().contains(x)) <==> ((exists|
            j: int,
        | 0 <= j < i && (#[trigger] args[j]).cols().contains(x)) || args[i].cols().contains(x)),
{
    if exists|j: int| 0 <= j < i + 1 && (#[trigger] args[j]).cols().contains(x) {
        let j = choose|j: int| 0 <= j < i + 1 && (#[trigger] args[j]).cols().contains(x);
        if j < i {
            assert(exists|k: int| 0 <= k < i && (#[trigger] args[k]).cols().contains(x));
        }
    }
    if exists|j: int| 0 <= j < i && (#[trigger] args[j]).cols().contains(x) {
        let j = choose|j: int| 0 <= j < i && (#[trigger] args[j]).cols().contains(x);
        assert(0 <= j < i + 1 && args[j].cols().contains(x));
    }
    if args[i].cols().contains(x) {
        assert(0 <= i < i + 1 && args[i].cols().contains(x));
    }
}

pub fn contains_usize(v: &Vec<usize>, x: usize) -> (r: bool)
    ensures
        r == v@.contains(x),
{
    let mut i: usize = 0;
    while i < v.len()
        invariant
            i <= v.len(),
            forall|j: int| 0 <= j < i ==> v@[j] != x,
        decreases v.len() - i,
    {
        if v[i] == x {
            return true;
        }
        i = i + 1;
    }
    false
}

/// The lowered tree mirrors the typed tree node for node: same structure,
/// same types, column references carrying the binding's position and name.
pub open spec fn lowers_to(e: Expr, s: ScalarExpr) -> bool
    decreases s,
{
    match s {
        ScalarExpr::BoundColumnRef { column } => {
            &&& e matches Expr::ColumnRef { index, name, data_type }
            &&& index == column.index
            &&& name@ == column.column_name@
            &&& data_type == column.data_type
        },
        ScalarExpr::Constant { scalar, data_type } => {
            &&& e matches Expr::Constant { scalar: s2, data_type: t2 }
            &&& scalar_eqv(s2, scalar)
            &&& t2 == data_type
        },
        ScalarExpr::FunctionCall { func, args, return_type } => {
            &&& e matches Expr::FunctionCall { func: f2, args: a2, return_type: r2 }
            &&& f2 == func
            &&& r2 == return_type
            &&& a2@.len() == args@.len()
            &&& forall|i: int| 0 <= i < args@.len() ==> lowers_to(#[trigger] a2@[i], args@[i])
        },
        ScalarExpr::Cast { expr, dest_type } => {
            &&& e matches Expr::Cast { expr: e2, dest_type: t2 }
            &&& lowers_to(*e2, *expr)
            &&& t2 == dest_type
        },
        ScalarExpr::Aggregate { .. } => false,
    }
}

/// Lowering preserves schema-boundness.
pub proof fn lemma_lowers_to_bound(e: Expr, s: ScalarExpr, fields: Seq<TableField>)
    requires
        lowers_to(e, s),
        s.bound_to(fields),
    ensures
        e.bound_to(fields),
    decreases s,
{
    match s {
        ScalarExpr::FunctionCall { args, .. } => {
            let a2 = e->FunctionCall_args;
            assert forall|i: int| 0 <= i < a2@.len() implies (#[trigger] a2@[i]).bound_to(
                fields,
            ) by {
                lemma_lowers_to_bound(a2@[i], args@[i], fields);
            }
        },
        ScalarExpr::Cast { expr, .. } => {
            lemma_lowers_to_bound(*e->Cast_expr, *expr, fields);
        },
        _ => {},
    }
}

/// Lowering preserves the recorded result type.
pub proof fn lemma_lowers_to_type(e: Expr, s: ScalarExpr)
    requires
        lowers_to(e, s),
    ensures
        e.spec_data_type() == s.spec_data_type(),
{
}

impl ScalarExpr {
    /// Lowers the typed tree to a column-index-bound executable expression.
    /// Fails exactly on trees that contain an aggregate form.
    #[verifier::loop_isolation(false)]
    pub fn as_expr(&self) -> (r: Result<Expr, ErrorCode>)
        ensures
            r matches Ok(e) ==> lowers_to(e, *self),
            r is Ok <==> self.evaluable(),
            r matches Err(e) ==> e.kind == crate::errors::ErrorKind::Semantic,
        decreases *self,
    {
        match self {
            ScalarExpr::BoundColumnRef { column } => Ok(
                Expr::ColumnRef {
                    index: column.index,
                    name: column.column_name.clone(),
                    data_type: column.data_type.clone(),
                },
            ),
            ScalarExpr::Constant { scalar, data_type } => Ok(
                Expr::Constant { scalar: scalar.clone(), data_type: data_type.clone() },
            ),
            ScalarExpr::FunctionCall { func, args, return_type } => {
                let mut out: Vec<Expr> = Vec::new();
                let mut i: usize = 0;
                while i < args.len()
                    invariant
                        i <= args.len(),
                        out@.len() == i,
                        forall|j: int| 0 <= j < i ==> lowers_to(#[trigger] out@[j], args@[j]),
                        forall|j: int| 0 <= j < i ==> (#[trigger] args@[j]).evaluable(),
                    decreases args.len() - i,
                {
                    proof {
                        assert(*args == self->FunctionCall_args);
                        assert(decreases_to!(*self => self->FunctionCall_args));
                        assert(decreases_to!(*args => args@));
                        assert(decreases_to!(args@ => args@[i as int]));
                    }
                    match args[i].as_expr() {
                        Ok(e) => {
                            out.push(e);
                        },
                        Err(err) => {
                            return Err(err);
                        },
                    }
                    i = i + 1;
                }
                Ok(Expr::FunctionCall { func: *func, args: out, return_type: return_type.clone() })
            },
            ScalarExpr::Cast { expr, dest_type } => {
                match expr.as_expr() {
                    Ok(e) => Ok(Expr::Cast { expr: Box::new(e), dest_type: dest_type.clone() }),
                    Err(err) => Err(err),
                }
            },
            ScalarExpr::Aggregate { .. } => Err(
                ErrorCode::new(
                    ErrorKind::Semantic,
                    String::from_str("aggregate functions cannot be lowered to an executable expression"),
                ),
            ),
        }
    }
}

/// Lowering preserves the referenced column set.
pub proof fn lemma_lowers_to_cols(e: Expr, s: ScalarExpr)
    requires
        lowers_to(e, s),
    ensures
        e.cols() =~= s.cols(),
    decreases s,
{
    match s {
        ScalarExpr::FunctionCall { args, .. } => {
            let a2 = e->FunctionCall_args;
            assert forall|i: int| 0 <= i < args@.len() implies (#[trigger] a2@[i]).cols()
                =~= args@[i].cols() by {
                lemma_lowers_to_cols(a2@[i], args@[i]);
            }
            assert forall|c: int| e.cols().contains(c) implies s.cols().contains(c) by {
                let i = choose|i: int|
                    0 <= i < a2@.len() && (#[trigger] a2@[i]).cols().contains(c);
                assert(args@[i].cols().contains(c));
            }
            assert forall|c: int| s.cols().contains(c) implies e.cols().contains(c) by {
                let i = choose|i: int|
                    0 <= i < args@.len() && (#[trigger] args@[i]).cols().contains(c);
                assert(a2@[i].cols().contains(c));
            }
        },
        ScalarExpr::Cast { expr, .. } => {
            lemma_lowers_to_cols(*e->Cast_expr, *expr);
        },
        _ => {},
    }
}

/// Referenced positions are physical indices: they fit a machine word.
pub proof fn lemma_scalar_cols_bounded(s: ScalarExpr)
    ensures
        forall|c: int| #[trigger] s.cols().contains(c) ==> 0 <= c <= usize::MAX,
    decreases s,
{
    match s {
        ScalarExpr::FunctionCall { args, .. } => {
            assert forall|c: int| #[trigger] s.cols().contains(c) implies 0 <= c <= usize::MAX by {
                let i = choose|i: int|
                    0 <= i < args@.len() && (#[trigger] args@[i]).cols().contains(c);
                lemma_scalar_cols_bounded(args@[i]);
            }
        },
        ScalarExpr::Aggregate { args, .. } => {
            assert forall|c: int| #[trigger] s.cols().contains(c) implies 0 <= c <= usize::MAX by {
                let i = choose|i: int|
                    0 <= i < args@.len() && (#[trigger] args@[i]).cols().contains(c);
                lemma_scalar_cols_bounded(args@[i]);
            }
        },
        ScalarExpr::Cast { expr, .. } => {
            lemma_scalar_cols_bounded(*expr);
            assert forall|c: int| #[trigger] s.cols().contains(c) implies 0 <= c
                <= usize::MAX by {
                assert((*expr).cols().contains(c));
            }
        },
        ScalarExpr::BoundColumnRef { column } => {
            assert forall|c: int| #[trigger] s.cols().contains(c) implies 0 <= c
                <= usize::MAX by {
                assert(c == column.index as int);
            }
        },
        ScalarExpr::Constant { .. } => {
            assert(s.cols() =~= Set::<int>::empty());
        },
    }
}

} // verus!

//! Constant values of the expression language.

use vstd::prelude::*;
use crate::types::{DataType, DecimalSize, NumberDataType};

verus! {

/// A numeric constant. Floating-point values are carried as their IEEE 754
/// bit patterns; the crate never computes with them, it only moves them.
#[derive(Clone, Copy, PartialEq, Eq, Structural, Debug)]
pub enum NumberScalar {
    UInt8(u8),
    UInt16(u16),
    UInt32(u32),
    UInt64(u64),
    Int8(i8),
    Int16(i16),
    Int32(i32),
    Int64(i64),
    Float32Bits(u32),
    Float64Bits(u64),
}

/// A constant value.
#[derive(Debug)]
pub enum Scalar {
    Null,
    Boolean(bool),
    Number(NumberScalar),
    Decimal(i128, DecimalSize),
    Timestamp(i64),
    Date(i32),
    String(String),
    Binary(Vec<u8>),
    Array(Vec<Scalar>),
}

/// Structural equivalence of scalars: strings, byte buffers and arrays are
/// compared by their contents.
pub open spec fn scalar_eqv(a: Scalar, b: Scalar) -> bool
    decreases a,
{
    match (a, b) {
        (Scalar::String(x), Scalar::String(y)) => x@ == y@,
        (Scalar::Binary(x), Scalar::Binary(y)) => x@ == y@,
        (Scalar::Array(x), Scalar::Array(y)) => {
            &&& x@.len() == y@.len()
            &&& forall|i: int| 0 <= i < x@.len() ==> scalar_eqv(#[trigger] x@[i], y@[i])
        },
        _ => a == b,
    }
}

pub proof fn lemma_scalar_eqv_refl(a: Scalar)
    ensures
        scalar_eqv(a, a),
    decreases a,
{
    match a {
        Scalar::Array(x) => {
            assert forall|i: int| 0 <= i < x@.len() implies scalar_eqv(#[trigger] x@[i], x@[i]) by {
                lemma_scalar_eqv_refl(x@[i]);
            }
        },
        _ => {},
    }
}

pub proof fn lemma_scalar_eqv_trans(a: Scalar, b: Scalar, c: Scalar)
    requires
        scalar_eqv(a, b),
        scalar_eqv(b, c),
    ensures
        scalar_eqv(a, c),
    decreases a,
{
    match (a, b, c) {
        (Scalar::Array(x), Scalar::Array(y), Scalar::Array(z)) => {
            assert forall|i: int| 0 <= i < x@.len() implies scalar_eqv(#[trigger] x@[i], z@[i]) by {
                lemma_scalar_eqv_trans(x@[i], y@[i], z@[i]);
            }
        },
        _ => {},
    }
}

impl Scalar {
    pub fn clone(&self) -> (r: Scalar)
        ensures
            scalar_eqv(r, *self),
        decreases *self,
    {
        match self {
            Scalar::Null => Scalar::Null,
            Scalar::Boolean(b) => Scalar::Boolean(*b),
            Scalar::Number(n) => Scalar::Number(*n),
            Scalar::Decimal(v, s) => Scalar::Decimal(*v, *s),
            Scalar::Timestamp(v) => Scalar::Timestamp(*v),
            Scalar::Date(v) => Scalar::Date(*v),
            Scalar::String(s) => Scalar::String(s.clone()),
            Scalar::Binary(b) => {
                let mut out: Vec<u8> = Vec::new();
                let mut i: usize = 0;
                while i < b.len()
                    invariant
                        i <= b.len(),
                        out@ =~= b@.subrange(0, i as int),
                    decreases b.len() - i,
                {
                    out.push(b[i]);
                    i = i + 1;
                    proof {
                        assert(out@ =~= b@.subrange(0, i as int));
                    }
                }
                proof {
                    assert(out@ =~= b@);
                }
                Scalar::Binary(out)
            },
            Scalar::Array(items) => {
                let mut out: Vec<Scalar> = Vec::new();
                let mut i: usize = 0;
                while i < items.len()
                    invariant
                        *self == Scalar::Array(*items),
                        i <= items.len(),
                        out@.len() == i,
                        forall|j: int| 0 <= j < i ==> scalar_eqv(#[trigger] out@[j], items@[j]),
                    decreases items.len() - i,
                {
                    proof {
                        assert(*items == self->Array_0);
                        assert(decreases_to!(*self => self->Array_0));
                        assert(decreases_to!(*items => items@));
                        assert(decreases_to!(items@ => items@[i as int]));
                    }
                    let c = items[i].clone();
                    out.push(c);
                    i = i + 1;
                }
                Scalar::Array(out)
            },
        }
    }
}

/// The canonical zero value of a type: what a column holds when no default
/// expression was declared for it.
pub open spec fn is_default_scalar(t: DataType, r: Scalar) -> bool {
    match t {
        DataType::Null => r == Scalar::Null,
        DataType::Boolean => r == Scalar::Boolean(false),
        DataType::String => r matches Scalar::String(s) && s@ == Seq::<char>::empty(),
        DataType::Binary => r matches Scalar::Binary(b) && b@ == Seq::<u8>::empty(),
        DataType::Number(n) => r == Scalar::Number(spec_default_number(n)),
        DataType::Decimal(s) => r == Scalar::Decimal(0, s),
        DataType::Timestamp => r == Scalar::Timestamp(0),
        DataType::Date => r == Scalar::Date(0),
        DataType::Nullable(_) => r == Scalar::Null,
        DataType::Array(_) => r matches Scalar::Array(a) && a@ == Seq::<Scalar>::empty(),
    }
}

pub open spec fn spec_default_number(n: NumberDataType) -> NumberScalar {
    match n {
        NumberDataType::UInt8 => NumberScalar::UInt8(0),
        NumberDataType::UInt16 => NumberScalar::UInt16(0),
        NumberDataType::UInt32 => NumberScalar::UInt32(0),
        NumberDataType::UInt64 => NumberScalar::UInt64(0),
        NumberDataType::Int8 => NumberScalar::Int8(0),
        NumberDataType::Int16 => NumberScalar::Int16(0),
        NumberDataType::Int32 => NumberScalar::Int32(0),
        NumberDataType::Int64 => NumberScalar::Int64(0),
        NumberDataType::Float32 => NumberScalar::Float32Bits(0),
        NumberDataType::Float64 => NumberScalar::Float64Bits(0),
    }
}

/// Executable form of [`is_default_scalar`].
pub fn default_scalar(t: &DataType) -> (r: Scalar)
    ensures
        is_default_scalar(*t, r),
{
    match t {
        DataType::Null => Scalar::Null,
        DataType::Boolean => Scalar::Boolean(false),
        DataType::String => Scalar::String(String::new()),
        DataType::Binary => {
            let v: Vec<u8> = Vec::new();
            Scalar::Binary(v)
        },
        DataType::Number(n) => Scalar::Number(default_number(*n)),
        DataType::Decimal(s) => Scalar::Decimal(0, *s),
        DataType::Timestamp => Scalar::Timestamp(0),
        DataType::Date => Scalar::Date(0),
        DataType::Nullable(_) => Scalar::Null,
        DataType::Array(_) => {
            let v: Vec<Scalar> = Vec::new();
            Scalar::Array(v)
        },
    }
}

pub fn default_number(n: NumberDataType) -> (r: NumberScalar)
    ensures
        r == spec_default_number(n),
{
    match n {
        NumberDataType::UInt8 => NumberScalar::UInt8(0),
        NumberDataType::UInt16 => NumberScalar::UInt16(0),
        NumberDataType::UInt32 => NumberScalar::UInt32(0),
        NumberDataType::UInt64 => NumberScalar::UInt64(0),
        NumberDataType::Int8 => NumberScalar::Int8(0),
        NumberDataType::Int16 => NumberScalar::Int16(0),
        NumberDataType::Int32 => NumberScalar::Int32(0),
        NumberDataType::Int64 => NumberScalar::Int64(0),
        NumberDataType::Float32 => NumberScalar::Float32Bits(0),
        NumberDataType::Float64 => NumberScalar::Float64Bits(0),
    }
}

} // verus!

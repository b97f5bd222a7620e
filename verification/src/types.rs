//! Data types of the expression language.

use vstd::prelude::*;

verus! {

/// Width classes of the numeric types.
#[derive(Clone, Copy, PartialEq, Eq, Structural, Debug)]
pub enum NumberDataType {
    UInt8,
    UInt16,
    UInt32,
    UInt64,
    Int8,
    Int16,
    Int32,
    Int64,
    Float32,
    Float64,
}

/// Precision and scale of a decimal type.
#[derive(Clone, Copy, PartialEq, Eq, Structural, Debug)]
pub struct DecimalSize {
    pub precision: u8,
    pub scale: u8,
}

/// The type of an expression, fully concrete after resolution.
#[derive(Debug)]
pub enum DataType {
    Null,
    Boolean,
    String,
    Binary,
    Number(NumberDataType),
    Decimal(DecimalSize),
    Timestamp,
    Date,
    Nullable(Box<DataType>),
    Array(Box<DataType>),
}

impl NumberDataType {
    /// Width of the numeric type in bytes.
    pub open spec fn spec_byte_size(self) -> usize {
        match self {
            NumberDataType::UInt8 | NumberDataType::Int8 => 1,
            NumberDataType::UInt16 | NumberDataType::Int16 => 2,
            NumberDataType::UInt32 | NumberDataType::Int32 | NumberDataType::Float32 => 4,
            NumberDataType::UInt64 | NumberDataType::Int64 | NumberDataType::Float64 => 8,
        }
    }

    pub fn byte_size(self) -> (r: usize)
        ensures
            r == self.spec_byte_size(),
    {
        match self {
            NumberDataType::UInt8 | NumberDataType::Int8 => 1,
            NumberDataType::UInt16 | NumberDataType::Int16 => 2,
            NumberDataType::UInt32 | NumberDataType::Int32 | NumberDataType::Float32 => 4,
            NumberDataType::UInt64 | NumberDataType::Int64 | NumberDataType::Float64 => 8,
        }
    }

    pub open spec fn spec_is_float(self) -> bool {
        self == NumberDataType::Float32 || self == NumberDataType::Float64
    }

    pub fn is_float(self) -> (r: bool)
        ensures
            r == self.spec_is_float(),
    {
        match self {
            NumberDataType::Float32 | NumberDataType::Float64 => true,
            _ => false,
        }
    }
}

impl DataType {
    /// Whether the type admits null values.
    pub open spec fn spec_is_nullable(self) -> bool {
        self is Nullable
    }

    pub fn is_nullable(&self) -> (r: bool)
        ensures
            r == self.spec_is_nullable(),
    {
        match self {
            DataType::Nullable(_) => true,
            _ => false,
        }
    }

    /// The type with an outer `Nullable` wrapper stripped.
    pub open spec fn spec_remove_nullable(self) -> DataType {
        match self {
            DataType::Nullable(inner) => *inner,
            _ => self,
        }
    }

    pub fn remove_nullable(&self) -> (r: DataType)
        ensures
            r == self.spec_remove_nullable(),
    {
        match self {
            DataType::Nullable(inner) => (**inner).clone(),
            _ => self.clone(),
        }
    }

    /// The type wrapped in `Nullable` unless it already admits nulls.
    pub open spec fn spec_wrap_nullable(self) -> DataType {
        if self is Nullable {
            self
        } else {
            DataType::Nullable(Box::new(self))
        }
    }

    pub fn wrap_nullable(&self) -> (r: DataType)
        ensures
            r == self.spec_wrap_nullable(),
    {
        match self {
            DataType::Nullable(_) => self.clone(),
            _ => DataType::Nullable(Box::new(self.clone())),
        }
    }

    /// Structure-preserving clone.
    pub fn clone(&self) -> (r: DataType)
        ensures
            r == *self,
        decreases *self,
    {
        match self {
            DataType::Null => DataType::Null,
            DataType::Boolean => DataType::Boolean,
            DataType::String => DataType::String,
            DataType::Binary => DataType::Binary,
            DataType::Number(n) => DataType::Number(*n),
            DataType::Decimal(s) => DataType::Decimal(*s),
            DataType::Timestamp => DataType::Timestamp,
            DataType::Date => DataType::Date,
            DataType::Nullable(inner) => DataType::Nullable(Box::new((**inner).clone())),
            DataType::Array(inner) => DataType::Array(Box::new((**inner).clone())),
        }
    }

    /// Structural equality, decided executably.
    pub fn eq_type(&self, other: &DataType) -> (r: bool)
        ensures
            r == (*self == *other),
        decreases *self,
    {
        match (self, other) {
            (DataType::Null, DataType::Null) => true,
            (DataType::Boolean, DataType::Boolean) => true,
            (DataType::String, DataType::String) => true,
            (DataType::Binary, DataType::Binary) => true,
            (DataType::Number(a), DataType::Number(b)) => a == b,
            (DataType::Decimal(a), DataType::Decimal(b)) => a == b,
            (DataType::Timestamp, DataType::Timestamp) => true,
            (DataType::Date, DataType::Date) => true,
            (DataType::Nullable(a), DataType::Nullable(b)) => a.eq_type(b),
            (DataType::Array(a), DataType::Array(b)) => a.eq_type(b),
            _ => false,
        }
    }
}

} // verus!

//! Runtime descriptions of scalar numeric types.
use vstd::prelude::*;

verus! {

/// Representation of scalar numeric type information as a runtime parameter.
#[derive(Debug, Clone, Copy, PartialEq, Eq, Structural)]
pub enum DType {
    /// Float 32
    F32,
    /// Float 64
    F64,
    /// Complex 32
    C32,
    /// Complex 64
    C64,
    /// Unsigned int 8
    U8,
    /// Unsigned int 32
    U32,
    /// Unsigned int 64
    U64,
    /// Int 8
    I8,
    /// Int 32
    I32,
    /// Int 64
    I64,
    /// Undefined type
    Undefined,
}

impl DType {
    /// The real scalar types: floats and integers.
    pub open spec fn spec_is_real(self) -> bool {
        self is F32 || self is F64 || self is U8 || self is U32 || self is U64 || self is I8
            || self is I32 || self is I64
    }

    /// The complex scalar types.
    pub open spec fn spec_is_complex(self) -> bool {
        self is C32 || self is C64
    }

    /// The real type underlying a complex type; every other type is its own real type.
    pub open spec fn spec_real_type(self) -> DType {
        match self {
            DType::C32 => DType::F32,
            DType::C64 => DType::F64,
            _ => self,
        }
    }

    /// The complex type over a float type; `Undefined` for every other type.
    pub open spec fn spec_complex_type(self) -> DType {
        match self {
            DType::F32 => DType::C32,
            DType::F64 => DType::C64,
            _ => DType::Undefined,
        }
    }

    /// Return true if the type is real.
    pub fn is_real(&self) -> (r: bool)
        ensures
            r == self.spec_is_real(),
    {
        match self {
            DType::F32 | DType::F64 | DType::U8 | DType::U32 | DType::U64 | DType::I8
            | DType::I32 | DType::I64 => true,
            _ => false,
        }
    }

    /// Return true if the type is complex.
    pub fn is_complex(&self) -> (r: bool)
        ensures
            r == self.spec_is_complex(),
    {
        matches!(self, DType::C32 | DType::C64)
    }

    /// Return the associated real type.
    pub fn real_type(&self) -> (r: DType)
        ensures
            r == self.spec_real_type(),
    {
        match self {
            DType::C32 => DType::F32,
            DType::C64 => DType::F64,
            _ => *self,
        }
    }

    /// Return the associated complex type.
    ///
    /// If there is no associated complex type `DType::Undefined` is returned.
    pub fn complex_type(&self) -> (r: DType)
        ensures
            r == self.spec_complex_type(),
    {
        match self {
            DType::F32 => DType::C32,
            DType::F64 => DType::C64,
            _ => DType::Undefined,
        }
    }
}

/// Runtime numeric type information.
pub trait DTypeIdentifier {
    /// The runtime description of the implementing type.
    spec fn spec_dtype() -> DType;

    /// Return runtime numeric type information.
    fn dtype() -> (r: DType)
        ensures
            r == Self::spec_dtype(),
    ;
}

impl DTypeIdentifier for u8 {
    open spec fn spec_dtype() -> DType {
        DType::U8
    }

    fn dtype() -> (r: DType) {
        DType::U8
    }
}

impl DTypeIdentifier for u32 {
    open spec fn spec_dtype() -> DType {
        DType::U32
    }

    fn dtype() -> (r: DType) {
        DType::U32
    }
}

impl DTypeIdentifier for u64 {
    open spec fn spec_dtype() -> DType {
        DType::U64
    }

    fn dtype() -> (r: DType) {
        DType::U64
    }
}

impl DTypeIdentifier for i8 {
    open spec fn spec_dtype() -> DType {
        DType::I8
    }

    fn dtype() -> (r: DType) {
        DType::I8
    }
}

impl DTypeIdentifier for i32 {
    open spec fn spec_dtype() -> DType {
        DType::I32
    }

    fn dtype() -> (r: DType) {
        DType::I32
    }
}

impl DTypeIdentifier for i64 {
    open spec fn spec_dtype() -> DType {
        DType::I64
    }

    fn dtype() -> (r: DType) {
        DType::I64
    }
}

} // verus!

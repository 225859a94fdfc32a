use vstd::prelude::*;

verus! {

/// The primitive types of the language.
#[derive(Clone, Copy, Debug, PartialEq, Eq, Structural)]
pub enum PrimitiveType {
    Void,
    I1,
    I8,
    I16,
    I32,
    I64,
    U8,
    U16,
    U32,
    U64,
    F32,
    F64,
}

/// A type of the language; only primitive types exist.
#[derive(Clone, Copy, Debug, PartialEq, Eq, Structural)]
pub enum Type {
    Primitive(PrimitiveType),
}

impl PrimitiveType {
    /// Size in bytes (`i1` counts as one byte, `void` as none).
    pub open spec fn spec_size(self) -> nat {
        match self {
            PrimitiveType::Void => 0,
            PrimitiveType::I1 => 1,
            PrimitiveType::I8 => 1,
            PrimitiveType::I16 => 2,
            PrimitiveType::I32 => 4,
            PrimitiveType::I64 => 8,
            PrimitiveType::U8 => 1,
            PrimitiveType::U16 => 2,
            PrimitiveType::U32 => 4,
            PrimitiveType::U64 => 8,
            PrimitiveType::F32 => 4,
            PrimitiveType::F64 => 8,
        }
    }

    /// The canonical name of the type as it is written in the listing.
    pub open spec fn spec_name(self) -> Seq<char> {
        match self {
            PrimitiveType::Void => seq!['v', 'o', 'i', 'd'],
            PrimitiveType::I1 => seq!['i', '1'],
            PrimitiveType::I8 => seq!['i', '8'],
            PrimitiveType::I16 => seq!['i', '1', '6'],
            PrimitiveType::I32 => seq!['i', '3', '2'],
            PrimitiveType::I64 => seq!['i', '6', '4'],
            PrimitiveType::U8 => seq!['u', '8'],
            PrimitiveType::U16 => seq!['u', '1', '6'],
            PrimitiveType::U32 => seq!['u', '3', '2'],
            PrimitiveType::U64 => seq!['u', '6', '4'],
            PrimitiveType::F32 => seq!['f', '3', '2'],
            PrimitiveType::F64 => seq!['f', '6', '4'],
        }
    }

    pub fn name(&self) -> (r: &'static str)
        ensures
            r@ == self.spec_name(),
    {
        proof {
            reveal_strlit("void");
            reveal_strlit("i1");
            reveal_strlit("i8");
            reveal_strlit("i16");
            reveal_strlit("i32");
            reveal_strlit("i64");
            reveal_strlit("u8");
            reveal_strlit("u16");
            reveal_strlit("u32");
            reveal_strlit("u64");
            reveal_strlit("f32");
            reveal_strlit("f64");
        }
        match self {
            PrimitiveType::Void => "void",
            PrimitiveType::I1 => "i1",
            PrimitiveType::I8 => "i8",
            PrimitiveType::I16 => "i16",
            PrimitiveType::I32 => "i32",
            PrimitiveType::I64 => "i64",
            PrimitiveType::U8 => "u8",
            PrimitiveType::U16 => "u16",
            PrimitiveType::U32 => "u32",
            PrimitiveType::U64 => "u64",
            PrimitiveType::F32 => "f32",
            PrimitiveType::F64 => "f64",
        }
    }
}

impl Type {
    pub open spec fn spec_size(self) -> nat {
        match self {
            Type::Primitive(p) => p.spec_size(),
        }
    }

    pub open spec fn spec_name(self) -> Seq<char> {
        match self {
            Type::Primitive(p) => p.spec_name(),
        }
    }

    /// Size of a value of this type in bytes; also its alignment.
    pub fn size(&self) -> (r: usize)
        ensures
            r == self.spec_size(),
    {
        match self {
            Type::Primitive(PrimitiveType::Void) => 0,
            Type::Primitive(PrimitiveType::I1) => 1,
            Type::Primitive(PrimitiveType::I8) => 1,
            Type::Primitive(PrimitiveType::I16) => 2,
            Type::Primitive(PrimitiveType::I32) => 4,
            Type::Primitive(PrimitiveType::I64) => 8,
            Type::Primitive(PrimitiveType::U8) => 1,
            Type::Primitive(PrimitiveType::U16) => 2,
            Type::Primitive(PrimitiveType::U32) => 4,
            Type::Primitive(PrimitiveType::U64) => 8,
            Type::Primitive(PrimitiveType::F32) => 4,
            Type::Primitive(PrimitiveType::F64) => 8,
        }
    }

    /// The canonical name of the type, e.g. `i32`.
    pub fn name(&self) -> (r: &'static str)
        ensures
            r@ == self.spec_name(),
    {
        match self {
            Type::Primitive(p) => p.name(),
        }
    }
}

} // verus!

//! The fixed-width scalar types a record field can have.

use vstd::prelude::*;

verus! {

/// A scalar type of fixed width. A value of it travels as its bit pattern.
#[derive(Clone, Copy, Debug, PartialEq, Eq, Structural)]
pub enum ScalarType {
    U8,
    I8,
    U16,
    I16,
    U32,
    I32,
    U64,
    I64,
    F32,
    F64,
}

/// The scalar type that a type name denotes, if any.
pub open spec fn resolve_name(name: Seq<char>) -> Option<ScalarType> {
    if name == "u8"@ {
        Some(ScalarType::U8)
    } else if name == "i8"@ {
        Some(ScalarType::I8)
    } else if name == "u16"@ {
        Some(ScalarType::U16)
    } else if name == "i16"@ {
        Some(ScalarType::I16)
    } else if name == "u32"@ {
        Some(ScalarType::U32)
    } else if name == "i32"@ {
        Some(ScalarType::I32)
    } else if name == "u64"@ {
        Some(ScalarType::U64)
    } else if name == "i64"@ {
        Some(ScalarType::I64)
    } else if name == "f32"@ {
        Some(ScalarType::F32)
    } else if name == "f64"@ {
        Some(ScalarType::F64)
    } else {
        None
    }
}

/// Whether `name` spells the same text as `word`.
fn same_text(name: &str, word: &str) -> (same: bool)
    ensures
        same == (name@ == word@),
{
    let a = name.to_owned();
    let b = word.to_owned();
    a == b
}

impl ScalarType {
    /// The number of bytes a value of this type occupies.
    pub open spec fn spec_width(self) -> nat {
        match self {
            ScalarType::U8 | ScalarType::I8 => 1,
            ScalarType::U16 | ScalarType::I16 => 2,
            ScalarType::U32 | ScalarType::I32 | ScalarType::F32 => 4,
            ScalarType::U64 | ScalarType::I64 | ScalarType::F64 => 8,
        }
    }

    /// The number of bytes a value of this type occupies.
    pub fn width(&self) -> (w: usize)
        ensures
            w == self.spec_width(),
    {
        match self {
            ScalarType::U8 | ScalarType::I8 => 1,
            ScalarType::U16 | ScalarType::I16 => 2,
            ScalarType::U32 | ScalarType::I32 | ScalarType::F32 => 4,
            ScalarType::U64 | ScalarType::I64 | ScalarType::F64 => 8,
        }
    }

    /// Resolves a type name to the scalar type it denotes.
    pub fn resolve(name: &str) -> (ty: Option<ScalarType>)
        ensures
            ty == resolve_name(name@),
    {
        if same_text(name, "u8") {
            Some(ScalarType::U8)
        } else if same_text(name, "i8") {
            Some(ScalarType::I8)
        } else if same_text(name, "u16") {
            Some(ScalarType::U16)
        } else if same_text(name, "i16") {
            Some(ScalarType::I16)
        } else if same_text(name, "u32") {
            Some(ScalarType::U32)
        } else if same_text(name, "i32") {
            Some(ScalarType::I32)
        } else if same_text(name, "u64") {
            Some(ScalarType::U64)
        } else if same_text(name, "i64") {
            Some(ScalarType::I64)
        } else if same_text(name, "f32") {
            Some(ScalarType::F32)
        } else if same_text(name, "f64") {
            Some(ScalarType::F64)
        } else {
            None
        }
    }
    /// The name by which the type is written.
    pub fn name(&self) -> (name: &'static str)
        ensures
            resolve_name(name@) == Some(*self),
    {
        proof {
            reveal_strlit("u8");
            reveal_strlit("i8");
            reveal_strlit("u16");
            reveal_strlit("i16");
            reveal_strlit("u32");
            reveal_strlit("i32");
            reveal_strlit("u64");
            reveal_strlit("i64");
            reveal_strlit("f32");
            reveal_strlit("f64");
            assert("u8"@.len() == 2 && "u8"@[0] == 'u' && "u8"@[1] == '8');
            assert("i8"@.len() == 2 && "i8"@[0] == 'i' && "i8"@[1] == '8');
            assert("u16"@.len() == 3 && "u16"@[0] == 'u' && "u16"@[1] == '1' && "u16"@[2] == '6');
            assert("i16"@.len() == 3 && "i16"@[0] == 'i' && "i16"@[1] == '1' && "i16"@[2] == '6');
            assert("u32"@.len() == 3 && "u32"@[0] == 'u' && "u32"@[1] == '3' && "u32"@[2] == '2');
            assert("i32"@.len() == 3 && "i32"@[0] == 'i' && "i32"@[1] == '3' && "i32"@[2] == '2');
            assert("u64"@.len() == 3 && "u64"@[0] == 'u' && "u64"@[1] == '6' && "u64"@[2] == '4');
            assert("i64"@.len() == 3 && "i64"@[0] == 'i' && "i64"@[1] == '6' && "i64"@[2] == '4');
            assert("f32"@.len() == 3 && "f32"@[0] == 'f' && "f32"@[1] == '3' && "f32"@[2] == '2');
            assert("f64"@.len() == 3 && "f64"@[0] == 'f' && "f64"@[1] == '6' && "f64"@[2] == '4');
        }
        match self {
            ScalarType::U8 => "u8",
            ScalarType::I8 => "i8",
            ScalarType::U16 => "u16",
            ScalarType::I16 => "i16",
            ScalarType::U32 => "u32",
            ScalarType::I32 => "i32",
            ScalarType::U64 => "u64",
            ScalarType::I64 => "i64",
            ScalarType::F32 => "f32",
            ScalarType::F64 => "f64",
        }
    }
}

} // verus!

//! Type spellings for the C++ backend.

use vstd::prelude::*;

use crate::ast::{FieldType, FieldTypeV, PrimitiveTypes};

verus! {

/// The C++ spelling of a field type: fixed-width integer types for the
/// primitives, the declared name for struct/enum/unknown references.
pub open spec fn type_def_text(t: FieldTypeV) -> Seq<char> {
    match t {
        FieldTypeV::Primitive(p) => match p {
            PrimitiveTypes::U8 => "uint8_t"@,
            PrimitiveTypes::U16 => "uint16_t"@,
            PrimitiveTypes::U32 => "uint32_t"@,
            PrimitiveTypes::I8 => "int8_t"@,
            PrimitiveTypes::I16 => "int16_t"@,
            PrimitiveTypes::I32 => "int32_t"@,
            PrimitiveTypes::F32 => "float"@,
            PrimitiveTypes::Bool => "bool"@,
        },
        FieldTypeV::Struct(n) => n,
        FieldTypeV::Enum(n) => n,
        FieldTypeV::Unknown(n) => n,
    }
}

/// Generate the C++ spelling of a field type.
pub fn gen_type_def(t: &FieldType) -> (r: String)
    ensures
        r@ == type_def_text(t@),
{
    match t {
        FieldType::PRIMITIVE(p) => match p {
            PrimitiveTypes::U8 => "uint8_t".to_owned(),
            PrimitiveTypes::U16 => "uint16_t".to_owned(),
            PrimitiveTypes::U32 => "uint32_t".to_owned(),
            PrimitiveTypes::I8 => "int8_t".to_owned(),
            PrimitiveTypes::I16 => "int16_t".to_owned(),
            PrimitiveTypes::I32 => "int32_t".to_owned(),
            PrimitiveTypes::F32 => "float".to_owned(),
            PrimitiveTypes::Bool => "bool".to_owned(),
        },
        FieldType::COMPLEX(c) => c.str().to_owned(),
    }
}

} // verus!

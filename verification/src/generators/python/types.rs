//! `struct.pack` format letters for the Python backend.

use vstd::prelude::*;

use crate::ast::{elem_size, FieldType, FieldTypeV, Package, PackageV, PrimitiveTypes};
use crate::error::{error, CompileError, ErrorType};
use crate::generators::code_gen::dec_str;

verus! {

/// The `struct.pack` format of one value of the given type: one fixed-width
/// letter for a primitive, the byte count as `B`s for an embedded struct
/// (packed without its tag), and `I` for an enum ordinal.
pub open spec fn pack_format_text(pkg: PackageV, t: FieldTypeV) -> Option<Seq<char>> {
    match t {
        FieldTypeV::Primitive(p) => Some(
            match p {
                PrimitiveTypes::U8 => "B"@,
                PrimitiveTypes::I8 => "b"@,
                PrimitiveTypes::U16 => "H"@,
                PrimitiveTypes::I16 => "h"@,
                PrimitiveTypes::U32 => "I"@,
                PrimitiveTypes::I32 => "i"@,
                PrimitiveTypes::Bool => "?"@,
                PrimitiveTypes::F32 => "f"@,
            },
        ),
        FieldTypeV::Struct(_) => match elem_size(pkg, t) {
            Some(e) => Some(dec_str(e) + "B"@),
            None => None,
        },
        FieldTypeV::Enum(_) => match elem_size(pkg, t) {
            Some(_) => Some("I"@),
            None => None,
        },
        FieldTypeV::Unknown(_) => None,
    }
}

/// Generate the `struct.pack` format of one value of the given type.
pub fn gen_pack_format(t: &FieldType, package: &Package) -> (r: Result<String, CompileError>)
    ensures
        match pack_format_text(package@, t@) {
            Some(txt) => r matches Ok(s) && s@ == txt,
            None => r is Err && r->Err_0@.ctx == ErrorType::CodeGenerator,
        },
{
    match t {
        FieldType::PRIMITIVE(p) => Ok(
            match p {
                PrimitiveTypes::U8 => "B".to_owned(),
                PrimitiveTypes::I8 => "b".to_owned(),
                PrimitiveTypes::U16 => "H".to_owned(),
                PrimitiveTypes::I16 => "h".to_owned(),
                PrimitiveTypes::U32 => "I".to_owned(),
                PrimitiveTypes::I32 => "i".to_owned(),
                PrimitiveTypes::Bool => "?".to_owned(),
                PrimitiveTypes::F32 => "f".to_owned(),
            },
        ),
        FieldType::COMPLEX(c) => match c {
            crate::ast::ComplexTypes::Struct(_) => {
                match t.size(package) {
                    Some(e) => {
                        proof {
                            crate::ast::lemma_elem_size_nonneg(
                                package@,
                                t@,
                                crate::ast::size_fuel(package@),
                            );
                        }
                        let mut out = crate::generators::code_gen::u32_str(e);
                        out.append("B");
                        proof {
                            assert(out@ =~= pack_format_text(package@, t@)->Some_0);
                        }
                        Ok(out)
                    },
                    None => {
                        proof {
                            crate::ast::lemma_elem_size_le_max(
                                package@,
                                t@,
                                crate::ast::size_fuel(package@),
                            );
                        }
                        Err(
                            error(
                                ErrorType::CodeGenerator,
                                "Can't return size of unresolved type.",
                                1,
                                0,
                                0,
                            ),
                        )
                    },
                }
            },
            crate::ast::ComplexTypes::Enum(_) => {
                match t.size(package) {
                    Some(_) => Ok("I".to_owned()),
                    None => {
                        proof {
                            crate::ast::lemma_elem_size_le_max(
                                package@,
                                t@,
                                crate::ast::size_fuel(package@),
                            );
                        }
                        Err(
                            error(
                                ErrorType::CodeGenerator,
                                "Can't return size of unresolved type.",
                                1,
                                0,
                                0,
                            ),
                        )
                    },
                }
            },
            crate::ast::ComplexTypes::Unknown(_) => Err(
                error(ErrorType::CodeGenerator, "Can't generate code for unknown type.", 1, 0, 0),
            ),
        },
    }
}

} // verus!

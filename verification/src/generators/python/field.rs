//! Per-field code generation for the Python backend.

use vstd::prelude::*;

use crate::ast::{FieldTypeV, FieldV, Package, PackageV, StructField};
use crate::error::{error, CompileError, ErrorType};
use crate::generators::code_gen::dec_str;
use crate::generators::python::types::pack_format_text;

verus! {

/// The Python expression whose bytes are this field's wire encoding, if the
/// field's type resolves.
pub open spec fn pack_expr_text(pkg: PackageV, f: FieldV) -> Option<Seq<char>> {
    match f.array {
        Some(n) => match f.t {
            FieldTypeV::Struct(_) => Some(
                "b''.join([i.to_be_bytes() for i in self."@ + f.name + "])"@,
            ),
            FieldTypeV::Unknown(_) => None,
            _ => match pack_format_text(pkg, f.t) {
                Some(fmt) => Some(
                    "struct.pack('>' + '"@ + fmt + "'*"@ + dec_str(n as int) + ", *self."@ + f.name
                        + ")"@,
                ),
                None => None,
            },
        },
        None => match f.t {
            FieldTypeV::Struct(_) => Some("self."@ + f.name + ".to_be_bytes()"@),
            FieldTypeV::Unknown(_) => None,
            FieldTypeV::Enum(name) => match pack_format_text(pkg, f.t) {
                Some(_) => Some("struct.pack('>I', self."@ + f.name + ")"@),
                None => None,
            },
            _ => match pack_format_text(pkg, f.t) {
                Some(fmt) => Some("struct.pack('>"@ + fmt + "', self."@ + f.name + ")"@),
                None => None,
            },
        },
    }
}

/// Generate the Python expression whose bytes are this field's encoding.
#[verifier::rlimit(100)]
#[verifier::spinoff_prover]
pub fn gen_pack_arg(field: &StructField, package: &Package) -> (r: Result<String, CompileError>)
    ensures
        match pack_expr_text(package@, field@) {
            Some(txt) => r matches Ok(s) && s@ == txt,
            None => r is Err && r->Err_0@.ctx == ErrorType::CodeGenerator,
        },
{
    let is_struct = match &field.t {
        crate::ast::FieldType::COMPLEX(crate::ast::ComplexTypes::Struct(_)) => true,
        _ => false,
    };
    let is_enum = match &field.t {
        crate::ast::FieldType::COMPLEX(crate::ast::ComplexTypes::Enum(_)) => true,
        _ => false,
    };
    let is_unknown = match &field.t {
        crate::ast::FieldType::COMPLEX(crate::ast::ComplexTypes::Unknown(_)) => true,
        _ => false,
    };
    if is_unknown {
        return Err(
            error(ErrorType::CodeGenerator, "Can't generate code for unknown type.", 1, 0, 0),
        );
    }
    let mut out = String::new();
    match field.array {
        Some(n) => {
            if is_struct {
                out.append("b''.join([i.to_be_bytes() for i in self.");
                out.append(field.name.as_str());
                out.append("])");
            } else {
                let fmt = match crate::generators::python::types::gen_pack_format(
                    &field.t,
                    package,
                ) {
                    Ok(fm) => fm,
                    Err(e) => {
                        return Err(e);
                    },
                };
                out.append("struct.pack('>' + '");
                out.append(fmt.as_str());
                out.append("'*");
                let num = crate::generators::code_gen::u32_str(n);
                out.append(num.as_str());
                out.append(", *self.");
                out.append(field.name.as_str());
                out.append(")");
            }
        },
        None => {
            if is_struct {
                out.append("self.");
                out.append(field.name.as_str());
                out.append(".to_be_bytes()");
            } else if is_enum {
                match crate::generators::python::types::gen_pack_format(&field.t, package) {
                    Ok(_) => {},
                    Err(e) => {
                        return Err(e);
                    },
                }
                out.append("struct.pack('>I', self.");
                out.append(field.name.as_str());
                out.append(")");
            } else {
                let fmt = match crate::generators::python::types::gen_pack_format(
                    &field.t,
                    package,
                ) {
                    Ok(fm) => fm,
                    Err(e) => {
                        return Err(e);
                    },
                };
                out.append("struct.pack('>");
                out.append(fmt.as_str());
                out.append("', self.");
                out.append(field.name.as_str());
                out.append(")");
            }
        },
    }
    proof {
        assert(out@ =~= pack_expr_text(package@, field@)->Some_0);
    }
    Ok(out)
}

} // verus!

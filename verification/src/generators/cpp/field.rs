//! Per-field code generation for the C++ backend.

use vstd::prelude::*;

use crate::ast::{FieldTypeV, FieldV, StructField};
use crate::error::{error, CompileError, ErrorType};
use crate::generators::code_gen::dec_str;
use crate::generators::cpp::types::{gen_type_def, type_def_text};

verus! {

/// The C++ member declaration for a field.
pub open spec fn prop_decl_text(f: FieldV) -> Seq<char> {
    type_def_text(f.t) + " "@ + f.name + (match f.array {
        Some(n) => "["@ + dec_str(n as int) + "]"@,
        None => Seq::<char>::empty(),
    }) + ";\n"@
}

/// The C++ constructor argument for a field.
pub open spec fn arg_decl_text(f: FieldV) -> Seq<char> {
    type_def_text(f.t) + " "@ + (match f.array {
        Some(_) => "*"@,
        None => Seq::<char>::empty(),
    }) + f.name
}

/// The C++ constructor statement that initializes a field.
pub open spec fn prop_init_text(f: FieldV) -> Seq<char> {
    match f.array {
        Some(n) => "for (int i = 0; i < "@ + dec_str(n as int) + "; i++) { this->"@ + f.name
            + "[i] = "@ + f.name + "[i]; }\n"@,
        None => "this->"@ + f.name + " = "@ + f.name + ";\n"@,
    }
}

/// The C++ statements that write a field's big-endian bytes, if the field's
/// type is not unknown. An embedded struct or enum writes its own buffer; an
/// embedded struct skips its 4-byte tag.
pub open spec fn to_be_bytes_text(f: FieldV) -> Option<Seq<char>> {
    match f.array {
        Some(n) => match f.t {
            FieldTypeV::Unknown(_) => None,
            FieldTypeV::Primitive(_) => Some(
                "for (int j = 0; j < "@ + dec_str(n as int) + "; j++) {\n"@
                    + "iris::to_be_bytes(this->"@ + f.name + "[j], buffer + i);\n"@
                    + "i += sizeof(this->"@ + f.name + "[j]);\n"@ + "}\n"@,
            ),
            FieldTypeV::Struct(_) => Some(
                "for (int j = 0; j < "@ + dec_str(n as int) + "; j++) {\n"@ + "this->"@ + f.name
                    + "[j].to_be_bytes(buffer + i);\n"@ + "i += this->"@ + f.name
                    + "[j].BYTES_LENGTH"@ + " - 4"@ + ";\n"@ + "}\n"@,
            ),
            FieldTypeV::Enum(_) => Some(
                "for (int j = 0; j < "@ + dec_str(n as int) + "; j++) {\n"@ + "this->"@ + f.name
                    + "[j].to_be_bytes(buffer + i);\n"@ + "i += this->"@ + f.name
                    + "[j].BYTES_LENGTH"@ + ";\n"@ + "}\n"@,
            ),
        },
        None => match f.t {
            FieldTypeV::Unknown(_) => None,
            FieldTypeV::Primitive(_) => Some(
                "iris::to_be_bytes(this->"@ + f.name + ", buffer + i);\n"@ + "i += sizeof(this->"@
                    + f.name + ");\n"@,
            ),
            FieldTypeV::Struct(_) => Some(
                "this->"@ + f.name + ".to_be_bytes(buffer + i);\n"@ + "i += this->"@ + f.name
                    + ".BYTES_LENGTH"@ + " - 4"@ + ";\n"@,
            ),
            FieldTypeV::Enum(_) => Some(
                "this->"@ + f.name + ".to_be_bytes(buffer + i);\n"@ + "i += this->"@ + f.name
                    + ".BYTES_LENGTH"@ + ";\n"@,
            ),
        },
    }
}

/// The C++ statements that read a field back from the byte buffer, if the
/// field's type is not unknown.
pub open spec fn from_be_bytes_text(f: FieldV) -> Option<Seq<char>> {
    match f.array {
        Some(n) => match f.t {
            FieldTypeV::Unknown(_) => None,
            FieldTypeV::Primitive(_) => Some(
                "for (int j = 0; j < "@ + dec_str(n as int) + "; j++) {\n"@ + "out."@ + f.name
                    + "[j] = "@ + "iris::from_be_bytes<"@ + type_def_text(f.t) + ">(raw + i);\n"@
                    + "i += sizeof("@ + type_def_text(f.t) + ");\n"@ + "}\n"@,
            ),
            FieldTypeV::Struct(name) => Some(
                "for (int j = 0; j < "@ + dec_str(n as int) + "; j++) {\n"@ + "out."@ + f.name
                    + "[j] = "@ + name + "::from_be_bytes(raw + i);\n"@ + "i += "@ + name
                    + "::BYTES_LENGTH"@ + " - 4"@ + ";\n"@ + "}\n"@,
            ),
            FieldTypeV::Enum(name) => Some(
                "for (int j = 0; j < "@ + dec_str(n as int) + "; j++) {\n"@ + "out."@ + f.name
                    + "[j] = "@ + name + "::from_be_bytes(raw + i);\n"@ + "i += "@ + name
                    + "::BYTES_LENGTH"@ + ";\n"@ + "}\n"@,
            ),
        },
        None => match f.t {
            FieldTypeV::Unknown(_) => None,
            FieldTypeV::Primitive(_) => Some(
                "out."@ + f.name + " = "@ + "iris::from_be_bytes<"@ + type_def_text(f.t) + ">(raw + i);\n"@
                    + "i += sizeof("@ + type_def_text(f.t) + ");\n"@,
            ),
            FieldTypeV::Struct(name) => Some(
                "out."@ + f.name + " = "@ + name + "::from_be_bytes(raw + i);\n"@ + "i += "@ + name
                    + "::BYTES_LENGTH"@ + " - 4"@ + ";\n"@,
            ),
            FieldTypeV::Enum(name) => Some(
                "out."@ + f.name + " = "@ + name + "::from_be_bytes(raw + i);\n"@ + "i += "@ + name
                    + "::BYTES_LENGTH"@ + ";\n"@,
            ),
        },
    }
}

/// Generate a field's member declaration.
pub fn gen_prop_declaration(field: &StructField) -> (r: String)
    ensures
        r@ == prop_decl_text(field@),
{
    let mut out = gen_type_def(&field.t);
    out.append(" ");
    out.append(field.name.as_str());
    match field.array {
        Some(n) => {
            out.append("[");
            let num = crate::generators::code_gen::u32_str(n);
            out.append(num.as_str());
            out.append("]");
        },
        None => {},
    }
    out.append(";\n");
    proof {
        assert(out@ =~= prop_decl_text(field@));
    }
    out
}

/// Generate a field's constructor argument.
pub fn gen_arg_declaration(field: &StructField) -> (r: String)
    ensures
        r@ == arg_decl_text(field@),
{
    let mut out = gen_type_def(&field.t);
    out.append(" ");
    match field.array {
        Some(_) => {
            out.append("*");
        },
        None => {},
    }
    out.append(field.name.as_str());
    proof {
        assert(out@ =~= arg_decl_text(field@));
    }
    out
}

/// Generate a field's constructor initialization.
pub fn gen_prop_init(field: &StructField) -> (r: String)
    ensures
        r@ == prop_init_text(field@),
{
    let mut out = String::new();
    match field.array {
        Some(n) => {
            out.append("for (int i = 0; i < ");
            let num = crate::generators::code_gen::u32_str(n);
            out.append(num.as_str());
            out.append("; i++) { this->");
            out.append(field.name.as_str());
            out.append("[i] = ");
            out.append(field.name.as_str());
            out.append("[i]; }\n");
        },
        None => {
            out.append("this->");
            out.append(field.name.as_str());
            out.append(" = ");
            out.append(field.name.as_str());
            out.append(";\n");
        },
    }
    proof {
        assert(out@ =~= prop_init_text(field@));
    }
    out
}

/// Generate a field's big-endian write statements.
#[verifier::rlimit(100)]
#[verifier::spinoff_prover]
pub fn gen_to_be_bytes_conv(field: &StructField) -> (r: Result<String, CompileError>)
    ensures
        match to_be_bytes_text(field@) {
            Some(txt) => r matches Ok(s) && s@ == txt,
            None => r is Err && r->Err_0@.ctx == ErrorType::CodeGenerator,
        },
{
    let mut out = String::new();
    let is_unknown = match &field.t {
        crate::ast::FieldType::COMPLEX(crate::ast::ComplexTypes::Unknown(_)) => true,
        _ => false,
    };
    if is_unknown {
        return Err(
            error(ErrorType::CodeGenerator, "Can't generate code for unknown type.", 1, 0, 0),
        );
    }
    match field.array {
        Some(n) => {
            out.append("for (int j = 0; j < ");
            let num = crate::generators::code_gen::u32_str(n);
            out.append(num.as_str());
            out.append("; j++) {\n");
            match &field.t {
                crate::ast::FieldType::PRIMITIVE(_) => {
                    out.append("iris::to_be_bytes(this->");
                    out.append(field.name.as_str());
                    out.append("[j], buffer + i);\n");
                    out.append("i += sizeof(this->");
                    out.append(field.name.as_str());
                    out.append("[j]);\n");
                },
                crate::ast::FieldType::COMPLEX(c) => {
                    out.append("this->");
                    out.append(field.name.as_str());
                    out.append("[j].to_be_bytes(buffer + i);\n");
                    out.append("i += this->");
                    out.append(field.name.as_str());
                    out.append("[j].BYTES_LENGTH");
                    match c {
                        crate::ast::ComplexTypes::Struct(_) => {
                            out.append(" - 4");
                        },
                        _ => {},
                    }
                    out.append(";\n");
                },
            }
            out.append("}\n");
        },
        None => {
            match &field.t {
                crate::ast::FieldType::PRIMITIVE(_) => {
                    out.append("iris::to_be_bytes(this->");
                    out.append(field.name.as_str());
                    out.append(", buffer + i);\n");
                    out.append("i += sizeof(this->");
                    out.append(field.name.as_str());
                    out.append(");\n");
                },
                crate::ast::FieldType::COMPLEX(c) => {
                    out.append("this->");
                    out.append(field.name.as_str());
                    out.append(".to_be_bytes(buffer + i);\n");
                    out.append("i += this->");
                    out.append(field.name.as_str());
                    out.append(".BYTES_LENGTH");
                    match c {
                        crate::ast::ComplexTypes::Struct(_) => {
                            out.append(" - 4");
                        },
                        _ => {},
                    }
                    out.append(";\n");
                },
            }
        },
    }
    proof {
        let f = field@;
        match f.array {
            Some(n) => {
                match f.t {
                    FieldTypeV::Primitive(_) => {
                        assert(out@ =~= to_be_bytes_text(f)->Some_0);
                    },
                    FieldTypeV::Struct(_) => {
                        assert(out@ =~= to_be_bytes_text(f)->Some_0);
                    },
                    FieldTypeV::Enum(_) => {
                        assert(out@ =~= to_be_bytes_text(f)->Some_0);
                    },
                    FieldTypeV::Unknown(_) => {},
                }
            },
            None => {
                match f.t {
                    FieldTypeV::Primitive(_) => {
                        assert(out@ =~= to_be_bytes_text(f)->Some_0);
                    },
                    FieldTypeV::Struct(_) => {
                        assert(out@ =~= to_be_bytes_text(f)->Some_0);
                    },
                    FieldTypeV::Enum(_) => {
                        assert(out@ =~= to_be_bytes_text(f)->Some_0);
                    },
                    FieldTypeV::Unknown(_) => {},
                }
            },
        }
    }
    Ok(out)
}

/// Generate a field's big-endian read statements.
#[verifier::rlimit(100)]
#[verifier::spinoff_prover]
pub fn gen_from_be_bytes_conv(field: &StructField) -> (r: Result<String, CompileError>)
    ensures
        match from_be_bytes_text(field@) {
            Some(txt) => r matches Ok(s) && s@ == txt,
            None => r is Err && r->Err_0@.ctx == ErrorType::CodeGenerator,
        },
{
    let mut out = String::new();
    let is_unknown = match &field.t {
        crate::ast::FieldType::COMPLEX(crate::ast::ComplexTypes::Unknown(_)) => true,
        _ => false,
    };
    if is_unknown {
        return Err(
            error(ErrorType::CodeGenerator, "Can't generate code for unknown type.", 1, 0, 0),
        );
    }
    match field.array {
        Some(n) => {
            out.append("for (int j = 0; j < ");
            let num = crate::generators::code_gen::u32_str(n);
            out.append(num.as_str());
            out.append("; j++) {\n");
            out.append("out.");
            out.append(field.name.as_str());
            out.append("[j] = ");
            match &field.t {
                crate::ast::FieldType::PRIMITIVE(_) => {
                    out.append("iris::from_be_bytes<");
                    let td = gen_type_def(&field.t);
                    out.append(td.as_str());
                    out.append(">(raw + i);\n");
                    out.append("i += sizeof(");
                    out.append(td.as_str());
                    out.append(");\n");
                },
                crate::ast::FieldType::COMPLEX(c) => {
                    out.append(c.str());
                    out.append("::from_be_bytes(raw + i);\n");
                    out.append("i += ");
                    out.append(c.str());
                    out.append("::BYTES_LENGTH");
                    match c {
                        crate::ast::ComplexTypes::Struct(_) => {
                            out.append(" - 4");
                        },
                        _ => {},
                    }
                    out.append(";\n");
                },
            }
            out.append("}\n");
        },
        None => {
            out.append("out.");
            out.append(field.name.as_str());
            out.append(" = ");
            match &field.t {
                crate::ast::FieldType::PRIMITIVE(_) => {
                    out.append("iris::from_be_bytes<");
                    let td = gen_type_def(&field.t);
                    out.append(td.as_str());
                    out.append(">(raw + i);\n");
                    out.append("i += sizeof(");
                    out.append(td.as_str());
                    out.append(");\n");
                },
                crate::ast::FieldType::COMPLEX(c) => {
                    out.append(c.str());
                    out.append("::from_be_bytes(raw + i);\n");
                    out.append("i += ");
                    out.append(c.str());
                    out.append("::BYTES_LENGTH");
                    match c {
                        crate::ast::ComplexTypes::Struct(_) => {
                            out.append(" - 4");
                        },
                        _ => {},
                    }
                    out.append(";\n");
                },
            }
        },
    }
    proof {
        assert(out@ =~= from_be_bytes_text(field@)->Some_0);
    }
    Ok(out)
}

} // verus!

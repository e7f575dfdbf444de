//! Per-field code generation for the Rust backend.

use vstd::prelude::*;

use crate::ast::{elem_size, FieldV, Package, PackageV, StructField};
use crate::error::{error, CompileError, ErrorType};
use crate::generators::code_gen::{dec_str, type_str, u32_str};

verus! {

/// The Rust field declaration line.
pub open spec fn field_decl_text(f: FieldV) -> Seq<char> {
    "pub "@ + f.name + ": "@ + match f.array {
        Some(n) => "["@ + type_str(f.t) + "; "@ + dec_str(n as int) + "],\n"@,
        None => type_str(f.t) + ",\n"@,
    }
}

/// The Rust statements that append this field's big-endian bytes.
pub open spec fn field_encode_text(f: FieldV) -> Seq<char> {
    match f.array {
        Some(_) => "for i in self."@ + f.name + " {\n"@ + "for x in "@ + (if type_str(f.t)
            == "bool"@ {
            "(i as u8)"@
        } else {
            "i"@
        }) + ".to_be_bytes() {\n"@ + "data[index] = x;\n"@ + "index += 1;\n"@ + "}\n"@ + "}\n"@,
        None => "for x in "@ + (if type_str(f.t) == "bool"@ {
            "(self."@ + f.name + " as u8)"@
        } else {
            "self."@ + f.name
        }) + ".to_be_bytes() {\n"@ + "data[index] = x;\n"@ + "index += 1;\n"@ + "}\n"@,
    }
}

/// The Rust statements that read this field back from the byte buffer, if
/// the field's element size is known.
pub open spec fn field_from_bytes_text(pkg: PackageV, f: FieldV) -> Option<Seq<char>> {
    match elem_size(pkg, f.t) {
        Some(e) => {
            let conv = if type_str(f.t) == "bool"@ {
                "u8"@
            } else {
                type_str(f.t)
            };
            let suffix = if type_str(f.t) == "bool"@ {
                " != 0"@
            } else {
                Seq::<char>::empty()
            };
            match f.array {
                Some(n) => Some(
                    "for i in 0.."@ + dec_str(n as int) + " {\n"@ + "out."@ + f.name + "[i] = "@
                        + conv + "::from_be_bytes(data[index..index+"@ + dec_str(e)
                        + "].try_into().unwrap())"@ + suffix + ";\n"@ + "index += "@ + dec_str(e)
                        + ";\n"@ + "}\n"@,
                ),
                None => Some(
                    "out."@ + f.name + " = "@ + conv + "::from_be_bytes(data[index..index+"@
                        + dec_str(e) + "].try_into().unwrap())"@ + suffix + ";\n"@ + "index += "@
                        + dec_str(e) + ";\n"@,
                ),
            }
        },
        None => None,
    }
}

/// Generate the field's declaration line.
pub fn gen_declaration(field: &StructField) -> (r: String)
    ensures
        r@ == field_decl_text(field@),
{
    let mut out = "pub ".to_owned();
    out.append(field.name.as_str());
    out.append(": ");
    match field.array {
        Some(n) => {
            out.append("[");
            out.append(field.t.str());
            out.append("; ");
            let num = u32_str(n);
            out.append(num.as_str());
            out.append("],\n");
        },
        None => {
            out.append(field.t.str());
            out.append(",\n");
        },
    }
    proof {
        assert(out@ =~= field_decl_text(field@));
    }
    out
}

/// Generate the field's encoding statements.
pub fn gen_encode(field: &StructField) -> (r: String)
    ensures
        r@ == field_encode_text(field@),
{
    let is_bool = crate::ast::str_eq(field.t.str(), "bool");
    let mut out = String::new();
    match field.array {
        Some(_) => {
            out.append("for i in self.");
            out.append(field.name.as_str());
            out.append(" {\n");
            out.append("for x in ");
            if is_bool {
                out.append("(i as u8)");
            } else {
                out.append("i");
            }
            out.append(".to_be_bytes() {\n");
            out.append("data[index] = x;\n");
            out.append("index += 1;\n");
            out.append("}\n");
            out.append("}\n");
        },
        None => {
            out.append("for x in ");
            if is_bool {
                out.append("(self.");
                out.append(field.name.as_str());
                out.append(" as u8)");
            } else {
                out.append("self.");
                out.append(field.name.as_str());
            }
            out.append(".to_be_bytes() {\n");
            out.append("data[index] = x;\n");
            out.append("index += 1;\n");
            out.append("}\n");
        },
    }
    proof {
        assert(out@ =~= field_encode_text(field@));
    }
    out
}

/// Generate the field's default line for the struct literal.
pub fn gen_default(field: &StructField, package: &Package) -> (r: Result<String, CompileError>)
    ensures
        match crate::generators::rust::types::field_default_text(
            package@,
            field@,
            crate::ast::size_fuel(package@),
        ) {
            Some(txt) => r matches Ok(s) && s@ == txt,
            None => r is Err && r->Err_0@.ctx == ErrorType::CodeGenerator,
        },
{
    match crate::generators::rust::types::field_default_at(package, field, package.structs.len()) {
        Some(s) => Ok(s),
        None => Err(
            error(
                ErrorType::CodeGenerator,
                "Can't generate default value for unresolved type.",
                1,
                0,
                0,
            ),
        ),
    }
}

/// Generate the field's decoding statements.
pub fn gen_from_bytes(field: &StructField, package: &Package) -> (r: Result<String, CompileError>)
    ensures
        match field_from_bytes_text(package@, field@) {
            Some(txt) => r matches Ok(s) && s@ == txt,
            None => r is Err && r->Err_0@.ctx == ErrorType::CodeGenerator,
        },
{
    let e = match field.t.size(package) {
        Some(e) => e,
        None => {
            proof {
                crate::ast::lemma_elem_size_le_max(
                    package@,
                    field.t@,
                    crate::ast::size_fuel(package@),
                );
            }
            return Err(
                error(ErrorType::CodeGenerator, "Can't return size of unresolved type.", 1, 0, 0),
            );
        },
    };
    proof {
        crate::ast::lemma_elem_size_nonneg(package@, field.t@, crate::ast::size_fuel(package@));
    }
    let is_bool = crate::ast::str_eq(field.t.str(), "bool");
    let enum_str = u32_str(e);
    let mut out = String::new();
    match field.array {
        Some(n) => {
            out.append("for i in 0..");
            let num = u32_str(n);
            out.append(num.as_str());
            out.append(" {\n");
            out.append("out.");
            out.append(field.name.as_str());
            out.append("[i] = ");
            if is_bool {
                out.append("u8");
            } else {
                out.append(field.t.str());
            }
            out.append("::from_be_bytes(data[index..index+");
            out.append(enum_str.as_str());
            out.append("].try_into().unwrap())");
            if is_bool {
                out.append(" != 0");
            }
            out.append(";\n");
            out.append("index += ");
            out.append(enum_str.as_str());
            out.append(";\n");
            out.append("}\n");
        },
        None => {
            out.append("out.");
            out.append(field.name.as_str());
            out.append(" = ");
            if is_bool {
                out.append("u8");
            } else {
                out.append(field.t.str());
            }
            out.append("::from_be_bytes(data[index..index+");
            out.append(enum_str.as_str());
            out.append("].try_into().unwrap())");
            if is_bool {
                out.append(" != 0");
            }
            out.append(";\n");
            out.append("index += ");
            out.append(enum_str.as_str());
            out.append(";\n");
        },
    }
    proof {
        assert(out@ =~= field_from_bytes_text(package@, field@)->Some_0);
    }
    Ok(out)
}

} // verus!

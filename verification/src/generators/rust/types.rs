//! Default values for the Rust backend.

use vstd::prelude::*;

use crate::ast::{
    find_enum, find_struct, size_fuel, ComplexTypes, FieldType, FieldTypeV, FieldV, Package,
    PackageV, PrimitiveTypes,
};
use crate::ast::{find_enum_pos, find_struct_pos};
use crate::error::{error, CompileError, ErrorType};
use crate::generators::code_gen::dec_str;

verus! {

/// The Rust default-value expression for one value of the given type, if
/// the type resolves (an embedded struct's default lists its fields'
/// defaults; an enum's default is its first declared variant).
pub open spec fn default_value_text(pkg: PackageV, t: FieldTypeV, fuel: nat) -> Option<Seq<char>>
    decreases fuel, 0int, 0int,
{
    match t {
        FieldTypeV::Primitive(p) => match p {
            PrimitiveTypes::Bool => Some("false"@),
            PrimitiveTypes::F32 => Some("0.0"@),
            _ => Some("0"@),
        },
        FieldTypeV::Struct(name) => if fuel == 0 {
            None
        } else {
            match find_struct(pkg.structs, name) {
                Some(s) => match fields_default_text(pkg, s.fields, (fuel - 1) as nat) {
                    Some(body) => Some(name + " {\n"@ + body + "}\n"@),
                    None => None,
                },
                None => None,
            }
        },
        FieldTypeV::Enum(name) => match find_enum(pkg.enums, name) {
            Some(e) => if e.variants.len() > 0 {
                Some(name + "::"@ + e.variants[0].name)
            } else {
                None
            },
            None => None,
        },
        FieldTypeV::Unknown(_) => None,
    }
}

/// The Rust struct-literal line for one field's default.
pub open spec fn field_default_text(pkg: PackageV, f: FieldV, fuel: nat) -> Option<Seq<char>>
    decreases fuel, 1int, 0int,
{
    match default_value_text(pkg, f.t, fuel) {
        Some(v) => match f.array {
            Some(n) => Some(f.name + ": ["@ + v + "; "@ + dec_str(n as int) + "],\n"@),
            None => Some(f.name + ": "@ + v + ",\n"@),
        },
        None => None,
    }
}

/// The Rust struct-literal lines for a field list's defaults, in field
/// order.
pub open spec fn fields_default_text(pkg: PackageV, fields: Seq<FieldV>, fuel: nat) -> Option<
    Seq<char>,
>
    decreases fuel, 2int, fields.len(),
{
    if fields.len() == 0 {
        Some(Seq::empty())
    } else {
        match (
            field_default_text(pkg, fields[0], fuel),
            fields_default_text(pkg, fields.drop_first(), fuel),
        ) {
            (Some(a), Some(b)) => Some(a + b),
            _ => None,
        }
    }
}

/// Default-value expression with an explicit recursion budget.
#[verifier::rlimit(60)]
#[verifier::spinoff_prover]
pub(crate) fn default_value_at(pkg: &Package, t: &FieldType, fuel: usize) -> (r: Option<String>)
    ensures
        match default_value_text(pkg@, t@, fuel as nat) {
            Some(txt) => r matches Some(s) && s@ == txt,
            None => r is None,
        },
    decreases fuel, 0int, 0int,
{
    match t {
        FieldType::PRIMITIVE(p) => match p {
            PrimitiveTypes::Bool => Some("false".to_owned()),
            PrimitiveTypes::F32 => Some("0.0".to_owned()),
            _ => Some("0".to_owned()),
        },
        FieldType::COMPLEX(c) => match c {
            ComplexTypes::Struct(name) => {
                if fuel == 0 {
                    None
                } else {
                    match find_struct_pos(&pkg.structs, name.as_str()) {
                        Some(si) => {
                            proof {
                                assert(find_struct(pkg@.structs, name@)->Some_0 == pkg.structs@[
                                    si as int]@);
                            }
                            match fields_default_at(pkg, &pkg.structs[si].fields, 0, fuel - 1) {
                                Some(body) => {
                                    let mut out = name.clone();
                                    out.append(" {\n");
                                    out.append(body.as_str());
                                    out.append("}\n");
                                    proof {
                                        assert(pkg.structs@[si as int]@.fields.skip(0)
                                            =~= pkg.structs@[si as int]@.fields);
                                        assert(out@ =~= default_value_text(
                                            pkg@,
                                            t@,
                                            fuel as nat,
                                        )->Some_0);
                                    }
                                    Some(out)
                                },
                                None => {
                                    proof {
                                        assert(pkg.structs@[si as int]@.fields.skip(0)
                                            =~= pkg.structs@[si as int]@.fields);
                                    }
                                    None
                                },
                            }
                        },
                        None => None,
                    }
                }
            },
            ComplexTypes::Enum(name) => {
                match find_enum_pos(&pkg.enums, name.as_str()) {
                    Some(ei) => {
                        proof {
                            assert(find_enum(pkg@.enums, name@)->Some_0 == pkg.enums@[ei as int]@);
                        }
                        if pkg.enums[ei].variants.len() > 0 {
                            let mut out = name.clone();
                            out.append("::");
                            out.append(pkg.enums[ei].variants[0].name.as_str());
                            proof {
                                assert(out@ =~= default_value_text(pkg@, t@, fuel as nat)->Some_0);
                            }
                            Some(out)
                        } else {
                            None
                        }
                    },
                    None => None,
                }
            },
            ComplexTypes::Unknown(_) => None,
        },
    }
}

/// Struct-literal default lines for `fields[i..]` with an explicit budget.
pub(crate) fn fields_default_at(
    pkg: &Package,
    fields: &Vec<crate::ast::StructField>,
    i: usize,
    fuel: usize,
) -> (r: Option<String>)
    requires
        i <= fields.len(),
    ensures
        match fields_default_text(
            pkg@,
            fields@.map_values(|f: crate::ast::StructField| f@).skip(i as int),
            fuel as nat,
        ) {
            Some(txt) => r matches Some(s) && s@ == txt,
            None => r is None,
        },
    decreases fuel, 2int, fields.len() - i,
{
    let ghost fv = fields@.map_values(|f: crate::ast::StructField| f@).skip(i as int);
    if i == fields.len() {
        proof {
            assert(fv.len() == 0);
        }
        let s = String::new();
        proof {
            assert(s@ =~= Seq::<char>::empty());
        }
        Some(s)
    } else {
        proof {
            assert(fv[0] == fields@.map_values(|f: crate::ast::StructField| f@)[i as int]);
            assert(fv.drop_first() =~= fields@.map_values(
                |f: crate::ast::StructField| f@,
            ).skip(i as int + 1));
        }
        let head = field_default_at(pkg, &fields[i], fuel);
        match head {
            Some(mut h) => {
                match fields_default_at(pkg, fields, i + 1, fuel) {
                    Some(rest) => {
                        h.append(rest.as_str());
                        proof {
                            assert(h@ =~= fields_default_text(pkg@, fv, fuel as nat)->Some_0);
                        }
                        Some(h)
                    },
                    None => None,
                }
            },
            None => None,
        }
    }
}

/// Struct-literal default line for one field with an explicit budget.
pub(crate) fn field_default_at(pkg: &Package, f: &crate::ast::StructField, fuel: usize) -> (r:
    Option<String>)
    ensures
        match field_default_text(pkg@, f@, fuel as nat) {
            Some(txt) => r matches Some(s) && s@ == txt,
            None => r is None,
        },
    decreases fuel, 1int, 0int,
{
    match default_value_at(pkg, &f.t, fuel) {
        Some(v) => {
            let mut out = f.name.clone();
            match f.array {
                Some(n) => {
                    out.append(": [");
                    out.append(v.as_str());
                    out.append("; ");
                    let num = crate::generators::code_gen::u32_str(n);
                    out.append(num.as_str());
                    out.append("],\n");
                },
                None => {
                    out.append(": ");
                    out.append(v.as_str());
                    out.append(",\n");
                },
            }
            proof {
                assert(out@ =~= field_default_text(pkg@, f@, fuel as nat)->Some_0);
            }
            Some(out)
        },
        None => None,
    }
}

/// The Rust default-value expression for one value of the given type.
pub fn gen_default_value(t: &FieldType, package: &Package) -> (r: Result<String, CompileError>)
    ensures
        match default_value_text(package@, t@, size_fuel(package@)) {
            Some(txt) => r matches Ok(s) && s@ == txt,
            None => r is Err && r->Err_0@.ctx == ErrorType::CodeGenerator,
        },
{
    match default_value_at(package, t, package.structs.len()) {
        Some(s) => Ok(s),
        None => Err(
            error(
                ErrorType::CodeGenerator,
                "Can't generate default value for unresolved type.",
                1,
                0,
                0,
            ),
        ),
    }
}

} // verus!

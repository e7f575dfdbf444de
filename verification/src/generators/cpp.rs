//! Code generation for C++ (no STL).

use vstd::prelude::*;

pub mod enumeration;
pub mod field;
pub mod package;
pub mod structure;
pub mod types;

use crate::ast::{Package, PackageV};
use crate::error::{CompileError, ErrorType};
use crate::generators::code_gen::{emission_order_v, order_ok, CodeGen};

verus! {

/// The decode-template dispatch branches, one per struct, in declaration
/// order: a struct matches when both its tag and its total wire length
/// match.
pub open spec fn decode_branches_from(pkg: PackageV, i: int) -> Seq<char>
    decreases pkg.structs.len() - i,
{
    if i < 0 || i >= pkg.structs.len() || pkg.name is None {
        Seq::empty()
    } else {
        let p = pkg.name->Some_0;
        let sname = pkg.structs[i].name;
        (if i == 0 {
            "if"@
        } else {
            "else if"@
        }) + " (struct_name_hash == "@ + p + "::"@ + sname + "::NAME_HASH() && len == "@ + p
            + "::"@ + sname + "::BYTES_LENGTH()) { return T::decode(raw); }\n"@
            + decode_branches_from(pkg, i + 1)
    }
}

/// The `Structs` kind enumerators, in declaration order.
pub open spec fn kind_lines_from(pkg: PackageV, i: int) -> Seq<char>
    decreases pkg.structs.len() - i,
{
    if i < 0 || i >= pkg.structs.len() || pkg.name is None {
        Seq::empty()
    } else {
        pkg.name->Some_0 + "_"@ + pkg.structs[i].name + ",\n"@ + kind_lines_from(pkg, i + 1)
    }
}

/// The `check_type` dispatch branches, in declaration order.
pub open spec fn check_branches_from(pkg: PackageV, i: int) -> Seq<char>
    decreases pkg.structs.len() - i,
{
    if i < 0 || i >= pkg.structs.len() || pkg.name is None {
        Seq::empty()
    } else {
        let p = pkg.name->Some_0;
        let sname = pkg.structs[i].name;
        (if i == 0 {
            "if"@
        } else {
            "else if"@
        }) + " (struct_name_hash == "@ + p + "::"@ + sname + "::NAME_HASH() && len == "@ + p
            + "::"@ + sname + "::BYTES_LENGTH()) { return Structs::"@ + p + "_"@ + sname
            + "; }\n"@ + check_branches_from(pkg, i + 1)
    }
}

/// The fixed byte-order helpers at the top of the generated header.
pub open spec fn header_prelude() -> Seq<char> {
    "#pragma once\n"@ + "namespace iris {\n"@ + "typedef uint8_t byte;\n"@
        + "auto is_le = []() { int a = 1; return 1 == (int)*((byte*)(&a)) ? true : false; };\n"@
        + "template <typename T>\n"@ + "void to_be_bytes(T data, byte *buffer) {\n"@
        + "for (int i = 0; i < sizeof(data); i++) {\n"@
        + "buffer[i] = *((byte*)(&data) + (is_le ? sizeof(data) - 1 - i : i));\n"@ + "}\n"@
        + "}\n"@ + "template <typename T>\n"@ + "T from_be_bytes(byte *buffer) {\n"@ + "T data;\n"@
        + "for (int i = 0; i < sizeof(T); i++) {\n"@
        + "*((iris::byte*)(&data) + (is_le ? sizeof(T) - 1 - i : i)) = buffer[i];\n"@ + "}\n"@
        + "return data;\n"@ + "}\n"@
}

/// The full generated C++ header for a given emission order.
pub open spec fn cpp_source_text(pkg: PackageV, ord: Seq<int>) -> Option<Seq<char>> {
    match package::package_text(pkg, ord) {
        Some(pkgtext) => Some(
            header_prelude() + pkgtext + "template <typename T>\n"@
                + "T decode(byte *raw, size_t len) {\n"@
                + "uint32_t struct_name_hash = from_be_bytes<uint32_t>(raw);\n"@
                + decode_branches_from(pkg, 0) + (if pkg.structs.len() > 0 {
                "else { throw 1; }\n"@
            } else {
                Seq::<char>::empty()
            }) + "}\n"@ + "enum Structs {\n"@ + kind_lines_from(pkg, 0) + "};\n"@
                + "Structs check_type(byte *raw, size_t len) {\n"@
                + "uint32_t struct_name_hash = from_be_bytes<uint32_t>(raw);\n"@
                + check_branches_from(pkg, 0) + (if pkg.structs.len() > 0 {
                "else { throw 1; }\n"@
            } else {
                Seq::<char>::empty()
            }) + "}\n"@ + "}\n"@,
        ),
        None => None,
    }
}

/// The C++ backend.
pub struct CPP {}

/// Generate the full C++ header: the byte-order helpers, the package
/// namespace, the decode template, and the struct-kind enumeration.
#[verifier::rlimit(100)]
#[verifier::spinoff_prover]
pub fn gen_code(package: &Package) -> (r: Result<String, CompileError>)
    ensures
        r matches Ok(t) ==> exists|ord: Seq<int>|
            order_ok(package@, ord) && cpp_source_text(package@, ord) == Some(t@),
        r is Err ==> r->Err_0@.ctx == ErrorType::CodeGenerator,
        (exists|ord: Seq<int>|
            order_ok(package@, ord) && cpp_source_text(package@, ord) is Some) ==> r is Ok,
        r matches Ok(t) ==> (emission_order_v(package@) matches Some(cord) && cpp_source_text(
            package@,
            cord,
        ) == Some(t@)),
        (emission_order_v(package@) matches Some(cord) && cpp_source_text(package@, cord) is Some)
            ==> r is Ok,
{
    let ghost pv = package@;
    let name = match &package.name {
        Some(n) => n.clone(),
        None => {
            proof {
                assert forall|ordx: Seq<int>| #[trigger] cpp_source_text(pv, ordx) is None by {
                    assert(package::package_text(pv, ordx) is None);
                }
            }
            return Err(
                crate::error::error(
                    ErrorType::CodeGenerator,
                    "Package name not declared.",
                    1,
                    0,
                    0,
                ),
            );
        },
    };
    let pkgtext = match package::gen_code(package) {
        Ok(t) => t,
        Err(e) => {
            proof {
                if exists|ordx: Seq<int>| order_ok(pv, ordx) && cpp_source_text(pv, ordx) is Some {
                    let ordx = choose|ordx: Seq<int>|
                        order_ok(pv, ordx) && cpp_source_text(pv, ordx) is Some;
                    assert(package::package_text(pv, ordx) is Some);
                    assert(false);
                }
                if emission_order_v(pv) is Some {
                    let cord0 = emission_order_v(pv)->Some_0;
                    if cpp_source_text(pv, cord0) is Some {
                        assert(package::package_text(pv, cord0) is Some);
                        assert(false);
                    }
                }
            }
            return Err(e);
        },
    };
    let ghost gord = choose|ord: Seq<int>|
        order_ok(pv, ord) && package::package_text(pv, ord) == Some(pkgtext@);
    let ghost cord = emission_order_v(pv)->Some_0;
    proof {
        assert(emission_order_v(pv) is Some && package::package_text(pv, cord) == Some(pkgtext@));
    }
    let mut out = "#pragma once\n".to_owned();
    out.append("namespace iris {\n");
    out.append("typedef uint8_t byte;\n");
    out.append("auto is_le = []() { int a = 1; return 1 == (int)*((byte*)(&a)) ? true : false; };\n");
    out.append("template <typename T>\n");
    out.append("void to_be_bytes(T data, byte *buffer) {\n");
    out.append("for (int i = 0; i < sizeof(data); i++) {\n");
    out.append("buffer[i] = *((byte*)(&data) + (is_le ? sizeof(data) - 1 - i : i));\n");
    out.append("}\n");
    out.append("}\n");
    out.append("template <typename T>\n");
    out.append("T from_be_bytes(byte *buffer) {\n");
    out.append("T data;\n");
    out.append("for (int i = 0; i < sizeof(T); i++) {\n");
    out.append("*((iris::byte*)(&data) + (is_le ? sizeof(T) - 1 - i : i)) = buffer[i];\n");
    out.append("}\n");
    out.append("return data;\n");
    out.append("}\n");
    out.append(pkgtext.as_str());
    out.append("template <typename T>\n");
    out.append("T decode(byte *raw, size_t len) {\n");
    out.append("uint32_t struct_name_hash = from_be_bytes<uint32_t>(raw);\n");
    let n = package.structs.len();
    let ghost head1 = out@;
    let mut i: usize = 0;
    while i < n
        invariant
            i <= n,
            n == package.structs@.len(),
            pv == package@,
            pv.name matches Some(nm) && nm == name@,
            out@ + decode_branches_from(pv, i as int) == head1 + decode_branches_from(pv, 0),
        decreases n - i,
    {
        if i == 0 {
            out.append("if");
        } else {
            out.append("else if");
        }
        out.append(" (struct_name_hash == ");
        out.append(name.as_str());
        out.append("::");
        out.append(package.structs[i].name.as_str());
        out.append("::NAME_HASH() && len == ");
        out.append(name.as_str());
        out.append("::");
        out.append(package.structs[i].name.as_str());
        out.append("::BYTES_LENGTH()) { return T::decode(raw); }\n");
        proof {
            assert(out@ + decode_branches_from(pv, i + 1) =~= head1 + decode_branches_from(pv, 0));
        }
        i += 1;
    }
    proof {
        assert(out@ =~= head1 + decode_branches_from(pv, 0));
    }
    if n > 0 {
        out.append("else { throw 1; }\n");
    }
    out.append("}\n");
    out.append("enum Structs {\n");
    let ghost head2 = out@;
    let mut i: usize = 0;
    while i < n
        invariant
            i <= n,
            n == package.structs@.len(),
            pv == package@,
            pv.name matches Some(nm) && nm == name@,
            out@ + kind_lines_from(pv, i as int) == head2 + kind_lines_from(pv, 0),
        decreases n - i,
    {
        out.append(name.as_str());
        out.append("_");
        out.append(package.structs[i].name.as_str());
        out.append(",\n");
        proof {
            assert(out@ + kind_lines_from(pv, i + 1) =~= head2 + kind_lines_from(pv, 0));
        }
        i += 1;
    }
    proof {
        assert(out@ =~= head2 + kind_lines_from(pv, 0));
    }
    out.append("};\n");
    out.append("Structs check_type(byte *raw, size_t len) {\n");
    out.append("uint32_t struct_name_hash = from_be_bytes<uint32_t>(raw);\n");
    let ghost head3 = out@;
    let mut i: usize = 0;
    while i < n
        invariant
            i <= n,
            n == package.structs@.len(),
            pv == package@,
            pv.name matches Some(nm) && nm == name@,
            out@ + check_branches_from(pv, i as int) == head3 + check_branches_from(pv, 0),
        decreases n - i,
    {
        if i == 0 {
            out.append("if");
        } else {
            out.append("else if");
        }
        out.append(" (struct_name_hash == ");
        out.append(name.as_str());
        out.append("::");
        out.append(package.structs[i].name.as_str());
        out.append("::NAME_HASH() && len == ");
        out.append(name.as_str());
        out.append("::");
        out.append(package.structs[i].name.as_str());
        out.append("::BYTES_LENGTH()) { return Structs::");
        out.append(name.as_str());
        out.append("_");
        out.append(package.structs[i].name.as_str());
        out.append("; }\n");
        proof {
            assert(out@ + check_branches_from(pv, i + 1) =~= head3 + check_branches_from(pv, 0));
        }
        i += 1;
    }
    proof {
        assert(out@ =~= head3 + check_branches_from(pv, 0));
    }
    if n > 0 {
        out.append("else { throw 1; }\n");
    }
    out.append("}\n");
    out.append("}\n");
    proof {
        assert(out@ =~= cpp_source_text(pv, gord)->Some_0);
        assert(out@ =~= cpp_source_text(pv, cord)->Some_0);
    }
    Ok(out)
}

impl CodeGen for CPP {
    fn gen_code(&self, package: &Package) -> Result<String, CompileError> {
        gen_code(package)
    }
}

} // verus!

//! Code generation for Rust (no std).

use vstd::prelude::*;

pub mod enumeration;
pub mod field;
pub mod package;
pub mod structure;
pub mod types;

use crate::ast::{Package, PackageV};
use crate::error::{CompileError, ErrorType};
use crate::generators::code_gen::{emission_order_v, order_ok, CodeGen};

verus! {

/// The `Structs` enum variants, one per struct, in declaration order.
pub open spec fn variants_from(pkg: PackageV, i: int) -> Seq<char>
    decreases pkg.structs.len() - i,
{
    if i < 0 || i >= pkg.structs.len() || pkg.name is None {
        Seq::empty()
    } else {
        pkg.name->Some_0 + "_"@ + pkg.structs[i].name + "(packages::"@ + pkg.name->Some_0 + "::"@
            + pkg.structs[i].name + "),\n"@ + variants_from(pkg, i + 1)
    }
}

/// The decode-by-tag match arms, one per struct, in declaration order: a
/// struct matches when both its tag and its total wire length match.
pub open spec fn dispatch_arms_from(pkg: PackageV, i: int) -> Seq<char>
    decreases pkg.structs.len() - i,
{
    if i < 0 || i >= pkg.structs.len() || pkg.name is None {
        Seq::empty()
    } else {
        let p = pkg.name->Some_0;
        let sname = pkg.structs[i].name;
        "packages::"@ + p + "::"@ + sname + "::NAME_HASH if data.len() == packages::"@ + p + "::"@
            + sname + "::BYTES_LENGTH => Ok(Structs::"@ + p + "_"@ + sname + "(packages::"@ + p
            + "::"@ + sname + "::decode(&data))),\n"@ + dispatch_arms_from(pkg, i + 1)
    }
}

/// The full generated Rust source for a given emission order.
pub open spec fn rust_source_text(pkg: PackageV, ord: Seq<int>) -> Option<Seq<char>> {
    match package::package_text(pkg, ord) {
        Some(pkgtext) => Some(
            "#![no_std]\n"@ + "pub mod iris {\n"@ + "pub mod packages {\n"@ + pkgtext + "}\n"@
                + "pub enum Structs {\n"@ + variants_from(pkg, 0) + "}\n"@
                + "pub fn decode(data: &[u8]) -> Result<Structs, &str> {\n"@
                + "let struct_name_hash = u32::from_be_bytes(data[0..4].try_into().unwrap());\n"@
                + "match struct_name_hash {\n"@ + dispatch_arms_from(pkg, 0)
                + "_ => Err(\"Unknown data.\")\n"@ + "}\n"@ + "}\n"@ + "}\n"@,
        ),
        None => None,
    }
}

/// The Rust backend.
pub struct Rust {}

/// Generate the full Rust source: the package module, the `Structs` kind
/// enum, and the decode-by-tag dispatcher.
pub fn gen_code(package: &Package) -> (r: Result<String, CompileError>)
    ensures
        r matches Ok(t) ==> exists|ord: Seq<int>|
            order_ok(package@, ord) && rust_source_text(package@, ord) == Some(t@),
        r is Err ==> r->Err_0@.ctx == ErrorType::CodeGenerator,
        (exists|ord: Seq<int>|
            order_ok(package@, ord) && rust_source_text(package@, ord) is Some) ==> r is Ok,
        r matches Ok(t) ==> (emission_order_v(package@) matches Some(cord) && rust_source_text(
            package@,
            cord,
        ) == Some(t@)),
        (emission_order_v(package@) matches Some(cord) && rust_source_text(package@, cord) is Some)
            ==> r is Ok,
{
    let ghost pv = package@;
    let name = match &package.name {
        Some(n) => n.clone(),
        None => {
            proof {
                assert forall|ordx: Seq<int>| #[trigger] rust_source_text(pv, ordx) is None by {
                    assert(package::package_text(pv, ordx) is None);
                }
            }
            return Err(
                crate::error::error(
                    ErrorType::CodeGenerator,
                    "Package name not declared.",
                    1,
                    0,
                    0,
                ),
            );
        },
    };
    let pkgtext = match package::gen_code(package) {
        Ok(t) => t,
        Err(e) => {
            proof {
                if exists|ordx: Seq<int>| order_ok(pv, ordx) && rust_source_text(pv, ordx) is Some {
                    let ordx = choose|ordx: Seq<int>|
                        order_ok(pv, ordx) && rust_source_text(pv, ordx) is Some;
                    assert(package::package_text(pv, ordx) is Some);
                    assert(false);
                }
                if emission_order_v(pv) is Some {
                    let cord0 = emission_order_v(pv)->Some_0;
                    if rust_source_text(pv, cord0) is Some {
                        assert(package::package_text(pv, cord0) is Some);
                        assert(false);
                    }
                }
            }
            return Err(e);
        },
    };
    let ghost gord = choose|ord: Seq<int>|
        order_ok(pv, ord) && package::package_text(pv, ord) == Some(pkgtext@);
    let ghost cord = emission_order_v(pv)->Some_0;
    proof {
        assert(emission_order_v(pv) is Some && package::package_text(pv, cord) == Some(pkgtext@));
    }
    let mut out = "#![no_std]\n".to_owned();
    out.append("pub mod iris {\n");
    out.append("pub mod packages {\n");
    out.append(pkgtext.as_str());
    out.append("}\n");
    out.append("pub enum Structs {\n");
    let ghost head1 = out@;
    let n = package.structs.len();
    let mut i: usize = 0;
    while i < n
        invariant
            i <= n,
            n == package.structs@.len(),
            pv == package@,
            pv.name matches Some(nm) && nm == name@,
            out@ + variants_from(pv, i as int) == head1 + variants_from(pv, 0),
        decreases n - i,
    {
        out.append(name.as_str());
        out.append("_");
        out.append(package.structs[i].name.as_str());
        out.append("(packages::");
        out.append(name.as_str());
        out.append("::");
        out.append(package.structs[i].name.as_str());
        out.append("),\n");
        proof {
            assert(out@ + variants_from(pv, i + 1) =~= head1 + variants_from(pv, 0));
        }
        i += 1;
    }
    proof {
        assert(out@ =~= head1 + variants_from(pv, 0));
    }
    out.append("}\n");
    out.append("pub fn decode(data: &[u8]) -> Result<Structs, &str> {\n");
    out.append("let struct_name_hash = u32::from_be_bytes(data[0..4].try_into().unwrap());\n");
    out.append("match struct_name_hash {\n");
    let ghost head2 = out@;
    let mut i: usize = 0;
    while i < n
        invariant
            i <= n,
            n == package.structs@.len(),
            pv == package@,
            pv.name matches Some(nm) && nm == name@,
            out@ + dispatch_arms_from(pv, i as int) == head2 + dispatch_arms_from(pv, 0),
        decreases n - i,
    {
        out.append("packages::");
        out.append(name.as_str());
        out.append("::");
        out.append(package.structs[i].name.as_str());
        out.append("::NAME_HASH if data.len() == packages::");
        out.append(name.as_str());
        out.append("::");
        out.append(package.structs[i].name.as_str());
        out.append("::BYTES_LENGTH => Ok(Structs::");
        out.append(name.as_str());
        out.append("_");
        out.append(package.structs[i].name.as_str());
        out.append("(packages::");
        out.append(name.as_str());
        out.append("::");
        out.append(package.structs[i].name.as_str());
        out.append("::decode(&data))),\n");
        proof {
            assert(out@ + dispatch_arms_from(pv, i + 1) =~= head2 + dispatch_arms_from(pv, 0));
        }
        i += 1;
    }
    proof {
        assert(out@ =~= head2 + dispatch_arms_from(pv, 0));
    }
    out.append("_ => Err(\"Unknown data.\")\n");
    out.append("}\n");
    out.append("}\n");
    out.append("}\n");
    proof {
        assert(out@ =~= rust_source_text(pv, gord)->Some_0);
        assert(out@ =~= rust_source_text(pv, cord)->Some_0);
    }
    Ok(out)
}

impl CodeGen for Rust {
    fn gen_code(&self, package: &Package) -> Result<String, CompileError> {
        gen_code(package)
    }
}

} // verus!

//! Code generation for Python.

use vstd::prelude::*;

pub mod enumeration;
pub mod field;
pub mod package;
pub mod structure;
pub mod types;

use crate::ast::{Package, PackageV};
use crate::error::{CompileError, ErrorType};
use crate::generators::code_gen::{emission_order_v, order_ok, CodeGen};

verus! {

/// The decode-by-tag match arms, one per struct, in declaration order.
pub open spec fn dispatch_cases_from(pkg: PackageV, i: int) -> Seq<char>
    decreases pkg.structs.len() - i,
{
    if i < 0 || i >= pkg.structs.len() || pkg.name is None {
        Seq::empty()
    } else {
        let p = pkg.name->Some_0;
        let sname = pkg.structs[i].name;
        "            case Iris.Packages."@ + p + "."@ + sname
            + ".NAME_HASH if len(raw) == Iris.Packages."@ + p + "."@ + sname + ".BYTES_LENGTH:\n"@
            + "                return Iris.Packages."@ + p + "."@ + sname + ".decode(raw)\n"@
            + dispatch_cases_from(pkg, i + 1)
    }
}

/// The full generated Python source for a given emission order.
pub open spec fn python_source_text(pkg: PackageV, ord: Seq<int>) -> Option<Seq<char>> {
    match package::package_text(pkg, ord) {
        Some(pkgtext) => Some(
            "import enum\n"@ + "import struct\n"@ + "class Iris:\n"@ + "    class Packages:\n"@
                + pkgtext + "    @staticmethod\n"@ + "    def decode(raw: bytes):\n"@
                + "        name_hash = struct.unpack('>I', raw[0:4])[0]\n"@
                + "        match name_hash:\n"@ + dispatch_cases_from(pkg, 0)
                + "            case _:\n"@ + "                raise 'Unknown data.'\n"@,
        ),
        None => None,
    }
}

/// The Python backend.
pub struct Python {}

/// Generate the full Python source: the package class and the decode-by-tag
/// dispatcher.
pub fn gen_code(package: &Package) -> (r: Result<String, CompileError>)
    ensures
        r matches Ok(t) ==> exists|ord: Seq<int>|
            order_ok(package@, ord) && python_source_text(package@, ord) == Some(t@),
        r is Err ==> r->Err_0@.ctx == ErrorType::CodeGenerator,
        (exists|ord: Seq<int>|
            order_ok(package@, ord) && python_source_text(package@, ord) is Some) ==> r is Ok,
        r matches Ok(t) ==> (emission_order_v(package@) matches Some(cord) && python_source_text(
            package@,
            cord,
        ) == Some(t@)),
        (emission_order_v(package@) matches Some(cord) && python_source_text(package@, cord) is Some)
            ==> r is Ok,
{
    let ghost pv = package@;
    let name = match &package.name {
        Some(n) => n.clone(),
        None => {
            proof {
                assert forall|ordx: Seq<int>| #[trigger] python_source_text(pv, ordx) is None by {
                    assert(package::package_text(pv, ordx) is None);
                }
            }
            return Err(
                crate::error::error(
                    ErrorType::CodeGenerator,
                    "Package name not declared.",
                    1,
                    0,
                    0,
                ),
            );
        },
    };
    let pkgtext = match package::gen_code(package) {
        Ok(t) => t,
        Err(e) => {
            proof {
                if exists|ordx: Seq<int>| order_ok(pv, ordx) && python_source_text(pv, ordx) is Some {
                    let ordx = choose|ordx: Seq<int>|
                        order_ok(pv, ordx) && python_source_text(pv, ordx) is Some;
                    assert(package::package_text(pv, ordx) is Some);
                    assert(false);
                }
                if emission_order_v(pv) is Some {
                    let cord0 = emission_order_v(pv)->Some_0;
                    if python_source_text(pv, cord0) is Some {
                        assert(package::package_text(pv, cord0) is Some);
                        assert(false);
                    }
                }
            }
            return Err(e);
        },
    };
    let ghost gord = choose|ord: Seq<int>|
        order_ok(pv, ord) && package::package_text(pv, ord) == Some(pkgtext@);
    let ghost cord = emission_order_v(pv)->Some_0;
    proof {
        assert(emission_order_v(pv) is Some && package::package_text(pv, cord) == Some(pkgtext@));
    }
    let mut out = "import enum\n".to_owned();
    out.append("import struct\n");
    out.append("class Iris:\n");
    out.append("    class Packages:\n");
    out.append(pkgtext.as_str());
    out.append("    @staticmethod\n");
    out.append("    def decode(raw: bytes):\n");
    out.append("        name_hash = struct.unpack('>I', raw[0:4])[0]\n");
    out.append("        match name_hash:\n");
    let ghost head1 = out@;
    let n = package.structs.len();
    let mut i: usize = 0;
    while i < n
        invariant
            i <= n,
            n == package.structs@.len(),
            pv == package@,
            pv.name matches Some(nm) && nm == name@,
            out@ + dispatch_cases_from(pv, i as int) == head1 + dispatch_cases_from(pv, 0),
        decreases n - i,
    {
        out.append("            case Iris.Packages.");
        out.append(name.as_str());
        out.append(".");
        out.append(package.structs[i].name.as_str());
        out.append(".NAME_HASH if len(raw) == Iris.Packages.");
        out.append(name.as_str());
        out.append(".");
        out.append(package.structs[i].name.as_str());
        out.append(".BYTES_LENGTH:\n");
        out.append("                return Iris.Packages.");
        out.append(name.as_str());
        out.append(".");
        out.append(package.structs[i].name.as_str());
        out.append(".decode(raw)\n");
        proof {
            assert(out@ + dispatch_cases_from(pv, i + 1) =~= head1 + dispatch_cases_from(pv, 0));
        }
        i += 1;
    }
    proof {
        assert(out@ =~= head1 + dispatch_cases_from(pv, 0));
    }
    out.append("            case _:\n");
    out.append("                raise 'Unknown data.'\n");
    proof {
        assert(out@ =~= python_source_text(pv, gord)->Some_0);
        assert(out@ =~= python_source_text(pv, cord)->Some_0);
    }
    Ok(out)
}

impl CodeGen for Python {
    fn gen_code(&self, package: &Package) -> Result<String, CompileError> {
        gen_code(package)
    }
}

} // verus!

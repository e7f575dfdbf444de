//! Enum code generation for the Python backend: an `IntEnum` with ordinal
//! pack/unpack and a fatal error on an unrecognized ordinal.

use vstd::prelude::*;

use crate::ast::{Enum, EnumV, Package};
use crate::generators::code_gen::dec_str;

verus! {

/// The variant lines from position `i` on.
pub open spec fn variant_lines_from(e: EnumV, i: int) -> Seq<char>
    decreases e.variants.len() - i,
{
    if i < 0 || i >= e.variants.len() {
        Seq::empty()
    } else {
        "                "@ + e.variants[i].name + " = "@ + dec_str(e.variants[i].value as int)
            + "\n"@ + variant_lines_from(e, i + 1)
    }
}

/// The `from_be_bytes` match arms from position `i` on.
pub open spec fn case_lines_from(pname: Seq<char>, e: EnumV, i: int) -> Seq<char>
    decreases e.variants.len() - i,
{
    if i < 0 || i >= e.variants.len() {
        Seq::empty()
    } else {
        "                        case "@ + dec_str(e.variants[i].value as int) + ":\n"@
            + "                            return Iris.Packages."@ + pname + "."@ + e.name + "."@
            + e.variants[i].name + "\n"@ + case_lines_from(pname, e, i + 1)
    }
}

/// The full Python text for one enum.
pub open spec fn enum_text(pname: Seq<char>, e: EnumV) -> Seq<char> {
    "            class "@ + e.name + "(enum.IntEnum):\n"@ + variant_lines_from(e, 0)
        + "                def to_be_bytes(self) -> bytes:\n"@
        + "                    return struct.pack('>I', self)\n"@
        + "                @staticmethod\n"@ + "                def from_be_bytes(raw: bytes):\n"@
        + "                    match struct.unpack('>I', raw)[0]:\n"@ + case_lines_from(
        pname,
        e,
        0,
    ) + "                        case _:\n"@
        + "                            raise 'No variant found.'\n"@
}

/// Generate the Python text for one enum.
pub fn gen_code(enmn: &Enum, _package: &Package, pname: &String) -> (r: String)
    ensures
        r@ == enum_text(pname@, enmn@),
{
    let ghost ev = enmn@;
    let n = enmn.variants.len();
    let mut out = "            class ".to_owned();
    out.append(enmn.name.as_str());
    out.append("(enum.IntEnum):\n");
    let ghost head1 = out@;
    let mut i: usize = 0;
    while i < n
        invariant
            i <= n,
            n == enmn.variants@.len(),
            ev == enmn@,
            out@ + variant_lines_from(ev, i as int) == head1 + variant_lines_from(ev, 0),
        decreases n - i,
    {
        out.append("                ");
        out.append(enmn.variants[i].name.as_str());
        out.append(" = ");
        let num = crate::generators::code_gen::u32_str(enmn.variants[i].value);
        out.append(num.as_str());
        out.append("\n");
        proof {
            assert(out@ + variant_lines_from(ev, i + 1) =~= head1 + variant_lines_from(ev, 0));
        }
        i += 1;
    }
    proof {
        assert(out@ =~= head1 + variant_lines_from(ev, 0));
    }
    out.append("                def to_be_bytes(self) -> bytes:\n");
    out.append("                    return struct.pack('>I', self)\n");
    out.append("                @staticmethod\n");
    out.append("                def from_be_bytes(raw: bytes):\n");
    out.append("                    match struct.unpack('>I', raw)[0]:\n");
    let ghost head2 = out@;
    let mut i: usize = 0;
    while i < n
        invariant
            i <= n,
            n == enmn.variants@.len(),
            ev == enmn@,
            pname@ == pname@,
            out@ + case_lines_from(pname@, ev, i as int) == head2 + case_lines_from(pname@, ev, 0),
        decreases n - i,
    {
        out.append("                        case ");
        let num = crate::generators::code_gen::u32_str(enmn.variants[i].value);
        out.append(num.as_str());
        out.append(":\n");
        out.append("                            return Iris.Packages.");
        out.append(pname.as_str());
        out.append(".");
        out.append(enmn.name.as_str());
        out.append(".");
        out.append(enmn.variants[i].name.as_str());
        out.append("\n");
        proof {
            assert(out@ + case_lines_from(pname@, ev, i + 1) =~= head2 + case_lines_from(
                pname@,
                ev,
                0,
            ));
        }
        i += 1;
    }
    proof {
        assert(out@ =~= head2 + case_lines_from(pname@, ev, 0));
    }
    out.append("                        case _:\n");
    out.append("                            raise 'No variant found.'\n");
    proof {
        assert(out@ =~= enum_text(pname@, ev));
    }
    out
}

} // verus!

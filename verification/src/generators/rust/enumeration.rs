//! Enum code generation for the Rust backend: the enum declaration with its
//! declaration-order ordinals, and ordinal encode/decode with a fatal error
//! on an unrecognized ordinal.

use vstd::prelude::*;

use crate::ast::{Enum, EnumV, Package};
use crate::generators::code_gen::dec_str;

verus! {

/// The variant declaration lines from position `i` on.
pub open spec fn variant_lines_from(e: EnumV, i: int) -> Seq<char>
    decreases e.variants.len() - i,
{
    if i < 0 || i >= e.variants.len() {
        Seq::empty()
    } else {
        e.variants[i].name + " = "@ + dec_str(e.variants[i].value as int) + ",\n"@
            + variant_lines_from(e, i + 1)
    }
}

/// The `to_be_bytes` match arms from position `i` on.
pub open spec fn to_bytes_arms_from(e: EnumV, i: int) -> Seq<char>
    decreases e.variants.len() - i,
{
    if i < 0 || i >= e.variants.len() {
        Seq::empty()
    } else {
        e.name + "::"@ + e.variants[i].name + " => "@ + dec_str(e.variants[i].value as int)
            + ",\n"@ + to_bytes_arms_from(e, i + 1)
    }
}

/// The `from_be_bytes` match arms from position `i` on.
pub open spec fn from_bytes_arms_from(e: EnumV, i: int) -> Seq<char>
    decreases e.variants.len() - i,
{
    if i < 0 || i >= e.variants.len() {
        Seq::empty()
    } else {
        dec_str(e.variants[i].value as int) + " => "@ + e.name + "::"@ + e.variants[i].name
            + ",\n"@ + from_bytes_arms_from(e, i + 1)
    }
}

/// The full Rust text for one enum.
pub open spec fn enum_text(e: EnumV) -> Seq<char> {
    "#[derive(Copy, Clone)]\n"@ + "pub enum "@ + e.name + " {\n"@ + variant_lines_from(e, 0)
        + "}\n"@ + "impl "@ + e.name + " {\n"@ + "pub fn to_be_bytes(&self) -> [u8; 4] {\n"@
        + "(match self {\n"@ + to_bytes_arms_from(e, 0) + "} as u32).to_be_bytes()\n"@ + "}\n"@
        + "pub fn from_be_bytes(data: [u8; 4]) -> "@ + e.name + " {\n"@
        + "match u32::from_be_bytes(data) {\n"@ + from_bytes_arms_from(e, 0)
        + "_ => panic!(\"No variant found.\")"@ + "}\n"@ + "}\n"@ + "}\n"@
}

/// Generate the Rust text for one enum.
pub fn gen_code(enmn: &Enum, _package: &Package) -> (r: String)
    ensures
        r@ == enum_text(enmn@),
{
    let ghost ev = enmn@;
    let n = enmn.variants.len();
    let mut out = "#[derive(Copy, Clone)]\n".to_owned();
    out.append("pub enum ");
    out.append(enmn.name.as_str());
    out.append(" {\n");
    let ghost head1 = out@;
    let mut i: usize = 0;
    while i < n
        invariant
            i <= n,
            n == enmn.variants@.len(),
            ev == enmn@,
            out@ + variant_lines_from(ev, i as int) == head1 + variant_lines_from(ev, 0),
        decreases n - i,
    {
        out.append(enmn.variants[i].name.as_str());
        out.append(" = ");
        let num = crate::generators::code_gen::u32_str(enmn.variants[i].value);
        out.append(num.as_str());
        out.append(",\n");
        proof {
            assert(out@ + variant_lines_from(ev, i + 1) =~= head1 + variant_lines_from(ev, 0));
        }
        i += 1;
    }
    proof {
        assert(out@ =~= head1 + variant_lines_from(ev, 0));
    }
    out.append("}\n");
    out.append("impl ");
    out.append(enmn.name.as_str());
    out.append(" {\n");
    out.append("pub fn to_be_bytes(&self) -> [u8; 4] {\n");
    out.append("(match self {\n");
    let ghost head2 = out@;
    let mut i: usize = 0;
    while i < n
        invariant
            i <= n,
            n == enmn.variants@.len(),
            ev == enmn@,
            out@ + to_bytes_arms_from(ev, i as int) == head2 + to_bytes_arms_from(ev, 0),
        decreases n - i,
    {
        out.append(enmn.name.as_str());
        out.append("::");
        out.append(enmn.variants[i].name.as_str());
        out.append(" => ");
        let num = crate::generators::code_gen::u32_str(enmn.variants[i].value);
        out.append(num.as_str());
        out.append(",\n");
        proof {
            assert(out@ + to_bytes_arms_from(ev, i + 1) =~= head2 + to_bytes_arms_from(ev, 0));
        }
        i += 1;
    }
    proof {
        assert(out@ =~= head2 + to_bytes_arms_from(ev, 0));
    }
    out.append("} as u32).to_be_bytes()\n");
    out.append("}\n");
    out.append("pub fn from_be_bytes(data: [u8; 4]) -> ");
    out.append(enmn.name.as_str());
    out.append(" {\n");
    out.append("match u32::from_be_bytes(data) {\n");
    let ghost head3 = out@;
    let mut i: usize = 0;
    while i < n
        invariant
            i <= n,
            n == enmn.variants@.len(),
            ev == enmn@,
            out@ + from_bytes_arms_from(ev, i as int) == head3 + from_bytes_arms_from(ev, 0),
        decreases n - i,
    {
        let num = crate::generators::code_gen::u32_str(enmn.variants[i].value);
        out.append(num.as_str());
        out.append(" => ");
        out.append(enmn.name.as_str());
        out.append("::");
        out.append(enmn.variants[i].name.as_str());
        out.append(",\n");
        proof {
            assert(out@ + from_bytes_arms_from(ev, i + 1) =~= head3 + from_bytes_arms_from(ev, 0));
        }
        i += 1;
    }
    proof {
        assert(out@ =~= head3 + from_bytes_arms_from(ev, 0));
    }
    out.append("_ => panic!(\"No variant found.\")");
    out.append("}\n");
    out.append("}\n");
    out.append("}\n");
    proof {
        assert(out@ =~= enum_text(ev));
    }
    out
}

} // verus!

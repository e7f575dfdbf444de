//! Enum code generation for the C++ backend: a class wrapping the ordinal
//! with big-endian pack/unpack.

use vstd::prelude::*;

use crate::ast::{Enum, EnumV, Package};
use crate::generators::code_gen::dec_str;

verus! {

/// The variant lines of the inner `Value` enum, from position `i` on.
pub open spec fn value_lines_from(e: EnumV, i: int) -> Seq<char>
    decreases e.variants.len() - i,
{
    if i < 0 || i >= e.variants.len() {
        Seq::empty()
    } else {
        e.variants[i].name + " = "@ + dec_str(e.variants[i].value as int) + ",\n"@
            + value_lines_from(e, i + 1)
    }
}

/// The full C++ text for one enum.
pub open spec fn enum_text(e: EnumV) -> Seq<char> {
    "class "@ + e.name + " {\n"@ + "public:\n"@ + "enum Value : uint32_t {\n"@
        + value_lines_from(e, 0) + "};\n"@ + "static const size_t BYTES_LENGTH = 4;\n"@
        + "iris::byte DATA_BUFFER[4] = {0};\n"@ + "Value value;\n"@ + e.name + "() { }\n"@ + e.name
        + "(uint32_t value) {\n"@ + "this->value = Value(value);\n"@ + "}\n"@
        + "inline iris::byte *to_be_bytes() {\n"@ + "return this->to_be_bytes(this->DATA_BUFFER);\n"@
        + "}\n"@ + "iris::byte *to_be_bytes(iris::byte *buffer) {\n"@
        + "iris::to_be_bytes(this->value, buffer);\n"@ + "return buffer;\n"@ + "}\n"@ + "static "@
        + e.name + " from_be_bytes(iris::byte *raw) {\n"@ + "return "@ + e.name
        + "(iris::from_be_bytes<uint32_t>(raw));\n"@ + "}\n"@ + "};\n"@
}

/// Generate the C++ text for one enum.
pub fn gen_code(enmn: &Enum, _package: &Package) -> (r: String)
    ensures
        r@ == enum_text(enmn@),
{
    let ghost ev = enmn@;
    let mut out = "class ".to_owned();
    out.append(enmn.name.as_str());
    out.append(" {\n");
    out.append("public:\n");
    out.append("enum Value : uint32_t {\n");
    let ghost head1 = out@;
    let n = enmn.variants.len();
    let mut i: usize = 0;
    while i < n
        invariant
            i <= n,
            n == enmn.variants@.len(),
            ev == enmn@,
            out@ + value_lines_from(ev, i as int) == head1 + value_lines_from(ev, 0),
        decreases n - i,
    {
        out.append(enmn.variants[i].name.as_str());
        out.append(" = ");
        let num = crate::generators::code_gen::u32_str(enmn.variants[i].value);
        out.append(num.as_str());
        out.append(",\n");
        proof {
            assert(out@ + value_lines_from(ev, i + 1) =~= head1 + value_lines_from(ev, 0));
        }
        i += 1;
    }
    proof {
        assert(out@ =~= head1 + value_lines_from(ev, 0));
    }
    out.append("};\n");
    out.append("static const size_t BYTES_LENGTH = 4;\n");
    out.append("iris::byte DATA_BUFFER[4] = {0};\n");
    out.append("Value value;\n");
    out.append(enmn.name.as_str());
    out.append("() { }\n");
    out.append(enmn.name.as_str());
    out.append("(uint32_t value) {\n");
    out.append("this->value = Value(value);\n");
    out.append("}\n");
    out.append("inline iris::byte *to_be_bytes() {\n");
    out.append("return this->to_be_bytes(this->DATA_BUFFER);\n");
    out.append("}\n");
    out.append("iris::byte *to_be_bytes(iris::byte *buffer) {\n");
    out.append("iris::to_be_bytes(this->value, buffer);\n");
    out.append("return buffer;\n");
    out.append("}\n");
    out.append("static ");
    out.append(enmn.name.as_str());
    out.append(" from_be_bytes(iris::byte *raw) {\n");
    out.append("return ");
    out.append(enmn.name.as_str());
    out.append("(iris::from_be_bytes<uint32_t>(raw));\n");
    out.append("}\n");
    out.append("};\n");
    proof {
        assert(out@ =~= enum_text(ev));
    }
    out
}

} // verus!

//! Struct code generation for the Rust backend: the struct declaration, its
//! name-hash and wire-length constants, and size-exact `encode`/`decode`.

use vstd::prelude::*;

use crate::ast::{struct_size, struct_tag, Package, PackageV, Struct, StructV};
use crate::error::{error, CompileError, ErrorType};
use crate::generators::code_gen::dec_str;
use crate::generators::rust::field::{field_decl_text, field_encode_text, field_from_bytes_text};
use crate::generators::rust::types::fields_default_text;

verus! {

/// The field declaration lines from position `i` on.
pub open spec fn decl_lines_from(s: StructV, i: int) -> Seq<char>
    decreases s.fields.len() - i,
{
    if i < 0 || i >= s.fields.len() {
        Seq::empty()
    } else {
        field_decl_text(s.fields[i]) + decl_lines_from(s, i + 1)
    }
}

/// The per-field encoding statements from position `i` on.
pub open spec fn encode_lines_from(s: StructV, i: int) -> Seq<char>
    decreases s.fields.len() - i,
{
    if i < 0 || i >= s.fields.len() {
        Seq::empty()
    } else {
        field_encode_text(s.fields[i]) + encode_lines_from(s, i + 1)
    }
}

/// The per-field decoding statements from position `i` on, if every field's
/// element size is known.
pub open spec fn from_bytes_lines_from(pkg: PackageV, s: StructV, i: int) -> Option<Seq<char>>
    decreases s.fields.len() - i,
{
    if i < 0 || i >= s.fields.len() {
        Some(Seq::empty())
    } else {
        match (field_from_bytes_text(pkg, s.fields[i]), from_bytes_lines_from(pkg, s, i + 1)) {
            (Some(a), Some(b)) => Some(a + b),
            _ => None,
        }
    }
}

/// The full Rust text for one struct, if its sizes and defaults resolve.
pub open spec fn struct_text(pkg: PackageV, s: StructV) -> Option<Seq<char>> {
    match (
        struct_size(pkg, s),
        fields_default_text(pkg, s.fields, crate::ast::size_fuel(pkg)),
        from_bytes_lines_from(pkg, s, 0),
    ) {
        (Some(sz), Some(defaults), Some(frombytes)) => Some(
            "pub struct "@ + s.name + " {\n"@ + decl_lines_from(s, 0) + "}\n"@ + "impl "@ + s.name
                + " {\n"@ + "pub const NAME_HASH: u32 = "@ + dec_str(struct_tag(s) as int) + ";\n"@
                + "pub const BYTES_LENGTH: usize = "@ + dec_str(sz) + " + 4;\n"@
                + "pub fn encode(&self) -> [u8; "@ + s.name + "::BYTES_LENGTH] {\n"@
                + "let mut data: [u8; "@ + s.name + "::BYTES_LENGTH] = [0; "@ + s.name
                + "::BYTES_LENGTH];"@ + "let mut index = 0;"@ + "for x in u32::to_be_bytes("@
                + s.name + "::NAME_HASH) {\n"@ + "data[index] = x;\n"@ + "index += 1;\n"@ + "}\n"@
                + encode_lines_from(s, 0) + "data\n"@ + "}\n"@
                + "pub fn to_be_bytes(&self) -> [u8; "@ + s.name + "::BYTES_LENGTH] {\n"@
                + "self.encode()\n"@ + "}\n"@ + "pub fn decode(data: &[u8]) -> "@ + s.name
                + " {\n"@ + "let mut out = "@ + s.name + " {\n"@ + defaults + "};\n"@
                + "let mut index = 4;\n"@ + frombytes + "out\n"@ + "}\n"@ + "}\n"@,
        ),
        _ => None,
    }
}

/// A sized field list has a size for every field.
proof fn lemma_field_of_sized(pkg: PackageV, fields: Seq<crate::ast::FieldV>, k: int)
    requires
        crate::ast::fields_size_f(pkg, fields, crate::ast::size_fuel(pkg)) is Some,
        0 <= k < fields.len(),
    ensures
        crate::ast::field_size_f(pkg, fields[k], crate::ast::size_fuel(pkg)) is Some,
        crate::ast::elem_size(pkg, fields[k].t) is Some,
    decreases fields.len(),
{
    if k == 0 {
    } else {
        lemma_field_of_sized(pkg, fields.drop_first(), k - 1);
        assert(fields.drop_first()[k - 1] == fields[k]);
    }
}

/// A sized field list has a size for every field (shared form).
pub proof fn lemma_field_of_sized_pub(pkg: PackageV, fields: Seq<crate::ast::FieldV>, k: int)
    requires
        crate::ast::fields_size_f(pkg, fields, crate::ast::size_fuel(pkg)) is Some,
        0 <= k < fields.len(),
    ensures
        crate::ast::field_size_f(pkg, fields[k], crate::ast::size_fuel(pkg)) is Some,
        crate::ast::elem_size(pkg, fields[k].t) is Some,
{
    lemma_field_of_sized(pkg, fields, k);
}

/// A sized struct's per-field decode statements all resolve.
proof fn lemma_from_bytes_resolves(pkg: PackageV, s: StructV, i: int)
    requires
        crate::ast::fields_size_f(pkg, s.fields, crate::ast::size_fuel(pkg)) is Some,
        0 <= i <= s.fields.len(),
    ensures
        from_bytes_lines_from(pkg, s, i) is Some,
    decreases s.fields.len() - i,
{
    if i < s.fields.len() {
        lemma_field_of_sized(pkg, s.fields, i);
        lemma_from_bytes_resolves(pkg, s, i + 1);
    }
}

/// Generate the Rust text for one struct.
pub fn gen_code(strc: &Struct, package: &Package) -> (r: Result<String, CompileError>)
    ensures
        match struct_text(package@, strc@) {
            Some(txt) => r matches Ok(s) && s@ == txt,
            None => r is Err && r->Err_0@.ctx == ErrorType::CodeGenerator,
        },
{
    let ghost sv = strc@;
    let ghost pv = package@;
    let n = strc.fields.len();
    let sz = match strc.size(package) {
        Some(sz) => sz,
        None => {
            proof {
                crate::ast::lemma_fields_size_le_max(pv, sv.fields, crate::ast::size_fuel(pv));
            }
            return Err(
                error(ErrorType::CodeGenerator, "Can't return size of unresolved type.", 1, 0, 0),
            );
        },
    };
    proof {
        crate::ast::lemma_fields_size_nonneg(pv, sv.fields, crate::ast::size_fuel(pv));
        lemma_from_bytes_resolves(pv, sv, 0);
    }
    let defaults = match crate::generators::rust::types::fields_default_at(
        package,
        &strc.fields,
        0,
        package.structs.len(),
    ) {
        Some(d) => {
            proof {
                assert(sv.fields.skip(0) =~= sv.fields);
            }
            d
        },
        None => {
            proof {
                assert(sv.fields.skip(0) =~= sv.fields);
            }
            return Err(
                error(
                    ErrorType::CodeGenerator,
                    "Can't generate default value for unresolved type.",
                    1,
                    0,
                    0,
                ),
            );
        },
    };
    let mut out = "pub struct ".to_owned();
    out.append(strc.name.as_str());
    out.append(" {\n");
    let ghost head1 = out@;
    let mut i: usize = 0;
    while i < n
        invariant
            i <= n,
            n == strc.fields@.len(),
            sv == strc@,
            out@ + decl_lines_from(sv, i as int) == head1 + decl_lines_from(sv, 0),
        decreases n - i,
    {
        let line = crate::generators::rust::field::gen_declaration(&strc.fields[i]);
        out.append(line.as_str());
        proof {
            assert(out@ + decl_lines_from(sv, i + 1) =~= head1 + decl_lines_from(sv, 0));
        }
        i += 1;
    }
    proof {
        assert(out@ =~= head1 + decl_lines_from(sv, 0));
    }
    out.append("}\n");
    out.append("impl ");
    out.append(strc.name.as_str());
    out.append(" {\n");
    out.append("pub const NAME_HASH: u32 = ");
    let hash = strc.fnv_1a();
    let hash_str = crate::generators::code_gen::u32_str(hash);
    out.append(hash_str.as_str());
    out.append(";\n");
    out.append("pub const BYTES_LENGTH: usize = ");
    let sz_str = crate::generators::code_gen::u32_str(sz);
    out.append(sz_str.as_str());
    out.append(" + 4;\n");
    out.append("pub fn encode(&self) -> [u8; ");
    out.append(strc.name.as_str());
    out.append("::BYTES_LENGTH] {\n");
    out.append("let mut data: [u8; ");
    out.append(strc.name.as_str());
    out.append("::BYTES_LENGTH] = [0; ");
    out.append(strc.name.as_str());
    out.append("::BYTES_LENGTH];");
    out.append("let mut index = 0;");
    out.append("for x in u32::to_be_bytes(");
    out.append(strc.name.as_str());
    out.append("::NAME_HASH) {\n");
    out.append("data[index] = x;\n");
    out.append("index += 1;\n");
    out.append("}\n");
    let ghost head2 = out@;
    let mut i: usize = 0;
    while i < n
        invariant
            i <= n,
            n == strc.fields@.len(),
            sv == strc@,
            out@ + encode_lines_from(sv, i as int) == head2 + encode_lines_from(sv, 0),
        decreases n - i,
    {
        let line = crate::generators::rust::field::gen_encode(&strc.fields[i]);
        out.append(line.as_str());
        proof {
            assert(out@ + encode_lines_from(sv, i + 1) =~= head2 + encode_lines_from(sv, 0));
        }
        i += 1;
    }
    proof {
        assert(out@ =~= head2 + encode_lines_from(sv, 0));
    }
    out.append("data\n");
    out.append("}\n");
    out.append("pub fn to_be_bytes(&self) -> [u8; ");
    out.append(strc.name.as_str());
    out.append("::BYTES_LENGTH] {\n");
    out.append("self.encode()\n");
    out.append("}\n");
    out.append("pub fn decode(data: &[u8]) -> ");
    out.append(strc.name.as_str());
    out.append(" {\n");
    out.append("let mut out = ");
    out.append(strc.name.as_str());
    out.append(" {\n");
    out.append(defaults.as_str());
    out.append("};\n");
    out.append("let mut index = 4;\n");
    let ghost head3 = out@;
    let mut i: usize = 0;
    while i < n
        invariant
            i <= n,
            n == strc.fields@.len(),
            sv == strc@,
            pv == package@,
            from_bytes_lines_from(pv, sv, 0) is Some,
            from_bytes_lines_from(pv, sv, i as int) is Some,
            out@ + from_bytes_lines_from(pv, sv, i as int)->Some_0 == head3
                + from_bytes_lines_from(pv, sv, 0)->Some_0,
        decreases n - i,
    {
        let line = match crate::generators::rust::field::gen_from_bytes(
            &strc.fields[i],
            package,
        ) {
            Ok(l) => l,
            Err(e) => {
                proof {
                    assert(false);
                }
                return Err(e);
            },
        };
        out.append(line.as_str());
        proof {
            assert(out@ + from_bytes_lines_from(pv, sv, i + 1)->Some_0 =~= head3
                + from_bytes_lines_from(pv, sv, 0)->Some_0);
        }
        i += 1;
    }
    proof {
        assert(out@ =~= head3 + from_bytes_lines_from(pv, sv, 0)->Some_0);
    }
    out.append("out\n");
    out.append("}\n");
    out.append("}\n");
    proof {
        assert(out@ =~= struct_text(pv, sv)->Some_0);
    }
    Ok(out)
}

} // verus!

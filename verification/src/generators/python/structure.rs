//! Struct code generation for the Python backend: a class with the
//! name-hash and wire-length constants and size-exact big-endian
//! pack/unpack at fixed byte offsets.

use vstd::prelude::*;

use crate::ast::{
    elem_size, field_size, fields_size_f, size_fuel, struct_size, struct_tag, FieldTypeV, FieldV,
    Package, PackageV, Struct, StructV,
};
use crate::error::{error, CompileError, ErrorType};
use crate::generators::code_gen::dec_str;
use crate::generators::python::field::pack_expr_text;
use crate::generators::python::types::pack_format_text;

verus! {

/// The `__init__` parameter list from position `i` on.
pub open spec fn params_from(s: StructV, i: int) -> Seq<char>
    decreases s.fields.len() - i,
{
    if i < 0 || i >= s.fields.len() {
        Seq::empty()
    } else {
        ", "@ + s.fields[i].name + params_from(s, i + 1)
    }
}

/// The `__init__` assignment lines from position `i` on.
pub open spec fn assigns_from(s: StructV, i: int) -> Seq<char>
    decreases s.fields.len() - i,
{
    if i < 0 || i >= s.fields.len() {
        Seq::empty()
    } else {
        "                    self."@ + s.fields[i].name + " = "@ + s.fields[i].name + "\n"@
            + assigns_from(s, i + 1)
    }
}

/// The `to_be_bytes` append lines from position `i` on, if they resolve.
pub open spec fn packs_from(pkg: PackageV, s: StructV, i: int) -> Option<Seq<char>>
    decreases s.fields.len() - i,
{
    if i < 0 || i >= s.fields.len() {
        Some(Seq::empty())
    } else {
        match (pack_expr_text(pkg, s.fields[i]), packs_from(pkg, s, i + 1)) {
            (Some(a), Some(b)) => Some("                    out += "@ + a + "\n"@ + b),
            _ => None,
        }
    }
}

/// The constructor-argument line that reads one field back from the payload
/// bytes starting at byte offset `off`.
pub open spec fn from_line(pkg: PackageV, pname: Seq<char>, f: FieldV, off: int) -> Option<
    Seq<char>,
>
    {
    match (field_size(pkg, f), elem_size(pkg, f.t)) {
        (Some(fs), Some(e)) => match f.array {
            Some(n) => match f.t {
                FieldTypeV::Struct(sname) => Some(
                    "                        "@ + f.name + "=[Iris.Packages."@ + pname + "."@
                        + sname + ".from_be_bytes(raw[i:i+"@ + dec_str(e) + "]) for i in range("@
                        + dec_str(off) + ", "@ + dec_str(off + fs) + ", "@ + dec_str(e) + ")],\n"@,
                ),
                FieldTypeV::Unknown(_) => None,
                _ => match pack_format_text(pkg, f.t) {
                    Some(fmt) => Some(
                        "                        "@ + f.name + "=list(struct.unpack('>' + '"@ + fmt
                            + "'*"@ + dec_str(n as int) + ", raw["@ + dec_str(off) + ":"@ + dec_str(
                            off + fs,
                        ) + "])),\n"@,
                    ),
                    None => None,
                },
            },
            None => match f.t {
                FieldTypeV::Struct(sname) => Some(
                    "                        "@ + f.name + "=Iris.Packages."@ + pname + "."@
                        + sname + ".from_be_bytes(raw["@ + dec_str(off) + ":"@ + dec_str(off + fs)
                        + "]),\n"@,
                ),
                FieldTypeV::Unknown(_) => None,
                _ => match pack_format_text(pkg, f.t) {
                    Some(fmt) => Some(
                        "                        "@ + f.name + "=struct.unpack('>"@ + fmt
                            + "', raw["@ + dec_str(off) + ":"@ + dec_str(off + fs) + "])[0],\n"@,
                    ),
                    None => None,
                },
            },
        },
        _ => None,
    }
}

/// The constructor-argument lines from position `i` on, with the payload
/// byte offset `off` of field `i`.
pub open spec fn from_lines_from(pkg: PackageV, pname: Seq<char>, s: StructV, i: int, off: int)
    -> Option<Seq<char>>
    decreases s.fields.len() - i,
{
    if i < 0 || i >= s.fields.len() {
        Some(Seq::empty())
    } else {
        match (
            field_size(pkg, s.fields[i]),
            from_line(pkg, pname, s.fields[i], off),
        ) {
            (Some(fs), Some(a)) => match from_lines_from(pkg, pname, s, i + 1, off + fs) {
                Some(b) => Some(a + b),
                None => None,
            },
            _ => None,
        }
    }
}

/// The full Python text for one struct, if its sizes resolve and no field
/// type is unknown.
pub open spec fn struct_text(pkg: PackageV, pname: Seq<char>, s: StructV) -> Option<Seq<char>> {
    match (struct_size(pkg, s), packs_from(pkg, s, 0), from_lines_from(pkg, pname, s, 0, 0)) {
        (Some(sz), Some(packs), Some(froms)) => Some(
            "            class "@ + s.name + ":\n"@ + "                NAME_HASH = "@ + dec_str(
                struct_tag(s) as int,
            ) + "\n"@ + "                BYTES_LENGTH = "@ + dec_str(sz) + " + 4\n"@
                + "                def __init__(self"@ + params_from(s, 0) + "):\n"@ + assigns_from(
                s,
                0,
            ) + "                def encode(self) -> bytes:\n"@
                + "                    return struct.pack('>I', self.NAME_HASH) + self.to_be_bytes()\n"@
                + "                def to_be_bytes(self) -> bytes:\n"@
                + "                    out = b''\n"@ + packs
                + "                    return out\n"@ + "                @staticmethod\n"@
                + "                def decode(raw: bytes):\n"@
                + "                    return Iris.Packages."@ + pname + "."@ + s.name
                + ".from_be_bytes(raw[4:])\n"@ + "                @staticmethod\n"@
                + "                def from_be_bytes(raw: bytes):\n"@
                + "                    return Iris.Packages."@ + pname + "."@ + s.name + "(\n"@
                + froms + "                    )\n"@,
        ),
        _ => None,
    }
}

/// A sized field list's read lines all resolve.
proof fn lemma_from_lines_resolve(pkg: PackageV, pname: Seq<char>, s: StructV, i: int, off: int)
    requires
        fields_size_f(pkg, s.fields, size_fuel(pkg)) is Some,
        0 <= i <= s.fields.len(),
    ensures
        from_lines_from(pkg, pname, s, i, off) is Some,
    decreases s.fields.len() - i,
{
    if i < s.fields.len() {
        crate::generators::rust::structure::lemma_field_of_sized_pub(pkg, s.fields, i);
        let fs = field_size(pkg, s.fields[i])->Some_0;
        lemma_from_lines_resolve(pkg, pname, s, i + 1, off + fs);
        match s.fields[i].t {
            FieldTypeV::Unknown(_) => {
                assert(elem_size(pkg, s.fields[i].t) is None);
            },
            _ => {},
        }
    }
}

/// Generate the Python text for one struct.
#[verifier::rlimit(100)]
#[verifier::spinoff_prover]
pub fn gen_code(strc: &Struct, package: &Package, pname: &String) -> (r: Result<
    String,
    CompileError,
>)
    requires
        package@.name matches Some(nm) && nm == pname@,
    ensures
        match struct_text(package@, pname@, strc@) {
            Some(txt) => r matches Ok(s) && s@ == txt,
            None => r is Err && r->Err_0@.ctx == ErrorType::CodeGenerator,
        },
{
    let ghost sv = strc@;
    let ghost pv = package@;
    let n = strc.fields.len();
    let sz = match strc.size(package) {
        Some(sz) => sz,
        None => {
            proof {
                crate::ast::lemma_fields_size_le_max(pv, sv.fields, size_fuel(pv));
            }
            return Err(
                error(ErrorType::CodeGenerator, "Can't return size of unresolved type.", 1, 0, 0),
            );
        },
    };
    proof {
        crate::ast::lemma_fields_size_nonneg(pv, sv.fields, size_fuel(pv));
        lemma_from_lines_resolve(pv, pname@, sv, 0, 0);
    }
    let mut out = "            class ".to_owned();
    out.append(strc.name.as_str());
    out.append(":\n");
    out.append("                NAME_HASH = ");
    let hash = strc.fnv_1a();
    let hash_str = crate::generators::code_gen::u32_str(hash);
    out.append(hash_str.as_str());
    out.append("\n");
    out.append("                BYTES_LENGTH = ");
    let sz_str = crate::generators::code_gen::u32_str(sz);
    out.append(sz_str.as_str());
    out.append(" + 4\n");
    out.append("                def __init__(self");
    let ghost head1 = out@;
    let mut i: usize = 0;
    while i < n
        invariant
            i <= n,
            n == strc.fields@.len(),
            sv == strc@,
            out@ + params_from(sv, i as int) == head1 + params_from(sv, 0),
        decreases n - i,
    {
        out.append(", ");
        out.append(strc.fields[i].name.as_str());
        proof {
            assert(out@ + params_from(sv, i + 1) =~= head1 + params_from(sv, 0));
        }
        i += 1;
    }
    proof {
        assert(out@ =~= head1 + params_from(sv, 0));
    }
    out.append("):\n");
    let ghost head2 = out@;
    let mut i: usize = 0;
    while i < n
        invariant
            i <= n,
            n == strc.fields@.len(),
            sv == strc@,
            out@ + assigns_from(sv, i as int) == head2 + assigns_from(sv, 0),
        decreases n - i,
    {
        out.append("                    self.");
        out.append(strc.fields[i].name.as_str());
        out.append(" = ");
        out.append(strc.fields[i].name.as_str());
        out.append("\n");
        proof {
            assert(out@ + assigns_from(sv, i + 1) =~= head2 + assigns_from(sv, 0));
        }
        i += 1;
    }
    proof {
        assert(out@ =~= head2 + assigns_from(sv, 0));
    }
    out.append("                def encode(self) -> bytes:\n");
    out.append("                    return struct.pack('>I', self.NAME_HASH) + self.to_be_bytes()\n");
    out.append("                def to_be_bytes(self) -> bytes:\n");
    out.append("                    out = b''\n");
    let ghost head3 = out@;
    let mut i: usize = 0;
    while i < n
        invariant
            i <= n,
            n == strc.fields@.len(),
            sv == strc@,
            pv == package@,
            packs_from(pv, sv, i as int) matches Some(p) ==> (packs_from(pv, sv, 0) matches
                Some(q) && out@ + p == head3 + q),
        decreases n - i,
    {
        let expr = match crate::generators::python::field::gen_pack_arg(
            &strc.fields[i],
            package,
        ) {
            Ok(x) => x,
            Err(e) => {
                proof {
                    lemma_packs_none(pv, sv, 0, i as int);
                }
                return Err(e);
            },
        };
        out.append("                    out += ");
        out.append(expr.as_str());
        out.append("\n");
        proof {
            if packs_from(pv, sv, i + 1) is Some {
                assert(packs_from(pv, sv, i + 1) matches Some(p) ==> (packs_from(pv, sv, 0)
                    matches Some(q) && out@ + p =~= head3 + q));
            } else {
                lemma_packs_none_fwd(pv, sv, 0, i + 1);
            }
        }
        i += 1;
    }
    proof {
        if packs_from(pv, sv, 0) is Some {
            assert(out@ =~= head3 + packs_from(pv, sv, 0)->Some_0);
        }
    }
    out.append("                    return out\n");
    out.append("                @staticmethod\n");
    out.append("                def decode(raw: bytes):\n");
    out.append("                    return Iris.Packages.");
    out.append(pname.as_str());
    out.append(".");
    out.append(strc.name.as_str());
    out.append(".from_be_bytes(raw[4:])\n");
    out.append("                @staticmethod\n");
    out.append("                def from_be_bytes(raw: bytes):\n");
    out.append("                    return Iris.Packages.");
    out.append(pname.as_str());
    out.append(".");
    out.append(strc.name.as_str());
    out.append("(\n");
    let ghost head4 = out@;
    proof {
        assert(sv.fields.skip(0) =~= sv.fields);
    }
    let mut off: u32 = 0;
    let mut i: usize = 0;
    while i < n
        invariant
            i <= n,
            n == strc.fields@.len(),
            sv == strc@,
            pv == package@,
            pv.name matches Some(nm) && nm == pname@,
            struct_size(pv, sv) is Some,
            fields_size_f(pv, sv.fields.skip(i as int), size_fuel(pv)) is Some,
            off as int + fields_size_f(pv, sv.fields.skip(i as int), size_fuel(pv))->Some_0
                == struct_size(pv, sv)->Some_0,
            from_lines_from(pv, pname@, sv, i as int, off as int) is Some,
            out@ + from_lines_from(pv, pname@, sv, i as int, off as int)->Some_0 == head4
                + from_lines_from(pv, pname@, sv, 0, 0)->Some_0,
        decreases n - i,
    {
        proof {
            assert(sv.fields.skip(i as int)[0] == sv.fields[i as int]);
            assert(sv.fields.skip(i as int).drop_first() =~= sv.fields.skip(i as int + 1));
            crate::generators::rust::structure::lemma_field_of_sized_pub(
                pv,
                sv.fields.skip(i as int),
                0,
            );
            crate::ast::lemma_field_size_nonneg(pv, sv.fields[i as int], size_fuel(pv));
            crate::ast::lemma_fields_size_nonneg(
                pv,
                sv.fields.skip(i as int + 1),
                size_fuel(pv),
            );
            crate::ast::lemma_fields_size_le_max(pv, sv.fields, size_fuel(pv));
        }
        let fs = match strc.fields[i].size(package) {
            Some(fs) => fs,
            None => {
                proof {
                    assert(false);
                }
                return Err(
                    error(ErrorType::CodeGenerator, "Can't return size of unresolved type.", 1, 0, 0),
                );
            },
        };
        let line = match gen_from_line(&strc.fields[i], package, pname, off) {
            Ok(l) => l,
            Err(e) => {
                proof {
                    assert(false);
                }
                return Err(e);
            },
        };
        out.append(line.as_str());
        off = off + fs;
        proof {
            assert(out@ + from_lines_from(pv, pname@, sv, i + 1, off as int)->Some_0 =~= head4
                + from_lines_from(pv, pname@, sv, 0, 0)->Some_0);
        }
        i += 1;
    }
    proof {
        assert(sv.fields.skip(n as int).len() == 0);
        assert(out@ =~= head4 + from_lines_from(pv, pname@, sv, 0, 0)->Some_0);
    }
    out.append("                    )\n");
    proof {
        assert(sv.fields.skip(0) =~= sv.fields);
        assert(packs_from(pv, sv, 0) is Some) by {
            lemma_packs_resolve(pv, sv, 0);
        }
        assert(out@ =~= struct_text(pv, pname@, sv)->Some_0);
    }
    Ok(out)
}

/// One unresolved field makes the whole pack list unresolved.
proof fn lemma_packs_none(pkg: PackageV, s: StructV, k: int, i: int)
    requires
        0 <= k <= i < s.fields.len(),
        pack_expr_text(pkg, s.fields[i]) is None,
    ensures
        packs_from(pkg, s, k) is None,
    decreases i - k,
{
    if k < i {
        lemma_packs_none(pkg, s, k + 1, i);
    }
}

/// Forward propagation: an unresolved tail makes the whole pack list
/// unresolved.
proof fn lemma_packs_none_fwd(pkg: PackageV, s: StructV, k: int, i: int)
    requires
        0 <= k <= i <= s.fields.len(),
        packs_from(pkg, s, i) is None,
    ensures
        packs_from(pkg, s, k) is None,
    decreases i - k,
{
    if k < i {
        lemma_packs_none_fwd(pkg, s, k + 1, i);
    }
}

/// A sized field list's pack expressions all resolve.
proof fn lemma_packs_resolve(pkg: PackageV, s: StructV, i: int)
    requires
        fields_size_f(pkg, s.fields, size_fuel(pkg)) is Some,
        0 <= i <= s.fields.len(),
    ensures
        packs_from(pkg, s, i) is Some,
    decreases s.fields.len() - i,
{
    if i < s.fields.len() {
        crate::generators::rust::structure::lemma_field_of_sized_pub(pkg, s.fields, i);
        lemma_packs_resolve(pkg, s, i + 1);
        match s.fields[i].t {
            FieldTypeV::Unknown(_) => {
                assert(elem_size(pkg, s.fields[i].t) is None);
            },
            _ => {},
        }
    }
}

/// Generate the constructor-argument line reading one field at offset
/// `off`.
#[verifier::rlimit(100)]
#[verifier::spinoff_prover]
fn gen_from_line(field: &crate::ast::StructField, package: &Package, pname: &String, off: u32) -> (r:
    Result<String, CompileError>)
    requires
        field_size(package@, field@) matches Some(fs) && off + fs <= u32::MAX,
    ensures
        match from_line(package@, pname@, field@, off as int) {
            Some(txt) => r matches Ok(s) && s@ == txt,
            None => r is Err && r->Err_0@.ctx == ErrorType::CodeGenerator,
        },
{
    let ghost pv = package@;
    let fs = match field.size(package) {
        Some(fs) => fs,
        None => {
            proof {
                assert(false);
            }
            return Err(
                error(ErrorType::CodeGenerator, "Can't return size of unresolved type.", 1, 0, 0),
            );
        },
    };
    let e = match field.t.size(package) {
        Some(e) => e,
        None => {
            proof {
                assert(false);
            }
            return Err(
                error(ErrorType::CodeGenerator, "Can't return size of unresolved type.", 1, 0, 0),
            );
        },
    };
    proof {
        crate::ast::lemma_elem_size_nonneg(pv, field.t@, size_fuel(pv));
        crate::ast::lemma_field_size_nonneg(pv, field@, size_fuel(pv));
    }
    let off_str = crate::generators::code_gen::u32_str(off);
    let end_str = crate::generators::code_gen::u32_str(off + fs);
    let e_str = crate::generators::code_gen::u32_str(e);
    let is_unknown = match &field.t {
        crate::ast::FieldType::COMPLEX(crate::ast::ComplexTypes::Unknown(_)) => true,
        _ => false,
    };
    if is_unknown {
        proof {
            assert(elem_size(pv, field.t@) is None);
            assert(false);
        }
        return Err(
            error(ErrorType::CodeGenerator, "Can't generate code for unknown type.", 1, 0, 0),
        );
    }
    let mut out = "                        ".to_owned();
    out.append(field.name.as_str());
    match field.array {
        Some(n) => {
            match &field.t {
                crate::ast::FieldType::COMPLEX(crate::ast::ComplexTypes::Struct(sname)) => {
                    out.append("=[Iris.Packages.");
                    out.append(pname.as_str());
                    out.append(".");
                    out.append(sname.as_str());
                    out.append(".from_be_bytes(raw[i:i+");
                    out.append(e_str.as_str());
                    out.append("]) for i in range(");
                    out.append(off_str.as_str());
                    out.append(", ");
                    out.append(end_str.as_str());
                    out.append(", ");
                    out.append(e_str.as_str());
                    out.append(")],\n");
                },
                _ => {
                    let fmt = match crate::generators::python::types::gen_pack_format(
                        &field.t,
                        package,
                    ) {
                        Ok(fm) => fm,
                        Err(e2) => {
                            proof {
                                assert(false);
                            }
                            return Err(e2);
                        },
                    };
                    out.append("=list(struct.unpack('>' + '");
                    out.append(fmt.as_str());
                    out.append("'*");
                    let num = crate::generators::code_gen::u32_str(n);
                    out.append(num.as_str());
                    out.append(", raw[");
                    out.append(off_str.as_str());
                    out.append(":");
                    out.append(end_str.as_str());
                    out.append("])),\n");
                },
            }
        },
        None => {
            match &field.t {
                crate::ast::FieldType::COMPLEX(crate::ast::ComplexTypes::Struct(sname)) => {
                    out.append("=Iris.Packages.");
                    out.append(pname.as_str());
                    out.append(".");
                    out.append(sname.as_str());
                    out.append(".from_be_bytes(raw[");
                    out.append(off_str.as_str());
                    out.append(":");
                    out.append(end_str.as_str());
                    out.append("]),\n");
                },
                _ => {
                    let fmt = match crate::generators::python::types::gen_pack_format(
                        &field.t,
                        package,
                    ) {
                        Ok(fm) => fm,
                        Err(e2) => {
                            proof {
                                assert(false);
                            }
                            return Err(e2);
                        },
                    };
                    out.append("=struct.unpack('>");
                    out.append(fmt.as_str());
                    out.append("', raw[");
                    out.append(off_str.as_str());
                    out.append(":");
                    out.append(end_str.as_str());
                    out.append("])[0],\n");
                },
            }
        },
    }
    proof {
        assert(out@ =~= from_line(pv, pname@, field@, off as int)->Some_0);
    }
    Ok(out)
}

} // verus!

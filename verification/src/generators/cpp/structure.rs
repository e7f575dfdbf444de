//! Struct code generation for the C++ backend: a class with the name-hash
//! and wire-length accessors, a value constructor, and size-exact
//! big-endian pack/unpack.

use vstd::prelude::*;

use crate::ast::{struct_size, struct_tag, Package, PackageV, Struct, StructV};
use crate::error::{error, CompileError, ErrorType};
use crate::generators::code_gen::dec_str;
use crate::generators::cpp::field::{
    arg_decl_text, from_be_bytes_text, prop_decl_text, prop_init_text, to_be_bytes_text,
};

verus! {

/// The member declaration lines from position `i` on.
pub open spec fn props_from(s: StructV, i: int) -> Seq<char>
    decreases s.fields.len() - i,
{
    if i < 0 || i >= s.fields.len() {
        Seq::empty()
    } else {
        prop_decl_text(s.fields[i]) + props_from(s, i + 1)
    }
}

/// The comma-separated constructor arguments from position `i` on.
pub open spec fn args_from(s: StructV, i: int) -> Seq<char>
    decreases s.fields.len() - i,
{
    if i < 0 || i >= s.fields.len() {
        Seq::empty()
    } else {
        arg_decl_text(s.fields[i]) + (if i + 1 < s.fields.len() {
            ","@
        } else {
            Seq::<char>::empty()
        }) + args_from(s, i + 1)
    }
}

/// The constructor initialization statements from position `i` on.
pub open spec fn inits_from(s: StructV, i: int) -> Seq<char>
    decreases s.fields.len() - i,
{
    if i < 0 || i >= s.fields.len() {
        Seq::empty()
    } else {
        prop_init_text(s.fields[i]) + inits_from(s, i + 1)
    }
}

/// The big-endian write statements from position `i` on, if they resolve.
pub open spec fn writes_from(s: StructV, i: int) -> Option<Seq<char>>
    decreases s.fields.len() - i,
{
    if i < 0 || i >= s.fields.len() {
        Some(Seq::empty())
    } else {
        match (to_be_bytes_text(s.fields[i]), writes_from(s, i + 1)) {
            (Some(a), Some(b)) => Some(a + b),
            _ => None,
        }
    }
}

/// The big-endian read statements from position `i` on, if they resolve.
pub open spec fn reads_from(s: StructV, i: int) -> Option<Seq<char>>
    decreases s.fields.len() - i,
{
    if i < 0 || i >= s.fields.len() {
        Some(Seq::empty())
    } else {
        match (from_be_bytes_text(s.fields[i]), reads_from(s, i + 1)) {
            (Some(a), Some(b)) => Some(a + b),
            _ => None,
        }
    }
}

/// The full C++ text for one struct, if its sizes resolve and no field type
/// is unknown.
pub open spec fn struct_text(pkg: PackageV, s: StructV) -> Option<Seq<char>> {
    match (struct_size(pkg, s), writes_from(s, 0), reads_from(s, 0)) {
        (Some(sz), Some(writes), Some(reads)) => Some(
            "class "@ + s.name + " {\n"@ + "public:\n"@
                + "static inline unsigned int NAME_HASH() { return "@ + dec_str(
                struct_tag(s) as int,
            ) + "; }\n"@ + "static inline size_t BYTES_LENGTH() { return "@ + dec_str(sz)
                + " + 4; }\n"@ + "iris::byte DATA_BUFFER["@ + dec_str(sz) + " + 4] = {0};\n"@
                + props_from(s, 0) + s.name + "() {}\n"@ + s.name + "("@ + args_from(s, 0)
                + ") {\n"@ + inits_from(s, 0) + "}\n"@ + "iris::byte *encode() {\n"@
                + "iris::to_be_bytes(this->NAME_HASH(), this->DATA_BUFFER);\n"@
                + "this->to_be_bytes();\n"@ + "return this->DATA_BUFFER;\n"@ + "}\n"@
                + "inline iris::byte *to_be_bytes() {\n"@
                + "return this->to_be_bytes(this->DATA_BUFFER + 4);\n"@ + "}\n"@
                + "iris::byte *to_be_bytes(iris::byte *buffer) {\n"@ + "int i = 0;\n"@ + writes
                + "return buffer;\n"@ + "}\n"@ + "static "@ + s.name
                + " decode(iris::byte *raw) {\n"@ + "return "@ + s.name
                + "::from_be_bytes(raw + 4);\n"@ + "}\n"@ + "static "@ + s.name
                + " from_be_bytes(iris::byte *raw) {\n"@ + s.name + " out = "@ + s.name
                + "();\n"@ + "int i = 0;\n"@ + reads + "return out;\n"@ + "}\n"@ + "};\n"@,
        ),
        _ => None,
    }
}

/// The write statements for the first `k` fields.
pub open spec fn writes_prefix(s: StructV, k: int) -> Option<Seq<char>>
    decreases k,
{
    if k <= 0 {
        Some(Seq::empty())
    } else {
        match (writes_prefix(s, k - 1), to_be_bytes_text(s.fields[k - 1])) {
            (Some(a), Some(b)) => Some(a + b),
            _ => None,
        }
    }
}

/// The read statements for the first `k` fields.
pub open spec fn reads_prefix(s: StructV, k: int) -> Option<Seq<char>>
    decreases k,
{
    if k <= 0 {
        Some(Seq::empty())
    } else {
        match (reads_prefix(s, k - 1), from_be_bytes_text(s.fields[k - 1])) {
            (Some(a), Some(b)) => Some(a + b),
            _ => None,
        }
    }
}

/// Splitting the write statements at `k`.
proof fn lemma_writes_split(s: StructV, k: int)
    requires
        0 <= k <= s.fields.len(),
        writes_prefix(s, k) is Some,
        writes_from(s, k) is Some,
    ensures
        writes_from(s, 0) == Some(writes_prefix(s, k)->Some_0 + writes_from(s, k)->Some_0),
    decreases k,
{
    if k == 0 {
        assert(Seq::<char>::empty() + writes_from(s, 0)->Some_0 =~= writes_from(s, 0)->Some_0);
    } else {
        lemma_writes_split(s, k - 1);
        assert((writes_prefix(s, k - 1)->Some_0 + to_be_bytes_text(s.fields[k - 1])->Some_0)
            + writes_from(s, k)->Some_0 =~= writes_prefix(s, k - 1)->Some_0 + (to_be_bytes_text(
            s.fields[k - 1],
        )->Some_0 + writes_from(s, k)->Some_0));
    }
}

/// Splitting the read statements at `k`.
proof fn lemma_reads_split(s: StructV, k: int)
    requires
        0 <= k <= s.fields.len(),
        reads_prefix(s, k) is Some,
        reads_from(s, k) is Some,
    ensures
        reads_from(s, 0) == Some(reads_prefix(s, k)->Some_0 + reads_from(s, k)->Some_0),
    decreases k,
{
    if k == 0 {
        assert(Seq::<char>::empty() + reads_from(s, 0)->Some_0 =~= reads_from(s, 0)->Some_0);
    } else {
        lemma_reads_split(s, k - 1);
        assert((reads_prefix(s, k - 1)->Some_0 + from_be_bytes_text(s.fields[k - 1])->Some_0)
            + reads_from(s, k)->Some_0 =~= reads_prefix(s, k - 1)->Some_0 + (from_be_bytes_text(
            s.fields[k - 1],
        )->Some_0 + reads_from(s, k)->Some_0));
    }
}

/// One unresolved field makes the whole write list unresolved.
proof fn lemma_writes_none(s: StructV, k: int, i: int)
    requires
        0 <= k <= i < s.fields.len(),
        to_be_bytes_text(s.fields[i]) is None,
    ensures
        writes_from(s, k) is None,
    decreases i - k,
{
    if k < i {
        lemma_writes_none(s, k + 1, i);
    }
}

/// One unresolved field makes the whole read list unresolved.
proof fn lemma_reads_none(s: StructV, k: int, i: int)
    requires
        0 <= k <= i < s.fields.len(),
        from_be_bytes_text(s.fields[i]) is None,
    ensures
        reads_from(s, k) is None,
    decreases i - k,
{
    if k < i {
        lemma_reads_none(s, k + 1, i);
    }
}

/// Generate the C++ text for one struct.
#[verifier::rlimit(100)]
#[verifier::spinoff_prover]
pub fn gen_code(strc: &Struct, package: &Package) -> (r: Result<String, CompileError>)
    ensures
        match struct_text(package@, strc@) {
            Some(txt) => r matches Ok(s) && s@ == txt,
            None => r is Err && r->Err_0@.ctx == ErrorType::CodeGenerator,
        },
{
    let ghost sv = strc@;
    let ghost pv = package@;
    let n = strc.fields.len();
    let sz = match strc.size(package) {
        Some(sz) => sz,
        None => {
            proof {
                crate::ast::lemma_fields_size_le_max(pv, sv.fields, crate::ast::size_fuel(pv));
            }
            return Err(
                error(ErrorType::CodeGenerator, "Can't return size of unresolved type.", 1, 0, 0),
            );
        },
    };
    proof {
        crate::ast::lemma_fields_size_nonneg(pv, sv.fields, crate::ast::size_fuel(pv));
    }
    let sz_str = crate::generators::code_gen::u32_str(sz);
    let mut out = "class ".to_owned();
    out.append(strc.name.as_str());
    out.append(" {\n");
    out.append("public:\n");
    out.append("static inline unsigned int NAME_HASH() { return ");
    let hash = strc.fnv_1a();
    let hash_str = crate::generators::code_gen::u32_str(hash);
    out.append(hash_str.as_str());
    out.append("; }\n");
    out.append("static inline size_t BYTES_LENGTH() { return ");
    out.append(sz_str.as_str());
    out.append(" + 4; }\n");
    out.append("iris::byte DATA_BUFFER[");
    out.append(sz_str.as_str());
    out.append(" + 4] = {0};\n");
    let ghost head1 = out@;
    let mut i: usize = 0;
    while i < n
        invariant
            i <= n,
            n == strc.fields@.len(),
            sv == strc@,
            out@ + props_from(sv, i as int) == head1 + props_from(sv, 0),
        decreases n - i,
    {
        let line = crate::generators::cpp::field::gen_prop_declaration(&strc.fields[i]);
        out.append(line.as_str());
        proof {
            assert(out@ + props_from(sv, i + 1) =~= head1 + props_from(sv, 0));
        }
        i += 1;
    }
    proof {
        assert(out@ =~= head1 + props_from(sv, 0));
    }
    out.append(strc.name.as_str());
    out.append("() {}\n");
    out.append(strc.name.as_str());
    out.append("(");
    let ghost head2 = out@;
    let mut i: usize = 0;
    while i < n
        invariant
            i <= n,
            n == strc.fields@.len(),
            sv == strc@,
            out@ + args_from(sv, i as int) == head2 + args_from(sv, 0),
        decreases n - i,
    {
        let line = crate::generators::cpp::field::gen_arg_declaration(&strc.fields[i]);
        out.append(line.as_str());
        if i + 1 < n {
            out.append(",");
        }
        proof {
            assert(out@ + args_from(sv, i + 1) =~= head2 + args_from(sv, 0));
        }
        i += 1;
    }
    proof {
        assert(out@ =~= head2 + args_from(sv, 0));
    }
    out.append(") {\n");
    let ghost head3 = out@;
    let mut i: usize = 0;
    while i < n
        invariant
            i <= n,
            n == strc.fields@.len(),
            sv == strc@,
            out@ + inits_from(sv, i as int) == head3 + inits_from(sv, 0),
        decreases n - i,
    {
        let line = crate::generators::cpp::field::gen_prop_init(&strc.fields[i]);
        out.append(line.as_str());
        proof {
            assert(out@ + inits_from(sv, i + 1) =~= head3 + inits_from(sv, 0));
        }
        i += 1;
    }
    proof {
        assert(out@ =~= head3 + inits_from(sv, 0));
    }
    out.append("}\n");
    out.append("iris::byte *encode() {\n");
    out.append("iris::to_be_bytes(this->NAME_HASH(), this->DATA_BUFFER);\n");
    out.append("this->to_be_bytes();\n");
    out.append("return this->DATA_BUFFER;\n");
    out.append("}\n");
    out.append("inline iris::byte *to_be_bytes() {\n");
    out.append("return this->to_be_bytes(this->DATA_BUFFER + 4);\n");
    out.append("}\n");
    out.append("iris::byte *to_be_bytes(iris::byte *buffer) {\n");
    out.append("int i = 0;\n");
    let ghost head4 = out@;
    let mut i: usize = 0;
    while i < n
        invariant
            i <= n,
            n == strc.fields@.len(),
            sv == strc@,
            writes_prefix(sv, i as int) matches Some(p) && out@ == head4 + p,
        decreases n - i,
    {
        let line = match crate::generators::cpp::field::gen_to_be_bytes_conv(&strc.fields[i]) {
            Ok(l) => l,
            Err(e) => {
                proof {
                    lemma_writes_none(sv, 0, i as int);
                }
                return Err(e);
            },
        };
        out.append(line.as_str());
        proof {
            assert(writes_prefix(sv, i + 1) matches Some(p) && out@ =~= head4 + p);
        }
        i += 1;
    }
    proof {
        lemma_writes_split(sv, n as int);
        assert(out@ =~= head4 + writes_from(sv, 0)->Some_0);
    }
    out.append("return buffer;\n");
    out.append("}\n");
    out.append("static ");
    out.append(strc.name.as_str());
    out.append(" decode(iris::byte *raw) {\n");
    out.append("return ");
    out.append(strc.name.as_str());
    out.append("::from_be_bytes(raw + 4);\n");
    out.append("}\n");
    out.append("static ");
    out.append(strc.name.as_str());
    out.append(" from_be_bytes(iris::byte *raw) {\n");
    out.append(strc.name.as_str());
    out.append(" out = ");
    out.append(strc.name.as_str());
    out.append("();\n");
    out.append("int i = 0;\n");
    let ghost head5 = out@;
    let mut i: usize = 0;
    while i < n
        invariant
            i <= n,
            n == strc.fields@.len(),
            sv == strc@,
            reads_prefix(sv, i as int) matches Some(p) && out@ == head5 + p,
        decreases n - i,
    {
        let line = match crate::generators::cpp::field::gen_from_be_bytes_conv(&strc.fields[i]) {
            Ok(l) => l,
            Err(e) => {
                proof {
                    lemma_reads_none(sv, 0, i as int);
                }
                return Err(e);
            },
        };
        out.append(line.as_str());
        proof {
            assert(reads_prefix(sv, i + 1) matches Some(p) && out@ =~= head5 + p);
        }
        i += 1;
    }
    proof {
        lemma_reads_split(sv, n as int);
        assert(out@ =~= head5 + reads_from(sv, 0)->Some_0);
    }
    out.append("return out;\n");
    out.append("}\n");
    out.append("};\n");
    proof {
        assert(out@ =~= struct_text(pv, sv)->Some_0);
    }
    Ok(out)
}

} // verus!

//! The data behind the companion JSON schema consumed by external tooling:
//! per struct, the flattened property paths (arrays expanded index by
//! index, embedded structs expanded field by field) with their type names,
//! and the payload sizes. Writing the JSON file itself is the caller's job.

use vstd::prelude::*;

use crate::ast::find_struct_pos;
use crate::ast::{
    find_struct, size_fuel, struct_size, ComplexTypes, FieldType, FieldTypeV, FieldV, Package,
    PackageV, Struct, StructField,
};
use crate::error::{error, CompileError, ErrorType};
use crate::generators::code_gen::dec_str;

verus! {

/// The flattened entries of one element of type `t` reached by path `base`:
/// a primitive or enum contributes its own entry, an embedded struct
/// contributes its fields' entries under `base.`, and an unknown name
/// contributes nothing.
pub open spec fn flat_elem(pkg: PackageV, t: FieldTypeV, base: Seq<char>, fuel: nat) -> Option<
    Seq<(Seq<char>, Seq<char>)>,
>
    decreases fuel, 0int, 0int,
{
    match t {
        FieldTypeV::Primitive(p) => Some(seq![(base, p.spec_str())]),
        FieldTypeV::Enum(name) => Some(seq![(base, name)]),
        FieldTypeV::Struct(name) => if fuel == 0 {
            None
        } else {
            match find_struct(pkg.structs, name) {
                Some(s) => flat_fields(pkg, s.fields, base + "."@, (fuel - 1) as nat),
                None => None,
            }
        },
        FieldTypeV::Unknown(_) => Some(Seq::empty()),
    }
}

/// The flattened entries of the array elements `k..` of a field.
pub open spec fn flat_array(pkg: PackageV, f: FieldV, prefix: Seq<char>, k: int, fuel: nat)
    -> Option<Seq<(Seq<char>, Seq<char>)>>
    decreases fuel, 2int, crate::ast::array_count(f.array) - k,
{
    if k < 0 || k >= crate::ast::array_count(f.array) {
        Some(Seq::empty())
    } else {
        match (
            flat_elem(pkg, f.t, prefix + f.name + "["@ + dec_str(k) + "]"@, fuel),
            flat_array(pkg, f, prefix, k + 1, fuel),
        ) {
            (Some(a), Some(b)) => Some(a + b),
            _ => None,
        }
    }
}

/// The flattened entries of one field reached by path `prefix`.
pub open spec fn flat_field(pkg: PackageV, f: FieldV, prefix: Seq<char>, fuel: nat) -> Option<
    Seq<(Seq<char>, Seq<char>)>,
>
    decreases fuel, 3int, 0int,
{
    match f.array {
        None => flat_elem(pkg, f.t, prefix + f.name, fuel),
        Some(_) => flat_array(pkg, f, prefix, 0, fuel),
    }
}

/// The flattened entries of a field list, in field order.
pub open spec fn flat_fields(pkg: PackageV, fields: Seq<FieldV>, prefix: Seq<char>, fuel: nat)
    -> Option<Seq<(Seq<char>, Seq<char>)>>
    decreases fuel, 4int, fields.len(),
{
    if fields.len() == 0 {
        Some(Seq::empty())
    } else {
        match (
            flat_field(pkg, fields[0], prefix, fuel),
            flat_fields(pkg, fields.drop_first(), prefix, fuel),
        ) {
            (Some(a), Some(b)) => Some(a + b),
            _ => None,
        }
    }
}

/// The element-wise view of collected entries.
pub open spec fn entries_view(v: Seq<(String, String)>) -> Seq<(Seq<char>, Seq<char>)> {
    v.map_values(|p: (String, String)| (p.0@, p.1@))
}

/// The companion schema: the package name, per struct the flattened
/// property paths with their type names, and per struct the payload size.
pub struct KronosCodeGen {
    pub package: String,
    pub data: Vec<(String, Vec<(String, String)>)>,
    pub size: Vec<(String, u32)>,
}

/// Append one element's flattened entries; reports whether the type
/// resolves.
fn expand_elem(pkg: &Package, t: &FieldType, base: String, fuel: usize, out: &mut Vec<
    (String, String),
>) -> (ok: bool)
    ensures
        match flat_elem(pkg@, t@, base@, fuel as nat) {
            Some(es) => ok && entries_view(final(out)@) == entries_view(old(out)@) + es,
            None => !ok,
        },
    decreases fuel, 0int, 0int,
{
    let ghost b = base@;
    match t {
        FieldType::PRIMITIVE(p) => {
            out.push((base, p.str().to_owned()));
            proof {
                assert(entries_view(out@) =~= entries_view(old(out)@) + flat_elem(
                    pkg@,
                    t@,
                    b,
                    fuel as nat,
                )->Some_0);
            }
            true
        },
        FieldType::COMPLEX(c) => match c {
            ComplexTypes::Enum(name) => {
                out.push((base, name.clone()));
                proof {
                    assert(entries_view(out@) =~= entries_view(old(out)@) + flat_elem(
                        pkg@,
                        t@,
                        b,
                        fuel as nat,
                    )->Some_0);
                }
                true
            },
            ComplexTypes::Struct(name) => {
                if fuel == 0 {
                    return false;
                }
                match find_struct_pos(&pkg.structs, name.as_str()) {
                    Some(si) => {
                        proof {
                            assert(find_struct(pkg@.structs, name@)->Some_0 == pkg.structs@[
                                si as int]@);
                        }
                        let mut prefix = base;
                        prefix.append(".");
                        let ok = expand_fields(
                            pkg,
                            &pkg.structs[si].fields,
                            0,
                            prefix,
                            fuel - 1,
                            out,
                        );
                        proof {
                            assert(pkg.structs@[si as int]@.fields.skip(0) =~= pkg.structs@[
                                si as int]@.fields);
                        }
                        ok
                    },
                    None => false,
                }
            },
            ComplexTypes::Unknown(_) => {
                proof {
                    assert(entries_view(out@) =~= entries_view(old(out)@) + Seq::<
                        (Seq<char>, Seq<char>),
                    >::empty());
                }
                true
            },
        },
    }
}

/// Append the flattened entries of the array elements `k..` of a field.
fn expand_array(pkg: &Package, f: &StructField, prefix: &String, k: u32, fuel: usize, out: &mut Vec<
    (String, String),
>) -> (ok: bool)
    requires
        f@.array matches Some(n) && k <= n,
    ensures
        match flat_array(pkg@, f@, prefix@, k as int, fuel as nat) {
            Some(es) => ok && entries_view(final(out)@) == entries_view(old(out)@) + es,
            None => !ok,
        },
    decreases fuel, 2int, f@.array->Some_0 - k,
{
    let n = match f.array {
        Some(n) => n,
        None => {
            proof {
                assert(false);
            }
            return false;
        },
    };
    if k == n {
        proof {
            assert(entries_view(out@) =~= entries_view(out@) + Seq::<
                (Seq<char>, Seq<char>),
            >::empty());
        }
        true
    } else {
        let mut base = prefix.clone();
        base.append(f.name.as_str());
        base.append("[");
        let num = crate::generators::code_gen::u32_str(k);
        base.append(num.as_str());
        base.append("]");
        proof {
            assert(base@ =~= prefix@ + f@.name + "["@ + dec_str(k as int) + "]"@);
        }
        let ok1 = expand_elem(pkg, &f.t, base, fuel, out);
        if !ok1 {
            return false;
        }
        let ok2 = expand_array(pkg, f, prefix, k + 1, fuel, out);
        proof {
            if ok2 {
                if flat_array(pkg@, f@, prefix@, k as int, fuel as nat) is Some {
                    assert(entries_view(out@) =~= entries_view(old(out)@) + flat_array(
                        pkg@,
                        f@,
                        prefix@,
                        k as int,
                        fuel as nat,
                    )->Some_0);
                }
            }
        }
        ok2
    }
}

/// Append the flattened entries of one field.
fn expand_field(pkg: &Package, f: &StructField, prefix: &String, fuel: usize, out: &mut Vec<
    (String, String),
>) -> (ok: bool)
    ensures
        match flat_field(pkg@, f@, prefix@, fuel as nat) {
            Some(es) => ok && entries_view(final(out)@) == entries_view(old(out)@) + es,
            None => !ok,
        },
    decreases fuel, 3int, 0int,
{
    match f.array {
        None => {
            let mut base = prefix.clone();
            base.append(f.name.as_str());
            expand_elem(pkg, &f.t, base, fuel, out)
        },
        Some(_) => expand_array(pkg, f, prefix, 0, fuel, out),
    }
}

/// Append the flattened entries of `fields[i..]`.
fn expand_fields(
    pkg: &Package,
    fields: &Vec<StructField>,
    i: usize,
    prefix: String,
    fuel: usize,
    out: &mut Vec<(String, String)>,
) -> (ok: bool)
    requires
        i <= fields.len(),
    ensures
        match flat_fields(
            pkg@,
            fields@.map_values(|f: StructField| f@).skip(i as int),
            prefix@,
            fuel as nat,
        ) {
            Some(es) => ok && entries_view(final(out)@) == entries_view(old(out)@) + es,
            None => !ok,
        },
    decreases fuel, 4int, fields.len() - i,
{
    let ghost fv = fields@.map_values(|f: StructField| f@).skip(i as int);
    if i == fields.len() {
        proof {
            assert(fv.len() == 0);
            assert(entries_view(out@) =~= entries_view(out@) + Seq::<
                (Seq<char>, Seq<char>),
            >::empty());
        }
        true
    } else {
        proof {
            assert(fv[0] == fields@.map_values(|f: StructField| f@)[i as int]);
            assert(fv.drop_first() =~= fields@.map_values(|f: StructField| f@).skip(i as int + 1));
        }
        let ok1 = expand_field(pkg, &fields[i], &prefix, fuel, out);
        if !ok1 {
            return false;
        }
        let ok2 = expand_fields(pkg, fields, i + 1, prefix, fuel, out);
        proof {
            if ok2 {
                if flat_fields(pkg@, fv, prefix@, fuel as nat) is Some {
                    assert(entries_view(out@) =~= entries_view(old(out)@) + flat_fields(
                        pkg@,
                        fv,
                        prefix@,
                        fuel as nat,
                    )->Some_0);
                }
            }
        }
        ok2
    }
}

/// Whether the whole companion schema is producible: the package is named
/// and every struct's flattened properties and payload size resolve.
pub open spec fn kronos_ok(pkg: PackageV) -> bool {
    pkg.name is Some && (forall|i: int|
        0 <= i < pkg.structs.len() ==> flat_fields(
            pkg,
            (#[trigger] pkg.structs[i]).fields,
            Seq::empty(),
            size_fuel(pkg),
        ) is Some && struct_size(pkg, pkg.structs[i]) is Some)
}

impl KronosCodeGen {
    /// The flattened property entries of one struct: each reachable path
    /// paired with its type name, arrays expanded index by index.
    pub fn expand_property(s: &Struct, name: String, pkg: &Package) -> (r: Result<
        Vec<(String, String)>,
        CompileError,
    >)
        ensures
            match flat_fields(pkg@, s@.fields, name@, size_fuel(pkg@)) {
                Some(es) => r matches Ok(v) && entries_view(v@) == es,
                None => r is Err && r->Err_0@.ctx == ErrorType::CodeGenerator,
            },
    {
        let mut out: Vec<(String, String)> = Vec::new();
        let ok = expand_fields(pkg, &s.fields, 0, name, pkg.structs.len(), &mut out);
        proof {
            assert(s@.fields.skip(0) =~= s@.fields);
        }
        if ok {
            proof {
                if flat_fields(pkg@, s@.fields, name@, size_fuel(pkg@)) is Some {
                    assert(entries_view(out@) =~= flat_fields(
                        pkg@,
                        s@.fields,
                        name@,
                        size_fuel(pkg@),
                    )->Some_0);
                }
            }
            Ok(out)
        } else {
            Err(
                error(
                    ErrorType::CodeGenerator,
                    "Can't expand properties of unresolved type.",
                    1,
                    0,
                    0,
                ),
            )
        }
    }

    /// Build the whole companion schema for a package: per struct the
    /// flattened properties and the payload size.
    pub fn generate(pkg: &Package) -> (r: Result<KronosCodeGen, CompileError>)
        ensures
            r matches Ok(k) ==> (pkg@.name matches Some(nm) && k.package@ == nm
                && k.data@.len() == pkg@.structs.len() && k.size@.len() == pkg@.structs.len()
                && (forall|i: int|
                0 <= i < pkg@.structs.len() ==> (#[trigger] k.data@[i]).0@ == pkg@.structs[i].name
                    && flat_fields(pkg@, pkg@.structs[i].fields, Seq::empty(), size_fuel(pkg@))
                    == Some(entries_view(k.data@[i].1@))) && (forall|i: int|
                0 <= i < pkg@.structs.len() ==> (#[trigger] k.size@[i]).0@ == pkg@.structs[i].name
                    && struct_size(pkg@, pkg@.structs[i]) == Some(k.size@[i].1 as int))),
            r is Ok <==> kronos_ok(pkg@),
            r is Err ==> r->Err_0@.ctx == ErrorType::CodeGenerator,
    {
        let ghost pv = pkg@;
        let package = match &pkg.name {
            Some(n) => n.clone(),
            None => {
                return Err(
                    error(ErrorType::CodeGenerator, "Package name not declared.", 1, 0, 0),
                );
            },
        };
        let mut data: Vec<(String, Vec<(String, String)>)> = Vec::new();
        let mut size: Vec<(String, u32)> = Vec::new();
        let n = pkg.structs.len();
        let mut i: usize = 0;
        while i < n
            invariant
                i <= n,
                n == pkg.structs@.len(),
                pv == pkg@,
                data@.len() == i,
                size@.len() == i,
                forall|j: int|
                    0 <= j < i ==> (#[trigger] data@[j]).0@ == pv.structs[j].name && flat_fields(
                        pv,
                        pv.structs[j].fields,
                        Seq::empty(),
                        size_fuel(pv),
                    ) == Some(entries_view(data@[j].1@)),
                forall|j: int|
                    0 <= j < i ==> (#[trigger] size@[j]).0@ == pv.structs[j].name && struct_size(
                        pv,
                        pv.structs[j],
                    ) == Some(size@[j].1 as int),
            decreases n - i,
        {
            let entries = match Self::expand_property(&pkg.structs[i], String::new(), pkg) {
                Ok(es) => es,
                Err(e) => {
                    proof {
                        assert(!kronos_ok(pv)) by {
                            assert(flat_fields(
                                pv,
                                pv.structs[i as int].fields,
                                Seq::empty(),
                                size_fuel(pv),
                            ) is None);
                        }
                    }
                    return Err(e);
                },
            };
            let sz = match pkg.structs[i].size(pkg) {
                Some(sz) => sz,
                None => {
                    proof {
                        crate::ast::lemma_fields_size_le_max(
                            pv,
                            pv.structs[i as int].fields,
                            size_fuel(pv),
                        );
                    }
                    proof {
                        assert(!kronos_ok(pv)) by {
                            assert(struct_size(pv, pv.structs[i as int]) is None);
                        }
                    }
                    return Err(
                        error(
                            ErrorType::CodeGenerator,
                            "Can't return size of unresolved type.",
                            1,
                            0,
                            0,
                        ),
                    );
                },
            };
            proof {
                crate::ast::lemma_fields_size_nonneg(pv, pv.structs[i as int].fields, size_fuel(pv));
            }
            data.push((pkg.structs[i].name.clone(), entries));
            size.push((pkg.structs[i].name.clone(), sz));
            i += 1;
        }
        proof {
            assert forall|ii: int| 0 <= ii < pv.structs.len() implies flat_fields(
                pv,
                (#[trigger] pv.structs[ii]).fields,
                Seq::empty(),
                size_fuel(pv),
            ) is Some && struct_size(pv, pv.structs[ii]) is Some by {
                assert((data@[ii]).0@ == pv.structs[ii].name);
                assert((size@[ii]).0@ == pv.structs[ii].name);
            }
            assert(kronos_ok(pv));
        }
        Ok(KronosCodeGen { package, data, size })
    }
}

} // verus!

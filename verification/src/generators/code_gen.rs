//! The shared surface of the code generators: the target-language selector,
//! the generator trait, and the text helpers every backend uses.

use vstd::prelude::*;

use vstd::seq_lib::*;
use vstd::set_lib::{lemma_int_range, lemma_len_subset, set_int_range};

use crate::ast::{str_eq, FieldTypeV, Package, PackageV, PrimitiveTypes};
use crate::error::CompileError;

verus! {

/// The decimal digit character for `d`.
pub open spec fn digit_ch(d: int) -> char {
    ((48 + d) as u8) as char
}

/// The decimal spelling of a nonnegative number.
pub open spec fn dec_str(n: int) -> Seq<char>
    decreases n,
{
    if n < 0 {
        Seq::empty()
    } else if n < 10 {
        seq![digit_ch(n)]
    } else {
        dec_str(n / 10).push(digit_ch(n % 10))
    }
}

/// The one-character string for a decimal digit.
fn digit_str(d: u32) -> (r: &'static str)
    requires
        d < 10,
    ensures
        r@ == seq![digit_ch(d as int)],
{
    proof {
        reveal_strlit("0");
        reveal_strlit("1");
        reveal_strlit("2");
        reveal_strlit("3");
        reveal_strlit("4");
        reveal_strlit("5");
        reveal_strlit("6");
        reveal_strlit("7");
        reveal_strlit("8");
        reveal_strlit("9");
    }
    if d == 0 {
        "0"
    } else if d == 1 {
        "1"
    } else if d == 2 {
        "2"
    } else if d == 3 {
        "3"
    } else if d == 4 {
        "4"
    } else if d == 5 {
        "5"
    } else if d == 6 {
        "6"
    } else if d == 7 {
        "7"
    } else if d == 8 {
        "8"
    } else {
        "9"
    }
}

/// The decimal spelling of a `u32`.
pub fn u32_str(n: u32) -> (r: String)
    ensures
        r@ == dec_str(n as int),
    decreases n,
{
    if n < 10 {
        digit_str(n).to_owned()
    } else {
        let mut s = u32_str(n / 10);
        s.append(digit_str(n % 10));
        proof {
            assert(s@ =~= dec_str(n as int));
        }
        s
    }
}

/// The schema spelling of a field type (the referenced name for struct,
/// enum and unknown types).
pub open spec fn type_str(t: FieldTypeV) -> Seq<char> {
    match t {
        FieldTypeV::Primitive(p) => p.spec_str(),
        FieldTypeV::Struct(n) => n,
        FieldTypeV::Enum(n) => n,
        FieldTypeV::Unknown(n) => n,
    }
}

/// The supported target languages, each carrying its generator.
pub enum Langs {
    RUST(crate::generators::rust::Rust),
    PYTHON(crate::generators::python::Python),
    CPP(crate::generators::cpp::CPP),
}

impl Langs {
    /// Select a target language by name; `None` for an unsupported name.
    pub fn from_string(s: &str) -> (r: Option<Langs>)
        ensures
            r is Some <==> (s@ == "rust"@ || s@ == "rs"@ || s@ == "python"@ || s@ == "py"@ || s@
                == "c++"@ || s@ == "cpp"@),
            r matches Some(l) ==> (l is RUST <==> (s@ == "rust"@ || s@ == "rs"@)) && (l is PYTHON
                <==> (s@ == "python"@ || s@ == "py"@)) && (l is CPP <==> (s@ == "c++"@ || s@
                == "cpp"@)),
    {
        proof {
            reveal_strlit("rust");
            reveal_strlit("rs");
            reveal_strlit("python");
            reveal_strlit("py");
            reveal_strlit("c++");
            reveal_strlit("cpp");
            assert("rust"@.len() == 4 && "python"@.len() == 6 && "rs"@.len() == 2 && "py"@.len()
                == 2 && "c++"@.len() == 3 && "cpp"@.len() == 3);
            assert("rs"@[0] == 'r' && "py"@[0] == 'p');
            assert("c++"@[1] == '+' && "cpp"@[1] == 'p');
        }
        if str_eq(s, "rust") || str_eq(s, "rs") {
            Some(Langs::RUST(crate::generators::rust::Rust {  }))
        } else if str_eq(s, "python") || str_eq(s, "py") {
            Some(Langs::PYTHON(crate::generators::python::Python {  }))
        } else if str_eq(s, "c++") || str_eq(s, "cpp") {
            Some(Langs::CPP(crate::generators::cpp::CPP {  }))
        } else {
            None
        }
    }

    /// The file extension of the generated source.
    pub fn ext(&self) -> (r: &str)
        ensures
            *self is RUST ==> r@ == "rs"@,
            *self is PYTHON ==> r@ == "py"@,
            *self is CPP ==> r@ == "hpp"@,
    {
        match self {
            Langs::RUST(_) => "rs",
            Langs::PYTHON(_) => "py",
            Langs::CPP(_) => "hpp",
        }
    }
}

/// A code generator: a pure function from the AST to one target language's
/// source text, or the fault that prevents generation (an unresolved type
/// reference, a cyclic embedding, or an incomplete package).
pub trait CodeGen {
    fn gen_code(&self, package: &Package) -> Result<String, CompileError>;
}

/// A valid emission order: a permutation of the package's struct indices in
/// which every struct-typed field dependency that resolves comes before the
/// struct that embeds it.
pub open spec fn order_ok(pkg: crate::ast::PackageV, ord: Seq<int>) -> bool {
    ord.len() == pkg.structs.len() && (forall|p: int|
        0 <= p < ord.len() ==> 0 <= #[trigger] ord[p] < pkg.structs.len()) && (forall|p: int, q: int|
        0 <= p < q < ord.len() ==> ord[p] != ord[q]) && (forall|p: int, fi: int|
        0 <= p < ord.len() && 0 <= fi < pkg.structs[ord[p]].fields.len()
            ==> match (#[trigger] pkg.structs[ord[p]].fields[fi]).t {
            FieldTypeV::Struct(name) => match crate::ast::struct_idx(pkg.structs, name) {
                Some(ti) => exists|q: int| 0 <= q < p && ord[q] == ti,
                None => true,
            },
            _ => true,
        })
}

/// Whether every struct-typed field of struct `i` that resolves points at a
/// struct marked done.
pub open spec fn deps_in(pkg: PackageV, i: int, done: Seq<bool>) -> bool {
    forall|fi: int|
        0 <= fi < pkg.structs[i].fields.len() ==> match (#[trigger] pkg.structs[i].fields[fi]).t {
            FieldTypeV::Struct(name) => match crate::ast::struct_idx(pkg.structs, name) {
                Some(ti) => done[ti],
                None => true,
            },
            _ => true,
        }
}

/// One greedy sweep over the structs from index `i` on: place every struct
/// whose dependencies are already placed, in index order.
pub open spec fn sweep_v(pkg: PackageV, placed: Seq<bool>, ord: Seq<int>, i: int) -> (
    Seq<bool>,
    Seq<int>,
)
    decreases pkg.structs.len() - i,
{
    let n = pkg.structs.len() as int;
    if i < 0 || i >= n {
        (placed, ord)
    } else if !placed[i] && ord.len() < n && deps_in(pkg, i, placed) {
        sweep_v(pkg, placed.update(i, true), ord.push(i), i + 1)
    } else {
        sweep_v(pkg, placed, ord, i + 1)
    }
}

/// Greedy sweeps until every struct is placed; a sweep without progress
/// means a cyclic dependency and yields no order.
pub open spec fn rounds_v(pkg: PackageV, placed: Seq<bool>, ord: Seq<int>) -> Option<Seq<int>>
    decreases pkg.structs.len() - ord.len(),
{
    let n = pkg.structs.len() as int;
    if ord.len() >= n {
        Some(ord)
    } else {
        let swept = sweep_v(pkg, placed, ord, 0);
        if swept.1.len() <= ord.len() || swept.1.len() > n {
            None
        } else {
            rounds_v(pkg, swept.0, swept.1)
        }
    }
}

/// The canonical emission order of a package: the order the greedy sweeps
/// produce, or nothing for a cyclic embedding dependency.
pub open spec fn emission_order_v(pkg: PackageV) -> Option<Seq<int>> {
    rounds_v(pkg, Seq::new(pkg.structs.len(), |j: int| false), Seq::empty())
}

/// A sequence of `n` distinct indices below `n` contains every such index.
pub(crate) proof fn lemma_distinct_full_covers(ord: Seq<int>, n: int, j: int)
    requires
        ord.len() == n,
        0 <= j < n,
        forall|p: int| 0 <= p < ord.len() ==> 0 <= #[trigger] ord[p] < n,
        forall|p: int, q: int| 0 <= p < q < ord.len() ==> ord[p] != ord[q],
    ensures
        exists|p: int| 0 <= p < ord.len() && ord[p] == j,
{
    assert(ord.no_duplicates()) by {
        assert forall|p: int, q: int|
            0 <= p < ord.len() && 0 <= q < ord.len() && p != q implies ord[p] != ord[q] by {
            if p < q {
            } else {
                assert(ord[q] != ord[p]);
            }
        }
    }
    ord.unique_seq_to_set();
    lemma_int_range(0, n);
    let range = set_int_range(0, n);
    assert(ord.to_set().subset_of(range)) by {
        assert forall|x: int| ord.to_set().contains(x) implies range.contains(x) by {
            let p = choose|p: int| 0 <= p < ord.len() && ord[p] == x;
            assert(0 <= ord[p] < n);
        }
    }
    if !ord.to_set().contains(j) {
        assert(ord.to_set().subset_of(range.remove(j)));
        lemma_len_subset(ord.to_set(), range.remove(j));
        assert(range.contains(j));
        assert(range.remove(j).len() == n - 1);
        assert(false);
    }
    assert(ord.contains(j));
}

/// When no unplaced struct has all its dependencies placed, any valid
/// emission order has every position's struct already placed.
proof fn lemma_valid_order_all_placed(pkg: PackageV, w: Seq<int>, placed: Seq<bool>, k: int)
    requires
        order_ok(pkg, w),
        placed.len() == pkg.structs.len(),
        forall|ii: int|
            0 <= ii < placed.len() ==> placed[ii] || !deps_in(pkg, ii, placed),
        0 <= k <= w.len(),
    ensures
        forall|q: int| 0 <= q < k ==> placed[#[trigger] w[q]],
    decreases k,
{
    if k > 0 {
        lemma_valid_order_all_placed(pkg, w, placed, k - 1);
        let s = w[k - 1];
        assert(0 <= s < pkg.structs.len());
        assert(deps_in(pkg, s, placed)) by {
            assert forall|fi: int|
                0 <= fi < pkg.structs[s].fields.len() implies match (#[trigger] pkg.structs[
            s].fields[fi]).t {
                FieldTypeV::Struct(name) => match crate::ast::struct_idx(pkg.structs, name) {
                    Some(ti) => placed[ti],
                    None => true,
                },
                _ => true,
            } by {
                match pkg.structs[s].fields[fi].t {
                    FieldTypeV::Struct(name) => {
                        match crate::ast::struct_idx(pkg.structs, name) {
                            Some(ti) => {
                                assert(pkg.structs[w[k - 1]].fields[fi].t matches
                                    FieldTypeV::Struct(nm) && nm == name);
                                assert(exists|q: int| 0 <= q < k - 1 && w[q] == ti);
                                let q = choose|q: int| 0 <= q < k - 1 && w[q] == ti;
                                assert(placed[w[q]]);
                            },
                            None => {},
                        }
                    },
                    _ => {},
                }
            }
        }
        assert(placed[s]);
    }
}

/// Whether every struct-typed field of `structs[i]` that resolves points at
/// an already-placed struct.
fn deps_placed(pkg: &Package, i: usize, placed: &Vec<bool>) -> (r: bool)
    requires
        i < pkg.structs@.len(),
        placed@.len() == pkg.structs@.len(),
    ensures
        r == deps_in(pkg@, i as int, placed@),
{
    let fields = &pkg.structs[i].fields;
    let ghost fv = pkg@.structs[i as int].fields;
    let mut fi: usize = 0;
    while fi < fields.len()
        invariant
            fi <= fields.len(),
            fv == pkg@.structs[i as int].fields,
            fv == fields@.map_values(|f: crate::ast::StructField| f@),
            i < pkg.structs@.len(),
            placed@.len() == pkg.structs@.len(),
            forall|k: int|
                0 <= k < fi ==> match (#[trigger] fv[k]).t {
                    FieldTypeV::Struct(name) => match crate::ast::struct_idx(pkg@.structs, name) {
                        Some(ti) => placed@[ti],
                        None => true,
                    },
                    _ => true,
                },
        decreases fields.len() - fi,
    {
        match &fields[fi].t {
            crate::ast::FieldType::COMPLEX(crate::ast::ComplexTypes::Struct(name)) => {
                match crate::ast::find_struct_pos(&pkg.structs, name.as_str()) {
                    Some(ti) => {
                        if !placed[ti] {
                            proof {
                                assert(fv[fi as int].t matches FieldTypeV::Struct(nm)
                                    && crate::ast::struct_idx(pkg@.structs, nm) == Some(ti as int));
                            }
                            return false;
                        }
                    },
                    None => {},
                }
            },
            _ => {},
        }
        fi += 1;
    }
    true
}

/// Compute the struct emission order: structs with no struct-typed fields
/// first, then any struct whose dependencies are all already emitted, until
/// none remain. A cyclic embedding dependency is reported as a fault.
pub fn emission_order(pkg: &Package) -> (r: Result<Vec<usize>, CompileError>)
    ensures
        r matches Ok(ord) ==> order_ok(pkg@, ord@.map_values(|u: usize| u as int))
            && emission_order_v(pkg@) == Some(ord@.map_values(|u: usize| u as int)),
        r matches Err(e) ==> e@.msg == "Cyclic type dependency."@ && e@.ctx
            == crate::error::ErrorType::CodeGenerator,
        r is Err ==> emission_order_v(pkg@) is None,
        (exists|w: Seq<int>| order_ok(pkg@, w)) ==> r is Ok,
{
    let n = pkg.structs.len();
    let mut placed: Vec<bool> = Vec::new();
    let mut k: usize = 0;
    while k < n
        invariant
            k <= n,
            placed@.len() == k,
            forall|j: int| 0 <= j < k ==> !placed@[j],
        decreases n - k,
    {
        placed.push(false);
        k += 1;
    }
    proof {
        assert(placed@ =~= Seq::new(pkg.structs@.len(), |j: int| false));
    }
    let mut ord: Vec<usize> = Vec::new();
    proof {
        assert(ord@.map_values(|u: usize| u as int) =~= Seq::<int>::empty());
    }
    let ghost gn = pkg.structs@.len() as int;
    while ord.len() < n
        invariant
            n == pkg.structs@.len(),
            placed@.len() == n,
            ord@.len() <= n,
            rounds_v(pkg@, placed@, ord@.map_values(|u: usize| u as int)) == emission_order_v(
                pkg@,
            ),
            forall|p: int| 0 <= p < ord@.len() ==> (#[trigger] ord@[p]) < n,
            forall|p: int, q: int| 0 <= p < q < ord@.len() ==> ord@[p] != ord@[q],
            forall|j: int|
                0 <= j < n ==> (placed@[j] <==> exists|q: int|
                    0 <= q < ord@.len() && ord@[q] == j),
            forall|p: int, fi: int|
                0 <= p < ord@.len() && 0 <= fi < pkg@.structs[ord@[p] as int].fields.len()
                    ==> match (#[trigger] pkg@.structs[ord@[p] as int].fields[fi]).t {
                    FieldTypeV::Struct(name) => match crate::ast::struct_idx(pkg@.structs, name) {
                        Some(ti) => exists|q: int| 0 <= q < p && ord@[q] == ti,
                        None => true,
                    },
                    _ => true,
                },
        decreases n - ord.len(),
    {
        let mut progress = false;
        let mut i: usize = 0;
        let ghost len0 = ord@.len();
        let ghost placed_s0 = placed@;
        let ghost ord_s0 = ord@.map_values(|u: usize| u as int);
        while i < n
            invariant
                n == pkg.structs@.len(),
                placed@.len() == n,
                ord@.len() <= n,
                ord@.len() >= len0,
                len0 < n,
                rounds_v(pkg@, placed_s0, ord_s0) == emission_order_v(pkg@),
                ord_s0.len() == len0,
                sweep_v(pkg@, placed_s0, ord_s0, 0) == sweep_v(
                    pkg@,
                    placed@,
                    ord@.map_values(|u: usize| u as int),
                    i as int,
                ),
                progress ==> ord@.len() > len0,
                !progress ==> ord@.len() == len0,
                !progress ==> forall|ii: int|
                    0 <= ii < i ==> placed@[ii] || !deps_in(pkg@, ii, placed@),
                forall|p: int| 0 <= p < ord@.len() ==> (#[trigger] ord@[p]) < n,
                forall|p: int, q: int| 0 <= p < q < ord@.len() ==> ord@[p] != ord@[q],
                forall|j: int|
                    0 <= j < n ==> (placed@[j] <==> exists|q: int|
                        0 <= q < ord@.len() && ord@[q] == j),
                forall|p: int, fi: int|
                    0 <= p < ord@.len() && 0 <= fi < pkg@.structs[ord@[p] as int].fields.len()
                        ==> match (#[trigger] pkg@.structs[ord@[p] as int].fields[fi]).t {
                        FieldTypeV::Struct(name) => match crate::ast::struct_idx(
                            pkg@.structs,
                            name,
                        ) {
                            Some(ti) => exists|q: int| 0 <= q < p && ord@[q] == ti,
                            None => true,
                        },
                        _ => true,
                    },
            decreases n - i,
        {
            if !placed[i] && ord.len() < n {
                if deps_placed(pkg, i, &placed) {
                    let ghost ord0 = ord@;
                    let ghost placed0 = placed@;
                    ord.push(i);
                    placed.set(i, true);
                    progress = true;
                    proof {
                        assert(ord@.map_values(|u: usize| u as int) =~= ord0.map_values(
                            |u: usize| u as int,
                        ).push(i as int));
                        assert forall|j: int|
                            0 <= j < n implies (placed@[j] <==> exists|q: int|
                            0 <= q < ord@.len() && ord@[q] == j) by {
                            if j == i as int {
                                assert(ord@[ord@.len() - 1] == i);
                            } else {
                                if exists|q: int| 0 <= q < ord0.len() && ord0[q] == j {
                                    let q = choose|q: int| 0 <= q < ord0.len() && ord0[q] == j;
                                    assert(ord@[q] == j);
                                }
                                if exists|q: int| 0 <= q < ord@.len() && ord@[q] == j {
                                    let q = choose|q: int| 0 <= q < ord@.len() && ord@[q] == j;
                                    assert(q < ord0.len() && ord0[q] == j);
                                }
                            }
                        }
                        assert forall|p: int, fi: int|
                            0 <= p < ord@.len() && 0 <= fi < pkg@.structs[
                            ord@[p] as int].fields.len() implies match (#[trigger] pkg@.structs[
                        ord@[p] as int].fields[fi]).t {
                            FieldTypeV::Struct(name) => match crate::ast::struct_idx(
                                pkg@.structs,
                                name,
                            ) {
                                Some(ti) => exists|q: int| 0 <= q < p && ord@[q] == ti,
                                None => true,
                            },
                            _ => true,
                        } by {
                            if p < ord0.len() {
                                assert(ord@[p] == ord0[p]);
                                match pkg@.structs[ord0[p] as int].fields[fi].t {
                                    FieldTypeV::Struct(name) => {
                                        match crate::ast::struct_idx(pkg@.structs, name) {
                                            Some(ti) => {
                                                let q = choose|q: int|
                                                    0 <= q < p && ord0[q] == ti;
                                                assert(ord@[q] == ti);
                                            },
                                            None => {},
                                        }
                                    },
                                    _ => {},
                                }
                            } else {
                                assert(ord@[p] == i);
                                match pkg@.structs[i as int].fields[fi].t {
                                    FieldTypeV::Struct(name) => {
                                        match crate::ast::struct_idx(pkg@.structs, name) {
                                            Some(ti) => {
                                                crate::ast::lemma_struct_idx(pkg@.structs, name);
                                                assert(0 <= ti < n);
                                                assert(placed0[ti]);
                                                assert(exists|q: int|
                                                    0 <= q < ord0.len() && ord0[q] == ti);
                                                let q = choose|q: int|
                                                    0 <= q < ord0.len() && ord0[q] == ti;
                                                assert(ord@[q] == ti);
                                            },
                                            None => {},
                                        }
                                    },
                                    _ => {},
                                }
                            }
                        }
                    }
                }
            }
            i += 1;
        }
        if !progress {
            proof {
                if exists|w: Seq<int>| order_ok(pkg@, w) {
                    let w = choose|w: Seq<int>| order_ok(pkg@, w);
                    lemma_valid_order_all_placed(pkg@, w, placed@, w.len() as int);
                    let gord = ord@.map_values(|u: usize| u as int);
                    assert(w.no_duplicates()) by {
                        assert forall|p: int, q: int|
                            0 <= p < w.len() && 0 <= q < w.len() && p != q implies w[p] != w[q] by {
                            if p < q {
                            } else {
                                assert(w[q] != w[p]);
                            }
                        }
                    }
                    w.unique_seq_to_set();
                    gord.lemma_cardinality_of_set();
                    assert(w.to_set().subset_of(gord.to_set())) by {
                        assert forall|x: int|
                            w.to_set().contains(x) implies gord.to_set().contains(x) by {
                            let p = choose|p: int| 0 <= p < w.len() && w[p] == x;
                            assert(placed@[w[p]]);
                            assert(0 <= x < n);
                            let q = choose|q: int| 0 <= q < ord@.len() && ord@[q] == x;
                            assert(gord[q] == x);
                            assert(gord.contains(x));
                        }
                    }
                    lemma_len_subset(w.to_set(), gord.to_set());
                    assert(w.to_set().len() == w.len() && w.len() == pkg@.structs.len());
                    assert(gord.to_set().len() <= gord.len() && gord.len() < n);
                    assert(false);
                }
            }
            return Err(
                crate::error::error(
                    crate::error::ErrorType::CodeGenerator,
                    "Cyclic type dependency.",
                    1,
                    0,
                    0,
                ),
            );
        }
    }
    proof {
        assert(ord@.len() == n);
        let m = ord@.map_values(|u: usize| u as int);
        assert forall|p: int| 0 <= p < m.len() implies 0 <= #[trigger] m[p] < pkg@.structs.len()
        by {
            assert(m[p] == ord@[p] as int);
        }
        assert forall|p: int, q: int| 0 <= p < q < m.len() implies m[p] != m[q] by {
            assert(m[p] == ord@[p] as int && m[q] == ord@[q] as int);
        }
        assert forall|p: int, fi: int|
            0 <= p < m.len() && 0 <= fi < pkg@.structs[m[p]].fields.len() implies match (
        #[trigger] pkg@.structs[m[p]].fields[fi]).t {
            FieldTypeV::Struct(name) => match crate::ast::struct_idx(pkg@.structs, name) {
                Some(ti) => exists|q: int| 0 <= q < p && m[q] == ti,
                None => true,
            },
            _ => true,
        } by {
            assert(m[p] == ord@[p] as int);
            match pkg@.structs[ord@[p] as int].fields[fi].t {
                FieldTypeV::Struct(name) => {
                    match crate::ast::struct_idx(pkg@.structs, name) {
                        Some(ti) => {
                            let q = choose|q: int| 0 <= q < p && ord@[q] == ti;
                            assert(m[q] == ti);
                        },
                        None => {},
                    }
                },
                _ => {},
            }
        }
    }
    Ok(ord)
}

} // verus!

//! Package-level code generation for the Rust backend: one module holding
//! every enum and, in dependency order, every struct.

use vstd::prelude::*;

use crate::ast::{Package, PackageV};
use crate::error::{error, CompileError, ErrorType};
use crate::generators::code_gen::{emission_order, emission_order_v, order_ok};
use crate::generators::rust::enumeration::enum_text;
use crate::generators::rust::structure::struct_text;

verus! {

/// The enum texts from position `i` on, in declaration order.
pub open spec fn enums_from(pkg: PackageV, i: int) -> Seq<char>
    decreases pkg.enums.len() - i,
{
    if i < 0 || i >= pkg.enums.len() {
        Seq::empty()
    } else {
        enum_text(pkg.enums[i]) + enums_from(pkg, i + 1)
    }
}

/// The struct texts in emission order from position `k` on, if they all
/// resolve.
pub open spec fn structs_by_order(pkg: PackageV, ord: Seq<int>, k: int) -> Option<Seq<char>>
    decreases ord.len() - k,
{
    if k < 0 || k >= ord.len() {
        Some(Seq::empty())
    } else {
        match (struct_text(pkg, pkg.structs[ord[k]]), structs_by_order(pkg, ord, k + 1)) {
            (Some(a), Some(b)) => Some(a + b),
            _ => None,
        }
    }
}

/// The struct texts for the first `k` positions of the order.
pub open spec fn structs_prefix(pkg: PackageV, ord: Seq<int>, k: int) -> Option<Seq<char>>
    decreases k,
{
    if k <= 0 {
        Some(Seq::empty())
    } else {
        match (structs_prefix(pkg, ord, k - 1), struct_text(pkg, pkg.structs[ord[k - 1]])) {
            (Some(a), Some(b)) => Some(a + b),
            _ => None,
        }
    }
}

/// Splitting the ordered struct texts at `k`.
#[verifier::rlimit(100)]
#[verifier::spinoff_prover]
proof fn lemma_prefix_from(pkg: PackageV, ord: Seq<int>, k: int)
    requires
        0 <= k <= ord.len(),
        structs_prefix(pkg, ord, k) is Some,
        structs_by_order(pkg, ord, k) is Some,
    ensures
        structs_by_order(pkg, ord, 0) == Some(
            structs_prefix(pkg, ord, k)->Some_0 + structs_by_order(pkg, ord, k)->Some_0,
        ),
    decreases k,
{
    if k == 0 {
        assert(Seq::<char>::empty() + structs_by_order(pkg, ord, 0)->Some_0 =~= structs_by_order(
            pkg,
            ord,
            0,
        )->Some_0);
    } else {
        assert(structs_by_order(pkg, ord, k - 1) == Some(
            struct_text(pkg, pkg.structs[ord[k - 1]])->Some_0 + structs_by_order(
                pkg,
                ord,
                k,
            )->Some_0,
        ));
        lemma_prefix_from(pkg, ord, k - 1);
        assert((structs_prefix(pkg, ord, k - 1)->Some_0 + struct_text(
            pkg,
            pkg.structs[ord[k - 1]],
        )->Some_0) + structs_by_order(pkg, ord, k)->Some_0 =~= structs_prefix(pkg, ord, k - 1)
            ->Some_0 + (struct_text(pkg, pkg.structs[ord[k - 1]])->Some_0 + structs_by_order(
            pkg,
            ord,
            k,
        )->Some_0));
    }
}

/// An unresolvable struct text at one position makes the whole ordered run
/// unresolvable.
proof fn lemma_by_order_none(pkg: PackageV, ord: Seq<int>, j: int, k: int)
    requires
        0 <= j <= k < ord.len(),
        struct_text(pkg, pkg.structs[ord[k]]) is None,
    ensures
        structs_by_order(pkg, ord, j) is None,
    decreases k - j,
{
    if j < k {
        lemma_by_order_none(pkg, ord, j + 1, k);
    }
}

/// A resolvable ordered struct-text run has a resolvable text at every
/// position.
proof fn lemma_by_order_each(pkg: PackageV, ord: Seq<int>, k: int)
    requires
        0 <= k,
        structs_by_order(pkg, ord, k) is Some,
    ensures
        forall|p: int|
            k <= p < ord.len() ==> struct_text(pkg, pkg.structs[#[trigger] ord[p]]) is Some,
    decreases ord.len() - k,
{
    if k < ord.len() {
        lemma_by_order_each(pkg, ord, k + 1);
    }
}

/// The full Rust text of the package module for a given emission order.
pub open spec fn package_text(pkg: PackageV, ord: Seq<int>) -> Option<Seq<char>> {
    match pkg.name {
        Some(name) => match structs_by_order(pkg, ord, 0) {
            Some(body) => Some(
                "pub mod "@ + name + " {\n"@ + enums_from(pkg, 0) + body + "}\n"@,
            ),
            None => None,
        },
        None => None,
    }
}

/// Generate the Rust text of the package module: every enum, then every
/// struct in an order where each embedded struct is emitted before the
/// struct that embeds it.
#[verifier::rlimit(100)]
#[verifier::spinoff_prover]
pub fn gen_code(package: &Package) -> (r: Result<String, CompileError>)
    ensures
        r matches Ok(t) ==> exists|ord: Seq<int>|
            order_ok(package@, ord) && package_text(package@, ord) == Some(t@),
        r is Err ==> r->Err_0@.ctx == ErrorType::CodeGenerator,
        (exists|ord: Seq<int>|
            order_ok(package@, ord) && package_text(package@, ord) is Some) ==> r is Ok,
        r matches Ok(t) ==> (emission_order_v(package@) matches Some(cord) && package_text(
            package@,
            cord,
        ) == Some(t@)),
        (emission_order_v(package@) matches Some(cord) && package_text(package@, cord)
            is Some) ==> r is Ok,
{
    let ghost pv = package@;
    let name = match &package.name {
        Some(n) => n.clone(),
        None => {
            proof {
                assert forall|ordx: Seq<int>| #[trigger] package_text(pv, ordx) is None by {}
            }
            return Err(error(ErrorType::CodeGenerator, "Package name not declared.", 1, 0, 0));
        },
    };
    let ord = match emission_order(package) {
        Ok(o) => o,
        Err(e) => {
            proof {
                if exists|ordx: Seq<int>|
                    order_ok(pv, ordx) && package_text(pv, ordx) is Some {
                    let ordx = choose|ordx: Seq<int>|
                        order_ok(pv, ordx) && package_text(pv, ordx) is Some;
                    assert(order_ok(pv, ordx));
                    assert(false);
                }
            }
            return Err(e);
        },
    };
    let ghost gord = ord@.map_values(|u: usize| u as int);
    let mut out = "pub mod ".to_owned();
    out.append(name.as_str());
    out.append(" {\n");
    let ghost head1 = out@;
    let en = package.enums.len();
    let mut i: usize = 0;
    while i < en
        invariant
            i <= en,
            en == package.enums@.len(),
            pv == package@,
            out@ + enums_from(pv, i as int) == head1 + enums_from(pv, 0),
        decreases en - i,
    {
        let etext = crate::generators::rust::enumeration::gen_code(&package.enums[i], package);
        out.append(etext.as_str());
        proof {
            assert(out@ + enums_from(pv, i + 1) =~= head1 + enums_from(pv, 0));
        }
        i += 1;
    }
    proof {
        assert(out@ =~= head1 + enums_from(pv, 0));
    }
    let ghost head2 = out@;
    let sn = ord.len();
    let mut k: usize = 0;
    while k < sn
        invariant
            k <= sn,
            sn == ord@.len(),
            pv == package@,
            gord == ord@.map_values(|u: usize| u as int),
            order_ok(pv, gord),
            emission_order_v(pv) == Some(gord),
            structs_prefix(pv, gord, k as int) matches Some(p) && out@ == head2 + p,
        decreases sn - k,
    {
        proof {
            assert(gord[k as int] == ord@[k as int] as int);
            assert(0 <= gord[k as int] < pv.structs.len());
        }
        let si = ord[k];
        let stext = match crate::generators::rust::structure::gen_code(
            &package.structs[si],
            package,
        ) {
            Ok(t) => t,
            Err(e) => {
                proof {
                    if exists|ordx: Seq<int>|
                        order_ok(pv, ordx) && package_text(pv, ordx) is Some {
                        let ordx = choose|ordx: Seq<int>|
                            order_ok(pv, ordx) && package_text(pv, ordx) is Some;
                        lemma_by_order_each(pv, ordx, 0);
                        crate::generators::code_gen::lemma_distinct_full_covers(
                            ordx,
                            pv.structs.len() as int,
                            gord[k as int],
                        );
                        let px = choose|px: int|
                            0 <= px < ordx.len() && ordx[px] == gord[k as int];
                        assert(struct_text(pv, pv.structs[ordx[px]]) is Some);
                        assert(false);
                    }
                    assert(emission_order_v(pv) == Some(gord));
                    if package_text(pv, gord) is Some {
                        lemma_by_order_none(pv, gord, 0, k as int);
                        assert(false);
                    }
                }
                return Err(e);
            },
        };
        out.append(stext.as_str());
        proof {
            assert(structs_prefix(pv, gord, k + 1) matches Some(p) && out@ =~= head2 + p);
        }
        k += 1;
    }
    proof {
        lemma_prefix_from(pv, gord, sn as int);
        assert(out@ =~= head2 + structs_by_order(pv, gord, 0)->Some_0);
    }
    out.append("}\n");
    proof {
        assert(package_text(pv, gord) == Some(
            "pub mod "@ + pv.name->Some_0 + " {\n"@ + enums_from(pv, 0) + structs_by_order(
                pv,
                gord,
                0,
            )->Some_0 + "}\n"@,
        ));
        assert(out@ =~= package_text(pv, gord)->Some_0);
        assert(emission_order_v(pv) == Some(gord));
    }
    Ok(out)
}

} // verus!

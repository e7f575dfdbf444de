//! The recursive-descent parser: a single pass over the token stream that
//! builds the package, enforcing the schema grammar and its validation rules
//! (single version/package declaration before any type, unique names, brace
//! discipline), and resolving each field type against the primitives and the
//! tokenizer's pre-scanned struct/enum names. The whole pass is specified by
//! `spec_parse`.

use vstd::prelude::*;
use vstd::string::StrSliceExecFns;

use crate::ast::{
    self, enum_idx, field_idx, lemma_enum_idx, lemma_struct_idx, struct_idx, variant_idx,
    EnumV, EnumVariant, FieldTypeV, FieldV, Package, PackageV, PrimitiveTypes, StructField,
    StructV,
    VariantV, AST,
};
use crate::ast::str_eq;
use crate::ast::FieldType;
use crate::error::{error, CompileError, ErrorType};
use crate::token::{Token, TokenTypes, TokenV};
use crate::tokenizer::Tokenizer;

verus! {

/// The parser's control state: the package under construction, the brace
/// depth, and which struct or enum body is currently open.
#[verifier::ext_equal]
pub struct PState {
    pub pkg: PackageV,
    pub curly: int,
    pub in_struct: Option<Seq<char>>,
    pub in_enum: Option<Seq<char>>,
}

/// The outcome of one declaration handler: the new state and the index of
/// the last consumed token, or a fault with its message and position.
#[verifier::ext_equal]
pub enum HRes {
    Next(PState, int),
    Fail(Seq<char>, int, int),
}

/// The outcome of the whole parse: the completed package, or the first
/// fault.
#[verifier::ext_equal]
pub enum PRes {
    Done(PackageV),
    Fail(Seq<char>, int, int),
}

/// Decimal value of a digit string.
pub open spec fn dval(s: Seq<char>) -> int
    decreases s.len(),
{
    if s.len() == 0 {
        0
    } else {
        dval(s.drop_last()) * 10 + (s.last() as u32 - 48)
    }
}

/// Whether every character is a decimal digit.
pub open spec fn all_digits(s: Seq<char>) -> bool {
    forall|i: int| 0 <= i < s.len() ==> crate::tokenizer::is_digit_ch(#[trigger] s[i])
}

/// The `u32` a literal denotes: defined for a nonempty digit string whose
/// value fits.
pub open spec fn parse_u32_v(s: Seq<char>) -> Option<int> {
    if s.len() > 0 && all_digits(s) && dval(s) <= u32::MAX {
        Some(dval(s))
    } else {
        None
    }
}

proof fn lemma_dval_nonneg(s: Seq<char>)
    requires
        all_digits(s),
    ensures
        dval(s) >= 0,
    decreases s.len(),
{
    if s.len() > 0 {
        assert forall|i: int|
            0 <= i < s.drop_last().len() implies crate::tokenizer::is_digit_ch(
            #[trigger] s.drop_last()[i],
        ) by {
            assert(crate::tokenizer::is_digit_ch(s[i]));
        }
        lemma_dval_nonneg(s.drop_last());
    }
}

/// With every remaining character a digit, the value of the whole string is
/// at least the value of a prefix.
proof fn lemma_dval_prefix(s: Seq<char>, k: int)
    requires
        all_digits(s),
        0 <= k <= s.len(),
    ensures
        dval(s) >= dval(s.subrange(0, k)),
    decreases s.len() - k,
{
    if k < s.len() {
        lemma_dval_prefix(s, k + 1);
        assert(s.subrange(0, k + 1).drop_last() =~= s.subrange(0, k));
        assert forall|i: int|
            0 <= i < s.subrange(0, k).len() implies crate::tokenizer::is_digit_ch(
            #[trigger] s.subrange(0, k)[i],
        ) by {
            assert(crate::tokenizer::is_digit_ch(s[i]));
        }
        lemma_dval_nonneg(s.subrange(0, k));
        assert(s.subrange(0, k + 1).last() == s[k]);
        assert(dval(s.subrange(0, k + 1)) == dval(s.subrange(0, k)) * 10 + (s[k] as u32 - 48));
        assert(dval(s.subrange(0, k)) * 10 >= dval(s.subrange(0, k))) by (nonlinear_arith)
            requires
                dval(s.subrange(0, k)) >= 0,
        ;
    } else {
        assert(s.subrange(0, k) =~= s);
    }
}

/// Parse a decimal `u32` literal.
pub fn parse_u32(s: &str) -> (r: Option<u32>)
    ensures
        match parse_u32_v(s@) {
            Some(n) => r == Some(n as u32),
            None => r is None,
        },
{
    let n = s.unicode_len();
    if n == 0 {
        return None;
    }
    let mut acc: u64 = 0;
    let mut i: usize = 0;
    while i < n
        invariant
            i <= n,
            n == s@.len(),
            forall|j: int|
                0 <= j < i ==> crate::tokenizer::is_digit_ch(#[trigger] s@.subrange(0, i as int)[j]),
            acc == dval(s@.subrange(0, i as int)),
            acc <= u32::MAX,
        decreases n - i,
    {
        let c = s.get_char(i);
        let cu = c as u32;
        if !(48 <= cu && cu <= 57) {
            proof {
                assert(!crate::tokenizer::is_digit_ch(s@[i as int]));
                assert(!all_digits(s@));
            }
            return None;
        }
        let d = (cu - 48) as u64;
        let next = acc * 10 + d;
        proof {
            assert(s@.subrange(0, i + 1).drop_last() =~= s@.subrange(0, i as int));
            assert(s@.subrange(0, i + 1).last() == s@[i as int]);
            assert forall|j: int|
                0 <= j < i + 1 implies crate::tokenizer::is_digit_ch(
                #[trigger] s@.subrange(0, i + 1 as int)[j],
            ) by {
                if j < i {
                    assert(crate::tokenizer::is_digit_ch(s@.subrange(0, i as int)[j]));
                }
            }
        }
        if next > 0xffffffffu64 {
            proof {
                if all_digits(s@) {
                    lemma_dval_prefix(s@, i + 1);
                    assert(dval(s@) > u32::MAX);
                }
            }
            return None;
        }
        acc = next;
        i += 1;
    }
    proof {
        assert(s@.subrange(0, n as int) =~= s@);
    }
    Some(acc as u32)
}

/// Whether a name sequence holds the given name.
fn names_contain(v: &Vec<String>, name: &str) -> (r: bool)
    ensures
        r == v@.map_values(|s: String| s@).contains(name@),
{
    let ghost nv = v@.map_values(|s: String| s@);
    let mut i: usize = 0;
    while i < v.len()
        invariant
            i <= v.len(),
            nv == v@.map_values(|s: String| s@),
            forall|j: int| 0 <= j < i ==> #[trigger] nv[j] != name@,
        decreases v.len() - i,
    {
        if str_eq(v[i].as_str(), name) {
            proof {
                assert(nv[i as int] == name@);
            }
            return true;
        }
        i += 1;
    }
    proof {
        assert forall|j: int| 0 <= j < nv.len() implies #[trigger] nv[j] != name@ by {}
    }
    false
}

// ---------------------------------------------------------------------------
// The parse, as a specification
// ---------------------------------------------------------------------------
/// Read the version declaration at `i`.
pub open spec fn spec_version(toks: Seq<TokenV>, i: int, st: PState) -> HRes {
    let tk = toks[i];
    if st.pkg.version is Some {
        HRes::Fail("Version already declared."@, tk.row, tk.col)
    } else if st.pkg.structs.len() > 0 || st.pkg.enums.len() > 0 {
        HRes::Fail("Version must be declared before any struct or enum."@, tk.row, tk.col)
    } else if i + 1 >= toks.len() || toks[i + 1].t != TokenTypes::SemanticVersion || toks[i
        + 1].value is None {
        if i + 1 >= toks.len() {
            HRes::Fail("Expected semantic version after keyword `version`."@, tk.row, tk.col)
        } else {
            HRes::Fail(
                "Expected semantic version after keyword `version`."@,
                toks[i + 1].row,
                toks[i + 1].col,
            )
        }
    } else if i + 2 >= toks.len() || toks[i + 2].t != TokenTypes::SemiColon {
        if i + 2 >= toks.len() {
            HRes::Fail("Expected semicolon."@, toks[i + 1].row, toks[i + 1].col)
        } else {
            HRes::Fail("Expected semicolon."@, toks[i + 2].row, toks[i + 2].col)
        }
    } else {
        HRes::Next(
            PState { pkg: PackageV { version: Some(toks[i + 1].value->Some_0), ..st.pkg }, ..st },
            i + 2,
        )
    }
}

/// Read the package-name declaration at `i`.
pub open spec fn spec_package(toks: Seq<TokenV>, i: int, st: PState) -> HRes {
    let tk = toks[i];
    if st.pkg.name is Some {
        HRes::Fail("Package name already declared."@, tk.row, tk.col)
    } else if st.pkg.structs.len() > 0 || st.pkg.enums.len() > 0 {
        HRes::Fail("Package name must be declared before any struct or enum."@, tk.row, tk.col)
    } else if i + 1 >= toks.len() || toks[i + 1].t != TokenTypes::Identifier || toks[i + 1].value
        is None {
        if i + 1 >= toks.len() {
            HRes::Fail("Expected identifier after keyword `package`."@, tk.row, tk.col)
        } else {
            HRes::Fail(
                "Expected identifier after keyword `package`."@,
                toks[i + 1].row,
                toks[i + 1].col,
            )
        }
    } else if i + 2 >= toks.len() || toks[i + 2].t != TokenTypes::SemiColon {
        if i + 2 >= toks.len() {
            HRes::Fail("Expected semicolon."@, toks[i + 1].row, toks[i + 1].col)
        } else {
            HRes::Fail("Expected semicolon."@, toks[i + 2].row, toks[i + 2].col)
        }
    } else {
        HRes::Next(
            PState { pkg: PackageV { name: Some(toks[i + 1].value->Some_0), ..st.pkg }, ..st },
            i + 2,
        )
    }
}

/// Read the struct declaration header at `i` and open its body.
pub open spec fn spec_structure(toks: Seq<TokenV>, i: int, st: PState) -> HRes {
    let tk = toks[i];
    if st.curly > 0 {
        HRes::Fail("Curly bracket not closed."@, tk.row, tk.col)
    } else if i + 1 >= toks.len() || toks[i + 1].t != TokenTypes::Identifier || toks[i + 1].value
        is None {
        if i + 1 >= toks.len() {
            HRes::Fail("Expected identifier after keyword `struct`."@, tk.row, tk.col)
        } else {
            HRes::Fail(
                "Expected identifier after keyword `struct`."@,
                toks[i + 1].row,
                toks[i + 1].col,
            )
        }
    } else {
        let name = toks[i + 1].value->Some_0;
        if i + 2 >= toks.len() || toks[i + 2].t != TokenTypes::OpenCurlyBracket {
            if i + 2 >= toks.len() {
                HRes::Fail(
                    "Expected `{` after the identifier of struct."@,
                    toks[i + 1].row,
                    toks[i + 1].col,
                )
            } else {
                HRes::Fail(
                    "Expected `{` after the identifier of struct."@,
                    toks[i + 2].row,
                    toks[i + 2].col,
                )
            }
        } else if struct_idx(st.pkg.structs, name) is Some || enum_idx(st.pkg.enums, name)
            is Some {
            HRes::Fail("Name already used."@, toks[i + 1].row, toks[i + 1].col)
        } else {
            HRes::Next(
                PState {
                    pkg: PackageV {
                        structs: st.pkg.structs.push(StructV { name, fields: Seq::empty() }),
                        ..st.pkg
                    },
                    curly: st.curly + 1,
                    in_struct: Some(name),
                    in_enum: None,
                },
                i + 2,
            )
        }
    }
}

/// Read the enum declaration header at `i` and open its body.
pub open spec fn spec_enumeration(toks: Seq<TokenV>, i: int, st: PState) -> HRes {
    let tk = toks[i];
    if st.curly > 0 {
        HRes::Fail("Curly bracket not closed."@, tk.row, tk.col)
    } else if i + 1 >= toks.len() || toks[i + 1].t != TokenTypes::Identifier || toks[i + 1].value
        is None {
        if i + 1 >= toks.len() {
            HRes::Fail("Expected identifier after keyword `enum`."@, tk.row, tk.col)
        } else {
            HRes::Fail(
                "Expected identifier after keyword `enum`."@,
                toks[i + 1].row,
                toks[i + 1].col,
            )
        }
    } else {
        let name = toks[i + 1].value->Some_0;
        if i + 2 >= toks.len() || toks[i + 2].t != TokenTypes::OpenCurlyBracket {
            if i + 2 >= toks.len() {
                HRes::Fail(
                    "Expected `{` after the identifier of an enum."@,
                    toks[i + 1].row,
                    toks[i + 1].col,
                )
            } else {
                HRes::Fail(
                    "Expected `{` after the identifier of an enum."@,
                    toks[i + 2].row,
                    toks[i + 2].col,
                )
            }
        } else if struct_idx(st.pkg.structs, name) is Some || enum_idx(st.pkg.enums, name)
            is Some {
            HRes::Fail("Name already used."@, toks[i + 1].row, toks[i + 1].col)
        } else {
            HRes::Next(
                PState {
                    pkg: PackageV {
                        enums: st.pkg.enums.push(EnumV { name, variants: Seq::empty() }),
                        ..st.pkg
                    },
                    curly: st.curly + 1,
                    in_struct: None,
                    in_enum: Some(name),
                },
                i + 2,
            )
        }
    }
}

/// Resolve a field's declared type name against the primitives and the
/// pre-scanned struct and enum names.
pub open spec fn resolve_type(
    tname: Seq<char>,
    sn: Seq<Seq<char>>,
    en: Seq<Seq<char>>,
) -> FieldTypeV {
    if PrimitiveTypes::is_primitive_name(tname) {
        FieldTypeV::Primitive(PrimitiveTypes::of_name(tname))
    } else if sn.contains(tname) {
        FieldTypeV::Struct(tname)
    } else if en.contains(tname) {
        FieldTypeV::Enum(tname)
    } else {
        FieldTypeV::Unknown(tname)
    }
}

/// Read one field declaration at `i`, inside the open struct body.
pub open spec fn spec_struct_field(
    toks: Seq<TokenV>,
    i: int,
    st: PState,
    sn: Seq<Seq<char>>,
    en: Seq<Seq<char>>,
) -> HRes {
    let tk = toks[i];
    if tk.value is None {
        HRes::Fail("Unexpected token."@, tk.row, tk.col)
    } else {
        let ftype = resolve_type(tk.value->Some_0, sn, en);
        if i + 1 >= toks.len() {
            HRes::Fail("Unexpected token after identifier."@, tk.row, tk.col)
        } else if toks[i + 1].t == TokenTypes::OpenSquareBracket {
            if i + 2 >= toks.len() || toks[i + 2].t != TokenTypes::UInt || toks[i + 2].value
                is None {
                if i + 2 >= toks.len() {
                    HRes::Fail("Expected unsigned integer."@, toks[i + 1].row, toks[i + 1].col)
                } else {
                    HRes::Fail("Expected unsigned integer."@, toks[i + 2].row, toks[i + 2].col)
                }
            } else {
                match parse_u32_v(toks[i + 2].value->Some_0) {
                    None => HRes::Fail("Invalid index."@, toks[i + 2].row, toks[i + 2].col),
                    Some(count) => {
                        if i + 3 >= toks.len() || toks[i + 3].t != TokenTypes::CloseSquareBracket {
                            if i + 3 >= toks.len() {
                                HRes::Fail(
                                    "Expected `]` but found something else."@,
                                    toks[i + 2].row,
                                    toks[i + 2].col,
                                )
                            } else {
                                HRes::Fail(
                                    "Expected `]` but found something else."@,
                                    toks[i + 3].row,
                                    toks[i + 3].col,
                                )
                            }
                        } else if i + 4 >= toks.len() || toks[i + 4].t != TokenTypes::Identifier
                            || toks[i + 4].value is None {
                            if i + 4 >= toks.len() {
                                HRes::Fail(
                                    "Expected an identifier."@,
                                    toks[i + 3].row,
                                    toks[i + 3].col,
                                )
                            } else {
                                HRes::Fail(
                                    "Expected an identifier."@,
                                    toks[i + 4].row,
                                    toks[i + 4].col,
                                )
                            }
                        } else {
                            spec_field_finish(
                                toks,
                                i + 5,
                                st,
                                toks[i + 4].value->Some_0,
                                ftype,
                                Some(count as u32),
                            )
                        }
                    },
                }
            }
        } else if toks[i + 1].t == TokenTypes::Identifier {
            if toks[i + 1].value is None {
                HRes::Fail("Unexpected token after identifier."@, toks[i + 1].row, toks[i + 1].col)
            } else {
                spec_field_finish(toks, i + 2, st, toks[i + 1].value->Some_0, ftype, None)
            }
        } else {
            HRes::Fail("Unexpected token after identifier."@, toks[i + 1].row, toks[i + 1].col)
        }
    }
}

/// Check the field's terminating semicolon and its name's uniqueness, then
/// append it to the open struct. `k` is the expected semicolon's index.
pub open spec fn spec_field_finish(
    toks: Seq<TokenV>,
    k: int,
    st: PState,
    fname: Seq<char>,
    ftype: FieldTypeV,
    array: Option<u32>,
) -> HRes {
    if k >= toks.len() || toks[k].t != TokenTypes::SemiColon {
        if k >= toks.len() {
            HRes::Fail("Expected a semicolon `;`."@, toks[k - 1].row, toks[k - 1].col)
        } else {
            HRes::Fail("Expected a semicolon `;`."@, toks[k].row, toks[k].col)
        }
    } else {
        match st.in_struct {
            None => HRes::Fail("Unexpected token."@, toks[k].row, toks[k].col),
            Some(sname) => match struct_idx(st.pkg.structs, sname) {
                None => HRes::Fail("Unexpected token."@, toks[k].row, toks[k].col),
                Some(si) => {
                    if field_idx(st.pkg.structs[si].fields, fname) is Some {
                        HRes::Fail("Field name already used."@, toks[k].row, toks[k].col)
                    } else {
                        HRes::Next(
                            PState {
                                pkg: PackageV {
                                    structs: st.pkg.structs.update(
                                        si,
                                        StructV {
                                            name: st.pkg.structs[si].name,
                                            fields: st.pkg.structs[si].fields.push(
                                                FieldV { name: fname, t: ftype, array },
                                            ),
                                        },
                                    ),
                                    ..st.pkg
                                },
                                ..st
                            },
                            k,
                        )
                    }
                },
            },
        }
    }
}

/// Read one variant declaration at `i`, inside the open enum body. The
/// variant's ordinal is its declaration position, starting at 0.
pub open spec fn spec_enum_variant(toks: Seq<TokenV>, i: int, st: PState) -> HRes {
    let tk = toks[i];
    if tk.value is None {
        HRes::Fail("Unexpected token."@, tk.row, tk.col)
    } else {
        let name = tk.value->Some_0;
        match st.in_enum {
            None => HRes::Fail("Unexpected token."@, tk.row, tk.col),
            Some(ename) => match enum_idx(st.pkg.enums, ename) {
                None => HRes::Fail("Unexpected token."@, tk.row, tk.col),
                Some(ei) => {
                    if variant_idx(st.pkg.enums[ei].variants, name) is Some {
                        HRes::Fail("Variant name already used."@, tk.row, tk.col)
                    } else if st.pkg.enums[ei].variants.len() >= u32::MAX {
                        HRes::Fail("Too many variants."@, tk.row, tk.col)
                    } else if i + 1 >= toks.len() || toks[i + 1].t != TokenTypes::SemiColon {
                        if i + 1 >= toks.len() {
                            HRes::Fail("Expected a semicolon `;`."@, tk.row, tk.col)
                        } else {
                            HRes::Fail(
                                "Expected a semicolon `;`."@,
                                toks[i + 1].row,
                                toks[i + 1].col,
                            )
                        }
                    } else {
                        HRes::Next(
                            PState {
                                pkg: PackageV {
                                    enums: st.pkg.enums.update(
                                        ei,
                                        EnumV {
                                            name: st.pkg.enums[ei].name,
                                            variants: st.pkg.enums[ei].variants.push(
                                                VariantV {
                                                    name,
                                                    value: st.pkg.enums[ei].variants.len() as u32,
                                                },
                                            ),
                                        },
                                    ),
                                    ..st.pkg
                                },
                                ..st
                            },
                            i + 1,
                        )
                    }
                },
            },
        }
    }
}

/// The end-of-input checks: all braces closed and the package complete.
pub open spec fn spec_finish(st: PState) -> PRes {
    if st.curly > 0 {
        PRes::Fail("Opened curly brackets not closed."@, 0, 0)
    } else if st.pkg.version is None {
        PRes::Fail("Version not declared."@, 0, 0)
    } else if st.pkg.name is None {
        PRes::Fail("Package name not declared."@, 0, 0)
    } else {
        PRes::Done(st.pkg)
    }
}

/// Parse the token stream from index `i` in state `st`. `sn`/`en` are the
/// tokenizer's pre-scanned struct and enum names.
pub open spec fn spec_parse(
    toks: Seq<TokenV>,
    sn: Seq<Seq<char>>,
    en: Seq<Seq<char>>,
    st: PState,
    i: int,
) -> PRes
    decreases toks.len() - i, 1int,
{
    if i < 0 {
        PRes::Fail(Seq::empty(), 0, 0)
    } else if i >= toks.len() {
        spec_finish(st)
    } else {
        let tk = toks[i];
        match tk.t {
            TokenTypes::EndOfStream => spec_finish(st),
            TokenTypes::CloseCurlyBracket => if st.curly == 0 {
                PRes::Fail("Unexpected closed curly bracket `}`."@, tk.row, tk.col)
            } else {
                spec_parse(
                    toks,
                    sn,
                    en,
                    PState { curly: st.curly - 1, in_struct: None, in_enum: None, ..st },
                    i + 1,
                )
            },
            TokenTypes::Version => spec_parse_step(toks, sn, en, spec_version(toks, i, st), i),
            TokenTypes::Package => spec_parse_step(toks, sn, en, spec_package(toks, i, st), i),
            TokenTypes::Struct => spec_parse_step(toks, sn, en, spec_structure(toks, i, st), i),
            TokenTypes::Enum => spec_parse_step(toks, sn, en, spec_enumeration(toks, i, st), i),
            TokenTypes::Identifier => if st.in_struct is Some {
                spec_parse_step(toks, sn, en, spec_struct_field(toks, i, st, sn, en), i)
            } else if st.in_enum is Some {
                spec_parse_step(toks, sn, en, spec_enum_variant(toks, i, st), i)
            } else {
                PRes::Fail("Unexpected token."@, tk.row, tk.col)
            },
            _ => PRes::Fail("Unexpected token."@, tk.row, tk.col),
        }
    }
}

/// Continue the parse after a declaration handler.
pub open spec fn spec_parse_step(
    toks: Seq<TokenV>,
    sn: Seq<Seq<char>>,
    en: Seq<Seq<char>>,
    h: HRes,
    i: int,
) -> PRes
    decreases toks.len() - i, 0int,
{
    match h {
        HRes::Fail(m, r, c) => PRes::Fail(m, r, c),
        HRes::Next(st2, j) => if j < i || j + 1 > toks.len() {
            PRes::Fail(Seq::empty(), 0, 0)
        } else {
            spec_parse(toks, sn, en, st2, j + 1)
        },
    }
}

// ---------------------------------------------------------------------------
// The parser
// ---------------------------------------------------------------------------
/// The parser: the tokenizer's output, the AST under construction, and the
/// cursor/state of the single pass.
pub struct Parser {
    pub tokenizer: Tokenizer,
    pub ast: AST,
    pub index: usize,
    pub curly_brackets: u32,
    pub in_struct: Option<String>,
    pub in_enum: Option<String>,
    pub row: u32,
    pub col: u32,
}

impl Parser {
    /// The token stream, at the specification level.
    pub open spec fn toks(&self) -> Seq<TokenV> {
        self.tokenizer.tokens@.map_values(|t: Token| t@)
    }

    /// The pre-scanned struct names.
    pub open spec fn sn(&self) -> Seq<Seq<char>> {
        self.tokenizer.structs@.map_values(|s: String| s@)
    }

    /// The pre-scanned enum names.
    pub open spec fn en(&self) -> Seq<Seq<char>> {
        self.tokenizer.enums@.map_values(|s: String| s@)
    }

    /// The parser's control state, at the specification level.
    pub open spec fn st(&self) -> PState {
        PState {
            pkg: self.ast.packages@[0]@,
            curly: self.curly_brackets as int,
            in_struct: match &self.in_struct {
                Some(s) => Some(s@),
                None => None,
            },
            in_enum: match &self.in_enum {
                Some(s) => Some(s@),
                None => None,
            },
        }
    }

    /// The working invariant of the pass: one package under construction,
    /// and any open struct/enum body names a declared struct/enum.
    pub open spec fn inv(&self) -> bool {
        self.ast.packages@.len() == 1 && (self.st().in_struct matches Some(sname)
            ==> struct_idx(self.st().pkg.structs, sname) is Some) && (self.st().in_enum matches
            Some(ename) ==> enum_idx(self.st().pkg.enums, ename) is Some)
    }

    /// Build a parser over the given schema text: the tokenizer runs to
    /// completion first (or reports the first lexical fault).
    pub fn new(src: String) -> (r: Result<Parser, CompileError>)
        ensures
            r matches Ok(p) ==> (crate::tokenizer::spec_lex(src@, 0) matches
                crate::tokenizer::LexOut::Toks(ts) && p.toks() == ts && p.sn()
                == crate::tokenizer::names_after(ts, TokenTypes::Struct) && p.en()
                == crate::tokenizer::names_after(ts, TokenTypes::Enum) && p.inv() && p.index == 0
                && p.st() == (PState {
                pkg: PackageV {
                    name: None,
                    version: None,
                    structs: Seq::empty(),
                    enums: Seq::empty(),
                },
                curly: 0,
                in_struct: None,
                in_enum: None,
            })),
            r matches Err(e) ==> (crate::tokenizer::spec_lex(src@, 0) matches
                crate::tokenizer::LexOut::Fail(m, at) && e@.msg == m && e@.ctx
                == ErrorType::Tokenizer),
    {
        let mut tokenizer = Tokenizer::new(src);
        match tokenizer.tokenize() {
            Ok(_) => {
                let parser = Parser {
                    tokenizer,
                    ast: AST { packages: Vec::new() },
                    index: 0,
                    curly_brackets: 0,
                    in_struct: None,
                    in_enum: None,
                    row: 0,
                    col: 0,
                };
                let mut parser = parser;
                parser.ast.packages.push(
                    Package { name: None, version: None, structs: Vec::new(), enums: Vec::new() },
                );
                proof {
                    assert(parser.st().pkg.structs =~= Seq::<StructV>::empty());
                    assert(parser.st().pkg.enums =~= Seq::<ast::EnumV>::empty());
                    assert(parser.st() =~~= (PState {
                        pkg: PackageV {
                            name: None,
                            version: None,
                            structs: Seq::empty(),
                            enums: Seq::empty(),
                        },
                        curly: 0,
                        in_struct: None,
                        in_enum: None,
                    }));
                }
                Ok(parser)
            },
            Err(e) => Err(e),
        }
    }

    /// Step to the next token and return it (with its position recorded for
    /// diagnostics), if any is left.
    pub fn next(&mut self) -> (r: Option<&Token>)
        requires
            old(self).index < usize::MAX,
        ensures
            final(self).index == old(self).index + 1,
            final(self).tokenizer == old(self).tokenizer,
            final(self).ast == old(self).ast,
            final(self).curly_brackets == old(self).curly_brackets,
            final(self).in_struct == old(self).in_struct,
            final(self).in_enum == old(self).in_enum,
            r matches Some(t) ==> final(self).index < final(self).toks().len() && t@
                == final(self).toks()[final(self).index as int] && final(self).row == t.row
                && final(self).col == t.col,
            r is None ==> final(self).index >= final(self).toks().len(),
    {
        self.index = self.index + 1;
        if self.index < self.tokenizer.tokens.len() {
            let t = &self.tokenizer.tokens[self.index];
            self.row = t.row;
            self.col = t.col;
            Some(t)
        } else {
            None
        }
    }

    /// The token `pos` places ahead of the cursor, if any.
    pub fn peek(&self, pos: usize) -> (r: Option<&Token>)
        ensures
            r matches Some(t) ==> self.index + pos < self.toks().len() && t@ == self.toks()[
                self.index + pos],
            r is None ==> self.index + pos >= self.toks().len(),
    {
        if pos < self.tokenizer.tokens.len() && self.index < self.tokenizer.tokens.len() - pos {
            Some(&self.tokenizer.tokens[self.index + pos])
        } else {
            None
        }
    }
}

/// A pushed struct can be found by its name.
proof fn lemma_struct_idx_push(structs: Seq<StructV>, st: StructV)
    ensures
        struct_idx(structs.push(st), st.name) is Some,
{
    lemma_struct_idx(structs.push(st), st.name);
    if struct_idx(structs.push(st), st.name) is None {
        assert(structs.push(st)[structs.len() as int] == st);
    }
}

/// A pushed enum can be found by its name.
proof fn lemma_enum_idx_push(enums: Seq<EnumV>, e: EnumV)
    ensures
        enum_idx(enums.push(e), e.name) is Some,
{
    lemma_enum_idx(enums.push(e), e.name);
    if enum_idx(enums.push(e), e.name) is None {
        assert(enums.push(e)[enums.len() as int] == e);
    }
}

/// A name findable before an update that keeps every struct's name is still
/// findable.
proof fn lemma_struct_idx_update_fields(structs: Seq<StructV>, si: int, st2: StructV, name: Seq<
    char,
>)
    requires
        0 <= si < structs.len(),
        st2.name == structs[si].name,
        struct_idx(structs, name) is Some,
    ensures
        struct_idx(structs.update(si, st2), name) is Some,
{
    lemma_struct_idx(structs, name);
    let i0 = struct_idx(structs, name)->Some_0;
    lemma_struct_idx(structs.update(si, st2), name);
    if struct_idx(structs.update(si, st2), name) is None {
        assert(structs.update(si, st2)[i0].name == name);
    }
}

/// A name findable before an update that keeps every enum's name is still
/// findable.
proof fn lemma_enum_idx_update_variants(enums: Seq<EnumV>, ei: int, e2: EnumV, name: Seq<char>)
    requires
        0 <= ei < enums.len(),
        e2.name == enums[ei].name,
        enum_idx(enums, name) is Some,
    ensures
        enum_idx(enums.update(ei, e2), name) is Some,
{
    lemma_enum_idx(enums, name);
    let i0 = enum_idx(enums, name)->Some_0;
    lemma_enum_idx(enums.update(ei, e2), name);
    if enum_idx(enums.update(ei, e2), name) is None {
        assert(enums.update(ei, e2)[i0].name == name);
    }
}

impl Parser {
    /// Read the version declaration.
    fn version(&mut self) -> (r: Result<(), CompileError>)
        requires
            old(self).inv(),
            old(self).index < old(self).toks().len(),
        ensures
            final(self).inv(),
            final(self).tokenizer == old(self).tokenizer,
            match spec_version(old(self).toks(), old(self).index as int, old(self).st()) {
                HRes::Next(st2, j) => r is Ok && final(self).st() == st2 && final(self).index == j
                    && final(self).index < final(self).toks().len(),
                HRes::Fail(m, rr, cc) => r matches Err(e) && e@.msg == m && e@.row == rr && e@.col
                    == cc && e@.ctx == ErrorType::Parser,
            },
    {
        let ghost st0 = self.st();
        let i = self.index;
        let n = self.tokenizer.tokens.len();
        let tk_row = self.tokenizer.tokens[i].row;
        let tk_col = self.tokenizer.tokens[i].col;
        if self.ast.packages[0].version.is_some() {
            return Err(error(ErrorType::Parser, "Version already declared.", 1, tk_row, tk_col));
        }
        if self.ast.packages[0].structs.len() > 0 || self.ast.packages[0].enums.len() > 0 {
            return Err(
                error(
                    ErrorType::Parser,
                    "Version must be declared before any struct or enum.",
                    1,
                    tk_row,
                    tk_col,
                ),
            );
        }
        if n - i <= 1 {
            return Err(
                error(
                    ErrorType::Parser,
                    "Expected semantic version after keyword `version`.",
                    1,
                    tk_row,
                    tk_col,
                ),
            );
        }
        let t1_row = self.tokenizer.tokens[i + 1].row;
        let t1_col = self.tokenizer.tokens[i + 1].col;
        let is_ver = match self.tokenizer.tokens[i + 1].t {
            TokenTypes::SemanticVersion => true,
            _ => false,
        };
        let vtext: Option<String> = if is_ver {
            match &self.tokenizer.tokens[i + 1].value {
                Some(v) => Some(v.clone()),
                None => None,
            }
        } else {
            None
        };
        match vtext {
            None => Err(
                error(
                    ErrorType::Parser,
                    "Expected semantic version after keyword `version`.",
                    1,
                    t1_row,
                    t1_col,
                ),
            ),
            Some(v) => {
                if n - i <= 2 {
                    return Err(
                        error(ErrorType::Parser, "Expected semicolon.", 1, t1_row, t1_col),
                    );
                }
                let semi = match self.tokenizer.tokens[i + 2].t {
                    TokenTypes::SemiColon => true,
                    _ => false,
                };
                if !semi {
                    let t2_row = self.tokenizer.tokens[i + 2].row;
                    let t2_col = self.tokenizer.tokens[i + 2].col;
                    return Err(
                        error(ErrorType::Parser, "Expected semicolon.", 1, t2_row, t2_col),
                    );
                }
                let mut pkg = self.ast.packages.remove(0);
                pkg.version = Some(v);
                self.ast.packages.insert(0, pkg);
                self.index = i + 2;
                proof {
                    let h = spec_version(old(self).toks(), i as int, st0);
                    assert(h matches HRes::Next(st2, j) && self.st() =~~= st2 && self.index == j);
                }
                Ok(())
            },
        }
    }

    /// Read the declaration of the package name.
    fn package(&mut self) -> (r: Result<(), CompileError>)
        requires
            old(self).inv(),
            old(self).index < old(self).toks().len(),
        ensures
            final(self).inv(),
            final(self).tokenizer == old(self).tokenizer,
            match spec_package(old(self).toks(), old(self).index as int, old(self).st()) {
                HRes::Next(st2, j) => r is Ok && final(self).st() == st2 && final(self).index == j
                    && final(self).index < final(self).toks().len(),
                HRes::Fail(m, rr, cc) => r matches Err(e) && e@.msg == m && e@.row == rr && e@.col
                    == cc && e@.ctx == ErrorType::Parser,
            },
    {
        let ghost st0 = self.st();
        let i = self.index;
        let n = self.tokenizer.tokens.len();
        let tk_row = self.tokenizer.tokens[i].row;
        let tk_col = self.tokenizer.tokens[i].col;
        if self.ast.packages[0].name.is_some() {
            return Err(
                error(ErrorType::Parser, "Package name already declared.", 1, tk_row, tk_col),
            );
        }
        if self.ast.packages[0].structs.len() > 0 || self.ast.packages[0].enums.len() > 0 {
            return Err(
                error(
                    ErrorType::Parser,
                    "Package name must be declared before any struct or enum.",
                    1,
                    tk_row,
                    tk_col,
                ),
            );
        }
        if n - i <= 1 {
            return Err(
                error(
                    ErrorType::Parser,
                    "Expected identifier after keyword `package`.",
                    1,
                    tk_row,
                    tk_col,
                ),
            );
        }
        let t1_row = self.tokenizer.tokens[i + 1].row;
        let t1_col = self.tokenizer.tokens[i + 1].col;
        let is_id = match self.tokenizer.tokens[i + 1].t {
            TokenTypes::Identifier => true,
            _ => false,
        };
        let vtext: Option<String> = if is_id {
            match &self.tokenizer.tokens[i + 1].value {
                Some(v) => Some(v.clone()),
                None => None,
            }
        } else {
            None
        };
        match vtext {
            None => Err(
                error(
                    ErrorType::Parser,
                    "Expected identifier after keyword `package`.",
                    1,
                    t1_row,
                    t1_col,
                ),
            ),
            Some(v) => {
                if n - i <= 2 {
                    return Err(
                        error(ErrorType::Parser, "Expected semicolon.", 1, t1_row, t1_col),
                    );
                }
                let semi = match self.tokenizer.tokens[i + 2].t {
                    TokenTypes::SemiColon => true,
                    _ => false,
                };
                if !semi {
                    let t2_row = self.tokenizer.tokens[i + 2].row;
                    let t2_col = self.tokenizer.tokens[i + 2].col;
                    return Err(
                        error(ErrorType::Parser, "Expected semicolon.", 1, t2_row, t2_col),
                    );
                }
                let mut pkg = self.ast.packages.remove(0);
                pkg.name = Some(v);
                self.ast.packages.insert(0, pkg);
                self.index = i + 2;
                proof {
                    let h = spec_package(old(self).toks(), i as int, st0);
                    assert(h matches HRes::Next(st2, j) && self.st() =~~= st2 && self.index == j);
                }
                Ok(())
            },
        }
    }

    /// Create a node representing a struct and open its body.
    fn structure(&mut self) -> (r: Result<(), CompileError>)
        requires
            old(self).inv(),
            old(self).index < old(self).toks().len(),
        ensures
            final(self).inv(),
            final(self).tokenizer == old(self).tokenizer,
            match spec_structure(old(self).toks(), old(self).index as int, old(self).st()) {
                HRes::Next(st2, j) => r is Ok && final(self).st() == st2 && final(self).index == j
                    && final(self).index < final(self).toks().len(),
                HRes::Fail(m, rr, cc) => r matches Err(e) && e@.msg == m && e@.row == rr && e@.col
                    == cc && e@.ctx == ErrorType::Parser,
            },
    {
        let ghost st0 = self.st();
        let i = self.index;
        let n = self.tokenizer.tokens.len();
        let tk_row = self.tokenizer.tokens[i].row;
        let tk_col = self.tokenizer.tokens[i].col;
        if self.curly_brackets > 0 {
            return Err(error(ErrorType::Parser, "Curly bracket not closed.", 1, tk_row, tk_col));
        }
        if n - i <= 1 {
            return Err(
                error(
                    ErrorType::Parser,
                    "Expected identifier after keyword `struct`.",
                    1,
                    tk_row,
                    tk_col,
                ),
            );
        }
        let t1_row = self.tokenizer.tokens[i + 1].row;
        let t1_col = self.tokenizer.tokens[i + 1].col;
        let is_id = match self.tokenizer.tokens[i + 1].t {
            TokenTypes::Identifier => true,
            _ => false,
        };
        let vtext: Option<String> = if is_id {
            match &self.tokenizer.tokens[i + 1].value {
                Some(v) => Some(v.clone()),
                None => None,
            }
        } else {
            None
        };
        match vtext {
            None => Err(
                error(
                    ErrorType::Parser,
                    "Expected identifier after keyword `struct`.",
                    1,
                    t1_row,
                    t1_col,
                ),
            ),
            Some(name) => {
                if n - i <= 2 {
                    return Err(
                        error(
                            ErrorType::Parser,
                            "Expected `{` after the identifier of struct.",
                            1,
                            t1_row,
                            t1_col,
                        ),
                    );
                }
                let open = match self.tokenizer.tokens[i + 2].t {
                    TokenTypes::OpenCurlyBracket => true,
                    _ => false,
                };
                if !open {
                    let t2_row = self.tokenizer.tokens[i + 2].row;
                    let t2_col = self.tokenizer.tokens[i + 2].col;
                    return Err(
                        error(
                            ErrorType::Parser,
                            "Expected `{` after the identifier of struct.",
                            1,
                            t2_row,
                            t2_col,
                        ),
                    );
                }
                let dup_s = ast::find_struct_pos(&self.ast.packages[0].structs, name.as_str());
                let dup_e = ast::find_enum_pos(&self.ast.packages[0].enums, name.as_str());
                if dup_s.is_some() || dup_e.is_some() {
                    return Err(
                        error(ErrorType::Parser, "Name already used.", 1, t1_row, t1_col),
                    );
                }
                let mut pkg = self.ast.packages.remove(0);
                pkg.structs.push(ast::Struct { name: name.clone(), fields: Vec::new() });
                self.ast.packages.insert(0, pkg);
                self.curly_brackets = 1;
                self.in_struct = Some(name);
                self.in_enum = None;
                self.index = i + 2;
                proof {
                    let h = spec_structure(old(self).toks(), i as int, st0);
                    assert(self.st().pkg.structs =~~= st0.pkg.structs.push(
                        StructV { name: self.in_struct->Some_0@, fields: Seq::empty() },
                    ));
                    lemma_struct_idx_push(
                        st0.pkg.structs,
                        StructV { name: self.in_struct->Some_0@, fields: Seq::empty() },
                    );
                    assert(h matches HRes::Next(st2, j) && self.st() =~~= st2 && self.index == j);
                }
                Ok(())
            },
        }
    }

    /// Create a node representing an enum and open its body.
    fn enumeration(&mut self) -> (r: Result<(), CompileError>)
        requires
            old(self).inv(),
            old(self).index < old(self).toks().len(),
        ensures
            final(self).inv(),
            final(self).tokenizer == old(self).tokenizer,
            match spec_enumeration(old(self).toks(), old(self).index as int, old(self).st()) {
                HRes::Next(st2, j) => r is Ok && final(self).st() == st2 && final(self).index == j
                    && final(self).index < final(self).toks().len(),
                HRes::Fail(m, rr, cc) => r matches Err(e) && e@.msg == m && e@.row == rr && e@.col
                    == cc && e@.ctx == ErrorType::Parser,
            },
    {
        let ghost st0 = self.st();
        let i = self.index;
        let n = self.tokenizer.tokens.len();
        let tk_row = self.tokenizer.tokens[i].row;
        let tk_col = self.tokenizer.tokens[i].col;
        if self.curly_brackets > 0 {
            return Err(error(ErrorType::Parser, "Curly bracket not closed.", 1, tk_row, tk_col));
        }
        if n - i <= 1 {
            return Err(
                error(
                    ErrorType::Parser,
                    "Expected identifier after keyword `enum`.",
                    1,
                    tk_row,
                    tk_col,
                ),
            );
        }
        let t1_row = self.tokenizer.tokens[i + 1].row;
        let t1_col = self.tokenizer.tokens[i + 1].col;
        let is_id = match self.tokenizer.tokens[i + 1].t {
            TokenTypes::Identifier => true,
            _ => false,
        };
        let vtext: Option<String> = if is_id {
            match &self.tokenizer.tokens[i + 1].value {
                Some(v) => Some(v.clone()),
                None => None,
            }
        } else {
            None
        };
        match vtext {
            None => Err(
                error(
                    ErrorType::Parser,
                    "Expected identifier after keyword `enum`.",
                    1,
                    t1_row,
                    t1_col,
                ),
            ),
            Some(name) => {
                if n - i <= 2 {
                    return Err(
                        error(
                            ErrorType::Parser,
                            "Expected `{` after the identifier of an enum.",
                            1,
                            t1_row,
                            t1_col,
                        ),
                    );
                }
                let open = match self.tokenizer.tokens[i + 2].t {
                    TokenTypes::OpenCurlyBracket => true,
                    _ => false,
                };
                if !open {
                    let t2_row = self.tokenizer.tokens[i + 2].row;
                    let t2_col = self.tokenizer.tokens[i + 2].col;
                    return Err(
                        error(
                            ErrorType::Parser,
                            "Expected `{` after the identifier of an enum.",
                            1,
                            t2_row,
                            t2_col,
                        ),
                    );
                }
                let dup_s = ast::find_struct_pos(&self.ast.packages[0].structs, name.as_str());
                let dup_e = ast::find_enum_pos(&self.ast.packages[0].enums, name.as_str());
                if dup_s.is_some() || dup_e.is_some() {
                    return Err(
                        error(ErrorType::Parser, "Name already used.", 1, t1_row, t1_col),
                    );
                }
                let mut pkg = self.ast.packages.remove(0);
                pkg.enums.push(ast::Enum { name: name.clone(), variants: Vec::new() });
                self.ast.packages.insert(0, pkg);
                self.curly_brackets = 1;
                self.in_enum = Some(name);
                self.in_struct = None;
                self.index = i + 2;
                proof {
                    let h = spec_enumeration(old(self).toks(), i as int, st0);
                    assert(self.st().pkg.enums =~~= st0.pkg.enums.push(
                        EnumV { name: self.in_enum->Some_0@, variants: Seq::empty() },
                    ));
                    lemma_enum_idx_push(
                        st0.pkg.enums,
                        EnumV { name: self.in_enum->Some_0@, variants: Seq::empty() },
                    );
                    assert(h matches HRes::Next(st2, j) && self.st() =~~= st2 && self.index == j);
                }
                Ok(())
            },
        }
    }
}

/// After a successful declaration handler, the parse of the rest of the
/// stream continues from the handler's new state and cursor.
proof fn lemma_step_ok(
    toks: Seq<TokenV>,
    sn: Seq<Seq<char>>,
    en: Seq<Seq<char>>,
    st_pre: PState,
    gi: int,
    h: HRes,
    st_new: PState,
    idx: int,
)
    requires
        0 <= gi < toks.len(),
        h matches HRes::Next(st2, j) && st2 == st_new && j == idx,
        gi <= idx < toks.len(),
        spec_parse(toks, sn, en, st_pre, gi) == spec_parse_step(toks, sn, en, h, gi),
    ensures
        spec_parse(toks, sn, en, st_pre, gi) == spec_parse(toks, sn, en, st_new, idx + 1),
{
}

impl Parser {
    /// Check the terminating semicolon and name uniqueness, then add the
    /// field to the open struct. `k` is the expected semicolon's index.
    fn field_finish(&mut self, k: usize, fname: String, ftype: FieldType, array: Option<u32>) -> (r:
        Result<(), CompileError>)
        requires
            old(self).inv(),
            old(self).st().in_struct is Some,
            1 <= k,
            k - 1 < old(self).toks().len(),
        ensures
            final(self).inv(),
            final(self).tokenizer == old(self).tokenizer,
            match spec_field_finish(
                old(self).toks(),
                k as int,
                old(self).st(),
                fname@,
                ftype@,
                array,
            ) {
                HRes::Next(st2, j) => r is Ok && final(self).st() == st2 && final(self).index == j
                    && final(self).index < final(self).toks().len(),
                HRes::Fail(m, rr, cc) => r matches Err(e) && e@.msg == m && e@.row == rr && e@.col
                    == cc && e@.ctx == ErrorType::Parser,
            },
    {
        let ghost st0 = self.st();
        let n = self.tokenizer.tokens.len();
        if k >= n {
            let p_row = self.tokenizer.tokens[k - 1].row;
            let p_col = self.tokenizer.tokens[k - 1].col;
            return Err(error(ErrorType::Parser, "Expected a semicolon `;`.", 1, p_row, p_col));
        }
        let semi = match self.tokenizer.tokens[k].t {
            TokenTypes::SemiColon => true,
            _ => false,
        };
        let k_row = self.tokenizer.tokens[k].row;
        let k_col = self.tokenizer.tokens[k].col;
        if !semi {
            return Err(error(ErrorType::Parser, "Expected a semicolon `;`.", 1, k_row, k_col));
        }
        let sname = match &self.in_struct {
            Some(sn) => sn.clone(),
            None => {
                return Err(error(ErrorType::Parser, "Unexpected token.", 1, k_row, k_col));
            },
        };
        let si = match ast::find_struct_pos(&self.ast.packages[0].structs, sname.as_str()) {
            Some(si) => si,
            None => {
                proof {
                    assert(false);
                }
                return Err(error(ErrorType::Parser, "Unexpected token.", 1, k_row, k_col));
            },
        };
        let dup = ast::find_field_pos(&self.ast.packages[0].structs[si].fields, fname.as_str());
        if dup.is_some() {
            return Err(error(ErrorType::Parser, "Field name already used.", 1, k_row, k_col));
        }
        let mut pkg = self.ast.packages.remove(0);
        pkg.add_struct_field(&sname, StructField { name: fname, t: ftype, array });
        self.ast.packages.insert(0, pkg);
        self.index = k;
        proof {
            let h = spec_field_finish(old(self).toks(), k as int, st0, fname@, ftype@, array);
            let si0 = struct_idx(st0.pkg.structs, sname@)->Some_0;
            assert(self.st().pkg.structs =~~= st0.pkg.structs.update(
                si0,
                StructV {
                    name: st0.pkg.structs[si0].name,
                    fields: st0.pkg.structs[si0].fields.push(
                        FieldV { name: fname@, t: ftype@, array },
                    ),
                },
            ));
            lemma_struct_idx_update_fields(
                st0.pkg.structs,
                si0,
                self.st().pkg.structs[si0],
                sname@,
            );
            assert(h matches HRes::Next(st2, j) && self.st() =~~= st2 && self.index == j);
        }
        Ok(())
    }

    /// Add the field declared at the cursor to the open struct.
    fn struct_field(&mut self) -> (r: Result<(), CompileError>)
        requires
            old(self).inv(),
            old(self).index < old(self).toks().len(),
            old(self).st().in_struct is Some,
        ensures
            final(self).inv(),
            final(self).tokenizer == old(self).tokenizer,
            match spec_struct_field(
                old(self).toks(),
                old(self).index as int,
                old(self).st(),
                old(self).sn(),
                old(self).en(),
            ) {
                HRes::Next(st2, j) => r is Ok && final(self).st() == st2 && final(self).index == j
                    && final(self).index < final(self).toks().len(),
                HRes::Fail(m, rr, cc) => r matches Err(e) && e@.msg == m && e@.row == rr && e@.col
                    == cc && e@.ctx == ErrorType::Parser,
            },
    {
        let ghost st0 = self.st();
        let i = self.index;
        let n = self.tokenizer.tokens.len();
        let tk_row = self.tokenizer.tokens[i].row;
        let tk_col = self.tokenizer.tokens[i].col;
        let tname: String = match &self.tokenizer.tokens[i].value {
            Some(v) => v.clone(),
            None => {
                return Err(error(ErrorType::Parser, "Unexpected token.", 1, tk_row, tk_col));
            },
        };
        let ftype: FieldType = if str_eq(tname.as_str(), "u8") || str_eq(tname.as_str(), "u16")
            || str_eq(tname.as_str(), "u32") || str_eq(tname.as_str(), "i8") || str_eq(
            tname.as_str(),
            "i16",
        ) || str_eq(tname.as_str(), "i32") || str_eq(tname.as_str(), "f32") || str_eq(
            tname.as_str(),
            "bool",
        ) {
            FieldType::PRIMITIVE(PrimitiveTypes::new(tname.clone()))
        } else if names_contain(&self.tokenizer.structs, tname.as_str()) {
            FieldType::COMPLEX(crate::ast::ComplexTypes::Struct(tname.clone()))
        } else if names_contain(&self.tokenizer.enums, tname.as_str()) {
            FieldType::COMPLEX(crate::ast::ComplexTypes::Enum(tname.clone()))
        } else {
            FieldType::COMPLEX(crate::ast::ComplexTypes::Unknown(tname.clone()))
        };
        proof {
            assert(ftype@ == resolve_type(tname@, old(self).sn(), old(self).en()));
        }
        if n - i <= 1 {
            return Err(
                error(ErrorType::Parser, "Unexpected token after identifier.", 1, tk_row, tk_col),
            );
        }
        let t1_row = self.tokenizer.tokens[i + 1].row;
        let t1_col = self.tokenizer.tokens[i + 1].col;
        let t1_kind = self.tokenizer.tokens[i + 1].t;
        match t1_kind {
            TokenTypes::OpenSquareBracket => {
                if n - i <= 2 {
                    return Err(
                        error(ErrorType::Parser, "Expected unsigned integer.", 1, t1_row, t1_col),
                    );
                }
                let t2_row = self.tokenizer.tokens[i + 2].row;
                let t2_col = self.tokenizer.tokens[i + 2].col;
                let is_uint = match self.tokenizer.tokens[i + 2].t {
                    TokenTypes::UInt => true,
                    _ => false,
                };
                let num: String = if is_uint {
                    match &self.tokenizer.tokens[i + 2].value {
                        Some(v) => v.clone(),
                        None => {
                            return Err(
                                error(
                                    ErrorType::Parser,
                                    "Expected unsigned integer.",
                                    1,
                                    t2_row,
                                    t2_col,
                                ),
                            );
                        },
                    }
                } else {
                    return Err(
                        error(ErrorType::Parser, "Expected unsigned integer.", 1, t2_row, t2_col),
                    );
                };
                let count = match parse_u32(num.as_str()) {
                    Some(c) => c,
                    None => {
                        return Err(
                            error(ErrorType::Parser, "Invalid index.", 1, t2_row, t2_col),
                        );
                    },
                };
                if n - i <= 3 {
                    return Err(
                        error(
                            ErrorType::Parser,
                            "Expected `]` but found something else.",
                            1,
                            t2_row,
                            t2_col,
                        ),
                    );
                }
                let close = match self.tokenizer.tokens[i + 3].t {
                    TokenTypes::CloseSquareBracket => true,
                    _ => false,
                };
                if !close {
                    let t3_row = self.tokenizer.tokens[i + 3].row;
                    let t3_col = self.tokenizer.tokens[i + 3].col;
                    return Err(
                        error(
                            ErrorType::Parser,
                            "Expected `]` but found something else.",
                            1,
                            t3_row,
                            t3_col,
                        ),
                    );
                }
                if n - i <= 4 {
                    let t3_row = self.tokenizer.tokens[i + 3].row;
                    let t3_col = self.tokenizer.tokens[i + 3].col;
                    return Err(
                        error(ErrorType::Parser, "Expected an identifier.", 1, t3_row, t3_col),
                    );
                }
                let t4_row = self.tokenizer.tokens[i + 4].row;
                let t4_col = self.tokenizer.tokens[i + 4].col;
                let is_id = match self.tokenizer.tokens[i + 4].t {
                    TokenTypes::Identifier => true,
                    _ => false,
                };
                let fname: String = if is_id {
                    match &self.tokenizer.tokens[i + 4].value {
                        Some(v) => v.clone(),
                        None => {
                            return Err(
                                error(
                                    ErrorType::Parser,
                                    "Expected an identifier.",
                                    1,
                                    t4_row,
                                    t4_col,
                                ),
                            );
                        },
                    }
                } else {
                    return Err(
                        error(ErrorType::Parser, "Expected an identifier.", 1, t4_row, t4_col),
                    );
                };
                self.field_finish(i + 5, fname, ftype, Some(count))
            },
            TokenTypes::Identifier => {
                let fname: String = match &self.tokenizer.tokens[i + 1].value {
                    Some(v) => v.clone(),
                    None => {
                        return Err(
                            error(
                                ErrorType::Parser,
                                "Unexpected token after identifier.",
                                1,
                                t1_row,
                                t1_col,
                            ),
                        );
                    },
                };
                self.field_finish(i + 2, fname, ftype, None)
            },
            _ => Err(
                error(ErrorType::Parser, "Unexpected token after identifier.", 1, t1_row, t1_col),
            ),
        }
    }

    /// Add the variant declared at the cursor to the open enum; its ordinal
    /// is the declaration position, starting at 0.
    fn enum_variant(&mut self) -> (r: Result<(), CompileError>)
        requires
            old(self).inv(),
            old(self).index < old(self).toks().len(),
            old(self).st().in_enum is Some,
        ensures
            final(self).inv(),
            final(self).tokenizer == old(self).tokenizer,
            match spec_enum_variant(old(self).toks(), old(self).index as int, old(self).st()) {
                HRes::Next(st2, j) => r is Ok && final(self).st() == st2 && final(self).index == j
                    && final(self).index < final(self).toks().len(),
                HRes::Fail(m, rr, cc) => r matches Err(e) && e@.msg == m && e@.row == rr && e@.col
                    == cc && e@.ctx == ErrorType::Parser,
            },
    {
        let ghost st0 = self.st();
        let i = self.index;
        let n = self.tokenizer.tokens.len();
        let tk_row = self.tokenizer.tokens[i].row;
        let tk_col = self.tokenizer.tokens[i].col;
        let name: String = match &self.tokenizer.tokens[i].value {
            Some(v) => v.clone(),
            None => {
                return Err(error(ErrorType::Parser, "Unexpected token.", 1, tk_row, tk_col));
            },
        };
        let ename = match &self.in_enum {
            Some(en) => en.clone(),
            None => {
                return Err(error(ErrorType::Parser, "Unexpected token.", 1, tk_row, tk_col));
            },
        };
        let ei = match ast::find_enum_pos(&self.ast.packages[0].enums, ename.as_str()) {
            Some(ei) => ei,
            None => {
                proof {
                    assert(false);
                }
                return Err(error(ErrorType::Parser, "Unexpected token.", 1, tk_row, tk_col));
            },
        };
        let dup = ast::find_variant_pos(&self.ast.packages[0].enums[ei].variants, name.as_str());
        if dup.is_some() {
            return Err(error(ErrorType::Parser, "Variant name already used.", 1, tk_row, tk_col));
        }
        if self.ast.packages[0].enums[ei].variants.len() >= (u32::MAX as usize) {
            return Err(error(ErrorType::Parser, "Too many variants.", 1, tk_row, tk_col));
        }
        if n - i <= 1 {
            return Err(error(ErrorType::Parser, "Expected a semicolon `;`.", 1, tk_row, tk_col));
        }
        let t1_row = self.tokenizer.tokens[i + 1].row;
        let t1_col = self.tokenizer.tokens[i + 1].col;
        let semi = match self.tokenizer.tokens[i + 1].t {
            TokenTypes::SemiColon => true,
            _ => false,
        };
        if !semi {
            return Err(error(ErrorType::Parser, "Expected a semicolon `;`.", 1, t1_row, t1_col));
        }
        let ord = self.ast.packages[0].enums[ei].variants.len() as u32;
        let mut pkg = self.ast.packages.remove(0);
        pkg.add_enum_variant(&ename, EnumVariant { name, value: ord });
        self.ast.packages.insert(0, pkg);
        self.index = i + 1;
        proof {
            let h = spec_enum_variant(old(self).toks(), i as int, st0);
            let ei0 = enum_idx(st0.pkg.enums, ename@)->Some_0;
            assert(self.st().pkg.enums =~~= st0.pkg.enums.update(
                ei0,
                EnumV {
                    name: st0.pkg.enums[ei0].name,
                    variants: st0.pkg.enums[ei0].variants.push(
                        VariantV { name: name@, value: ord },
                    ),
                },
            ));
            lemma_enum_idx_update_variants(st0.pkg.enums, ei0, self.st().pkg.enums[ei0], ename@);
            assert(h matches HRes::Next(st2, j) && self.st() =~~= st2 && self.index == j);
        }
        Ok(())
    }

    /// The end-of-input checks: all braces closed and the package complete.
    fn finish_checks(&self) -> (r: Result<(), CompileError>)
        requires
            self.inv(),
        ensures
            match spec_finish(self.st()) {
                PRes::Done(pkg) => r is Ok && self.st().pkg == pkg,
                PRes::Fail(m, rr, cc) => r matches Err(e) && e@.msg == m && e@.row == rr && e@.col
                    == cc && e@.ctx == ErrorType::Parser,
            },
    {
        if self.curly_brackets > 0 {
            return Err(error(ErrorType::Parser, "Opened curly brackets not closed.", 1, 0, 0));
        }
        if self.ast.packages[0].version.is_none() {
            return Err(error(ErrorType::Parser, "Version not declared.", 1, 0, 0));
        }
        if self.ast.packages[0].name.is_none() {
            return Err(error(ErrorType::Parser, "Package name not declared.", 1, 0, 0));
        }
        Ok(())
    }

    /// Create the AST used for code generation: one pass over the token
    /// stream, building the package and enforcing the grammar and its
    /// validation rules. Stops at the first fault.
    #[verifier::rlimit(100)]
    pub fn generate_ast(&mut self) -> (r: Result<(), CompileError>)
        requires
            old(self).inv(),
        ensures
            final(self).inv(),
            final(self).tokenizer == old(self).tokenizer,
            match spec_parse(
                old(self).toks(),
                old(self).sn(),
                old(self).en(),
                old(self).st(),
                old(self).index as int,
            ) {
                PRes::Done(pkg) => r is Ok && final(self).st().pkg == pkg,
                PRes::Fail(m, rr, cc) => r matches Err(e) && e@.msg == m && e@.row == rr && e@.col
                    == cc && e@.ctx == ErrorType::Parser,
            },
            r is Ok ==> final(self).st().curly == 0 && final(self).st().pkg.name is Some
                && final(self).st().pkg.version is Some,
    {
        let ghost toks = self.toks();
        let ghost sn = self.sn();
        let ghost en = self.en();
        while self.index < self.tokenizer.tokens.len()
            invariant
                self.inv(),
                self.tokenizer == old(self).tokenizer,
                toks == self.toks(),
                sn == self.sn(),
                en == self.en(),
                spec_parse(toks, sn, en, old(self).st(), old(self).index as int) == spec_parse(
                    toks,
                    sn,
                    en,
                    self.st(),
                    self.index as int,
                ),
            decreases toks.len() - self.index,
        {
            let ghost st_pre = self.st();
            let ghost gi = self.index as int;
            let t = self.tokenizer.tokens[self.index].t;
            let t_row = self.tokenizer.tokens[self.index].row;
            let t_col = self.tokenizer.tokens[self.index].col;
            proof {
                assert(toks[gi].t == t);
            }
            match t {
                TokenTypes::CloseCurlyBracket => {
                    if self.curly_brackets == 0 {
                        return Err(
                            error(
                                ErrorType::Parser,
                                "Unexpected closed curly bracket `}`.",
                                1,
                                t_row,
                                t_col,
                            ),
                        );
                    }
                    self.curly_brackets = self.curly_brackets - 1;
                    self.in_struct = None;
                    self.in_enum = None;
                    proof {
                        assert(self.st() =~~= (PState {
                            curly: st_pre.curly - 1,
                            in_struct: None,
                            in_enum: None,
                            ..st_pre
                        }));
                        assert(spec_parse(toks, sn, en, st_pre, gi) == spec_parse(
                            toks,
                            sn,
                            en,
                            self.st(),
                            gi + 1,
                        ));
                    }
                },
                TokenTypes::Version => {
                    match self.version() {
                        Ok(_) => {
                            proof {
                                lemma_step_ok(
                                    toks,
                                    sn,
                                    en,
                                    st_pre,
                                    gi,
                                    spec_version(toks, gi, st_pre),
                                    self.st(),
                                    self.index as int,
                                );
                            }
                        },
                        Err(e) => {
                            proof {
                                assert(spec_parse(toks, sn, en, st_pre, gi) matches PRes::Fail(
                                    m,
                                    rr,
                                    cc,
                                ) && e@.msg == m && e@.row == rr && e@.col == cc);
                            }
                            return Err(e);
                        },
                    }
                },
                TokenTypes::Package => {
                    match self.package() {
                        Ok(_) => {
                            proof {
                                lemma_step_ok(
                                    toks,
                                    sn,
                                    en,
                                    st_pre,
                                    gi,
                                    spec_package(toks, gi, st_pre),
                                    self.st(),
                                    self.index as int,
                                );
                            }
                        },
                        Err(e) => {
                            proof {
                                assert(spec_parse(toks, sn, en, st_pre, gi) matches PRes::Fail(
                                    m,
                                    rr,
                                    cc,
                                ) && e@.msg == m && e@.row == rr && e@.col == cc);
                            }
                            return Err(e);
                        },
                    }
                },
                TokenTypes::Struct => {
                    match self.structure() {
                        Ok(_) => {
                            proof {
                                lemma_step_ok(
                                    toks,
                                    sn,
                                    en,
                                    st_pre,
                                    gi,
                                    spec_structure(toks, gi, st_pre),
                                    self.st(),
                                    self.index as int,
                                );
                            }
                        },
                        Err(e) => {
                            proof {
                                assert(spec_parse(toks, sn, en, st_pre, gi) matches PRes::Fail(
                                    m,
                                    rr,
                                    cc,
                                ) && e@.msg == m && e@.row == rr && e@.col == cc);
                            }
                            return Err(e);
                        },
                    }
                },
                TokenTypes::Enum => {
                    match self.enumeration() {
                        Ok(_) => {
                            proof {
                                lemma_step_ok(
                                    toks,
                                    sn,
                                    en,
                                    st_pre,
                                    gi,
                                    spec_enumeration(toks, gi, st_pre),
                                    self.st(),
                                    self.index as int,
                                );
                            }
                        },
                        Err(e) => {
                            proof {
                                assert(spec_parse(toks, sn, en, st_pre, gi) matches PRes::Fail(
                                    m,
                                    rr,
                                    cc,
                                ) && e@.msg == m && e@.row == rr && e@.col == cc);
                            }
                            return Err(e);
                        },
                    }
                },
                TokenTypes::Identifier => {
                    if self.in_struct.is_some() {
                        match self.struct_field() {
                            Ok(_) => {
                                proof {
                                    lemma_step_ok(
                                        toks,
                                        sn,
                                        en,
                                        st_pre,
                                        gi,
                                        spec_struct_field(toks, gi, st_pre, sn, en),
                                        self.st(),
                                        self.index as int,
                                    );
                                }
                            },
                            Err(e) => {
                                proof {
                                    assert(spec_parse(toks, sn, en, st_pre, gi) matches PRes::Fail(
                                        m,
                                        rr,
                                        cc,
                                    ) && e@.msg == m && e@.row == rr && e@.col == cc);
                                }
                                return Err(e);
                            },
                        }
                    } else if self.in_enum.is_some() {
                        match self.enum_variant() {
                            Ok(_) => {
                                proof {
                                    lemma_step_ok(
                                        toks,
                                        sn,
                                        en,
                                        st_pre,
                                        gi,
                                        spec_enum_variant(toks, gi, st_pre),
                                        self.st(),
                                        self.index as int,
                                    );
                                }
                            },
                            Err(e) => {
                                proof {
                                    assert(spec_parse(toks, sn, en, st_pre, gi) matches PRes::Fail(
                                        m,
                                        rr,
                                        cc,
                                    ) && e@.msg == m && e@.row == rr && e@.col == cc);
                                }
                                return Err(e);
                            },
                        }
                    } else {
                        return Err(
                            error(ErrorType::Parser, "Unexpected token.", 1, t_row, t_col),
                        );
                    }
                },
                TokenTypes::EndOfStream => {
                    return self.finish_checks();
                },
                _ => {
                    return Err(error(ErrorType::Parser, "Unexpected token.", 1, t_row, t_col));
                },
            }
            self.index = self.index + 1;
        }
        self.finish_checks()
    }
}

} // verus!

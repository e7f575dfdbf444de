//! The typed abstract syntax tree: a package of structs (ordered field lists)
//! and enums (ordered variant lists), with resolved type references, recursive
//! wire-size computation and the FNV-1a name hash used as the wire type tag.

use vstd::prelude::*;
use vstd::utf8::encode_utf8;

verus! {

/// The fixed-width primitive types of the schema language.
#[derive(Clone, Copy, Debug, PartialEq, Eq, Structural)]
pub enum PrimitiveTypes {
    U8,
    U16,
    U32,
    I8,
    I16,
    I32,
    F32,
    Bool,
}

/// A field type that refers to another declaration by name. `Unknown` records
/// a name that matched neither a primitive nor a pre-scanned struct/enum name;
/// it must be rejected before sizes are computed or code is generated.
#[derive(Clone, Debug)]
pub enum ComplexTypes {
    Struct(String),
    Enum(String),
    Unknown(String),
}

/// The declared type of a struct field.
#[derive(Clone, Debug)]
pub enum FieldType {
    COMPLEX(ComplexTypes),
    PRIMITIVE(PrimitiveTypes),
}

/// One struct field: a name, a type, and an optional fixed repetition count
/// (`None` means scalar).
#[derive(Clone, Debug)]
pub struct StructField {
    pub name: String,
    pub t: FieldType,
    pub array: Option<u32>,
}

/// A named struct; the field order defines the wire order.
#[derive(Clone, Debug)]
pub struct Struct {
    pub name: String,
    pub fields: Vec<StructField>,
}

/// One enum variant; `value` is the declaration-order ordinal, starting at 0.
#[derive(Clone, Debug)]
pub struct EnumVariant {
    pub name: String,
    pub value: u32,
}

/// A named enum with its ordered variant list. An enum value always occupies
/// four bytes on the wire (its ordinal as a big-endian `u32`).
#[derive(Clone, Debug)]
pub struct Enum {
    pub name: String,
    pub variants: Vec<EnumVariant>,
}

/// One schema file's compiled unit.
#[derive(Clone, Debug)]
pub struct Package {
    pub name: Option<String>,
    pub version: Option<String>,
    pub structs: Vec<Struct>,
    pub enums: Vec<Enum>,
}

/// The output of the parser: the packages built from the input (one per file).
#[derive(Debug)]
pub struct AST {
    pub packages: Vec<Package>,
}

// ---------------------------------------------------------------------------
// Ghost mirrors
// ---------------------------------------------------------------------------
/// Ghost mirror of a field type, with names as character sequences.
#[verifier::ext_equal]
pub enum FieldTypeV {
    Primitive(PrimitiveTypes),
    Struct(Seq<char>),
    Enum(Seq<char>),
    Unknown(Seq<char>),
}

/// Ghost mirror of a struct field.
#[verifier::ext_equal]
pub struct FieldV {
    pub name: Seq<char>,
    pub t: FieldTypeV,
    pub array: Option<u32>,
}

/// Ghost mirror of a struct.
#[verifier::ext_equal]
pub struct StructV {
    pub name: Seq<char>,
    pub fields: Seq<FieldV>,
}

/// Ghost mirror of an enum variant.
#[verifier::ext_equal]
pub struct VariantV {
    pub name: Seq<char>,
    pub value: u32,
}

/// Ghost mirror of an enum.
#[verifier::ext_equal]
pub struct EnumV {
    pub name: Seq<char>,
    pub variants: Seq<VariantV>,
}

/// Ghost mirror of a package.
#[verifier::ext_equal]
pub struct PackageV {
    pub name: Option<Seq<char>>,
    pub version: Option<Seq<char>>,
    pub structs: Seq<StructV>,
    pub enums: Seq<EnumV>,
}

impl View for ComplexTypes {
    type V = FieldTypeV;

    open spec fn view(&self) -> FieldTypeV {
        match self {
            ComplexTypes::Struct(n) => FieldTypeV::Struct(n@),
            ComplexTypes::Enum(n) => FieldTypeV::Enum(n@),
            ComplexTypes::Unknown(n) => FieldTypeV::Unknown(n@),
        }
    }
}

impl View for FieldType {
    type V = FieldTypeV;

    open spec fn view(&self) -> FieldTypeV {
        match self {
            FieldType::COMPLEX(c) => c@,
            FieldType::PRIMITIVE(p) => FieldTypeV::Primitive(*p),
        }
    }
}

impl View for StructField {
    type V = FieldV;

    open spec fn view(&self) -> FieldV {
        FieldV { name: self.name@, t: self.t@, array: self.array }
    }
}

impl View for Struct {
    type V = StructV;

    open spec fn view(&self) -> StructV {
        StructV { name: self.name@, fields: self.fields@.map_values(|f: StructField| f@) }
    }
}

impl View for EnumVariant {
    type V = VariantV;

    open spec fn view(&self) -> VariantV {
        VariantV { name: self.name@, value: self.value }
    }
}

impl View for Enum {
    type V = EnumV;

    open spec fn view(&self) -> EnumV {
        EnumV { name: self.name@, variants: self.variants@.map_values(|v: EnumVariant| v@) }
    }
}

impl View for Package {
    type V = PackageV;

    open spec fn view(&self) -> PackageV {
        PackageV {
            name: match &self.name {
                Some(n) => Some(n@),
                None => None,
            },
            version: match &self.version {
                Some(v) => Some(v@),
                None => None,
            },
            structs: self.structs@.map_values(|s: Struct| s@),
            enums: self.enums@.map_values(|e: Enum| e@),
        }
    }
}

// ---------------------------------------------------------------------------
// Lookup by name
// ---------------------------------------------------------------------------
/// Index of the first struct with the given name, if any.
pub open spec fn struct_idx(structs: Seq<StructV>, name: Seq<char>) -> Option<int>
    decreases structs.len(),
{
    if structs.len() == 0 {
        None
    } else if structs[0].name == name {
        Some(0)
    } else {
        match struct_idx(structs.drop_first(), name) {
            Some(i) => Some(i + 1),
            None => None,
        }
    }
}

/// The first struct with the given name, if any.
pub open spec fn find_struct(structs: Seq<StructV>, name: Seq<char>) -> Option<StructV> {
    match struct_idx(structs, name) {
        Some(i) => Some(structs[i]),
        None => None,
    }
}

/// Index of the first enum with the given name, if any.
pub open spec fn enum_idx(enums: Seq<EnumV>, name: Seq<char>) -> Option<int>
    decreases enums.len(),
{
    if enums.len() == 0 {
        None
    } else if enums[0].name == name {
        Some(0)
    } else {
        match enum_idx(enums.drop_first(), name) {
            Some(i) => Some(i + 1),
            None => None,
        }
    }
}

/// The first enum with the given name, if any.
pub open spec fn find_enum(enums: Seq<EnumV>, name: Seq<char>) -> Option<EnumV> {
    match enum_idx(enums, name) {
        Some(i) => Some(enums[i]),
        None => None,
    }
}

pub proof fn lemma_struct_idx(structs: Seq<StructV>, name: Seq<char>)
    ensures
        struct_idx(structs, name) matches Some(i) ==> 0 <= i < structs.len()
            && structs[i].name == name && (forall|j: int|
            0 <= j < i ==> (#[trigger] structs[j]).name != name),
        struct_idx(structs, name) is None ==> forall|j: int|
            0 <= j < structs.len() ==> (#[trigger] structs[j]).name != name,
    decreases structs.len(),
{
    if structs.len() > 0 && structs[0].name != name {
        lemma_struct_idx(structs.drop_first(), name);
        assert forall|j: int|
            1 <= j < structs.len() implies structs.drop_first()[j - 1] == #[trigger] structs[j] by {}
    }
}

pub proof fn lemma_enum_idx(enums: Seq<EnumV>, name: Seq<char>)
    ensures
        enum_idx(enums, name) matches Some(i) ==> 0 <= i < enums.len() && enums[i].name == name
            && (forall|j: int| 0 <= j < i ==> (#[trigger] enums[j]).name != name),
        enum_idx(enums, name) is None ==> forall|j: int|
            0 <= j < enums.len() ==> (#[trigger] enums[j]).name != name,
    decreases enums.len(),
{
    if enums.len() > 0 && enums[0].name != name {
        lemma_enum_idx(enums.drop_first(), name);
        assert forall|j: int|
            1 <= j < enums.len() implies enums.drop_first()[j - 1] == #[trigger] enums[j] by {}
    }
}

/// Compare two strings for equal contents.
pub fn str_eq(a: &str, b: &str) -> (r: bool)
    ensures
        r == (a@ == b@),
{
    a.to_owned() == b.to_owned()
}

/// Find the position of the first struct with the given name.
pub fn find_struct_pos(structs: &Vec<Struct>, name: &str) -> (r: Option<usize>)
    ensures
        r matches Some(i) ==> i < structs.len() && struct_idx(
            structs@.map_values(|s: Struct| s@),
            name@,
        ) == Some(i as int),
        r is None ==> struct_idx(structs@.map_values(|s: Struct| s@), name@) is None,
{
    let ghost sv = structs@.map_values(|s: Struct| s@);
    let mut i: usize = 0;
    while i < structs.len()
        invariant
            i <= structs.len(),
            sv == structs@.map_values(|s: Struct| s@),
            forall|j: int| 0 <= j < i ==> (#[trigger] sv[j]).name != name@,
        decreases structs.len() - i,
    {
        if str_eq(structs[i].name.as_str(), name) {
            proof {
                lemma_struct_idx_found(sv, name@, i as int);
            }
            return Some(i);
        }
        i += 1;
    }
    proof {
        lemma_struct_idx(sv, name@);
        if struct_idx(sv, name@) is Some {
            let k = struct_idx(sv, name@)->Some_0;
            assert(sv[k].name == name@);
            assert(false);
        }
    }
    None
}

/// If position `i` holds the first struct named `name`, then `struct_idx`
/// returns exactly `i`.
proof fn lemma_struct_idx_found(structs: Seq<StructV>, name: Seq<char>, i: int)
    requires
        0 <= i < structs.len(),
        structs[i].name == name,
        forall|j: int| 0 <= j < i ==> (#[trigger] structs[j]).name != name,
    ensures
        struct_idx(structs, name) == Some(i),
    decreases structs.len(),
{
    if i > 0 {
        lemma_struct_idx_found(structs.drop_first(), name, i - 1);
        assert forall|j: int|
            1 <= j < structs.len() implies structs.drop_first()[j - 1] == #[trigger] structs[j] by {}
    }
}

/// Find the position of the first enum with the given name.
pub fn find_enum_pos(enums: &Vec<Enum>, name: &str) -> (r: Option<usize>)
    ensures
        r matches Some(i) ==> i < enums.len() && enum_idx(
            enums@.map_values(|e: Enum| e@),
            name@,
        ) == Some(i as int),
        r is None ==> enum_idx(enums@.map_values(|e: Enum| e@), name@) is None,
{
    let ghost ev = enums@.map_values(|e: Enum| e@);
    let mut i: usize = 0;
    while i < enums.len()
        invariant
            i <= enums.len(),
            ev == enums@.map_values(|e: Enum| e@),
            forall|j: int| 0 <= j < i ==> (#[trigger] ev[j]).name != name@,
        decreases enums.len() - i,
    {
        if str_eq(enums[i].name.as_str(), name) {
            proof {
                lemma_enum_idx_found(ev, name@, i as int);
            }
            return Some(i);
        }
        i += 1;
    }
    proof {
        lemma_enum_idx(ev, name@);
        if enum_idx(ev, name@) is Some {
            let k = enum_idx(ev, name@)->Some_0;
            assert(ev[k].name == name@);
            assert(false);
        }
    }
    None
}

/// If position `i` holds the first enum named `name`, then `enum_idx` returns
/// exactly `i`.
proof fn lemma_enum_idx_found(enums: Seq<EnumV>, name: Seq<char>, i: int)
    requires
        0 <= i < enums.len(),
        enums[i].name == name,
        forall|j: int| 0 <= j < i ==> (#[trigger] enums[j]).name != name,
    ensures
        enum_idx(enums, name) == Some(i),
    decreases enums.len(),
{
    if i > 0 {
        lemma_enum_idx_found(enums.drop_first(), name, i - 1);
        assert forall|j: int|
            1 <= j < enums.len() implies enums.drop_first()[j - 1] == #[trigger] enums[j] by {}
    }
}

/// Index of the first field with the given name, if any.
pub open spec fn field_idx(fields: Seq<FieldV>, name: Seq<char>) -> Option<int>
    decreases fields.len(),
{
    if fields.len() == 0 {
        None
    } else if fields[0].name == name {
        Some(0)
    } else {
        match field_idx(fields.drop_first(), name) {
            Some(i) => Some(i + 1),
            None => None,
        }
    }
}

pub proof fn lemma_field_idx(fields: Seq<FieldV>, name: Seq<char>)
    ensures
        field_idx(fields, name) matches Some(i) ==> 0 <= i < fields.len() && fields[i].name
            == name,
        field_idx(fields, name) is None ==> forall|j: int|
            0 <= j < fields.len() ==> (#[trigger] fields[j]).name != name,
    decreases fields.len(),
{
    if fields.len() > 0 && fields[0].name != name {
        lemma_field_idx(fields.drop_first(), name);
        assert forall|j: int|
            1 <= j < fields.len() implies fields.drop_first()[j - 1] == #[trigger] fields[j] by {}
    }
}

/// Index of the first variant with the given name, if any.
pub open spec fn variant_idx(variants: Seq<VariantV>, name: Seq<char>) -> Option<int>
    decreases variants.len(),
{
    if variants.len() == 0 {
        None
    } else if variants[0].name == name {
        Some(0)
    } else {
        match variant_idx(variants.drop_first(), name) {
            Some(i) => Some(i + 1),
            None => None,
        }
    }
}

/// If position `i` holds the first field named `name`, then `field_idx`
/// returns exactly `i`.
proof fn lemma_field_idx_found(fields: Seq<FieldV>, name: Seq<char>, i: int)
    requires
        0 <= i < fields.len(),
        fields[i].name == name,
        forall|j: int| 0 <= j < i ==> (#[trigger] fields[j]).name != name,
    ensures
        field_idx(fields, name) == Some(i),
    decreases fields.len(),
{
    if i > 0 {
        lemma_field_idx_found(fields.drop_first(), name, i - 1);
        assert forall|j: int|
            1 <= j < fields.len() implies fields.drop_first()[j - 1] == #[trigger] fields[j] by {}
    }
}

/// Find the position of the first field with the given name.
pub fn find_field_pos(fields: &Vec<StructField>, name: &str) -> (r: Option<usize>)
    ensures
        r matches Some(i) ==> i < fields.len() && field_idx(
            fields@.map_values(|f: StructField| f@),
            name@,
        ) == Some(i as int),
        r is None ==> field_idx(fields@.map_values(|f: StructField| f@), name@) is None,
{
    let ghost fv = fields@.map_values(|f: StructField| f@);
    let mut i: usize = 0;
    while i < fields.len()
        invariant
            i <= fields.len(),
            fv == fields@.map_values(|f: StructField| f@),
            forall|j: int| 0 <= j < i ==> (#[trigger] fv[j]).name != name@,
        decreases fields.len() - i,
    {
        if str_eq(fields[i].name.as_str(), name) {
            proof {
                lemma_field_idx_found(fv, name@, i as int);
            }
            return Some(i);
        }
        i += 1;
    }
    proof {
        lemma_field_idx(fv, name@);
        if field_idx(fv, name@) is Some {
            let k = field_idx(fv, name@)->Some_0;
            assert(fv[k].name == name@);
            assert(false);
        }
    }
    None
}

/// If position `i` holds the first variant named `name`, then `variant_idx`
/// returns exactly `i`.
proof fn lemma_variant_idx_found(variants: Seq<VariantV>, name: Seq<char>, i: int)
    requires
        0 <= i < variants.len(),
        variants[i].name == name,
        forall|j: int| 0 <= j < i ==> (#[trigger] variants[j]).name != name,
    ensures
        variant_idx(variants, name) == Some(i),
    decreases variants.len(),
{
    if i > 0 {
        lemma_variant_idx_found(variants.drop_first(), name, i - 1);
        assert forall|j: int|
            1 <= j < variants.len() implies variants.drop_first()[j - 1] == #[trigger] variants[j]
        by {}
    }
}

/// Find the position of the first variant with the given name.
pub fn find_variant_pos(variants: &Vec<EnumVariant>, name: &str) -> (r: Option<usize>)
    ensures
        r matches Some(i) ==> i < variants.len() && variant_idx(
            variants@.map_values(|v: EnumVariant| v@),
            name@,
        ) == Some(i as int),
        r is None ==> variant_idx(variants@.map_values(|v: EnumVariant| v@), name@) is None,
{
    let ghost vv = variants@.map_values(|v: EnumVariant| v@);
    let mut i: usize = 0;
    while i < variants.len()
        invariant
            i <= variants.len(),
            vv == variants@.map_values(|v: EnumVariant| v@),
            forall|j: int| 0 <= j < i ==> (#[trigger] vv[j]).name != name@,
        decreases variants.len() - i,
    {
        if str_eq(variants[i].name.as_str(), name) {
            proof {
                lemma_variant_idx_found(vv, name@, i as int);
            }
            return Some(i);
        }
        i += 1;
    }
    proof {
        lemma_variant_idx(vv, name@);
        if variant_idx(vv, name@) is Some {
            let k = variant_idx(vv, name@)->Some_0;
            assert(vv[k].name == name@);
            assert(false);
        }
    }
    None
}

pub proof fn lemma_variant_idx(variants: Seq<VariantV>, name: Seq<char>)
    ensures
        variant_idx(variants, name) matches Some(i) ==> 0 <= i < variants.len()
            && variants[i].name == name,
        variant_idx(variants, name) is None ==> forall|j: int|
            0 <= j < variants.len() ==> (#[trigger] variants[j]).name != name,
    decreases variants.len(),
{
    if variants.len() > 0 && variants[0].name != name {
        lemma_variant_idx(variants.drop_first(), name);
        assert forall|j: int|
            1 <= j < variants.len() implies variants.drop_first()[j - 1] == #[trigger] variants[j]
        by {}
    }
}

// ---------------------------------------------------------------------------
// Wire sizes
// ---------------------------------------------------------------------------
/// Size in bytes of one primitive value on the wire.
pub open spec fn prim_size(p: PrimitiveTypes) -> int {
    match p {
        PrimitiveTypes::U8 | PrimitiveTypes::I8 | PrimitiveTypes::Bool => 1,
        PrimitiveTypes::U16 | PrimitiveTypes::I16 => 2,
        PrimitiveTypes::U32 | PrimitiveTypes::I32 | PrimitiveTypes::F32 => 4,
    }
}

/// Repetition count of a field: `None` means a scalar, i.e. one element.
pub open spec fn array_count(a: Option<u32>) -> int {
    match a {
        Some(n) => n as int,
        None => 1,
    }
}

/// Size in bytes of one element of the given type, with bounded recursion
/// through embedded structs. An embedded struct contributes its payload size
/// only (its own 4-byte tag is excluded); an enum always contributes 4 bytes;
/// an unknown or unresolvable type has no size.
pub open spec fn elem_size_f(pkg: PackageV, t: FieldTypeV, fuel: nat) -> Option<int>
    decreases fuel, 0int, 0int,
{
    match t {
        FieldTypeV::Primitive(p) => Some(prim_size(p)),
        FieldTypeV::Enum(name) => if find_enum(pkg.enums, name) is Some {
            Some(4)
        } else {
            None
        },
        FieldTypeV::Struct(name) => if fuel == 0 {
            None
        } else {
            match find_struct(pkg.structs, name) {
                Some(s) => fields_size_f(pkg, s.fields, (fuel - 1) as nat),
                None => None,
            }
        },
        FieldTypeV::Unknown(_) => None,
    }
}

/// Size in bytes of one field: element size times repetition count. Wire
/// sizes live in `u32`, so a product past `u32::MAX` has no size.
pub open spec fn field_size_f(pkg: PackageV, f: FieldV, fuel: nat) -> Option<int>
    decreases fuel, 0int, 1int,
{
    match elem_size_f(pkg, f.t, fuel) {
        Some(e) => if e * array_count(f.array) <= u32::MAX {
            Some(e * array_count(f.array))
        } else {
            None
        },
        None => None,
    }
}

/// Total size in bytes of a field list: the sum of its field sizes. Wire
/// sizes live in `u32`, so a sum past `u32::MAX` has no size.
pub open spec fn fields_size_f(pkg: PackageV, fields: Seq<FieldV>, fuel: nat) -> Option<int>
    decreases fuel, fields.len(), 2int,
{
    if fields.len() == 0 {
        Some(0)
    } else {
        match (field_size_f(pkg, fields[0], fuel), fields_size_f(pkg, fields.drop_first(), fuel)) {
            (Some(a), Some(b)) => if a + b <= u32::MAX {
                Some(a + b)
            } else {
                None
            },
            _ => None,
        }
    }
}

/// Recursion budget that suffices for every acyclic embedding chain: a chain
/// of distinct structs in the package is never longer than the struct count.
pub open spec fn size_fuel(pkg: PackageV) -> nat {
    pkg.structs.len()
}

/// Payload size of a struct (the 4-byte name-hash tag is not included).
pub open spec fn struct_size(pkg: PackageV, s: StructV) -> Option<int> {
    fields_size_f(pkg, s.fields, size_fuel(pkg))
}

/// Size of a field at the canonical recursion budget.
pub open spec fn field_size(pkg: PackageV, f: FieldV) -> Option<int> {
    field_size_f(pkg, f, size_fuel(pkg))
}

/// Size of one element of a type at the canonical recursion budget.
pub open spec fn elem_size(pkg: PackageV, t: FieldTypeV) -> Option<int> {
    elem_size_f(pkg, t, size_fuel(pkg))
}

/// An element size never goes below zero.
pub proof fn lemma_elem_size_nonneg(pkg: PackageV, t: FieldTypeV, fuel: nat)
    ensures
        elem_size_f(pkg, t, fuel) matches Some(n) ==> n >= 0,
    decreases fuel, 0int, 0int,
{
    match t {
        FieldTypeV::Struct(name) => {
            if fuel > 0 {
                match find_struct(pkg.structs, name) {
                    Some(s) => lemma_fields_size_nonneg(pkg, s.fields, (fuel - 1) as nat),
                    None => {},
                }
            }
        },
        _ => {},
    }
}

/// A field size never goes below zero.
pub proof fn lemma_field_size_nonneg(pkg: PackageV, f: FieldV, fuel: nat)
    ensures
        field_size_f(pkg, f, fuel) matches Some(n) ==> n >= 0,
    decreases fuel, 0int, 1int,
{
    lemma_elem_size_nonneg(pkg, f.t, fuel);
    if elem_size_f(pkg, f.t, fuel) is Some {
        let e = elem_size_f(pkg, f.t, fuel)->Some_0;
        assert(e * array_count(f.array) >= 0) by (nonlinear_arith)
            requires
                e >= 0,
                array_count(f.array) >= 0,
        ;
    }
}

/// A field-list size never goes below zero.
pub proof fn lemma_fields_size_nonneg(pkg: PackageV, fields: Seq<FieldV>, fuel: nat)
    ensures
        fields_size_f(pkg, fields, fuel) matches Some(n) ==> n >= 0,
    decreases fuel, fields.len(), 2int,
{
    if fields.len() > 0 {
        lemma_field_size_nonneg(pkg, fields[0], fuel);
        lemma_fields_size_nonneg(pkg, fields.drop_first(), fuel);
    }
}

/// A computable size is never past `u32::MAX`: sums and products are capped
/// when they are formed.
pub proof fn lemma_fields_size_le_max(pkg: PackageV, fields: Seq<FieldV>, fuel: nat)
    ensures
        fields_size_f(pkg, fields, fuel) matches Some(n) ==> n <= u32::MAX,
{
}

/// An element size is never past `u32::MAX`.
pub proof fn lemma_elem_size_le_max(pkg: PackageV, t: FieldTypeV, fuel: nat)
    ensures
        elem_size_f(pkg, t, fuel) matches Some(n) ==> n <= u32::MAX,
{
    match t {
        FieldTypeV::Struct(name) => {
            if fuel > 0 {
                match find_struct(pkg.structs, name) {
                    Some(s) => lemma_fields_size_le_max(pkg, s.fields, (fuel - 1) as nat),
                    None => {},
                }
            }
        },
        _ => {},
    }
}

/// More fuel never changes a size that was already computable.
pub proof fn lemma_elem_size_monotonic(pkg: PackageV, t: FieldTypeV, fuel1: nat, fuel2: nat)
    requires
        fuel1 <= fuel2,
        elem_size_f(pkg, t, fuel1) is Some,
    ensures
        elem_size_f(pkg, t, fuel2) == elem_size_f(pkg, t, fuel1),
    decreases fuel1, 0int, 0int,
{
    match t {
        FieldTypeV::Struct(name) => {
            match find_struct(pkg.structs, name) {
                Some(s) => {
                    lemma_fields_size_monotonic(
                        pkg,
                        s.fields,
                        (fuel1 - 1) as nat,
                        (fuel2 - 1) as nat,
                    );
                },
                None => {},
            }
        },
        _ => {},
    }
}

/// More fuel never changes a field size that was already computable.
pub proof fn lemma_field_size_monotonic(pkg: PackageV, f: FieldV, fuel1: nat, fuel2: nat)
    requires
        fuel1 <= fuel2,
        field_size_f(pkg, f, fuel1) is Some,
    ensures
        field_size_f(pkg, f, fuel2) == field_size_f(pkg, f, fuel1),
    decreases fuel1, 0int, 1int,
{
    lemma_elem_size_monotonic(pkg, f.t, fuel1, fuel2);
}

/// More fuel never changes a field-list size that was already computable.
pub proof fn lemma_fields_size_monotonic(pkg: PackageV, fields: Seq<FieldV>, fuel1: nat, fuel2: nat)
    requires
        fuel1 <= fuel2,
        fields_size_f(pkg, fields, fuel1) is Some,
    ensures
        fields_size_f(pkg, fields, fuel2) == fields_size_f(pkg, fields, fuel1),
    decreases fuel1, fields.len(), 2int,
{
    if fields.len() > 0 {
        lemma_field_size_monotonic(pkg, fields[0], fuel1, fuel2);
        lemma_fields_size_monotonic(pkg, fields.drop_first(), fuel1, fuel2);
    }
}

/// Size additivity: the size of a concatenated field list is the sum of the
/// sizes of its parts (when that sum is still a wire size), and a missing
/// size on either side is missing for the whole.
pub proof fn lemma_fields_size_additive(pkg: PackageV, a: Seq<FieldV>, b: Seq<FieldV>, fuel: nat)
    ensures
        fields_size_f(pkg, a + b, fuel) == match (
            fields_size_f(pkg, a, fuel),
            fields_size_f(pkg, b, fuel),
        ) {
            (Some(x), Some(y)) => if x + y <= u32::MAX {
                Some(x + y)
            } else {
                None::<int>
            },
            _ => None::<int>,
        },
    decreases a.len(),
{
    if a.len() == 0 {
        assert(a + b =~= b);
    } else {
        lemma_fields_size_additive(pkg, a.drop_first(), b, fuel);
        lemma_field_size_nonneg(pkg, a[0], fuel);
        lemma_fields_size_nonneg(pkg, a.drop_first(), fuel);
        lemma_fields_size_nonneg(pkg, b, fuel);
        assert((a + b).drop_first() =~= a.drop_first() + b);
        assert((a + b)[0] == a[0]);
    }
}

/// Size scaling: a field's size is its element size times its repetition
/// count (a scalar counts as one element), capped at the wire-size range.
pub proof fn lemma_field_size_scales(pkg: PackageV, f: FieldV)
    ensures
        field_size(pkg, f) == match elem_size(pkg, f.t) {
            Some(e) => if e * array_count(f.array) <= u32::MAX {
                Some(e * array_count(f.array))
            } else {
                None::<int>
            },
            None => None::<int>,
        },
{
}

/// How well-formed the result of a sizing call must relate to the
/// specification-level size: the mathematical size when it exists and fits a
/// `u32`, and no answer otherwise.
pub open spec fn size_result_ok(r: Option<u32>, s: Option<int>) -> bool {
    match s {
        Some(n) => if n <= u32::MAX {
            r == Some(n as u32)
        } else {
            r is None
        },
        None => r is None,
    }
}

/// Element size of a named (struct/enum/unknown) type with an explicit
/// recursion budget.
fn complex_size_at(pkg: &Package, c: &ComplexTypes, fuel: usize) -> (r: Option<u32>)
    ensures
        size_result_ok(r, elem_size_f(pkg@, c@, fuel as nat)),
    decreases fuel, 0int, 0int,
{
    match c {
        ComplexTypes::Enum(name) => {
            match find_enum_pos(&pkg.enums, name.as_str()) {
                Some(_) => Some(4),
                None => None,
            }
        },
        ComplexTypes::Struct(name) => {
            if fuel == 0 {
                None
            } else {
                match find_struct_pos(&pkg.structs, name.as_str()) {
                    Some(i) => {
                        let r = fields_size_rec(pkg, &pkg.structs[i].fields, 0, fuel - 1);
                        proof {
                            let target = find_struct(pkg@.structs, name@)->Some_0;
                            assert(target == pkg.structs@.map_values(|s: Struct| s@)[i as int]);
                            assert(pkg.structs@[i as int]@.fields.skip(0) =~= target.fields);
                        }
                        r
                    },
                    None => None,
                }
            }
        },
        ComplexTypes::Unknown(_) => None,
    }
}

/// Element size with an explicit recursion budget.
pub(crate) fn elem_size_at(pkg: &Package, t: &FieldType, fuel: usize) -> (r: Option<u32>)
    ensures
        size_result_ok(r, elem_size_f(pkg@, t@, fuel as nat)),
    decreases fuel, 0int, 1int,
{
    match t {
        FieldType::PRIMITIVE(p) => Some(p.size()),
        FieldType::COMPLEX(c) => complex_size_at(pkg, c, fuel),
    }
}

/// Field size with an explicit recursion budget.
fn field_size_at(pkg: &Package, f: &StructField, fuel: usize) -> (r: Option<u32>)
    ensures
        size_result_ok(r, field_size_f(pkg@, f@, fuel as nat)),
    decreases fuel, 0int, 2int,
{
    let count: u32 = match f.array {
        Some(n) => n,
        None => 1,
    };
    match elem_size_at(pkg, &f.t, fuel) {
        Some(e) => {
            proof {
                lemma_elem_size_nonneg(pkg@, f.t@, fuel as nat);
                assert((e as int) * (count as int) <= 0xffff_ffff * 0xffff_ffff) by (nonlinear_arith)
                    requires
                        e <= 0xffff_ffffu32,
                        count <= 0xffff_ffffu32,
                ;
            }
            let prod: u64 = (e as u64) * (count as u64);
            if prod <= u32::MAX as u64 {
                Some(prod as u32)
            } else {
                None
            }
        },
        None => None,
    }
}

/// Sum of the sizes of `fields[i..]` with an explicit recursion budget.
fn fields_size_rec(pkg: &Package, fields: &Vec<StructField>, i: usize, fuel: usize) -> (r: Option<
    u32,
>)
    requires
        i <= fields.len(),
    ensures
        size_result_ok(
            r,
            fields_size_f(pkg@, fields@.map_values(|f: StructField| f@).skip(i as int), fuel as nat),
        ),
    decreases fuel, fields.len() - i, 3int,
{
    let ghost fv = fields@.map_values(|f: StructField| f@).skip(i as int);
    if i == fields.len() {
        assert(fv.len() == 0);
        Some(0)
    } else {
        assert(fv[0] == fields@.map_values(|f: StructField| f@)[i as int]);
        assert(fv.drop_first() =~= fields@.map_values(|f: StructField| f@).skip(i as int + 1));
        let head = field_size_at(pkg, &fields[i], fuel);
        let tail = fields_size_rec(pkg, fields, i + 1, fuel);
        proof {
            lemma_field_size_nonneg(pkg@, fv[0], fuel as nat);
            lemma_fields_size_nonneg(pkg@, fv.drop_first(), fuel as nat);
        }
        match (head, tail) {
            (Some(a), Some(b)) => {
                let sum: u64 = (a as u64) + (b as u64);
                if sum <= u32::MAX as u64 {
                    Some(sum as u32)
                } else {
                    None
                }
            },
            _ => None,
        }
    }
}

impl PrimitiveTypes {
    /// The schema spelling of a primitive type.
    pub open spec fn spec_str(self) -> Seq<char> {
        match self {
            PrimitiveTypes::U8 => "u8"@,
            PrimitiveTypes::U16 => "u16"@,
            PrimitiveTypes::U32 => "u32"@,
            PrimitiveTypes::I8 => "i8"@,
            PrimitiveTypes::I16 => "i16"@,
            PrimitiveTypes::I32 => "i32"@,
            PrimitiveTypes::F32 => "f32"@,
            PrimitiveTypes::Bool => "bool"@,
        }
    }

    pub fn str(&self) -> (r: &str)
        ensures
            r@ == self.spec_str(),
    {
        match self {
            PrimitiveTypes::U8 => "u8",
            PrimitiveTypes::U16 => "u16",
            PrimitiveTypes::U32 => "u32",
            PrimitiveTypes::I8 => "i8",
            PrimitiveTypes::I16 => "i16",
            PrimitiveTypes::I32 => "i32",
            PrimitiveTypes::F32 => "f32",
            PrimitiveTypes::Bool => "bool",
        }
    }

    /// Whether a name is the spelling of some primitive type.
    pub open spec fn is_primitive_name(s: Seq<char>) -> bool {
        s == "u8"@ || s == "u16"@ || s == "u32"@ || s == "i8"@ || s == "i16"@ || s == "i32"@ || s
            == "f32"@ || s == "bool"@
    }

    /// The primitive type a name denotes (meaningful only for primitive
    /// names).
    pub open spec fn of_name(s: Seq<char>) -> PrimitiveTypes {
        if s == "u8"@ {
            PrimitiveTypes::U8
        } else if s == "u16"@ {
            PrimitiveTypes::U16
        } else if s == "u32"@ {
            PrimitiveTypes::U32
        } else if s == "i8"@ {
            PrimitiveTypes::I8
        } else if s == "i16"@ {
            PrimitiveTypes::I16
        } else if s == "i32"@ {
            PrimitiveTypes::I32
        } else if s == "f32"@ {
            PrimitiveTypes::F32
        } else {
            PrimitiveTypes::Bool
        }
    }

    /// Resolve a primitive type name. The caller must already have checked
    /// that the name denotes a primitive.
    pub fn new(s: String) -> (r: PrimitiveTypes)
        requires
            Self::is_primitive_name(s@),
        ensures
            r == Self::of_name(s@),
    {
        if str_eq(s.as_str(), "u8") {
            PrimitiveTypes::U8
        } else if str_eq(s.as_str(), "u16") {
            PrimitiveTypes::U16
        } else if str_eq(s.as_str(), "u32") {
            PrimitiveTypes::U32
        } else if str_eq(s.as_str(), "i8") {
            PrimitiveTypes::I8
        } else if str_eq(s.as_str(), "i16") {
            PrimitiveTypes::I16
        } else if str_eq(s.as_str(), "i32") {
            PrimitiveTypes::I32
        } else if str_eq(s.as_str(), "f32") {
            PrimitiveTypes::F32
        } else {
            PrimitiveTypes::Bool
        }
    }

    pub fn size(&self) -> (r: u32)
        ensures
            r == prim_size(*self),
    {
        match self {
            PrimitiveTypes::U8 | PrimitiveTypes::I8 | PrimitiveTypes::Bool => 1,
            PrimitiveTypes::U16 | PrimitiveTypes::I16 => 2,
            PrimitiveTypes::U32 | PrimitiveTypes::I32 | PrimitiveTypes::F32 => 4,
        }
    }
}

impl ComplexTypes {
    /// The referenced declaration's name.
    pub fn str(&self) -> (r: &str)
        ensures
            r@ == match self@ {
                FieldTypeV::Struct(n) => n,
                FieldTypeV::Enum(n) => n,
                FieldTypeV::Unknown(n) => n,
                FieldTypeV::Primitive(_) => Seq::<char>::empty(),
            },
    {
        match self {
            ComplexTypes::Struct(s) => s.as_str(),
            ComplexTypes::Enum(e) => e.as_str(),
            ComplexTypes::Unknown(u) => u.as_str(),
        }
    }

    /// Size in bytes of one value of this type, if it is resolvable within
    /// the package.
    pub fn size(&self, pkg: &Package) -> (r: Option<u32>)
        ensures
            size_result_ok(r, elem_size(pkg@, self@)),
    {
        complex_size_at(pkg, self, pkg.structs.len())
    }
}

impl FieldType {
    /// The schema spelling of this type.
    pub fn str(&self) -> (r: &str)
        ensures
            r@ == match self@ {
                FieldTypeV::Primitive(p) => p.spec_str(),
                FieldTypeV::Struct(n) => n,
                FieldTypeV::Enum(n) => n,
                FieldTypeV::Unknown(n) => n,
            },
    {
        match self {
            FieldType::PRIMITIVE(p) => p.str(),
            FieldType::COMPLEX(c) => c.str(),
        }
    }

    /// Size in bytes of one value of this type, if resolvable.
    pub fn size(&self, pkg: &Package) -> (r: Option<u32>)
        ensures
            size_result_ok(r, elem_size(pkg@, self@)),
    {
        elem_size_at(pkg, self, pkg.structs.len())
    }
}

impl StructField {
    /// Size in bytes of this field on the wire, if resolvable.
    pub fn size(&self, pkg: &Package) -> (r: Option<u32>)
        ensures
            size_result_ok(r, field_size(pkg@, self@)),
    {
        field_size_at(pkg, self, pkg.structs.len())
    }
}

impl Enum {
    /// An enum value always occupies four bytes on the wire.
    pub fn size(&self) -> (r: u32)
        ensures
            r == 4,
    {
        4
    }
}

// ---------------------------------------------------------------------------
// Name hash
// ---------------------------------------------------------------------------
/// One FNV-1a round: fold one byte into the hash state.
pub open spec fn fnv1a_step(h: u32, b: u8) -> u32 {
    (h ^ (b as u32)).wrapping_mul(16777619u32)
}

/// FNV-1a (32-bit) over a byte sequence.
pub open spec fn fnv1a_of(bytes: Seq<u8>) -> u32
    decreases bytes.len(),
{
    if bytes.len() == 0 {
        2166136261u32
    } else {
        fnv1a_step(fnv1a_of(bytes.drop_last()), bytes.last())
    }
}

/// The wire type tag of a struct: FNV-1a over the UTF-8 bytes of its name.
pub open spec fn struct_tag(s: StructV) -> u32 {
    fnv1a_of(encode_utf8(s.name))
}

impl Struct {
    /// Simple, non-cryptographic hashing algorithm (FNV-1a, 32-bit), applied
    /// to the UTF-8 bytes of the struct's name. Used as the unique wire tag
    /// of the struct.
    pub fn fnv_1a(&self) -> (r: u32)
        ensures
            r == struct_tag(self@),
    {
        let bytes: &[u8] = self.name.as_str().as_bytes();
        let fnv_prime: u32 = 16777619;
        let mut hash: u32 = 2166136261;
        let mut i: usize = 0;
        assert(bytes@ == encode_utf8(self.name@));
        while i < bytes.len()
            invariant
                i <= bytes@.len(),
                bytes@ == encode_utf8(self.name@),
                fnv_prime == 16777619u32,
                hash == fnv1a_of(bytes@.subrange(0, i as int)),
            decreases bytes@.len() - i,
        {
            let b = bytes[i];
            hash = (hash ^ (b as u32)).wrapping_mul(fnv_prime);
            proof {
                let pre = bytes@.subrange(0, i as int);
                let post = bytes@.subrange(0, i + 1 as int);
                assert(post.drop_last() =~= pre);
                assert(post.last() == bytes@[i as int]);
            }
            i += 1;
        }
        proof {
            assert(bytes@.subrange(0, bytes@.len() as int) =~= bytes@);
        }
        hash
    }

    /// Payload size of this struct in bytes (tag excluded), if every field
    /// type is resolvable within the package.
    pub fn size(&self, pkg: &Package) -> (r: Option<u32>)
        ensures
            size_result_ok(r, struct_size(pkg@, self@)),
    {
        let r = fields_size_rec(pkg, &self.fields, 0, pkg.structs.len());
        proof {
            assert(self@.fields.skip(0) =~= self@.fields);
        }
        r
    }
}

/// Tag determinism: the wire tag is a pure function of the struct's name, so
/// two structs with the same name always carry the same tag, whatever their
/// fields or their packages.
pub proof fn lemma_tag_deterministic(a: StructV, b: StructV)
    requires
        a.name == b.name,
    ensures
        struct_tag(a) == struct_tag(b),
{
}

// ---------------------------------------------------------------------------
// Package construction and completeness
// ---------------------------------------------------------------------------
impl Package {
    /// A package is complete only once both its name and its version have
    /// been declared.
    pub fn is_some(&self) -> (r: bool)
        ensures
            r == (self@.name is Some && self@.version is Some),
    {
        self.version.is_some() && self.name.is_some()
    }

    /// Whether the package's declared version matches the compiler's own
    /// version (the compatibility gate: a schema declaring a different
    /// version is rejected by the caller).
    pub fn version_matches(&self, expected: &str) -> (r: bool)
        ensures
            r == (self@.version matches Some(v) && v == expected@),
    {
        match &self.version {
            Some(v) => str_eq(v.as_str(), expected),
            None => false,
        }
    }

    /// Append a parsed field to the struct of the given name. The struct must
    /// already have been declared.
    pub fn add_struct_field(&mut self, struct_name: &String, field: StructField)
        requires
            struct_idx(old(self)@.structs, struct_name@) is Some,
        ensures
            final(self)@ == (PackageV {
                structs: old(self)@.structs.update(
                    struct_idx(old(self)@.structs, struct_name@)->Some_0,
                    StructV {
                        name: old(self)@.structs[struct_idx(
                            old(self)@.structs,
                            struct_name@,
                        )->Some_0].name,
                        fields: old(self)@.structs[struct_idx(
                            old(self)@.structs,
                            struct_name@,
                        )->Some_0].fields.push(field@),
                    },
                ),
                ..old(self)@
            }),
    {
        proof {
            lemma_struct_idx(old(self)@.structs, struct_name@);
        }
        let pos = find_struct_pos(&self.structs, struct_name.as_str());
        match pos {
            Some(i) => {
                let mut s = self.structs.remove(i);
                s.fields.push(field);
                self.structs.insert(i, s);
                proof {
                    let gi = struct_idx(old(self)@.structs, struct_name@)->Some_0;
                    assert(self.structs@.map_values(|s: Struct| s@)
                        =~~= old(self)@.structs.update(
                        gi,
                        StructV {
                            name: old(self)@.structs[gi].name,
                            fields: old(self)@.structs[gi].fields.push(field@),
                        },
                    ));
                }
            },
            None => {
                proof {
                    assert(false);
                }
            },
        }
    }

    /// Append a parsed variant to the enum of the given name. The enum must
    /// already have been declared.
    pub fn add_enum_variant(&mut self, enum_name: &String, variant: EnumVariant)
        requires
            enum_idx(old(self)@.enums, enum_name@) is Some,
        ensures
            final(self)@ == (PackageV {
                enums: old(self)@.enums.update(
                    enum_idx(old(self)@.enums, enum_name@)->Some_0,
                    EnumV {
                        name: old(self)@.enums[enum_idx(old(self)@.enums, enum_name@)->Some_0].name,
                        variants: old(self)@.enums[enum_idx(
                            old(self)@.enums,
                            enum_name@,
                        )->Some_0].variants.push(variant@),
                    },
                ),
                ..old(self)@
            }),
    {
        proof {
            lemma_enum_idx(old(self)@.enums, enum_name@);
        }
        let pos = find_enum_pos(&self.enums, enum_name.as_str());
        match pos {
            Some(i) => {
                let mut e = self.enums.remove(i);
                e.variants.push(variant);
                self.enums.insert(i, e);
                proof {
                    let gi = enum_idx(old(self)@.enums, enum_name@)->Some_0;
                    assert(self.enums@.map_values(|e: Enum| e@) =~~= old(self)@.enums.update(
                        gi,
                        EnumV {
                            name: old(self)@.enums[gi].name,
                            variants: old(self)@.enums[gi].variants.push(variant@),
                        },
                    ));
                }
            },
            None => {
                proof {
                    assert(false);
                }
            },
        }
    }
}

} // verus!

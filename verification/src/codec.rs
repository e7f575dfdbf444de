//! The generation contract of the wire format, stated once over the AST: a
//! dynamic value model, the exact bytes a valid value encodes to, a strict
//! decoder, and the decode-by-tag dispatcher. Every backend's generated
//! encoder/decoder must produce and consume exactly these bytes.

use vstd::prelude::*;

use crate::ast::{
    array_count, elem_size_f, field_size_f, fields_size_f, find_enum, find_struct,
    lemma_struct_idx, size_fuel, struct_size, struct_tag, ComplexTypes, FieldType, FieldTypeV,
    FieldV, Package, PackageV, PrimitiveTypes, Struct, StructField, StructV,
};
use crate::ast::{find_enum_pos, find_struct_pos};

verus! {

/// A dynamic value of some schema type: primitives carry their machine value
/// (an `f32` is carried as its IEEE-754 bit pattern, which is what the wire
/// holds), an enum value is its ordinal, a struct value lists one value per
/// field in field order, and an array field's value lists its elements.
#[derive(Debug)]
pub enum Value {
    U8(u8),
    U16(u16),
    U32(u32),
    I8(i8),
    I16(i16),
    I32(i32),
    F32Bits(u32),
    Bool(bool),
    EnumVal(u32),
    StructVal(Vec<Value>),
    ArrayVal(Vec<Value>),
}

/// Ghost mirror of a dynamic value.
#[verifier::ext_equal]
pub enum ValueV {
    U8(u8),
    U16(u16),
    U32(u32),
    I8(i8),
    I16(i16),
    I32(i32),
    F32Bits(u32),
    Bool(bool),
    EnumVal(u32),
    StructVal(Seq<ValueV>),
    ArrayVal(Seq<ValueV>),
}

impl View for Value {
    type V = ValueV;

    open spec fn view(&self) -> ValueV
        decreases self,
    {
        match self {
            Value::U8(x) => ValueV::U8(*x),
            Value::U16(x) => ValueV::U16(*x),
            Value::U32(x) => ValueV::U32(*x),
            Value::I8(x) => ValueV::I8(*x),
            Value::I16(x) => ValueV::I16(*x),
            Value::I32(x) => ValueV::I32(*x),
            Value::F32Bits(x) => ValueV::F32Bits(*x),
            Value::Bool(b) => ValueV::Bool(*b),
            Value::EnumVal(x) => ValueV::EnumVal(*x),
            Value::StructVal(vs) => ValueV::StructVal(vals_view(vs@)),
            Value::ArrayVal(vs) => ValueV::ArrayVal(vals_view(vs@)),
        }
    }
}

/// The element-wise view of a field list.
pub open spec fn fields_view(fields: Seq<StructField>) -> Seq<FieldV> {
    fields.map_values(|ff: StructField| ff@)
}

/// The element-wise view of a sequence of values.
pub open spec fn vals_view(vs: Seq<Value>) -> Seq<ValueV>
    decreases vs,
{
    if vs.len() == 0 {
        Seq::empty()
    } else {
        vals_view(vs.drop_last()).push(vs.last()@)
    }
}

/// `vals_view` is the element-wise view.
pub proof fn lemma_vals_view(vs: Seq<Value>)
    ensures
        vals_view(vs).len() == vs.len(),
        forall|i: int| 0 <= i < vs.len() ==> vals_view(vs)[i] == #[trigger] vs[i]@,
    decreases vs.len(),
{
    if vs.len() > 0 {
        lemma_vals_view(vs.drop_last());
        assert(vals_view(vs) == vals_view(vs.drop_last()).push(vs.last()@));
        assert forall|i: int| 0 <= i < vs.len() implies vals_view(vs)[i] == #[trigger] vs[i]@ by {
            if i < vs.len() - 1 {
                assert(vs.drop_last()[i] == vs[i]);
                assert(vals_view(vs.drop_last())[i] == vs.drop_last()[i]@);
            } else {
                assert(vs.last() == vs[i]);
            }
        }
    }
}

// ---------------------------------------------------------------------------
// Big-endian byte strings
// ---------------------------------------------------------------------------
/// The two's-complement bit pattern of an 8-bit signed value.
pub open spec fn to_unsigned_8(v: int) -> int {
    if v < 0 {
        v + 0x100
    } else {
        v
    }
}

/// The two's-complement bit pattern of a 16-bit signed value.
pub open spec fn to_unsigned_16(v: int) -> int {
    if v < 0 {
        v + 0x10000
    } else {
        v
    }
}

/// The two's-complement bit pattern of a 32-bit signed value.
pub open spec fn to_unsigned_32(v: int) -> int {
    if v < 0 {
        v + 0x100000000
    } else {
        v
    }
}

/// The two big-endian bytes of a 16-bit unsigned value.
pub open spec fn be16_bytes(v: int) -> Seq<u8> {
    seq![((v / 0x100) % 0x100) as u8, (v % 0x100) as u8]
}

/// The four big-endian bytes of a 32-bit unsigned value.
pub open spec fn be32_bytes(v: int) -> Seq<u8> {
    seq![
        ((v / 0x1000000) % 0x100) as u8,
        ((v / 0x10000) % 0x100) as u8,
        ((v / 0x100) % 0x100) as u8,
        (v % 0x100) as u8,
    ]
}

// ---------------------------------------------------------------------------
// Which values fit which types
// ---------------------------------------------------------------------------
/// Whether a value fits one element of the given type: primitive kinds must
/// match, an enum value's ordinal must be in declared range, and a struct
/// value must carry a valid value for every field, in field order.
pub open spec fn valid_elem(pkg: PackageV, t: FieldTypeV, v: ValueV, fuel: nat) -> bool
    decreases fuel, 0int, 0int,
{
    match t {
        FieldTypeV::Primitive(p) => match p {
            PrimitiveTypes::U8 => v is U8,
            PrimitiveTypes::U16 => v is U16,
            PrimitiveTypes::U32 => v is U32,
            PrimitiveTypes::I8 => v is I8,
            PrimitiveTypes::I16 => v is I16,
            PrimitiveTypes::I32 => v is I32,
            PrimitiveTypes::F32 => v is F32Bits,
            PrimitiveTypes::Bool => v is Bool,
        },
        FieldTypeV::Enum(name) => match find_enum(pkg.enums, name) {
            Some(e) => v matches ValueV::EnumVal(ord) && (ord as int) < e.variants.len(),
            None => false,
        },
        FieldTypeV::Struct(name) => fuel > 0 && match find_struct(pkg.structs, name) {
            Some(s) => v matches ValueV::StructVal(vs) && valid_fields(
                pkg,
                s.fields,
                vs,
                (fuel - 1) as nat,
            ),
            None => false,
        },
        FieldTypeV::Unknown(_) => false,
    }
}

/// Whether a value fits a field: a scalar field takes one element, an array
/// field takes exactly `n` elements of the element type.
pub open spec fn valid_field(pkg: PackageV, f: FieldV, v: ValueV, fuel: nat) -> bool
    decreases fuel, 2int, 0int,
{
    match f.array {
        None => valid_elem(pkg, f.t, v, fuel),
        Some(n) => v matches ValueV::ArrayVal(elems) && elems.len() == n && (forall|i: int|
            0 <= i < elems.len() ==> valid_elem(pkg, f.t, #[trigger] elems[i], fuel)),
    }
}

/// Whether a value list fits a field list, position by position.
pub open spec fn valid_fields(pkg: PackageV, fields: Seq<FieldV>, vs: Seq<ValueV>, fuel: nat) -> bool
    decreases fuel, 3int, 0int,
{
    vs.len() == fields.len() && (forall|i: int|
        0 <= i < fields.len() ==> valid_field(pkg, fields[i], #[trigger] vs[i], fuel))
}

// ---------------------------------------------------------------------------
// The bytes a value encodes to
// ---------------------------------------------------------------------------
/// The bytes of one element: fixed-width big-endian for primitives (bool is
/// one byte, 0 or 1), the big-endian `u32` ordinal for an enum, and the bare
/// payload (no tag) for an embedded struct. Empty for a value that does not
/// fit the type.
pub open spec fn enc_elem(pkg: PackageV, t: FieldTypeV, v: ValueV, fuel: nat) -> Seq<u8>
    decreases fuel, 0int, 0int,
{
    match t {
        FieldTypeV::Primitive(p) => match (p, v) {
            (PrimitiveTypes::U8, ValueV::U8(x)) => seq![x],
            (PrimitiveTypes::U16, ValueV::U16(x)) => be16_bytes(x as int),
            (PrimitiveTypes::U32, ValueV::U32(x)) => be32_bytes(x as int),
            (PrimitiveTypes::I8, ValueV::I8(x)) => seq![to_unsigned_8(x as int) as u8],
            (PrimitiveTypes::I16, ValueV::I16(x)) => be16_bytes(to_unsigned_16(x as int)),
            (PrimitiveTypes::I32, ValueV::I32(x)) => be32_bytes(to_unsigned_32(x as int)),
            (PrimitiveTypes::F32, ValueV::F32Bits(x)) => be32_bytes(x as int),
            (PrimitiveTypes::Bool, ValueV::Bool(b)) => seq![
                if b {
                    1u8
                } else {
                    0u8
                },
            ],
            _ => Seq::empty(),
        },
        FieldTypeV::Enum(_) => match v {
            ValueV::EnumVal(ord) => be32_bytes(ord as int),
            _ => Seq::empty(),
        },
        FieldTypeV::Struct(name) => if fuel == 0 {
            Seq::empty()
        } else {
            match find_struct(pkg.structs, name) {
                Some(s) => match v {
                    ValueV::StructVal(vs) => enc_fields(pkg, s.fields, vs, (fuel - 1) as nat),
                    _ => Seq::empty(),
                },
                None => Seq::empty(),
            }
        },
        FieldTypeV::Unknown(_) => Seq::empty(),
    }
}

/// The bytes of a run of elements of one type, in index order.
pub open spec fn enc_elem_list(pkg: PackageV, t: FieldTypeV, vs: Seq<ValueV>, fuel: nat) -> Seq<u8>
    decreases fuel, 1int, vs.len(),
{
    if vs.len() == 0 {
        Seq::empty()
    } else {
        enc_elem(pkg, t, vs[0], fuel) + enc_elem_list(pkg, t, vs.drop_first(), fuel)
    }
}

/// The bytes of one field: one element for a scalar, the element run for an
/// array.
pub open spec fn enc_field(pkg: PackageV, f: FieldV, v: ValueV, fuel: nat) -> Seq<u8>
    decreases fuel, 2int, 0int,
{
    match f.array {
        None => enc_elem(pkg, f.t, v, fuel),
        Some(_) => match v {
            ValueV::ArrayVal(elems) => enc_elem_list(pkg, f.t, elems, fuel),
            _ => Seq::empty(),
        },
    }
}

/// The bytes of a field list: each field's bytes in field order.
pub open spec fn enc_fields(pkg: PackageV, fields: Seq<FieldV>, vs: Seq<ValueV>, fuel: nat) -> Seq<
    u8,
>
    decreases fuel, 3int, fields.len(),
{
    if fields.len() == 0 || vs.len() == 0 {
        Seq::empty()
    } else {
        enc_field(pkg, fields[0], vs[0], fuel) + enc_fields(
            pkg,
            fields.drop_first(),
            vs.drop_first(),
            fuel,
        )
    }
}

/// Whether `v` is a valid value of struct `s` in `pkg`.
pub open spec fn valid_value(pkg: PackageV, s: StructV, v: ValueV) -> bool {
    v matches ValueV::StructVal(vs) && valid_fields(pkg, s.fields, vs, size_fuel(pkg))
}

/// The full tagged wire encoding of a struct value: the four big-endian bytes
/// of the struct's name hash, then the payload.
pub open spec fn enc_value(pkg: PackageV, s: StructV, v: ValueV) -> Seq<u8> {
    be32_bytes(struct_tag(s) as int) + match v {
        ValueV::StructVal(vs) => enc_fields(pkg, s.fields, vs, size_fuel(pkg)),
        _ => Seq::empty(),
    }
}

// ---------------------------------------------------------------------------
// A valid, sized value encodes to exactly its type's wire size
// ---------------------------------------------------------------------------
/// A valid element's encoding is exactly as long as its element size.
pub proof fn lemma_enc_elem_len(pkg: PackageV, t: FieldTypeV, v: ValueV, fuel: nat)
    requires
        valid_elem(pkg, t, v, fuel),
        elem_size_f(pkg, t, fuel) is Some,
    ensures
        enc_elem(pkg, t, v, fuel).len() == elem_size_f(pkg, t, fuel)->Some_0,
    decreases fuel, 0int, 0int,
{
    match t {
        FieldTypeV::Struct(name) => {
            match find_struct(pkg.structs, name) {
                Some(s) => {
                    if let ValueV::StructVal(vs) = v {
                        lemma_enc_fields_len(pkg, s.fields, vs, (fuel - 1) as nat);
                    }
                },
                None => {},
            }
        },
        _ => {},
    }
}

/// A valid element run's encoding is exactly `count * element size` long.
pub proof fn lemma_enc_elem_list_len(pkg: PackageV, t: FieldTypeV, vs: Seq<ValueV>, fuel: nat)
    requires
        forall|i: int| 0 <= i < vs.len() ==> valid_elem(pkg, t, #[trigger] vs[i], fuel),
        elem_size_f(pkg, t, fuel) is Some,
    ensures
        enc_elem_list(pkg, t, vs, fuel).len() == vs.len() * elem_size_f(pkg, t, fuel)->Some_0,
    decreases fuel, 1int, vs.len(),
{
    let e = elem_size_f(pkg, t, fuel)->Some_0;
    if vs.len() == 0 {
    } else {
        lemma_enc_elem_len(pkg, t, vs[0], fuel);
        lemma_enc_elem_list_len(pkg, t, vs.drop_first(), fuel);
        assert(e + (vs.len() - 1) * e == vs.len() * e) by (nonlinear_arith);
    }
}

/// A valid field value's encoding is exactly as long as the field size.
pub proof fn lemma_enc_field_len(pkg: PackageV, f: FieldV, v: ValueV, fuel: nat)
    requires
        valid_field(pkg, f, v, fuel),
        field_size_f(pkg, f, fuel) is Some,
    ensures
        enc_field(pkg, f, v, fuel).len() == field_size_f(pkg, f, fuel)->Some_0,
    decreases fuel, 2int, 0int,
{
    match f.array {
        None => {
            lemma_enc_elem_len(pkg, f.t, v, fuel);
            let e = elem_size_f(pkg, f.t, fuel)->Some_0;
            assert(array_count(f.array) == 1);
            assert(e * 1 == e) by (nonlinear_arith);
        },
        Some(n) => {
            if let ValueV::ArrayVal(elems) = v {
                lemma_enc_elem_list_len(pkg, f.t, elems, fuel);
                let e = elem_size_f(pkg, f.t, fuel)->Some_0;
                assert(elems.len() == n as int);
                assert((n as int) * e == e * (n as int)) by (nonlinear_arith);
            }
        },
    }
}

/// A valid value list's encoding is exactly as long as the field-list size.
pub proof fn lemma_enc_fields_len(pkg: PackageV, fields: Seq<FieldV>, vs: Seq<ValueV>, fuel: nat)
    requires
        valid_fields(pkg, fields, vs, fuel),
        fields_size_f(pkg, fields, fuel) is Some,
    ensures
        enc_fields(pkg, fields, vs, fuel).len() == fields_size_f(pkg, fields, fuel)->Some_0,
    decreases fuel, 3int, fields.len(),
{
    if fields.len() > 0 {
        assert(valid_field(pkg, fields[0], vs[0], fuel));
        lemma_enc_field_len(pkg, fields[0], vs[0], fuel);
        assert forall|i: int|
            0 <= i < fields.drop_first().len() implies valid_field(
            pkg,
            fields.drop_first()[i],
            #[trigger] vs.drop_first()[i],
            fuel,
        ) by {
            assert(valid_field(pkg, fields[i + 1], vs[i + 1], fuel));
        }
        lemma_enc_fields_len(pkg, fields.drop_first(), vs.drop_first(), fuel);
    }
}


// ---------------------------------------------------------------------------
// Executable encoder
// ---------------------------------------------------------------------------
/// Append the two big-endian bytes of a 16-bit unsigned value.
fn push_be16(out: &mut Vec<u8>, x: u16)
    ensures
        final(out)@ == old(out)@ + be16_bytes(x as int),
{
    out.push((x / 0x100) as u8);
    out.push((x % 0x100) as u8);
    proof {
        assert(out@ =~= old(out)@ + be16_bytes(x as int));
    }
}

/// Append the four big-endian bytes of a 32-bit unsigned value.
fn push_be32(out: &mut Vec<u8>, x: u32)
    ensures
        final(out)@ == old(out)@ + be32_bytes(x as int),
{
    out.push((x / 0x1000000) as u8);
    out.push(((x / 0x10000) % 0x100) as u8);
    out.push(((x / 0x100) % 0x100) as u8);
    out.push((x % 0x100) as u8);
    proof {
        assert(out@ =~= old(out)@ + be32_bytes(x as int));
    }
}

/// Append the encoding of one element; reports whether the value fits the
/// type. On failure the buffer may hold a partial prefix and is discarded by
/// the caller.
fn enc_elem_ex(pkg: &Package, t: &FieldType, v: &Value, fuel: usize, out: &mut Vec<u8>) -> (ok:
    bool)
    ensures
        ok == valid_elem(pkg@, t@, v@, fuel as nat),
        ok ==> final(out)@ == old(out)@ + enc_elem(pkg@, t@, v@, fuel as nat),
    decreases fuel, 0int, 0int,
{
    match t {
        FieldType::PRIMITIVE(p) => match (p, v) {
            (PrimitiveTypes::U8, Value::U8(x)) => {
                out.push(*x);
                proof {
                    assert(out@ =~= old(out)@ + enc_elem(pkg@, t@, v@, fuel as nat));
                }
                true
            },
            (PrimitiveTypes::U16, Value::U16(x)) => {
                push_be16(out, *x);
                true
            },
            (PrimitiveTypes::U32, Value::U32(x)) => {
                push_be32(out, *x);
                true
            },
            (PrimitiveTypes::I8, Value::I8(x)) => {
                let b: u8 = if *x >= 0 {
                    *x as u8
                } else {
                    ((*x as i16) + 0x100) as u8
                };
                out.push(b);
                proof {
                    assert(out@ =~= old(out)@ + enc_elem(pkg@, t@, v@, fuel as nat));
                }
                true
            },
            (PrimitiveTypes::I16, Value::I16(x)) => {
                let u: u16 = if *x >= 0 {
                    *x as u16
                } else {
                    ((*x as i32) + 0x10000) as u16
                };
                push_be16(out, u);
                true
            },
            (PrimitiveTypes::I32, Value::I32(x)) => {
                let u: u32 = if *x >= 0 {
                    *x as u32
                } else {
                    ((*x as i64) + 0x100000000) as u32
                };
                push_be32(out, u);
                true
            },
            (PrimitiveTypes::F32, Value::F32Bits(x)) => {
                push_be32(out, *x);
                true
            },
            (PrimitiveTypes::Bool, Value::Bool(b)) => {
                out.push(if *b {
                    1
                } else {
                    0
                });
                proof {
                    assert(out@ =~= old(out)@ + enc_elem(pkg@, t@, v@, fuel as nat));
                }
                true
            },
            _ => false,
        },
        FieldType::COMPLEX(c) => match c {
            ComplexTypes::Enum(name) => {
                match find_enum_pos(&pkg.enums, name.as_str()) {
                    Some(ei) => {
                        proof {
                            assert(find_enum(pkg@.enums, name@)->Some_0 == pkg.enums@[
                                ei as int]@);
                        }
                        match v {
                            Value::EnumVal(ord) => {
                                if (*ord as usize) < pkg.enums[ei].variants.len() {
                                    push_be32(out, *ord);
                                    true
                                } else {
                                    false
                                }
                            },
                            _ => false,
                        }
                    },
                    None => false,
                }
            },
            ComplexTypes::Struct(name) => {
                if fuel == 0 {
                    false
                } else {
                    match find_struct_pos(&pkg.structs, name.as_str()) {
                        Some(si) => {
                            proof {
                                assert(find_struct(pkg@.structs, name@)->Some_0 == pkg.structs@[
                                    si as int]@);
                            }
                            match v {
                                Value::StructVal(vs) => {
                                    proof {
                                        lemma_vals_view(vs@);
                                    }
                                    if vs.len() == pkg.structs[si].fields.len() {
                                        let ok = enc_fields_ex(
                                            pkg,
                                            &pkg.structs[si].fields,
                                            vs,
                                            0,
                                            fuel - 1,
                                            out,
                                        );
                                        proof {
                                            let fv = pkg.structs@[si as int]@.fields;
                                            assert(fv.skip(0) =~= fv);
                                            assert(vals_view(vs@).skip(0) =~= vals_view(vs@));
                                        }
                                        ok
                                    } else {
                                        false
                                    }
                                },
                                _ => false,
                            }
                        },
                        None => false,
                    }
                }
            },
            ComplexTypes::Unknown(_) => false,
        },
    }
}

/// Append the encodings of `elems[j..]`; reports whether every element fits.
fn enc_list_ex(
    pkg: &Package,
    t: &FieldType,
    elems: &Vec<Value>,
    j: usize,
    fuel: usize,
    out: &mut Vec<u8>,
) -> (ok: bool)
    requires
        j <= elems.len(),
    ensures
        ok == (forall|k: int|
            j <= k < elems@.len() ==> valid_elem(pkg@, t@, #[trigger] elems@[k]@, fuel as nat)),
        ok ==> final(out)@ == old(out)@ + enc_elem_list(
            pkg@,
            t@,
            vals_view(elems@).skip(j as int),
            fuel as nat,
        ),
    decreases fuel, 1int, elems.len() - j,
{
    proof {
        lemma_vals_view(elems@);
    }
    if j == elems.len() {
        proof {
            assert(vals_view(elems@).skip(j as int) =~= Seq::<ValueV>::empty());
            assert(out@ =~= old(out)@ + enc_elem_list(
                pkg@,
                t@,
                vals_view(elems@).skip(j as int),
                fuel as nat,
            ));
        }
        true
    } else {
        let ok1 = enc_elem_ex(pkg, t, &elems[j], fuel, out);
        if !ok1 {
            false
        } else {
            let ghost mid = out@;
            let ok2 = enc_list_ex(pkg, t, elems, j + 1, fuel, out);
            proof {
                let vv = vals_view(elems@);
                assert(vv.skip(j as int)[0] == elems@[j as int]@);
                assert(vv.skip(j as int).drop_first() =~= vv.skip(j as int + 1));
                if ok2 {
                    assert(out@ =~= old(out)@ + enc_elem_list(
                        pkg@,
                        t@,
                        vv.skip(j as int),
                        fuel as nat,
                    ));
                }
            }
            ok2
        }
    }
}

/// Append the encoding of one field value; reports whether it fits the
/// field.
fn enc_field_ex(pkg: &Package, f: &StructField, v: &Value, fuel: usize, out: &mut Vec<u8>) -> (ok:
    bool)
    ensures
        ok == valid_field(pkg@, f@, v@, fuel as nat),
        ok ==> final(out)@ == old(out)@ + enc_field(pkg@, f@, v@, fuel as nat),
    decreases fuel, 2int, 0int,
{
    match f.array {
        None => enc_elem_ex(pkg, &f.t, v, fuel, out),
        Some(n) => match v {
            Value::ArrayVal(elems) => {
                proof {
                    lemma_vals_view(elems@);
                }
                if elems.len() == n as usize {
                    let ok = enc_list_ex(pkg, &f.t, elems, 0, fuel, out);
                    proof {
                        let vv = vals_view(elems@);
                        assert(vv.skip(0) =~= vv);
                        if ok {
                            assert forall|i: int| 0 <= i < vv.len() implies valid_elem(
                                pkg@,
                                f.t@,
                                #[trigger] vv[i],
                                fuel as nat,
                            ) by {
                                assert(vv[i] == elems@[i]@);
                                assert(valid_elem(pkg@, f.t@, elems@[i]@, fuel as nat));
                            }
                        } else {
                            if valid_field(pkg@, f@, v@, fuel as nat) {
                                assert forall|k: int|
                                    0 <= k < elems@.len() implies valid_elem(
                                    pkg@,
                                    f.t@,
                                    #[trigger] elems@[k]@,
                                    fuel as nat,
                                ) by {
                                    assert(vv[k] == elems@[k]@);
                                    assert(valid_elem(pkg@, f.t@, vv[k], fuel as nat));
                                }
                                assert(false);
                            }
                        }
                    }
                    ok
                } else {
                    false
                }
            },
            _ => false,
        },
    }
}

/// Append the encodings of `vs[i..]` against `fields[i..]`; reports whether
/// every value fits its field.
fn enc_fields_ex(
    pkg: &Package,
    fields: &Vec<StructField>,
    vs: &Vec<Value>,
    i: usize,
    fuel: usize,
    out: &mut Vec<u8>,
) -> (ok: bool)
    requires
        i <= fields.len(),
        vs.len() == fields.len(),
    ensures
        ok == valid_fields(
            pkg@,
            fields@.map_values(|f: StructField| f@).skip(i as int),
            vals_view(vs@).skip(i as int),
            fuel as nat,
        ),
        ok ==> final(out)@ == old(out)@ + enc_fields(
            pkg@,
            fields@.map_values(|f: StructField| f@).skip(i as int),
            vals_view(vs@).skip(i as int),
            fuel as nat,
        ),
    decreases fuel, 3int, fields.len() - i,
{
    let ghost fv = fields@.map_values(|f: StructField| f@).skip(i as int);
    let ghost vv = vals_view(vs@).skip(i as int);
    proof {
        lemma_vals_view(vs@);
    }
    if i == fields.len() {
        proof {
            assert(fv.len() == 0);
            assert(vv.len() == 0);
            assert(out@ =~= old(out)@ + enc_fields(pkg@, fv, vv, fuel as nat));
        }
        true
    } else {
        proof {
            assert(fv[0] == fields@.map_values(|f: StructField| f@)[i as int]);
            assert(vv[0] == vals_view(vs@)[i as int]);
            assert(fv.drop_first() =~= fields@.map_values(|f: StructField| f@).skip(i as int + 1));
            assert(vv.drop_first() =~= vals_view(vs@).skip(i as int + 1));
        }
        let ok1 = enc_field_ex(pkg, &fields[i], &vs[i], fuel, out);
        if !ok1 {
            assert(!valid_fields(pkg@, fv, vv, fuel as nat));
            false
        } else {
            let ok2 = enc_fields_ex(pkg, fields, vs, i + 1, fuel, out);
            proof {
                if ok2 {
                    assert(out@ =~= old(out)@ + enc_fields(pkg@, fv, vv, fuel as nat));
                    assert forall|k: int| 0 <= k < fv.len() implies valid_field(
                        pkg@,
                        fv[k],
                        #[trigger] vv[k],
                        fuel as nat,
                    ) by {
                        if k > 0 {
                            assert(valid_field(
                                pkg@,
                                fv.drop_first()[k - 1],
                                vv.drop_first()[k - 1],
                                fuel as nat,
                            ));
                        }
                    }
                } else {
                    if valid_fields(pkg@, fv, vv, fuel as nat) {
                        assert forall|k: int|
                            0 <= k < fv.drop_first().len() implies valid_field(
                            pkg@,
                            fv.drop_first()[k],
                            #[trigger] vv.drop_first()[k],
                            fuel as nat,
                        ) by {
                            assert(valid_field(pkg@, fv[k + 1], vv[k + 1], fuel as nat));
                        }
                        assert(false);
                    }
                }
            }
            ok2
        }
    }
}

/// Encode a struct value to its full tagged wire form: the four big-endian
/// bytes of the struct's name hash followed by each field's bytes in field
/// order. Returns the buffer exactly when the value is a valid value of the
/// struct.
pub fn encode(pkg: &Package, s: &Struct, v: &Value) -> (r: Option<Vec<u8>>)
    ensures
        r matches Some(b) ==> valid_value(pkg@, s@, v@) && b@ == enc_value(pkg@, s@, v@),
        r is None ==> !valid_value(pkg@, s@, v@),
{
    match v {
        Value::StructVal(vs) => {
            proof {
                lemma_vals_view(vs@);
            }
            if vs.len() != s.fields.len() {
                None
            } else {
                let mut out: Vec<u8> = Vec::new();
                let h = s.fnv_1a();
                push_be32(&mut out, h);
                let ghost tagged = out@;
                let ok = enc_fields_ex(pkg, &s.fields, vs, 0, pkg.structs.len(), &mut out);
                if ok {
                    proof {
                        assert(s@.fields.skip(0) =~= s@.fields);
                        assert(vals_view(vs@).skip(0) =~= vals_view(vs@));
                        assert(out@ =~= enc_value(pkg@, s@, v@));
                    }
                    Some(out)
                } else {
                    None
                }
            }
        },
        _ => None,
    }
}

// ---------------------------------------------------------------------------
// Executable strict decoder
// ---------------------------------------------------------------------------
/// Read two big-endian bytes as an unsigned value.
fn read_u16(data: &[u8], pos: usize) -> (x: u16)
    requires
        pos + 2 <= data@.len(),
    ensures
        x == data@[pos as int] * 0x100 + data@[pos as int + 1],
{
    (data[pos] as u16) * 0x100 + (data[pos + 1] as u16)
}

/// Read four big-endian bytes as an unsigned value.
fn read_u32(data: &[u8], pos: usize) -> (x: u32)
    requires
        pos + 4 <= data@.len(),
    ensures
        x == data@[pos as int] * 0x1000000 + data@[pos as int + 1] * 0x10000 + data@[pos as int
            + 2] * 0x100 + data@[pos as int + 3],
{
    (data[pos] as u32) * 0x1000000 + (data[pos + 1] as u32) * 0x10000 + (data[pos + 2] as u32)
        * 0x100 + (data[pos + 3] as u32)
}

/// Reading back the two big-endian bytes of a 16-bit value gives the value.
proof fn lemma_be16_inverse(u: int)
    requires
        0 <= u < 0x10000,
    ensures
        be16_bytes(u)[0] * 0x100 + be16_bytes(u)[1] == u,
{
    assert(((u / 0x100) % 0x100) * 0x100 + u % 0x100 == u) by (nonlinear_arith)
        requires
            0 <= u < 0x10000,
    ;
}

/// Reading back the four big-endian bytes of a 32-bit value gives the value.
proof fn lemma_be32_inverse(u: int)
    requires
        0 <= u < 0x100000000,
    ensures
        be32_bytes(u)[0] * 0x1000000 + be32_bytes(u)[1] * 0x10000 + be32_bytes(u)[2] * 0x100
            + be32_bytes(u)[3] == u,
{
    assert(((u / 0x1000000) % 0x100) * 0x1000000 + ((u / 0x10000) % 0x100) * 0x10000 + ((u
        / 0x100) % 0x100) * 0x100 + u % 0x100 == u) by (nonlinear_arith)
        requires
            0 <= u < 0x100000000,
    ;
}

/// Decode one element at `pos`. Strict: only the canonical encoding of a
/// valid value is accepted, so decoding inverts encoding exactly.
#[verifier::rlimit(100)]
#[verifier::spinoff_prover]
fn dec_elem_ex(pkg: &Package, t: &FieldType, data: &[u8], pos: usize, fuel: usize) -> (r: Option<
    (Value, usize),
>)
    requires
        pos <= data@.len(),
    ensures
        r matches Some(p) ==> pos <= p.1 <= data@.len() && valid_elem(pkg@, t@, p.0@, fuel as nat)
            && elem_size_f(pkg@, t@, fuel as nat) == Some((p.1 - pos) as int)
            && data@.subrange(pos as int, p.1 as int) == enc_elem(pkg@, t@, p.0@, fuel as nat),
        forall|v: ValueV|
            valid_elem(pkg@, t@, v, fuel as nat) && elem_size_f(pkg@, t@, fuel as nat) is Some
                && pos + elem_size_f(pkg@, t@, fuel as nat)->Some_0 <= data@.len()
                && data@.subrange(
                pos as int,
                pos + elem_size_f(pkg@, t@, fuel as nat)->Some_0,
            ) == enc_elem(pkg@, t@, v, fuel as nat) ==> (r matches Some(p) && p.0@ == v && p.1
                == pos + elem_size_f(pkg@, t@, fuel as nat)->Some_0),
    decreases fuel, 0int, 0int,
{
    let ghost gt = t@;
    let ghost gfuel = fuel as nat;
    match t {
        FieldType::PRIMITIVE(p) => match p {
            PrimitiveTypes::U8 => {
                if data.len() - pos >= 1 {
                    let w = Value::U8(data[pos]);
                    proof {
                        assert(data@.subrange(pos as int, pos + 1) =~= enc_elem(
                            pkg@,
                            gt,
                            w@,
                            gfuel,
                        ));
                        assert forall|v: ValueV|
                            valid_elem(pkg@, gt, v, gfuel) && data@.subrange(pos as int, pos + 1)
                                == enc_elem(pkg@, gt, v, gfuel) implies v == w@ by {
                            assert(enc_elem(pkg@, gt, v, gfuel)[0] == data@[pos as int]);
                        }
                    }
                    Some((w, pos + 1))
                } else {
                    None
                }
            },
            PrimitiveTypes::U16 => {
                if data.len() - pos >= 2 {
                    let x = read_u16(data, pos);
                    let w = Value::U16(x);
                    proof {
                        assert(data@.subrange(pos as int, pos + 2) =~= enc_elem(
                            pkg@,
                            gt,
                            w@,
                            gfuel,
                        )) by {
                            lemma_be16_inverse(x as int);
                            assert(be16_bytes(x as int)[0] == data@[pos as int]) by (nonlinear_arith)
                                requires
                                    x == data@[pos as int] * 0x100 + data@[pos as int + 1],
                                    0 <= data@[pos as int] < 0x100,
                                    0 <= data@[pos as int + 1] < 0x100,
                            ;
                            assert(be16_bytes(x as int)[1] == data@[pos as int + 1])
                                by (nonlinear_arith)
                                requires
                                    x == data@[pos as int] * 0x100 + data@[pos as int + 1],
                                    0 <= data@[pos as int] < 0x100,
                                    0 <= data@[pos as int + 1] < 0x100,
                            ;
                        }
                        assert forall|v: ValueV|
                            valid_elem(pkg@, gt, v, gfuel) && data@.subrange(pos as int, pos + 2)
                                == enc_elem(pkg@, gt, v, gfuel) implies v == w@ by {
                            if let ValueV::U16(y) = v {
                                lemma_be16_inverse(y as int);
                                assert(enc_elem(pkg@, gt, v, gfuel)[0] == data@[pos as int]);
                                assert(enc_elem(pkg@, gt, v, gfuel)[1] == data@[pos as int + 1]);
                            }
                        }
                    }
                    Some((w, pos + 2))
                } else {
                    None
                }
            },
            PrimitiveTypes::U32 => {
                if data.len() - pos >= 4 {
                    let x = read_u32(data, pos);
                    let w = Value::U32(x);
                    proof {
                        dec32_bridge(data@, pos as int, x as int);
                        assert(data@.subrange(pos as int, pos + 4) =~= enc_elem(
                            pkg@,
                            gt,
                            w@,
                            gfuel,
                        ));
                        assert forall|v: ValueV|
                            valid_elem(pkg@, gt, v, gfuel) && data@.subrange(pos as int, pos + 4)
                                == enc_elem(pkg@, gt, v, gfuel) implies v == w@ by {
                            if let ValueV::U32(y) = v {
                                lemma_be32_inverse(y as int);
                                assert(enc_elem(pkg@, gt, v, gfuel)[0] == data@[pos as int]);
                                assert(enc_elem(pkg@, gt, v, gfuel)[1] == data@[pos as int + 1]);
                                assert(enc_elem(pkg@, gt, v, gfuel)[2] == data@[pos as int + 2]);
                                assert(enc_elem(pkg@, gt, v, gfuel)[3] == data@[pos as int + 3]);
                            }
                        }
                    }
                    Some((w, pos + 4))
                } else {
                    None
                }
            },
            PrimitiveTypes::I8 => {
                if data.len() - pos >= 1 {
                    let b = data[pos];
                    let w = Value::I8(
                        if b < 0x80 {
                            b as i8
                        } else {
                            -((0xff - b) as i8) - 1
                        },
                    );
                    proof {
                        assert(data@.subrange(pos as int, pos + 1) =~= enc_elem(
                            pkg@,
                            gt,
                            w@,
                            gfuel,
                        ));
                        assert forall|v: ValueV|
                            valid_elem(pkg@, gt, v, gfuel) && data@.subrange(pos as int, pos + 1)
                                == enc_elem(pkg@, gt, v, gfuel) implies v == w@ by {
                            assert(enc_elem(pkg@, gt, v, gfuel)[0] == data@[pos as int]);
                        }
                    }
                    Some((w, pos + 1))
                } else {
                    None
                }
            },
            PrimitiveTypes::I16 => {
                if data.len() - pos >= 2 {
                    let x = read_u16(data, pos);
                    let w = Value::I16(
                        if x < 0x8000 {
                            x as i16
                        } else {
                            -((0xffff - x) as i16) - 1
                        },
                    );
                    proof {
                        assert(to_unsigned_16(w@->I16_0 as int) == x as int);
                        lemma_be16_inverse(x as int);
                        assert(data@.subrange(pos as int, pos + 2) =~= enc_elem(
                            pkg@,
                            gt,
                            w@,
                            gfuel,
                        )) by {
                            dec16_bridge(data@, pos as int, x as int);
                        }
                        assert forall|v: ValueV|
                            valid_elem(pkg@, gt, v, gfuel) && data@.subrange(pos as int, pos + 2)
                                == enc_elem(pkg@, gt, v, gfuel) implies v == w@ by {
                            if let ValueV::I16(y) = v {
                                lemma_be16_inverse(to_unsigned_16(y as int));
                                assert(enc_elem(pkg@, gt, v, gfuel)[0] == data@[pos as int]);
                                assert(enc_elem(pkg@, gt, v, gfuel)[1] == data@[pos as int + 1]);
                                assert(to_unsigned_16(y as int) == x as int);
                            }
                        }
                    }
                    Some((w, pos + 2))
                } else {
                    None
                }
            },
            PrimitiveTypes::I32 => {
                if data.len() - pos >= 4 {
                    let x = read_u32(data, pos);
                    let w = Value::I32(
                        if x < 0x80000000 {
                            x as i32
                        } else {
                            -((0xffffffff - x) as i32) - 1
                        },
                    );
                    proof {
                        assert(to_unsigned_32(w@->I32_0 as int) == x as int);
                        dec32_bridge(data@, pos as int, x as int);
                        assert(data@.subrange(pos as int, pos + 4) =~= enc_elem(
                            pkg@,
                            gt,
                            w@,
                            gfuel,
                        ));
                        assert forall|v: ValueV|
                            valid_elem(pkg@, gt, v, gfuel) && data@.subrange(pos as int, pos + 4)
                                == enc_elem(pkg@, gt, v, gfuel) implies v == w@ by {
                            if let ValueV::I32(y) = v {
                                lemma_be32_inverse(to_unsigned_32(y as int));
                                assert(enc_elem(pkg@, gt, v, gfuel)[0] == data@[pos as int]);
                                assert(enc_elem(pkg@, gt, v, gfuel)[1] == data@[pos as int + 1]);
                                assert(enc_elem(pkg@, gt, v, gfuel)[2] == data@[pos as int + 2]);
                                assert(enc_elem(pkg@, gt, v, gfuel)[3] == data@[pos as int + 3]);
                                assert(to_unsigned_32(y as int) == x as int);
                            }
                        }
                    }
                    Some((w, pos + 4))
                } else {
                    None
                }
            },
            PrimitiveTypes::F32 => {
                if data.len() - pos >= 4 {
                    let x = read_u32(data, pos);
                    let w = Value::F32Bits(x);
                    proof {
                        dec32_bridge(data@, pos as int, x as int);
                        assert(data@.subrange(pos as int, pos + 4) =~= enc_elem(
                            pkg@,
                            gt,
                            w@,
                            gfuel,
                        ));
                        assert forall|v: ValueV|
                            valid_elem(pkg@, gt, v, gfuel) && data@.subrange(pos as int, pos + 4)
                                == enc_elem(pkg@, gt, v, gfuel) implies v == w@ by {
                            if let ValueV::F32Bits(y) = v {
                                lemma_be32_inverse(y as int);
                                assert(enc_elem(pkg@, gt, v, gfuel)[0] == data@[pos as int]);
                                assert(enc_elem(pkg@, gt, v, gfuel)[1] == data@[pos as int + 1]);
                                assert(enc_elem(pkg@, gt, v, gfuel)[2] == data@[pos as int + 2]);
                                assert(enc_elem(pkg@, gt, v, gfuel)[3] == data@[pos as int + 3]);
                            }
                        }
                    }
                    Some((w, pos + 4))
                } else {
                    None
                }
            },
            PrimitiveTypes::Bool => {
                if data.len() - pos >= 1 {
                    let b = data[pos];
                    if b == 0 || b == 1 {
                        let w = Value::Bool(b == 1);
                        proof {
                            assert(data@.subrange(pos as int, pos + 1) =~= enc_elem(
                                pkg@,
                                gt,
                                w@,
                                gfuel,
                            ));
                            assert forall|v: ValueV|
                                valid_elem(pkg@, gt, v, gfuel) && data@.subrange(
                                    pos as int,
                                    pos + 1,
                                ) == enc_elem(pkg@, gt, v, gfuel) implies v == w@ by {
                                assert(enc_elem(pkg@, gt, v, gfuel)[0] == data@[pos as int]);
                            }
                        }
                        Some((w, pos + 1))
                    } else {
                        proof {
                            assert forall|v: ValueV|
                                valid_elem(pkg@, gt, v, gfuel) implies data@.subrange(
                                pos as int,
                                pos + 1,
                            ) != enc_elem(pkg@, gt, v, gfuel) by {
                                if let ValueV::Bool(bb) = v {
                                    assert(enc_elem(pkg@, gt, v, gfuel)[0] == if bb {
                                        1u8
                                    } else {
                                        0u8
                                    });
                                    assert(data@.subrange(pos as int, pos + 1)[0] == data@[
                                        pos as int]);
                                }
                            }
                        }
                        None
                    }
                } else {
                    None
                }
            },
        },
        FieldType::COMPLEX(c) => match c {
            ComplexTypes::Enum(name) => {
                match find_enum_pos(&pkg.enums, name.as_str()) {
                    Some(ei) => {
                        proof {
                            assert(find_enum(pkg@.enums, name@)->Some_0 == pkg.enums@[ei as int]@);
                        }
                        if data.len() - pos >= 4 {
                            let x = read_u32(data, pos);
                            if (x as usize) < pkg.enums[ei].variants.len() {
                                let w = Value::EnumVal(x);
                                proof {
                                    dec32_bridge(data@, pos as int, x as int);
                                    assert(data@.subrange(pos as int, pos + 4) =~= enc_elem(
                                        pkg@,
                                        gt,
                                        w@,
                                        gfuel,
                                    ));
                                    assert forall|v: ValueV|
                                        valid_elem(pkg@, gt, v, gfuel) && data@.subrange(
                                            pos as int,
                                            pos + 4,
                                        ) == enc_elem(pkg@, gt, v, gfuel) implies v == w@ by {
                                        if let ValueV::EnumVal(y) = v {
                                            lemma_be32_inverse(y as int);
                                            assert(enc_elem(pkg@, gt, v, gfuel)[0] == data@[
                                                pos as int]);
                                            assert(enc_elem(pkg@, gt, v, gfuel)[1] == data@[
                                                pos as int + 1]);
                                            assert(enc_elem(pkg@, gt, v, gfuel)[2] == data@[
                                                pos as int + 2]);
                                            assert(enc_elem(pkg@, gt, v, gfuel)[3] == data@[
                                                pos as int + 3]);
                                        }
                                    }
                                }
                                Some((w, pos + 4))
                            } else {
                                proof {
                                    assert forall|v: ValueV|
                                        valid_elem(pkg@, gt, v, gfuel) implies data@.subrange(
                                        pos as int,
                                        pos + 4,
                                    ) != enc_elem(pkg@, gt, v, gfuel) by {
                                        if let ValueV::EnumVal(y) = v {
                                            if data@.subrange(pos as int, pos + 4) == enc_elem(
                                                pkg@,
                                                gt,
                                                v,
                                                gfuel,
                                            ) {
                                                lemma_be32_inverse(y as int);
                                                assert(enc_elem(pkg@, gt, v, gfuel)[0] == data@[
                                                    pos as int]);
                                                assert(enc_elem(pkg@, gt, v, gfuel)[1] == data@[
                                                    pos as int + 1]);
                                                assert(enc_elem(pkg@, gt, v, gfuel)[2] == data@[
                                                    pos as int + 2]);
                                                assert(enc_elem(pkg@, gt, v, gfuel)[3] == data@[
                                                    pos as int + 3]);
                                                assert(y == x);
                                            }
                                        }
                                    }
                                }
                                None
                            }
                        } else {
                            None
                        }
                    },
                    None => None,
                }
            },
            ComplexTypes::Struct(name) => {
                if fuel == 0 {
                    None
                } else {
                    match find_struct_pos(&pkg.structs, name.as_str()) {
                        Some(si) => {
                            proof {
                                assert(find_struct(pkg@.structs, name@)->Some_0 == pkg.structs@[
                                    si as int]@);
                            }
                            let ghost s = pkg.structs@[si as int]@;
                            match dec_fields_ex(pkg, &pkg.structs[si].fields, 0, data, pos, fuel
                                - 1) {
                                Some((vals, end)) => {
                                    let w = Value::StructVal(vals);
                                    proof {
                                        assert(s.fields.skip(0) =~= s.fields);
                                        assert forall|v: ValueV|
                                            valid_elem(pkg@, gt, v, gfuel) && elem_size_f(
                                                pkg@,
                                                gt,
                                                gfuel,
                                            ) is Some && pos + elem_size_f(pkg@, gt, gfuel)->Some_0
                                                <= data@.len() && data@.subrange(
                                                pos as int,
                                                pos + elem_size_f(pkg@, gt, gfuel)->Some_0,
                                            ) == enc_elem(pkg@, gt, v, gfuel) implies v == w@
                                            && pos + elem_size_f(pkg@, gt, gfuel)->Some_0 == end by {
                                            if let ValueV::StructVal(ws) = v {
                                                assert(valid_fields(
                                                    pkg@,
                                                    s.fields,
                                                    ws,
                                                    (gfuel - 1) as nat,
                                                ));
                                            }
                                        }
                                    }
                                    Some((w, end))
                                },
                                None => {
                                    proof {
                                        assert forall|v: ValueV|
                                            valid_elem(pkg@, gt, v, gfuel) && elem_size_f(
                                                pkg@,
                                                gt,
                                                gfuel,
                                            ) is Some && pos + elem_size_f(pkg@, gt, gfuel)->Some_0
                                                <= data@.len() implies data@.subrange(
                                            pos as int,
                                            pos + elem_size_f(pkg@, gt, gfuel)->Some_0,
                                        ) != enc_elem(pkg@, gt, v, gfuel) by {
                                            assert(s.fields.skip(0) =~= s.fields);
                                            if let ValueV::StructVal(ws) = v {
                                                assert(valid_fields(
                                                    pkg@,
                                                    s.fields,
                                                    ws,
                                                    (gfuel - 1) as nat,
                                                ));
                                            }
                                        }
                                    }
                                    None
                                },
                            }
                        },
                        None => None,
                    }
                }
            },
            ComplexTypes::Unknown(_) => None,
        },
    }
}

/// The bytes read back at `pos` are the big-endian encoding of their 16-bit
/// value.
proof fn dec16_bridge(data: Seq<u8>, pos: int, x: int)
    requires
        0 <= pos,
        pos + 2 <= data.len(),
        x == data[pos] * 0x100 + data[pos + 1],
    ensures
        be16_bytes(x)[0] == data[pos],
        be16_bytes(x)[1] == data[pos + 1],
{
    assert((data[pos] * 0x100 + data[pos + 1]) / 0x100 % 0x100 == data[pos]) by (nonlinear_arith)
        requires
            0 <= data[pos] < 0x100,
            0 <= data[pos + 1] < 0x100,
    ;
    assert((data[pos] * 0x100 + data[pos + 1]) % 0x100 == data[pos + 1]) by (nonlinear_arith)
        requires
            0 <= data[pos] < 0x100,
            0 <= data[pos + 1] < 0x100,
    ;
}

/// The bytes read back at `pos` are the big-endian encoding of their 32-bit
/// value.
proof fn dec32_bridge(data: Seq<u8>, pos: int, x: int)
    requires
        0 <= pos,
        pos + 4 <= data.len(),
        x == data[pos] * 0x1000000 + data[pos + 1] * 0x10000 + data[pos + 2] * 0x100 + data[pos
            + 3],
    ensures
        be32_bytes(x)[0] == data[pos],
        be32_bytes(x)[1] == data[pos + 1],
        be32_bytes(x)[2] == data[pos + 2],
        be32_bytes(x)[3] == data[pos + 3],
{
    let b0 = data[pos];
    let b1 = data[pos + 1];
    let b2 = data[pos + 2];
    let b3 = data[pos + 3];
    assert((b0 * 0x1000000 + b1 * 0x10000 + b2 * 0x100 + b3) / 0x1000000 % 0x100 == b0
        && (b0 * 0x1000000 + b1 * 0x10000 + b2 * 0x100 + b3) / 0x10000 % 0x100 == b1
        && (b0 * 0x1000000 + b1 * 0x10000 + b2 * 0x100 + b3) / 0x100 % 0x100 == b2
        && (b0 * 0x1000000 + b1 * 0x10000 + b2 * 0x100 + b3) % 0x100 == b3) by (nonlinear_arith)
        requires
            0 <= b0 < 0x100,
            0 <= b1 < 0x100,
            0 <= b2 < 0x100,
            0 <= b3 < 0x100,
    ;
}

/// Decode a run of `cnt` elements of one type starting at `pos`.
#[verifier::rlimit(100)]
#[verifier::spinoff_prover]
fn dec_list_ex(pkg: &Package, t: &FieldType, data: &[u8], pos: usize, cnt: usize, fuel: usize) -> (r:
    Option<(Vec<Value>, usize)>)
    requires
        pos <= data@.len(),
        elem_size_f(pkg@, t@, fuel as nat) is Some,
    ensures
        r matches Some(p) ==> pos <= p.1 <= data@.len() && p.0@.len() == cnt && (forall|k: int|
            0 <= k < cnt ==> valid_elem(pkg@, t@, #[trigger] p.0@[k]@, fuel as nat)) && p.1 - pos
            == cnt * elem_size_f(pkg@, t@, fuel as nat)->Some_0 && data@.subrange(
            pos as int,
            p.1 as int,
        ) == enc_elem_list(pkg@, t@, vals_view(p.0@), fuel as nat),
        forall|ws: Seq<ValueV>|
            ws.len() == cnt && (forall|k: int|
                0 <= k < cnt ==> valid_elem(pkg@, t@, #[trigger] ws[k], fuel as nat)) && pos + cnt
                * elem_size_f(pkg@, t@, fuel as nat)->Some_0 <= data@.len() && data@.subrange(
                pos as int,
                pos + cnt * elem_size_f(pkg@, t@, fuel as nat)->Some_0,
            ) == enc_elem_list(pkg@, t@, ws, fuel as nat) ==> (r matches Some(p) && vals_view(p.0@)
                == ws && p.1 == pos + cnt * elem_size_f(pkg@, t@, fuel as nat)->Some_0),
    decreases fuel, 1int, cnt,
{
    let ghost gt = t@;
    let ghost gfuel = fuel as nat;
    let ghost e = elem_size_f(pkg@, gt, gfuel)->Some_0;
    proof {
        crate::ast::lemma_elem_size_nonneg(pkg@, gt, gfuel);
    }
    if cnt == 0 {
        let vals: Vec<Value> = Vec::new();
        proof {
            lemma_vals_view(vals@);
            assert(vals_view(vals@) =~= Seq::<ValueV>::empty());
            assert(data@.subrange(pos as int, pos as int) =~= enc_elem_list(
                pkg@,
                gt,
                vals_view(vals@),
                gfuel,
            ));
            assert forall|ws: Seq<ValueV>| ws.len() == 0 implies vals_view(vals@) == ws by {
                assert(vals_view(vals@) =~= ws);
            }
        }
        Some((vals, pos))
    } else {
        match dec_elem_ex(pkg, t, data, pos, fuel) {
            Some((w, mid)) => {
                match dec_list_ex(pkg, t, data, mid, cnt - 1, fuel) {
                    Some((mut vals, end)) => {
                        let ghost tail = vals@;
                        vals.insert(0, w);
                        proof {
                            lemma_vals_view(vals@);
                            lemma_vals_view(tail);
                            assert(vals@ =~= seq![w] + tail);
                            assert forall|k: int|
                                0 <= k < vals@.len() implies vals_view(vals@)[k] == (seq![w@]
                                + vals_view(tail))[k] by {
                                assert(vals_view(vals@)[k] == vals@[k]@);
                                if k > 0 {
                                    assert(vals@[k] == tail[k - 1]);
                                    assert(vals_view(tail)[k - 1] == tail[k - 1]@);
                                } else {
                                    assert(vals@[0] == w);
                                }
                            }
                            assert(vals_view(vals@) =~= seq![w@] + vals_view(tail));
                            assert(vals_view(vals@).drop_first() =~= vals_view(tail));
                            assert forall|k: int|
                                0 <= k < vals@.len() implies valid_elem(
                                pkg@,
                                gt,
                                #[trigger] vals@[k]@,
                                gfuel,
                            ) by {
                                if k > 0 {
                                    assert(vals@[k] == tail[k - 1]);
                                    assert(valid_elem(pkg@, gt, tail[k - 1]@, gfuel));
                                }
                            }
                            // the whole run is the head's bytes then the tail's bytes
                            assert(data@.subrange(pos as int, end as int) =~= data@.subrange(
                                pos as int,
                                mid as int,
                            ) + data@.subrange(mid as int, end as int));
                            assert(enc_elem_list(pkg@, gt, vals_view(vals@), gfuel) == enc_elem(
                                pkg@,
                                gt,
                                w@,
                                gfuel,
                            ) + enc_elem_list(pkg@, gt, vals_view(tail), gfuel));
                            assert((mid - pos) + (cnt - 1) * e == cnt * e) by (nonlinear_arith)
                                requires
                                    mid - pos == e,
                            ;
                            assert forall|ws: Seq<ValueV>|
                                ws.len() == cnt && (forall|k: int|
                                    0 <= k < cnt ==> valid_elem(pkg@, gt, #[trigger] ws[k], gfuel))
                                    && pos + cnt * e <= data@.len() && data@.subrange(
                                    pos as int,
                                    pos + cnt * e,
                                ) == enc_elem_list(pkg@, gt, ws, gfuel) implies vals_view(vals@)
                                == ws by {
                                dec_list_head(pkg@, gt, ws, data@, pos as int, cnt as int, gfuel);
                                assert(ws[0] == w@);
                                assert(vals_view(tail) == ws.drop_first());
                                assert(vals_view(vals@) =~= ws);
                            }
                        }
                        Some((vals, end))
                    },
                    None => {
                        proof {
                            assert forall|ws: Seq<ValueV>|
                                ws.len() == cnt && (forall|k: int|
                                    0 <= k < cnt ==> valid_elem(pkg@, gt, #[trigger] ws[k], gfuel))
                                    && pos + cnt * e <= data@.len() implies data@.subrange(
                                pos as int,
                                pos + cnt * e,
                            ) != enc_elem_list(pkg@, gt, ws, gfuel) by {
                                if data@.subrange(pos as int, pos + cnt * e) == enc_elem_list(
                                    pkg@,
                                    gt,
                                    ws,
                                    gfuel,
                                ) {
                                    dec_list_head(
                                        pkg@,
                                        gt,
                                        ws,
                                        data@,
                                        pos as int,
                                        cnt as int,
                                        gfuel,
                                    );
                                    assert(ws[0] == w@);
                                }
                            }
                        }
                        None
                    },
                }
            },
            None => {
                proof {
                    assert forall|ws: Seq<ValueV>|
                        ws.len() == cnt && (forall|k: int|
                            0 <= k < cnt ==> valid_elem(pkg@, gt, #[trigger] ws[k], gfuel)) && pos
                            + cnt * e <= data@.len() implies data@.subrange(
                        pos as int,
                        pos + cnt * e,
                    ) != enc_elem_list(pkg@, gt, ws, gfuel) by {
                        if data@.subrange(pos as int, pos + cnt * e) == enc_elem_list(
                            pkg@,
                            gt,
                            ws,
                            gfuel,
                        ) {
                            dec_list_head(pkg@, gt, ws, data@, pos as int, cnt as int, gfuel);
                        }
                    }
                }
                None
            },
        }
    }
}

/// If a byte range holds the encoding of a nonempty element run, its prefix
/// of one element size holds the head's encoding and the rest holds the
/// tail's.
proof fn dec_list_head(
    pkg: PackageV,
    t: FieldTypeV,
    ws: Seq<ValueV>,
    data: Seq<u8>,
    pos: int,
    cnt: int,
    fuel: nat,
)
    requires
        ws.len() == cnt,
        cnt > 0,
        forall|k: int| 0 <= k < cnt ==> valid_elem(pkg, t, #[trigger] ws[k], fuel),
        elem_size_f(pkg, t, fuel) is Some,
        0 <= pos,
        pos + cnt * elem_size_f(pkg, t, fuel)->Some_0 <= data.len(),
        data.subrange(pos, pos + cnt * elem_size_f(pkg, t, fuel)->Some_0) == enc_elem_list(
            pkg,
            t,
            ws,
            fuel,
        ),
    ensures
        elem_size_f(pkg, t, fuel)->Some_0 >= 0,
        pos + elem_size_f(pkg, t, fuel)->Some_0 <= data.len(),
        data.subrange(pos, pos + elem_size_f(pkg, t, fuel)->Some_0) == enc_elem(
            pkg,
            t,
            ws[0],
            fuel,
        ),
        data.subrange(pos + elem_size_f(pkg, t, fuel)->Some_0, pos + cnt * elem_size_f(
            pkg,
            t,
            fuel,
        )->Some_0) == enc_elem_list(pkg, t, ws.drop_first(), fuel),
        (cnt - 1) * elem_size_f(pkg, t, fuel)->Some_0 == cnt * elem_size_f(pkg, t, fuel)->Some_0
            - elem_size_f(pkg, t, fuel)->Some_0,
{
    let e = elem_size_f(pkg, t, fuel)->Some_0;
    crate::ast::lemma_elem_size_nonneg(pkg, t, fuel);
    lemma_enc_elem_len(pkg, t, ws[0], fuel);
    assert forall|k: int|
        0 <= k < ws.drop_first().len() implies valid_elem(
        pkg,
        t,
        #[trigger] ws.drop_first()[k],
        fuel,
    ) by {
        assert(valid_elem(pkg, t, ws[k + 1], fuel));
    }
    lemma_enc_elem_list_len(pkg, t, ws.drop_first(), fuel);
    assert((cnt - 1) * e == cnt * e - e) by (nonlinear_arith);
    assert(cnt * e >= e) by (nonlinear_arith)
        requires
            cnt >= 1,
            e >= 0,
    ;
    let whole = data.subrange(pos, pos + cnt * e);
    assert(whole == enc_elem(pkg, t, ws[0], fuel) + enc_elem_list(pkg, t, ws.drop_first(), fuel));
    assert(data.subrange(pos, pos + e) =~= whole.subrange(0, e));
    assert(whole.subrange(0, e) =~= enc_elem(pkg, t, ws[0], fuel));
    assert(data.subrange(pos + e, pos + cnt * e) =~= whole.subrange(e, cnt * e));
    assert(whole.subrange(e, cnt * e) =~= enc_elem_list(pkg, t, ws.drop_first(), fuel));
}

/// Decode one field value at `pos`.
#[verifier::rlimit(100)]
#[verifier::spinoff_prover]
fn dec_field_ex(pkg: &Package, f: &StructField, data: &[u8], pos: usize, fuel: usize) -> (r: Option<
    (Value, usize),
>)
    requires
        pos <= data@.len(),
    ensures
        r matches Some(p) ==> pos <= p.1 <= data@.len() && valid_field(pkg@, f@, p.0@, fuel as nat)
            && field_size_f(pkg@, f@, fuel as nat) == Some((p.1 - pos) as int) && data@.subrange(
            pos as int,
            p.1 as int,
        ) == enc_field(pkg@, f@, p.0@, fuel as nat),
        forall|v: ValueV|
            valid_field(pkg@, f@, v, fuel as nat) && field_size_f(pkg@, f@, fuel as nat) is Some
                && pos + field_size_f(pkg@, f@, fuel as nat)->Some_0 <= data@.len()
                && data@.subrange(
                pos as int,
                pos + field_size_f(pkg@, f@, fuel as nat)->Some_0,
            ) == enc_field(pkg@, f@, v, fuel as nat) ==> (r matches Some(p) && p.0@ == v && p.1
                == pos + field_size_f(pkg@, f@, fuel as nat)->Some_0),
    decreases fuel, 2int, 0int,
{
    let ghost gf = f@;
    let ghost gfuel = fuel as nat;
    match f.array {
        None => {
            let r = dec_elem_ex(pkg, &f.t, data, pos, fuel);
            proof {
                if elem_size_f(pkg@, f.t@, gfuel) is Some {
                    let e = elem_size_f(pkg@, f.t@, gfuel)->Some_0;
                    crate::ast::lemma_elem_size_nonneg(pkg@, f.t@, gfuel);
                    crate::ast::lemma_elem_size_le_max(pkg@, f.t@, gfuel);
                    assert(array_count(gf.array) == 1);
                    assert(e * 1 == e) by (nonlinear_arith);
                    assert forall|v: ValueV|
                        valid_field(pkg@, gf, v, gfuel) && field_size_f(pkg@, gf, gfuel) is Some
                            && pos + field_size_f(pkg@, gf, gfuel)->Some_0 <= data@.len()
                            && data@.subrange(
                            pos as int,
                            pos + field_size_f(pkg@, gf, gfuel)->Some_0,
                        ) == enc_field(pkg@, gf, v, gfuel) implies (r matches Some(p) && p.0@ == v
                        && p.1 == pos + field_size_f(pkg@, gf, gfuel)->Some_0) by {
                        assert(field_size_f(pkg@, gf, gfuel)->Some_0 == e);
                        assert(valid_elem(pkg@, f.t@, v, gfuel));
                        assert(enc_field(pkg@, gf, v, gfuel) == enc_elem(pkg@, f.t@, v, gfuel));
                        assert(data@.subrange(pos as int, pos + e) == enc_elem(
                            pkg@,
                            f.t@,
                            v,
                            gfuel,
                        ));
                    }
                }
            }
            r
        },
        Some(n) => {
            match crate::ast::elem_size_at(pkg, &f.t, fuel) {
                None => {
                    proof {
                        crate::ast::lemma_elem_size_le_max(pkg@, gf.t, gfuel);
                        assert(elem_size_f(pkg@, gf.t, gfuel) is None);
                        assert(field_size_f(pkg@, gf, gfuel) is None);
                    }
                    None
                },
                Some(e32) => {
                    let ghost e = elem_size_f(pkg@, gf.t, gfuel)->Some_0;
                    proof {
                        crate::ast::lemma_elem_size_nonneg(pkg@, gf.t, gfuel);
                        crate::ast::lemma_elem_size_le_max(pkg@, gf.t, gfuel);
                    }
                    if n == 0 {
                        let vals: Vec<Value> = Vec::new();
                        let w = Value::ArrayVal(vals);
                        proof {
                            if let Value::ArrayVal(inner) = &w {
                                lemma_vals_view(inner@);
                            }
                            assert(w@ matches ValueV::ArrayVal(el) && el =~= Seq::<
                                ValueV,
                            >::empty());
                            assert(e * array_count(gf.array) == 0) by (nonlinear_arith)
                                requires
                                    array_count(gf.array) == 0,
                            ;
                            assert(field_size_f(pkg@, gf, gfuel) == Some(0int));
                            assert(data@.subrange(pos as int, pos as int) =~= enc_field(
                                pkg@,
                                gf,
                                w@,
                                gfuel,
                            ));
                            assert forall|v: ValueV| valid_field(pkg@, gf, v, gfuel) implies v
                                == w@ by {
                                if let ValueV::ArrayVal(el) = v {
                                    assert(el =~= Seq::<ValueV>::empty());
                                }
                            }
                        }
                        Some((w, pos))
                    } else {
                        match dec_list_ex(pkg, &f.t, data, pos, n as usize, fuel) {
                            Some((vals, end)) => {
                                let w = Value::ArrayVal(vals);
                                proof {
                                    if let Value::ArrayVal(inner) = &w {
                                        lemma_vals_view(inner@);
                                    }
                                    assert(end - pos == n * e);
                                    assert(e * array_count(gf.array) == n * e) by (nonlinear_arith)
                                        requires
                                            array_count(gf.array) == n as int,
                                    ;
                                    assert(e * (n as int) <= u32::MAX * (n as int))
                                        by (nonlinear_arith)
                                        requires
                                            e <= u32::MAX,
                                            n as int >= 0,
                                    ;
                                    assert forall|k: int|
                                        0 <= k < vals_view(vals@).len() implies valid_elem(
                                        pkg@,
                                        gf.t,
                                        #[trigger] vals_view(vals@)[k],
                                        gfuel,
                                    ) by {
                                        assert(vals_view(vals@)[k] == vals@[k]@);
                                        assert(valid_elem(pkg@, gf.t, vals@[k]@, gfuel));
                                    }
                                    assert(valid_field(pkg@, gf, w@, gfuel));
                                    if (n as int) * e <= u32::MAX {
                                        assert(field_size_f(pkg@, gf, gfuel) == Some(
                                            (n as int) * e,
                                        ));
                                        assert(data@.subrange(pos as int, end as int)
                                            == enc_field(pkg@, gf, w@, gfuel));
                                        assert forall|v: ValueV|
                                            valid_field(pkg@, gf, v, gfuel) && field_size_f(
                                                pkg@,
                                                gf,
                                                gfuel,
                                            ) is Some && pos + field_size_f(
                                                pkg@,
                                                gf,
                                                gfuel,
                                            )->Some_0 <= data@.len() && data@.subrange(
                                                pos as int,
                                                pos + field_size_f(pkg@, gf, gfuel)->Some_0,
                                            ) == enc_field(pkg@, gf, v, gfuel) implies v == w@ by {
                                            if let ValueV::ArrayVal(el) = v {
                                                assert(el.len() == n as int);
                                                assert(field_size_f(pkg@, gf, gfuel)->Some_0 == (
                                                n as int) * e);
                                                assert(enc_field(pkg@, gf, v, gfuel)
                                                    == enc_elem_list(pkg@, gf.t, el, gfuel));
                                                assert(pos + (n as int) * e <= data@.len());
                                                assert(data@.subrange(
                                                    pos as int,
                                                    pos + (n as int) * e,
                                                ) == enc_elem_list(pkg@, gf.t, el, gfuel));
                                                assert(vals_view(vals@) == el);
                                                assert(w@ matches ValueV::ArrayVal(wl) && wl
                                                    == vals_view(vals@));
                                            }
                                        }
                                    } else {
                                        assert(field_size_f(pkg@, gf, gfuel) is None);
                                    }
                                }
                                if end - pos <= u32::MAX as usize {
                                    Some((w, end))
                                } else {
                                    None
                                }
                            },
                            None => {
                                proof {
                                    assert forall|v: ValueV|
                                        !(valid_field(pkg@, gf, v, gfuel) && field_size_f(
                                            pkg@,
                                            gf,
                                            gfuel,
                                        ) is Some && pos + field_size_f(pkg@, gf, gfuel)->Some_0
                                            <= data@.len() && data@.subrange(
                                            pos as int,
                                            pos + field_size_f(pkg@, gf, gfuel)->Some_0,
                                        ) == enc_field(pkg@, gf, v, gfuel)) by {
                                        if valid_field(pkg@, gf, v, gfuel) && field_size_f(
                                            pkg@,
                                            gf,
                                            gfuel,
                                        ) is Some && pos + field_size_f(pkg@, gf, gfuel)->Some_0
                                            <= data@.len() && data@.subrange(
                                            pos as int,
                                            pos + field_size_f(pkg@, gf, gfuel)->Some_0,
                                        ) == enc_field(pkg@, gf, v, gfuel) {
                                            if let ValueV::ArrayVal(el) = v {
                                                assert(e * array_count(gf.array) == (n as int) * e)
                                                    by (nonlinear_arith)
                                                    requires
                                                        array_count(gf.array) == n as int,
                                                ;
                                                assert(field_size_f(pkg@, gf, gfuel)->Some_0 == (
                                                n as int) * e);
                                                assert(enc_field(pkg@, gf, v, gfuel)
                                                    == enc_elem_list(pkg@, gf.t, el, gfuel));
                                                assert(pos + (n as int) * e <= data@.len());
                                                assert(data@.subrange(
                                                    pos as int,
                                                    pos + (n as int) * e,
                                                ) == enc_elem_list(pkg@, gf.t, el, gfuel));
                                                assert(false);
                                            }
                                        }
                                    }
                                }
                                None
                            },
                        }
                    }
                },
            }
        },
    }
}

/// If a byte range holds the encoding of a nonempty field list, its prefix of
/// one field size holds the first field's encoding and the rest holds the
/// remaining fields'.
proof fn dec_fields_head(
    pkg: PackageV,
    fields: Seq<FieldV>,
    ws: Seq<ValueV>,
    data: Seq<u8>,
    pos: int,
    fuel: nat,
)
    requires
        fields.len() > 0,
        valid_fields(pkg, fields, ws, fuel),
        fields_size_f(pkg, fields, fuel) is Some,
        0 <= pos,
        pos + fields_size_f(pkg, fields, fuel)->Some_0 <= data.len(),
        data.subrange(pos, pos + fields_size_f(pkg, fields, fuel)->Some_0) == enc_fields(
            pkg,
            fields,
            ws,
            fuel,
        ),
    ensures
        field_size_f(pkg, fields[0], fuel) is Some,
        fields_size_f(pkg, fields.drop_first(), fuel) is Some,
        valid_field(pkg, fields[0], ws[0], fuel),
        valid_fields(pkg, fields.drop_first(), ws.drop_first(), fuel),
        field_size_f(pkg, fields[0], fuel)->Some_0 >= 0,
        fields_size_f(pkg, fields.drop_first(), fuel)->Some_0 >= 0,
        field_size_f(pkg, fields[0], fuel)->Some_0 + fields_size_f(
            pkg,
            fields.drop_first(),
            fuel,
        )->Some_0 == fields_size_f(pkg, fields, fuel)->Some_0,
        pos + field_size_f(pkg, fields[0], fuel)->Some_0 <= data.len(),
        data.subrange(pos, pos + field_size_f(pkg, fields[0], fuel)->Some_0) == enc_field(
            pkg,
            fields[0],
            ws[0],
            fuel,
        ),
        data.subrange(
            pos + field_size_f(pkg, fields[0], fuel)->Some_0,
            pos + fields_size_f(pkg, fields, fuel)->Some_0,
        ) == enc_fields(pkg, fields.drop_first(), ws.drop_first(), fuel),
{
    let a = field_size_f(pkg, fields[0], fuel)->Some_0;
    let sz = fields_size_f(pkg, fields, fuel)->Some_0;
    assert(valid_field(pkg, fields[0], ws[0], fuel));
    assert forall|k: int|
        0 <= k < fields.drop_first().len() implies valid_field(
        pkg,
        fields.drop_first()[k],
        #[trigger] ws.drop_first()[k],
        fuel,
    ) by {
        assert(valid_field(pkg, fields[k + 1], ws[k + 1], fuel));
    }
    crate::ast::lemma_field_size_nonneg(pkg, fields[0], fuel);
    crate::ast::lemma_fields_size_nonneg(pkg, fields.drop_first(), fuel);
    lemma_enc_field_len(pkg, fields[0], ws[0], fuel);
    lemma_enc_fields_len(pkg, fields.drop_first(), ws.drop_first(), fuel);
    let whole = data.subrange(pos, pos + sz);
    assert(whole == enc_field(pkg, fields[0], ws[0], fuel) + enc_fields(
        pkg,
        fields.drop_first(),
        ws.drop_first(),
        fuel,
    ));
    assert(data.subrange(pos, pos + a) =~= whole.subrange(0, a));
    assert(whole.subrange(0, a) =~= enc_field(pkg, fields[0], ws[0], fuel));
    assert(data.subrange(pos + a, pos + sz) =~= whole.subrange(a, sz));
    assert(whole.subrange(a, sz) =~= enc_fields(pkg, fields.drop_first(), ws.drop_first(), fuel));
}

/// Decode values for `fields[i..]` starting at `pos`.
#[verifier::rlimit(100)]
#[verifier::spinoff_prover]
fn dec_fields_ex(
    pkg: &Package,
    fields: &Vec<StructField>,
    i: usize,
    data: &[u8],
    pos: usize,
    fuel: usize,
) -> (r: Option<(Vec<Value>, usize)>)
    requires
        i <= fields.len(),
        pos <= data@.len(),
    ensures
        r matches Some(p) ==> pos <= p.1 <= data@.len() && valid_fields(
            pkg@,
            fields_view(fields@).skip(i as int),
            vals_view(p.0@),
            fuel as nat,
        ) && fields_size_f(
            pkg@,
            fields_view(fields@).skip(i as int),
            fuel as nat,
        ) == Some((p.1 - pos) as int) && data@.subrange(pos as int, p.1 as int) == enc_fields(
            pkg@,
            fields_view(fields@).skip(i as int),
            vals_view(p.0@),
            fuel as nat,
        ),
        forall|ws: Seq<ValueV>|
            #[trigger] valid_fields(
                pkg@,
                fields_view(fields@).skip(i as int),
                ws,
                fuel as nat,
            ) && fields_size_f(
                pkg@,
                fields_view(fields@).skip(i as int),
                fuel as nat,
            ) is Some && pos + fields_size_f(
                pkg@,
                fields_view(fields@).skip(i as int),
                fuel as nat,
            )->Some_0 <= data@.len() && data@.subrange(
                pos as int,
                pos + fields_size_f(
                    pkg@,
                    fields_view(fields@).skip(i as int),
                    fuel as nat,
                )->Some_0,
            ) == enc_fields(
                pkg@,
                fields_view(fields@).skip(i as int),
                ws,
                fuel as nat,
            ) ==> (r matches Some(p) && vals_view(p.0@) == ws && p.1 == pos + fields_size_f(
                pkg@,
                fields_view(fields@).skip(i as int),
                fuel as nat,
            )->Some_0),
    decreases fuel, 3int, fields.len() - i,
{
    let ghost fv = fields_view(fields@).skip(i as int);
    let ghost gfuel = fuel as nat;
    if i == fields.len() {
        let vals: Vec<Value> = Vec::new();
        proof {
            assert(fv.len() == 0);
            lemma_vals_view(vals@);
            assert(vals_view(vals@) =~= Seq::<ValueV>::empty());
            assert(data@.subrange(pos as int, pos as int) =~= enc_fields(
                pkg@,
                fv,
                vals_view(vals@),
                gfuel,
            ));
            assert forall|ws: Seq<ValueV>| ws.len() == 0 implies vals_view(vals@) == ws by {
                assert(vals_view(vals@) =~= ws);
            }
        }
        Some((vals, pos))
    } else {
        proof {
            assert(fv[0] == fields_view(fields@)[i as int]);
            assert(fv.drop_first() =~= fields_view(fields@).skip(
                i as int + 1,
            ));
        }
        match dec_field_ex(pkg, &fields[i], data, pos, fuel) {
            Some((w, mid)) => {
                match dec_fields_ex(pkg, fields, i + 1, data, mid, fuel) {
                    Some((mut vals, end)) => {
                        if end - pos <= u32::MAX as usize {
                            let ghost tail = vals@;
                            vals.insert(0, w);
                            proof {
                                lemma_vals_view(vals@);
                                lemma_vals_view(tail);
                                assert(vals@ =~= seq![w] + tail);
                                assert forall|k: int|
                                    0 <= k < vals@.len() implies vals_view(vals@)[k] == (seq![w@]
                                    + vals_view(tail))[k] by {
                                    assert(vals_view(vals@)[k] == vals@[k]@);
                                    if k > 0 {
                                        assert(vals@[k] == tail[k - 1]);
                                        assert(vals_view(tail)[k - 1] == tail[k - 1]@);
                                    } else {
                                        assert(vals@[0] == w);
                                    }
                                }
                                assert(vals_view(vals@) =~= seq![w@] + vals_view(tail));
                                assert(vals_view(vals@).drop_first() =~= vals_view(tail));
                                assert(data@.subrange(pos as int, end as int) =~= data@.subrange(
                                    pos as int,
                                    mid as int,
                                ) + data@.subrange(mid as int, end as int));
                                assert(enc_fields(pkg@, fv, vals_view(vals@), gfuel) == enc_field(
                                    pkg@,
                                    fv[0],
                                    w@,
                                    gfuel,
                                ) + enc_fields(
                                    pkg@,
                                    fv.drop_first(),
                                    vals_view(tail),
                                    gfuel,
                                ));
                                assert forall|k: int|
                                    0 <= k < fv.len() implies valid_field(
                                    pkg@,
                                    fv[k],
                                    #[trigger] vals_view(vals@)[k],
                                    gfuel,
                                ) by {
                                    if k > 0 {
                                        assert(valid_field(
                                            pkg@,
                                            fv.drop_first()[k - 1],
                                            vals_view(tail)[k - 1],
                                            gfuel,
                                        ));
                                    }
                                }
                                assert forall|ws: Seq<ValueV>|
                                    valid_fields(pkg@, fv, ws, gfuel) && fields_size_f(
                                        pkg@,
                                        fv,
                                        gfuel,
                                    ) is Some && pos + fields_size_f(pkg@, fv, gfuel)->Some_0
                                        <= data@.len() && data@.subrange(
                                        pos as int,
                                        pos + fields_size_f(pkg@, fv, gfuel)->Some_0,
                                    ) == enc_fields(pkg@, fv, ws, gfuel) implies vals_view(vals@)
                                    == ws && end == pos + fields_size_f(
                                    pkg@,
                                    fv,
                                    gfuel,
                                )->Some_0 by {
                                    dec_fields_head(pkg@, fv, ws, data@, pos as int, gfuel);
                                    assert(ws[0] == w@);
                                    assert(vals_view(tail) == ws.drop_first());
                                    assert(vals_view(vals@) =~= ws);
                                }
                            }
                            Some((vals, end))
                        } else {
                            proof {
                                assert forall|ws: Seq<ValueV>|
                                    !(valid_fields(pkg@, fv, ws, gfuel) && fields_size_f(
                                        pkg@,
                                        fv,
                                        gfuel,
                                    ) is Some && pos + fields_size_f(pkg@, fv, gfuel)->Some_0
                                        <= data@.len() && data@.subrange(
                                        pos as int,
                                        pos + fields_size_f(pkg@, fv, gfuel)->Some_0,
                                    ) == enc_fields(pkg@, fv, ws, gfuel)) by {
                                    if valid_fields(pkg@, fv, ws, gfuel) && fields_size_f(
                                        pkg@,
                                        fv,
                                        gfuel,
                                    ) is Some && pos + fields_size_f(pkg@, fv, gfuel)->Some_0
                                        <= data@.len() && data@.subrange(
                                        pos as int,
                                        pos + fields_size_f(pkg@, fv, gfuel)->Some_0,
                                    ) == enc_fields(pkg@, fv, ws, gfuel) {
                                        dec_fields_head(pkg@, fv, ws, data@, pos as int, gfuel);
                                        assert(ws[0] == w@);
                                        assert(end == pos + fields_size_f(
                                            pkg@,
                                            fv,
                                            gfuel,
                                        )->Some_0);
                                    }
                                }
                            }
                            None
                        }
                    },
                    None => {
                        proof {
                            assert forall|ws: Seq<ValueV>|
                                !(valid_fields(pkg@, fv, ws, gfuel) && fields_size_f(
                                    pkg@,
                                    fv,
                                    gfuel,
                                ) is Some && pos + fields_size_f(pkg@, fv, gfuel)->Some_0
                                    <= data@.len() && data@.subrange(
                                    pos as int,
                                    pos + fields_size_f(pkg@, fv, gfuel)->Some_0,
                                ) == enc_fields(pkg@, fv, ws, gfuel)) by {
                                if valid_fields(pkg@, fv, ws, gfuel) && fields_size_f(
                                    pkg@,
                                    fv,
                                    gfuel,
                                ) is Some && pos + fields_size_f(pkg@, fv, gfuel)->Some_0
                                    <= data@.len() && data@.subrange(
                                    pos as int,
                                    pos + fields_size_f(pkg@, fv, gfuel)->Some_0,
                                ) == enc_fields(pkg@, fv, ws, gfuel) {
                                    dec_fields_head(pkg@, fv, ws, data@, pos as int, gfuel);
                                    assert(ws[0] == w@);
                                }
                            }
                        }
                        None
                    },
                }
            },
            None => {
                proof {
                    assert forall|ws: Seq<ValueV>|
                        !(valid_fields(pkg@, fv, ws, gfuel) && fields_size_f(pkg@, fv, gfuel)
                            is Some && pos + fields_size_f(pkg@, fv, gfuel)->Some_0 <= data@.len()
                            && data@.subrange(
                            pos as int,
                            pos + fields_size_f(pkg@, fv, gfuel)->Some_0,
                        ) == enc_fields(pkg@, fv, ws, gfuel)) by {
                        if valid_fields(pkg@, fv, ws, gfuel) && fields_size_f(pkg@, fv, gfuel)
                            is Some && pos + fields_size_f(pkg@, fv, gfuel)->Some_0 <= data@.len()
                            && data@.subrange(
                            pos as int,
                            pos + fields_size_f(pkg@, fv, gfuel)->Some_0,
                        ) == enc_fields(pkg@, fv, ws, gfuel) {
                            dec_fields_head(pkg@, fv, ws, data@, pos as int, gfuel);
                        }
                    }
                }
                None
            },
        }
    }
}

// ---------------------------------------------------------------------------
// Decode-by-tag dispatch
// ---------------------------------------------------------------------------
/// The result of the decode-by-tag entry point: which struct kind the tag
/// named, and the decoded value.
#[derive(Debug)]
pub enum DecodeRes {
    Struct(String, Value),
}

/// Every struct's size is computable in the package: no unknown or missing
/// type reference, no cyclic embedding, no size past `u32::MAX`.
pub open spec fn pkg_sized(pkg: PackageV) -> bool {
    forall|i: int|
        0 <= i < pkg.structs.len() ==> struct_size(pkg, #[trigger] pkg.structs[i]) is Some
}

/// No two structs of the package share a wire tag.
pub open spec fn distinct_tags(pkg: PackageV) -> bool {
    forall|i: int, j: int|
        0 <= i < pkg.structs.len() && 0 <= j < pkg.structs.len() && i != j ==> struct_tag(
            #[trigger] pkg.structs[i],
        ) != struct_tag(#[trigger] pkg.structs[j])
}

/// `data` is the full wire encoding of value `vv` of the `i`-th struct.
pub open spec fn encodes(pkg: PackageV, i: int, vv: ValueV, data: Seq<u8>) -> bool {
    0 <= i < pkg.structs.len() && valid_value(pkg, pkg.structs[i], vv) && data == enc_value(
        pkg,
        pkg.structs[i],
        vv,
    )
}

/// An encoding of the `i`-th struct starts with the struct's tag bytes and
/// is exactly `4 + struct size` bytes long.
proof fn lemma_encoding_shape(pkg: PackageV, i: int, vv: ValueV, data: Seq<u8>)
    requires
        encodes(pkg, i, vv, data),
        struct_size(pkg, pkg.structs[i]) is Some,
    ensures
        data.len() == 4 + struct_size(pkg, pkg.structs[i])->Some_0,
        data.subrange(0, 4) == be32_bytes(struct_tag(pkg.structs[i]) as int),
        data.subrange(4, data.len() as int) == enc_fields(
            pkg,
            pkg.structs[i].fields,
            vv->StructVal_0,
            size_fuel(pkg),
        ),
{
    let s = pkg.structs[i];
    if let ValueV::StructVal(ws) = vv {
        lemma_enc_fields_len(pkg, s.fields, ws, size_fuel(pkg));
        assert(data == be32_bytes(struct_tag(s) as int) + enc_fields(
            pkg,
            s.fields,
            ws,
            size_fuel(pkg),
        ));
        assert(data.subrange(0, 4) =~= be32_bytes(struct_tag(s) as int));
        assert(data.subrange(4, data.len() as int) =~= enc_fields(
            pkg,
            s.fields,
            ws,
            size_fuel(pkg),
        ));
    }
}

/// Restate the shape of an encoding of struct `i` in the terms the strict
/// field decoder speaks of: the payload range holds the field-list encoding
/// of the value's fields.
proof fn dec_matched_bridge(pkg: PackageV, st: Struct, i: int, ws: Seq<ValueV>, data: Seq<u8>)
    requires
        0 <= i < pkg.structs.len(),
        pkg.structs[i] == st@,
        struct_size(pkg, pkg.structs[i]) is Some,
        encodes(pkg, i, ValueV::StructVal(ws), data),
    ensures
        valid_fields(pkg, fields_view(st.fields@).skip(0), ws, size_fuel(pkg)),
        fields_size_f(pkg, fields_view(st.fields@).skip(0), size_fuel(pkg)) is Some,
        4 + fields_size_f(pkg, fields_view(st.fields@).skip(0), size_fuel(pkg))->Some_0
            == data.len(),
        data.subrange(
            4,
            4 + fields_size_f(pkg, fields_view(st.fields@).skip(0), size_fuel(pkg))->Some_0,
        ) == enc_fields(pkg, fields_view(st.fields@).skip(0), ws, size_fuel(pkg)),
{
    let s = pkg.structs[i];
    assert(fields_view(st.fields@).skip(0) =~= s.fields);
    lemma_encoding_shape(pkg, i, ValueV::StructVal(ws), data);
    assert(data.subrange(4, data.len() as int) == enc_fields(pkg, s.fields, ws, size_fuel(pkg)));
}

/// Decode the payload of `data` as the `i`-th struct, which is already
/// known to match the buffer's tag and length.
#[verifier::rlimit(100)]
#[verifier::spinoff_prover]
fn decode_matched(pkg: &Package, i: usize, data: &[u8], tag: u32) -> (r: Option<(String, Value)>)
    requires
        i < pkg.structs.len(),
        data@.len() >= 4,
        tag == data@[0] * 0x1000000 + data@[1] * 0x10000 + data@[2] * 0x100 + data@[3],
        struct_tag(pkg@.structs[i as int]) == tag,
        struct_size(pkg@, pkg@.structs[i as int]) matches Some(n) && data@.len() == 4 + n,
    ensures
        r matches Some(p) ==> p.0@ == pkg@.structs[i as int].name && encodes(
            pkg@,
            i as int,
            p.1@,
            data@,
        ),
        forall|vv: ValueV|
            #[trigger] encodes(pkg@, i as int, vv, data@) ==> (r matches Some(p) && p.1@ == vv),
{
    let ghost gpkg = pkg@;
    let ghost s = gpkg.structs[i as int];
    let sname = pkg.structs[i].name.clone();
    match dec_fields_ex(pkg, &pkg.structs[i].fields, 0, data, 4, pkg.structs.len()) {
        Some((vals, end)) => {
            if end == data.len() {
                let w = Value::StructVal(vals);
                proof {
                    assert(s.fields.skip(0) =~= s.fields);
                    assert(valid_value(gpkg, s, w@));
                    dec32_bridge(data@, 0, tag as int);
                    assert(data@ =~= data@.subrange(0, 4) + data@.subrange(4, data@.len() as int));
                    assert(data@.subrange(0, 4) =~= be32_bytes(tag as int));
                    assert(encodes(gpkg, i as int, w@, data@));
                    assert forall|vv: ValueV|
                        #[trigger] encodes(gpkg, i as int, vv, data@) implies vv == w@ by {
                        lemma_encoding_shape(gpkg, i as int, vv, data@);
                        if let ValueV::StructVal(ws) = vv {
                            dec_matched_bridge(gpkg, pkg.structs@[i as int], i as int, ws, data@);
                            assert(vals_view(vals@) == ws);
                        }
                    }
                }
                Some((sname, w))
            } else {
                proof {
                    assert forall|vv: ValueV| !#[trigger] encodes(gpkg, i as int, vv, data@) by {
                        if encodes(gpkg, i as int, vv, data@) {
                            lemma_encoding_shape(gpkg, i as int, vv, data@);
                            if let ValueV::StructVal(ws) = vv {
                                dec_matched_bridge(
                                    gpkg,
                                    pkg.structs@[i as int],
                                    i as int,
                                    ws,
                                    data@,
                                );
                                assert(end == data@.len());
                            }
                        }
                    }
                }
                None
            }
        },
        None => {
            proof {
                assert forall|vv: ValueV| !#[trigger] encodes(gpkg, i as int, vv, data@) by {
                    if encodes(gpkg, i as int, vv, data@) {
                        lemma_encoding_shape(gpkg, i as int, vv, data@);
                        if let ValueV::StructVal(ws) = vv {
                            dec_matched_bridge(gpkg, pkg.structs@[i as int], i as int, ws, data@);
                            assert(false);
                        }
                    }
                }
            }
            None
        },
    }
}

/// A buffer whose leading tag or total length does not match the `i`-th
/// struct cannot be an encoding of it.
proof fn lemma_no_match(pkg: PackageV, i: int, data: Seq<u8>, tag: int)
    requires
        pkg_sized(pkg),
        0 <= i < pkg.structs.len(),
        data.len() >= 4,
        tag == data[0] * 0x1000000 + data[1] * 0x10000 + data[2] * 0x100 + data[3],
        struct_tag(pkg.structs[i]) != tag || data.len() != 4 + struct_size(
            pkg,
            pkg.structs[i],
        )->Some_0,
    ensures
        forall|vv: ValueV| !#[trigger] encodes(pkg, i, vv, data),
{
    assert forall|vv: ValueV| !#[trigger] encodes(pkg, i, vv, data) by {
        if encodes(pkg, i, vv, data) {
            lemma_encoding_shape(pkg, i, vv, data);
            lemma_be32_inverse(struct_tag(pkg.structs[i]) as int);
            assert(data.subrange(0, 4)[0] == data[0]);
            assert(data.subrange(0, 4)[1] == data[1]);
            assert(data.subrange(0, 4)[2] == data[2]);
            assert(data.subrange(0, 4)[3] == data[3]);
            assert(struct_tag(pkg.structs[i]) == tag);
        }
    }
}

/// Try to decode `data` as the `i`-th struct: its tag and total wire length
/// must both match, and the payload must decode strictly.
#[verifier::rlimit(100)]
fn decode_struct_at(pkg: &Package, i: usize, data: &[u8], tag: u32) -> (r: Option<(String, Value)>)
    requires
        i < pkg.structs.len(),
        data@.len() >= 4,
        tag == data@[0] * 0x1000000 + data@[1] * 0x10000 + data@[2] * 0x100 + data@[3],
    ensures
        r matches Some(p) ==> p.0@ == pkg@.structs[i as int].name && encodes(
            pkg@,
            i as int,
            p.1@,
            data@,
        ),
        pkg_sized(pkg@) ==> forall|vv: ValueV|
            #[trigger] encodes(pkg@, i as int, vv, data@) ==> (r matches Some(p) && p.1@ == vv),
{
    let ghost gpkg = pkg@;
    proof {
        assert(gpkg.structs[i as int] == pkg.structs@[i as int]@);
    }
    let sz_opt = pkg.structs[i].size(pkg);
    match sz_opt {
        Some(sz) => {
            proof {
                crate::ast::lemma_fields_size_nonneg(
                    gpkg,
                    gpkg.structs[i as int].fields,
                    size_fuel(gpkg),
                );
                assert(struct_size(gpkg, gpkg.structs[i as int]) matches Some(nn) && nn
                    == sz as int);
            }
            let h = pkg.structs[i].fnv_1a();
            if h == tag && data.len() - 4 == sz as usize {
                decode_matched(pkg, i, data, tag)
            } else {
                proof {
                    if pkg_sized(gpkg) {
                        lemma_no_match(gpkg, i as int, data@, tag as int);
                    }
                }
                None
            }
        },
        None => {
            proof {
                if pkg_sized(gpkg) {
                    assert(struct_size(gpkg, gpkg.structs[i as int]) is Some);
                    assert(false);
                }
            }
            None
        },
    }
}

/// Decode a tagged wire buffer against the package: read the leading 4-byte
/// tag, route to the struct whose tag and total wire length both match, and
/// strictly decode its payload. Any unknown tag, wrong length, or malformed
/// payload is rejected as unknown data.
///
/// Together with `encode`, this states the round-trip law: for every sized
/// package with distinct tags, every struct of it, and every valid value,
/// decoding the encoding returns exactly that struct's name and that value.
pub fn decode(pkg: &Package, data: &[u8]) -> (r: Result<DecodeRes, &'static str>)
    ensures
        r matches Ok(d) ==> (d matches DecodeRes::Struct(n, w) && exists|i: int|
            0 <= i < pkg@.structs.len() && n@ == #[trigger] pkg@.structs[i].name && encodes(
                pkg@,
                i,
                w@,
                data@,
            )),
        r is Err ==> r->Err_0@ == "Unknown data."@,
        pkg_sized(pkg@) && distinct_tags(pkg@) ==> forall|i: int, vv: ValueV|
            #[trigger] encodes(pkg@, i, vv, data@) ==> (r matches Ok(d) && d matches
                DecodeRes::Struct(n, w) && n@ == pkg@.structs[i].name && w@ == vv),
{
    let ghost gpkg = pkg@;
    if data.len() < 4 {
        proof {
            if pkg_sized(gpkg) {
                assert forall|i: int, vv: ValueV| !encodes(gpkg, i, vv, data@) by {
                    if encodes(gpkg, i, vv, data@) {
                        lemma_encoding_shape(gpkg, i, vv, data@);
                        crate::ast::lemma_fields_size_nonneg(
                            gpkg,
                            gpkg.structs[i].fields,
                            size_fuel(gpkg),
                        );
                    }
                }
            }
        }
        return Err("Unknown data.");
    }
    let tag = read_u32(data, 0);
    let mut i: usize = 0;
    while i < pkg.structs.len()
        invariant
            i <= pkg.structs.len(),
            gpkg == pkg@,
            data@.len() >= 4,
            tag == data@[0] * 0x1000000 + data@[1] * 0x10000 + data@[2] * 0x100 + data@[3],
            pkg_sized(gpkg) ==> forall|j: int, vv: ValueV|
                0 <= j < i ==> !#[trigger] encodes(gpkg, j, vv, data@),
        decreases pkg.structs.len() - i,
    {
        match decode_struct_at(pkg, i, data, tag) {
            Some((sname, w)) => {
                proof {
                    let gi = i as int;
                    assert(encodes(gpkg, gi, w@, data@));
                    if pkg_sized(gpkg) && distinct_tags(gpkg) {
                        lemma_encoding_shape(gpkg, gi, w@, data@);
                        lemma_be32_inverse(struct_tag(gpkg.structs[gi]) as int);
                        dec32_bridge(data@, 0, tag as int);
                        assert(data@.subrange(0, 4)[0] == data@[0]);
                        assert(data@.subrange(0, 4)[1] == data@[1]);
                        assert(data@.subrange(0, 4)[2] == data@[2]);
                        assert(data@.subrange(0, 4)[3] == data@[3]);
                        assert(struct_tag(gpkg.structs[gi]) == tag);
                        assert forall|j: int, vv: ValueV|
                            #[trigger] encodes(gpkg, j, vv, data@) implies j == gi && vv == w@ by {
                            reject_other(gpkg, j, vv, data@, gi, tag as int);
                            assert(struct_tag(gpkg.structs[j]) == struct_tag(gpkg.structs[gi]));
                            if j != gi {
                                assert(false);
                            }
                        }
                    }
                }
                return Ok(DecodeRes::Struct(sname, w));
            },
            None => {
                proof {
                    if pkg_sized(gpkg) {
                        assert forall|vv: ValueV|
                            !#[trigger] encodes(gpkg, i as int, vv, data@) by {}
                    }
                }
            },
        }
        i += 1;
    }
    Err("Unknown data.")
}

/// The struct a buffer encodes carries the buffer's leading tag, so under
/// distinct tags only one struct can match.
proof fn reject_other(pkg: PackageV, j: int, vv: ValueV, data: Seq<u8>, i: int, tag: int)
    requires
        pkg_sized(pkg),
        0 <= i < pkg.structs.len(),
        encodes(pkg, j, vv, data),
        data.len() >= 4,
        tag == data[0] * 0x1000000 + data[1] * 0x10000 + data[2] * 0x100 + data[3],
        struct_tag(pkg.structs[i]) == tag,
    ensures
        struct_tag(pkg.structs[j]) == struct_tag(pkg.structs[i]),
{
    lemma_encoding_shape(pkg, j, vv, data);
    lemma_be32_inverse(struct_tag(pkg.structs[j]) as int);
    assert(data.subrange(0, 4)[0] == data[0]);
    assert(data.subrange(0, 4)[1] == data[1]);
    assert(data.subrange(0, 4)[2] == data[2]);
    assert(data.subrange(0, 4)[3] == data[3]);
    assert(struct_tag(pkg.structs[j]) == tag);
}

} // verus!

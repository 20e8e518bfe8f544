//! Type-directed decoding of dynamic call arguments.
use vstd::prelude::*;

use crate::collect::{collect, lemma_collect_all, lemma_collect_step, lemma_collect_stops, single};
use crate::naming::{field_name_of, term_to_field_name};
use crate::value::{
    dynamic_models, entry_models, field_models, res_model, texts, typed_models, ConversionError, DynamicModel,
    DynamicValue, FieldDescriptor, Primitive, TypeDescriptor, TypeKind, TypedModel, TypedValue,
};

verus! {

/// The atom that stands for an absent optional value.
pub open spec fn nil_atom() -> DynamicModel {
    DynamicModel::Atom("nil"@)
}

pub open spec fn mismatch(v: DynamicModel, expected: TypeKind) -> ConversionError {
    ConversionError::TagMismatch { tag: v.tag(), expected }
}

pub open spec fn in_range(n: int, lo: int, hi: int) -> bool {
    lo <= n && n <= hi
}

/// Decoding against a primitive kind: the tag must match exactly, and an integer must
/// fit the width without truncation.
pub open spec fn decode_primitive(v: DynamicModel, p: Primitive) -> Result<TypedModel, ConversionError> {
    let out = ConversionError::OutOfRange { kind: p };
    match v {
        DynamicModel::Integer(n) => match p {
            Primitive::S8 => if in_range(n, i8::MIN as int, i8::MAX as int) { Ok(TypedModel::S8(n as i8)) } else { Err(out) },
            Primitive::S16 => if in_range(n, i16::MIN as int, i16::MAX as int) { Ok(TypedModel::S16(n as i16)) } else { Err(out) },
            Primitive::S32 => if in_range(n, i32::MIN as int, i32::MAX as int) { Ok(TypedModel::S32(n as i32)) } else { Err(out) },
            Primitive::S64 => if in_range(n, i64::MIN as int, i64::MAX as int) { Ok(TypedModel::S64(n as i64)) } else { Err(out) },
            Primitive::U8 => if in_range(n, 0, u8::MAX as int) { Ok(TypedModel::U8(n as u8)) } else { Err(out) },
            Primitive::U16 => if in_range(n, 0, u16::MAX as int) { Ok(TypedModel::U16(n as u16)) } else { Err(out) },
            Primitive::U32 => if in_range(n, 0, u32::MAX as int) { Ok(TypedModel::U32(n as u32)) } else { Err(out) },
            Primitive::U64 => if in_range(n, 0, u64::MAX as int) { Ok(TypedModel::U64(n as u64)) } else { Err(out) },
            _ => Err(mismatch(v, TypeKind::Primitive(p))),
        },
        DynamicModel::Float(b) => match p {
            Primitive::Float32 => Ok(TypedModel::Float32(b)),
            Primitive::Float64 => Ok(TypedModel::Float64(b)),
            _ => Err(mismatch(v, TypeKind::Primitive(p))),
        },
        DynamicModel::Binary(s) => match p {
            Primitive::String => Ok(TypedModel::String(s)),
            _ => Err(mismatch(v, TypeKind::Primitive(p))),
        },
        DynamicModel::Atom(s) => match p {
            Primitive::Bool => if s == "true"@ {
                Ok(TypedModel::Bool(true))
            } else if s == "false"@ {
                Ok(TypedModel::Bool(false))
            } else {
                Err(out)
            },
            _ => Err(mismatch(v, TypeKind::Primitive(p))),
        },
        _ => Err(mismatch(v, TypeKind::Primitive(p))),
    }
}

/// The schema-side names of all keys of a mapping, in the mapping's order.
pub open spec fn key_names(entries: Seq<(DynamicModel, DynamicModel)>) -> Result<Seq<Seq<char>>, ConversionError> {
    collect(Seq::new(entries.len(), |i: int| single(field_name_of(entries[i].0))))
}

pub open spec fn is_first_match(keys: Seq<Seq<char>>, name: Seq<char>, j: int) -> bool {
    &&& 0 <= j < keys.len()
    &&& keys[j] == name
    &&& forall|k: int| 0 <= k < j ==> keys[k] != name
}

/// Where `name` first occurs among `keys`, if anywhere.
pub open spec fn key_index(keys: Seq<Seq<char>>, name: Seq<char>) -> Option<int> {
    if exists|j: int| is_first_match(keys, name, j) {
        Some(choose|j: int| is_first_match(keys, name, j))
    } else {
        None
    }
}

/// Decodes `v` against the type `t`.
pub open spec fn decode(v: DynamicModel, t: TypeDescriptor) -> Result<TypedModel, ConversionError>
    decreases t, 1nat,
{
    match t {
        TypeDescriptor::Primitive(p) => decode_primitive(v, p),
        TypeDescriptor::List(elem) => match v {
            DynamicModel::List(items) => match collect(list_pieces(items, *elem)) {
                Ok(xs) => Ok(TypedModel::List(xs)),
                Err(e) => Err(e),
            },
            _ => Err(mismatch(v, TypeKind::List)),
        },
        TypeDescriptor::Tuple(tys) => match v {
            DynamicModel::Tuple(items) => if items.len() != tys@.len() {
                Err(ConversionError::ArityMismatch { declared: tys@.len() as usize, found: items.len() as usize })
            } else {
                match collect(tuple_pieces(items, tys@)) {
                    Ok(xs) => Ok(TypedModel::Tuple(xs)),
                    Err(e) => Err(e),
                }
            },
            _ => Err(mismatch(v, TypeKind::Tuple)),
        },
        TypeDescriptor::Record(fields) => match v {
            DynamicModel::Mapping(entries) => match key_names(entries) {
                Ok(keys) => match collect(record_pieces(entries, keys, fields@)) {
                    Ok(fs) => Ok(TypedModel::Record(fs)),
                    Err(e) => Err(e),
                },
                Err(e) => Err(e),
            },
            _ => Err(mismatch(v, TypeKind::Record)),
        },
        TypeDescriptor::Option(inner) => if v == nil_atom() {
            Ok(TypedModel::Option(None))
        } else {
            match decode(v, *inner) {
                Ok(x) => Ok(TypedModel::Option(Some(Box::new(x)))),
                Err(e) => Err(e),
            }
        },
    }
}

pub open spec fn list_pieces(items: Seq<DynamicModel>, elem: TypeDescriptor) -> Seq<Result<Seq<TypedModel>, ConversionError>>
    decreases elem, 2nat,
{
    Seq::new(items.len(), |i: int| single(decode(items[i], elem)))
}

pub open spec fn tuple_pieces(items: Seq<DynamicModel>, tys: Seq<TypeDescriptor>) -> Seq<Result<Seq<TypedModel>, ConversionError>>
    decreases tys, 2nat,
{
    Seq::new(items.len(), |i: int| if 0 <= i < tys.len() { single(decode(items[i], tys[i])) } else { Ok(Seq::empty()) })
}

pub open spec fn record_pieces(
    entries: Seq<(DynamicModel, DynamicModel)>,
    keys: Seq<Seq<char>>,
    fields: Seq<FieldDescriptor>,
) -> Seq<Result<Seq<(Seq<char>, TypedModel)>, ConversionError>>
    decreases fields, 2nat,
{
    Seq::new(fields.len(), |i: int| if 0 <= i < fields.len() { decode_field(entries, keys, fields[i]) } else { Ok(Seq::empty()) })
}

/// A declared field: decoded where its name is among the keys, left out where not.
pub open spec fn decode_field(
    entries: Seq<(DynamicModel, DynamicModel)>,
    keys: Seq<Seq<char>>,
    f: FieldDescriptor,
) -> Result<Seq<(Seq<char>, TypedModel)>, ConversionError>
    decreases f, 1nat,
{
    match key_index(keys, f.name@) {
        Some(j) => if 0 <= j < entries.len() {
            match decode(entries[j].1, f.ty) {
                Ok(x) => Ok(seq![(f.name@, x)]),
                Err(e) => Err(e),
            }
        } else {
            Ok(Seq::empty())
        },
        None => Ok(Seq::empty()),
    }
}

/// Decodes a dynamic value against a primitive kind.
pub fn decode_primitive_value(v: &DynamicValue, p: Primitive) -> (r: Result<TypedValue, ConversionError>)
    ensures
        res_model(r) == decode_primitive(v@, p),
{
    let bad = ConversionError::TagMismatch { tag: v.tag(), expected: TypeKind::Primitive(p) };
    let out = ConversionError::OutOfRange { kind: p };
    match v {
        DynamicValue::Integer(n) => {
            let n: i128 = *n;
            match p {
                Primitive::S8 => if i8::MIN as i128 <= n && n <= i8::MAX as i128 { Ok(TypedValue::S8(n as i8)) } else { Err(out) },
                Primitive::S16 => if i16::MIN as i128 <= n && n <= i16::MAX as i128 { Ok(TypedValue::S16(n as i16)) } else { Err(out) },
                Primitive::S32 => if i32::MIN as i128 <= n && n <= i32::MAX as i128 { Ok(TypedValue::S32(n as i32)) } else { Err(out) },
                Primitive::S64 => if i64::MIN as i128 <= n && n <= i64::MAX as i128 { Ok(TypedValue::S64(n as i64)) } else { Err(out) },
                Primitive::U8 => if 0 <= n && n <= u8::MAX as i128 { Ok(TypedValue::U8(n as u8)) } else { Err(out) },
                Primitive::U16 => if 0 <= n && n <= u16::MAX as i128 { Ok(TypedValue::U16(n as u16)) } else { Err(out) },
                Primitive::U32 => if 0 <= n && n <= u32::MAX as i128 { Ok(TypedValue::U32(n as u32)) } else { Err(out) },
                Primitive::U64 => if 0 <= n && n <= u64::MAX as i128 { Ok(TypedValue::U64(n as u64)) } else { Err(out) },
                _ => Err(bad),
            }
        },
        DynamicValue::Float(b) => match p {
            Primitive::Float32 => Ok(TypedValue::Float32(*b)),
            Primitive::Float64 => Ok(TypedValue::Float64(*b)),
            _ => Err(bad),
        },
        DynamicValue::Binary(s) => match p {
            Primitive::String => Ok(TypedValue::String(s.clone())),
            _ => Err(bad),
        },
        DynamicValue::Atom(s) => match p {
            Primitive::Bool => {
                if *s == "true".to_owned() {
                    Ok(TypedValue::Bool(true))
                } else if *s == "false".to_owned() {
                    Ok(TypedValue::Bool(false))
                } else {
                    Err(out)
                }
            },
            _ => Err(bad),
        },
        _ => Err(bad),
    }
}

/// Translates every key of a mapping into a schema-side field name.
pub fn field_names(entries: &Vec<(DynamicValue, DynamicValue)>) -> (r: Result<Vec<String>, ConversionError>)
    ensures
        match r {
            Ok(ks) => key_names(entry_models(entries@)) == Ok::<Seq<Seq<char>>, ConversionError>(texts(ks@)),
            Err(e) => key_names(entry_models(entries@)) == Err::<Seq<Seq<char>>, ConversionError>(e),
        },
{
    let ghost em = entry_models(entries@);
    let ghost rs = Seq::new(em.len(), |i: int| single(field_name_of(em[i].0)));
    let mut keys: Vec<String> = Vec::new();
    let mut i: usize = 0;
    proof {
        assert(texts(keys@) =~= Seq::empty());
        assert(rs.take(0).len() == 0);
    }
    while i < entries.len()
        invariant
            0 <= i <= entries@.len(),
            em == entry_models(entries@),
            rs == Seq::new(em.len(), |i: int| single(field_name_of(em[i].0))),
            collect(rs.take(i as int)) == Ok::<Seq<Seq<char>>, ConversionError>(texts(keys@)),
        decreases entries@.len() - i,
    {
        proof { lemma_collect_step(rs, i as int); }
        match term_to_field_name(&entries[i].0) {
            Ok(k) => {
                let ghost before = texts(keys@);
                keys.push(k);
                proof { assert(texts(keys@) =~= before + seq![k@]); }
            },
            Err(e) => {
                proof { lemma_collect_stops(rs, i + 1); }
                return Err(e);
            },
        }
        i += 1;
    }
    proof { lemma_collect_all(rs); }
    Ok(keys)
}

/// Finds where `name` first occurs among `keys`.
pub fn find_key(keys: &Vec<String>, name: &String) -> (r: Option<usize>)
    ensures
        match r {
            Some(j) => key_index(texts(keys@), name@) == Some(j as int),
            None => key_index(texts(keys@), name@) == None::<int>,
        },
{
    let ghost ks = texts(keys@);
    let mut i: usize = 0;
    while i < keys.len()
        invariant
            0 <= i <= keys@.len(),
            ks == texts(keys@),
            forall|k: int| 0 <= k < i ==> ks[k] != name@,
        decreases keys@.len() - i,
    {
        if keys[i] == *name {
            assert(is_first_match(ks, name@, i as int));
            assert forall|j: int| is_first_match(ks, name@, j) implies j == i by {
                if j < i {
                } else if j > i {
                    assert(ks[i as int] == name@);
                }
            }
            return Some(i);
        }
        i += 1;
    }
    None
}

/// Decodes a call argument against its declared type.
///
/// Lists, tuples and records are decoded member by member, and the first member that
/// fails decides the error. A record takes the declared fields whose names occur among
/// the mapping's translated keys, in declared order, and leaves the others out.
pub fn term_to_val(param_term: &DynamicValue, param_type: &TypeDescriptor) -> (r: Result<TypedValue, ConversionError>)
    ensures
        res_model(r) == decode(param_term@, *param_type),
    decreases param_type, 1nat,
{
    match param_type {
        TypeDescriptor::Primitive(p) => decode_primitive_value(param_term, *p),
        TypeDescriptor::List(elem) => match param_term {
            DynamicValue::List(items) => {
                proof { assert(param_term@->List_0 =~= dynamic_models(items@)); }
                match decode_items(items, &**elem) {
                    Ok(xs) => {
                        let r = TypedValue::List(xs);
                        proof { assert(r@->List_0 =~= typed_models(xs@)); }
                        Ok(r)
                    },
                    Err(e) => Err(e),
                }
            },
            _ => Err(ConversionError::TagMismatch { tag: param_term.tag(), expected: TypeKind::List }),
        },
        TypeDescriptor::Tuple(tys) => match param_term {
            DynamicValue::Tuple(items) => {
                proof { assert(param_term@->Tuple_0 =~= dynamic_models(items@)); }
                if items.len() != tys.len() {
                    return Err(ConversionError::ArityMismatch { declared: tys.len(), found: items.len() });
                }
                match decode_tuple_items(items, tys) {
                    Ok(xs) => {
                        let r = TypedValue::Tuple(xs);
                        proof { assert(r@->Tuple_0 =~= typed_models(xs@)); }
                        Ok(r)
                    },
                    Err(e) => Err(e),
                }
            },
            _ => Err(ConversionError::TagMismatch { tag: param_term.tag(), expected: TypeKind::Tuple }),
        },
        TypeDescriptor::Record(fields) => match param_term {
            DynamicValue::Mapping(entries) => {
                proof { assert(param_term@->Mapping_0 =~= entry_models(entries@)); }
                let keys = match field_names(entries) {
                    Ok(keys) => keys,
                    Err(e) => return Err(e),
                };
                proof { lemma_key_count(entry_models(entries@), texts(keys@)); }
                match decode_record_fields(entries, &keys, fields) {
                    Ok(fs) => {
                        let r = TypedValue::Record(fs);
                        proof { assert(r@->Record_0 =~= field_models(fs@)); }
                        Ok(r)
                    },
                    Err(e) => Err(e),
                }
            },
            _ => Err(ConversionError::TagMismatch { tag: param_term.tag(), expected: TypeKind::Record }),
        },
        TypeDescriptor::Option(inner) => {
            if is_nil(param_term) {
                Ok(TypedValue::Option(None))
            } else {
                match term_to_val(param_term, &**inner) {
                    Ok(x) => Ok(TypedValue::Option(Some(Box::new(x)))),
                    Err(e) => Err(e),
                }
            }
        },
    }
}

/// Whether a value is the atom that stands for an absent optional value.
pub fn is_nil(v: &DynamicValue) -> (r: bool)
    ensures
        r == (v@ == nil_atom()),
{
    match v {
        DynamicValue::Atom(s) => *s == "nil".to_owned(),
        _ => false,
    }
}

pub proof fn lemma_key_count(entries: Seq<(DynamicModel, DynamicModel)>, keys: Seq<Seq<char>>)
    requires
        key_names(entries) == Ok::<Seq<Seq<char>>, ConversionError>(keys),
    ensures
        keys.len() == entries.len(),
{
    let rs = Seq::new(entries.len(), |i: int| single(field_name_of(entries[i].0)));
    crate::collect::lemma_collect_singles(rs, keys);
}

fn decode_items(items: &Vec<DynamicValue>, elem: &TypeDescriptor) -> (r: Result<Vec<TypedValue>, ConversionError>)
    ensures
        match r {
            Ok(xs) => collect(list_pieces(dynamic_models(items@), *elem)) == Ok::<Seq<TypedModel>, ConversionError>(typed_models(xs@)),
            Err(e) => collect(list_pieces(dynamic_models(items@), *elem)) == Err::<Seq<TypedModel>, ConversionError>(e),
        },
    decreases elem, 2nat,
{
    let ghost rs = list_pieces(dynamic_models(items@), *elem);
    let mut out: Vec<TypedValue> = Vec::new();
    let mut i: usize = 0;
    proof {
        assert(typed_models(out@) =~= Seq::empty());
        assert(rs.take(0).len() == 0);
    }
    while i < items.len()
        invariant
            0 <= i <= items@.len(),
            rs == list_pieces(dynamic_models(items@), *elem),
            collect(rs.take(i as int)) == Ok::<Seq<TypedModel>, ConversionError>(typed_models(out@)),
        decreases items@.len() - i,
    {
        proof { lemma_collect_step(rs, i as int); }
        match term_to_val(&items[i], elem) {
            Ok(x) => {
                let ghost before = typed_models(out@);
                out.push(x);
                proof { assert(typed_models(out@) =~= before + seq![x@]); }
            },
            Err(e) => {
                proof { lemma_collect_stops(rs, i + 1); }
                return Err(e);
            },
        }
        i += 1;
    }
    proof { lemma_collect_all(rs); }
    Ok(out)
}

fn decode_tuple_items(items: &Vec<DynamicValue>, tys: &Vec<TypeDescriptor>) -> (r: Result<Vec<TypedValue>, ConversionError>)
    requires
        items@.len() == tys@.len(),
    ensures
        match r {
            Ok(xs) => collect(tuple_pieces(dynamic_models(items@), tys@)) == Ok::<Seq<TypedModel>, ConversionError>(typed_models(xs@)),
            Err(e) => collect(tuple_pieces(dynamic_models(items@), tys@)) == Err::<Seq<TypedModel>, ConversionError>(e),
        },
    decreases tys, 2nat,
{
    let ghost rs = tuple_pieces(dynamic_models(items@), tys@);
    let mut out: Vec<TypedValue> = Vec::new();
    let mut i: usize = 0;
    proof {
        assert(typed_models(out@) =~= Seq::empty());
        assert(rs.take(0).len() == 0);
    }
    while i < items.len()
        invariant
            0 <= i <= items@.len(),
            items@.len() == tys@.len(),
            rs == tuple_pieces(dynamic_models(items@), tys@),
            collect(rs.take(i as int)) == Ok::<Seq<TypedModel>, ConversionError>(typed_models(out@)),
        decreases items@.len() - i,
    {
        proof { lemma_collect_step(rs, i as int); }
        match term_to_val(&items[i], &tys[i]) {
            Ok(x) => {
                let ghost before = typed_models(out@);
                out.push(x);
                proof { assert(typed_models(out@) =~= before + seq![x@]); }
            },
            Err(e) => {
                proof { lemma_collect_stops(rs, i + 1); }
                return Err(e);
            },
        }
        i += 1;
    }
    proof { lemma_collect_all(rs); }
    Ok(out)
}

/// Decodes the declared fields of a record from a mapping whose keys have already been
/// translated into `keys` (one per entry, in order).
pub fn decode_record_fields(
    entries: &Vec<(DynamicValue, DynamicValue)>,
    keys: &Vec<String>,
    fields: &Vec<FieldDescriptor>,
) -> (r: Result<Vec<(String, TypedValue)>, ConversionError>)
    requires
        keys@.len() == entries@.len(),
    ensures
        match r {
            Ok(fs) => collect(record_pieces(entry_models(entries@), texts(keys@), fields@))
                == Ok::<Seq<(Seq<char>, TypedModel)>, ConversionError>(field_models(fs@)),
            Err(e) => collect(record_pieces(entry_models(entries@), texts(keys@), fields@))
                == Err::<Seq<(Seq<char>, TypedModel)>, ConversionError>(e),
        },
    decreases fields, 2nat,
{
    let ghost rs = record_pieces(entry_models(entries@), texts(keys@), fields@);
    let mut out: Vec<(String, TypedValue)> = Vec::new();
    let mut i: usize = 0;
    proof {
        assert(field_models(out@) =~= Seq::empty());
        assert(rs.take(0).len() == 0);
    }
    while i < fields.len()
        invariant
            0 <= i <= fields@.len(),
            keys@.len() == entries@.len(),
            rs == record_pieces(entry_models(entries@), texts(keys@), fields@),
            collect(rs.take(i as int)) == Ok::<Seq<(Seq<char>, TypedModel)>, ConversionError>(field_models(out@)),
        decreases fields@.len() - i,
    {
        proof { lemma_collect_step(rs, i as int); }
        let f = &fields[i];
        match find_key(keys, &f.name) {
            Some(j) => {
                match term_to_val(&entries[j].1, &f.ty) {
                    Ok(x) => {
                        let ghost before = field_models(out@);
                        out.push((f.name.clone(), x));
                        proof { assert(field_models(out@) =~= before + seq![(f.name@, x@)]); }
                    },
                    Err(e) => {
                        proof { lemma_collect_stops(rs, i + 1); }
                        return Err(e);
                    },
                }
            },
            None => {
                proof { assert(field_models(out@) =~= field_models(out@) + Seq::empty()); }
            },
        }
        i += 1;
    }
    proof { lemma_collect_all(rs); }
    Ok(out)
}

pub open spec fn param_pieces(types: Seq<TypeDescriptor>, values: Seq<DynamicModel>) -> Seq<Result<Seq<TypedModel>, ConversionError>> {
    let n = if types.len() <= values.len() { types.len() } else { values.len() };
    Seq::new(n, |i: int| single(decode(values[i], types[i])))
}

/// Decodes positional arguments pairwise; entries beyond the shorter of the two
/// lists are dropped.
pub open spec fn decode_params(types: Seq<TypeDescriptor>, values: Seq<DynamicModel>) -> Result<Seq<TypedModel>, ConversionError> {
    collect(param_pieces(types, values))
}

/// Decodes call arguments against their declared types, position by position.
pub fn convert_params(param_types: &[TypeDescriptor], param_terms: Vec<DynamicValue>) -> (r: Result<Vec<TypedValue>, ConversionError>)
    ensures
        match r {
            Ok(xs) => decode_params(param_types@, dynamic_models(param_terms@)) == Ok::<Seq<TypedModel>, ConversionError>(typed_models(xs@)),
            Err(e) => decode_params(param_types@, dynamic_models(param_terms@)) == Err::<Seq<TypedModel>, ConversionError>(e),
        },
{
    let ghost rs = param_pieces(param_types@, dynamic_models(param_terms@));
    let n: usize = if param_types.len() <= param_terms.len() { param_types.len() } else { param_terms.len() };
    let mut params: Vec<TypedValue> = Vec::new();
    let mut i: usize = 0;
    proof {
        assert(typed_models(params@) =~= Seq::empty());
        assert(rs.take(0).len() == 0);
    }
    while i < n
        invariant
            0 <= i <= n,
            n == rs.len(),
            n <= param_types@.len(),
            n <= param_terms@.len(),
            rs == param_pieces(param_types@, dynamic_models(param_terms@)),
            collect(rs.take(i as int)) == Ok::<Seq<TypedModel>, ConversionError>(typed_models(params@)),
        decreases n - i,
    {
        proof { lemma_collect_step(rs, i as int); }
        match term_to_val(&param_terms[i], &param_types[i]) {
            Ok(x) => {
                let ghost before = typed_models(params@);
                params.push(x);
                proof { assert(typed_models(params@) =~= before + seq![x@]); }
            },
            Err(e) => {
                proof { lemma_collect_stops(rs, i + 1); }
                return Err(e);
            },
        }
        i += 1;
    }
    proof { lemma_collect_all(rs); }
    Ok(params)
}

} // verus!

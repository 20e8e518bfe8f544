//! Encoding typed values as dynamic host values, and the call-completion envelope.
use vstd::prelude::*;

use crate::decode::nil_atom;
use crate::naming::{field_name_to_term, host_key};
use crate::value::{typed_models, DynamicModel, DynamicValue, TypedModel, TypedValue};

verus! {

/// The marker produced for a value that has no dynamic form: a result without a
/// payload, or a value of a kind the codec does not represent. It is a placeholder,
/// not a domain value.
pub open spec fn fallback() -> DynamicModel {
    DynamicModel::Binary("wut"@)
}

/// Encodes a typed value. Options are flattened: absent becomes the `nil` atom and a
/// present value its bare encoding; record field names become underscore atoms.
pub open spec fn encode(x: TypedModel) -> DynamicModel
    decreases x,
{
    match x {
        TypedModel::Bool(b) => DynamicModel::Atom(if b { "true"@ } else { "false"@ }),
        TypedModel::S8(n) => DynamicModel::Integer(n as int),
        TypedModel::S16(n) => DynamicModel::Integer(n as int),
        TypedModel::S32(n) => DynamicModel::Integer(n as int),
        TypedModel::S64(n) => DynamicModel::Integer(n as int),
        TypedModel::U8(n) => DynamicModel::Integer(n as int),
        TypedModel::U16(n) => DynamicModel::Integer(n as int),
        TypedModel::U32(n) => DynamicModel::Integer(n as int),
        TypedModel::U64(n) => DynamicModel::Integer(n as int),
        TypedModel::Float32(b) => DynamicModel::Float(b),
        TypedModel::Float64(b) => DynamicModel::Float(b),
        TypedModel::String(s) => DynamicModel::Binary(s),
        TypedModel::List(xs) => DynamicModel::List(
            Seq::new(xs.len(), |i: int| if 0 <= i < xs.len() { encode(xs[i]) } else { fallback() }),
        ),
        TypedModel::Tuple(xs) => DynamicModel::Tuple(
            Seq::new(xs.len(), |i: int| if 0 <= i < xs.len() { encode(xs[i]) } else { fallback() }),
        ),
        TypedModel::Record(fs) => DynamicModel::Mapping(
            Seq::new(
                fs.len(),
                |i: int| if 0 <= i < fs.len() { (host_key(fs[i].0), encode(fs[i].1)) } else { (fallback(), fallback()) },
            ),
        ),
        TypedModel::Option(o) => match o {
            Some(b) => encode(*b),
            None => nil_atom(),
        },
        TypedModel::Result(r) => match r {
            Ok(Some(b)) => DynamicModel::Tuple(seq![DynamicModel::Atom("ok"@), encode(*b)]),
            Err(Some(b)) => DynamicModel::Tuple(seq![DynamicModel::Atom("error"@), encode(*b)]),
            _ => fallback(),
        },
        TypedModel::Unrepresented => fallback(),
    }
}

/// What a call returned, as one dynamic value: a single value bare, any other number
/// of values as a list.
pub open spec fn payload(xs: Seq<TypedModel>) -> DynamicModel {
    if xs.len() == 1 {
        encode(xs[0])
    } else {
        DynamicModel::List(Seq::new(xs.len(), |i: int| encode(xs[i])))
    }
}

/// The call-completion envelope: `{returned_function_call, {ok, payload}, from}`.
pub open spec fn envelope(payload: DynamicModel, from: DynamicModel) -> DynamicModel {
    DynamicModel::Tuple(
        seq![
            DynamicModel::Atom("returned_function_call"@),
            DynamicModel::Tuple(seq![DynamicModel::Atom("ok"@), payload]),
            from,
        ],
    )
}

fn atom(s: &str) -> (r: DynamicValue)
    ensures
        r@ == DynamicModel::Atom(s@),
{
    DynamicValue::Atom(s.to_owned())
}

fn pair(a: DynamicValue, b: DynamicValue) -> (r: DynamicValue)
    ensures
        r@ == DynamicModel::Tuple(seq![a@, b@]),
{
    let mut v: Vec<DynamicValue> = Vec::new();
    v.push(a);
    v.push(b);
    let r = DynamicValue::Tuple(v);
    proof { assert(r@->Tuple_0 =~= seq![a@, b@]); }
    r
}

/// Encodes a typed value as a dynamic host value; total.
pub fn val_to_term(val: &TypedValue) -> (r: DynamicValue)
    ensures
        r@ == encode(val@),
    decreases val, 1nat,
{
    match val {
        TypedValue::String(s) => DynamicValue::Binary(s.clone()),
        TypedValue::Bool(b) => if *b { atom("true") } else { atom("false") },
        TypedValue::U64(n) => DynamicValue::Integer(*n as i128),
        TypedValue::U32(n) => DynamicValue::Integer(*n as i128),
        TypedValue::U16(n) => DynamicValue::Integer(*n as i128),
        TypedValue::U8(n) => DynamicValue::Integer(*n as i128),
        TypedValue::S8(n) => DynamicValue::Integer(*n as i128),
        TypedValue::S16(n) => DynamicValue::Integer(*n as i128),
        TypedValue::S32(n) => DynamicValue::Integer(*n as i128),
        TypedValue::S64(n) => DynamicValue::Integer(*n as i128),
        TypedValue::Float32(b) => DynamicValue::Float(*b),
        TypedValue::Float64(b) => DynamicValue::Float(*b),
        TypedValue::List(xs) => {
            let r = DynamicValue::List(encode_items(xs));
            proof { assert(r@->List_0 =~= encode(val@)->List_0); }
            r
        },
        TypedValue::Record(fs) => {
            let r = DynamicValue::Mapping(encode_fields(fs));
            proof { assert(r@->Mapping_0 =~= encode(val@)->Mapping_0); }
            r
        },
        TypedValue::Tuple(xs) => {
            let r = DynamicValue::Tuple(encode_items(xs));
            proof { assert(r@->Tuple_0 =~= encode(val@)->Tuple_0); }
            r
        },
        TypedValue::Option(o) => match o {
            Some(b) => val_to_term(&**b),
            None => atom("nil"),
        },
        TypedValue::Result(res) => match res {
            Ok(Some(b)) => pair(atom("ok"), val_to_term(&**b)),
            Err(Some(b)) => pair(atom("error"), val_to_term(&**b)),
            _ => DynamicValue::Binary("wut".to_owned()),
        },
        TypedValue::Unrepresented => DynamicValue::Binary("wut".to_owned()),
    }
}

fn encode_items(xs: &Vec<TypedValue>) -> (r: Vec<DynamicValue>)
    ensures
        r@.len() == xs@.len(),
        forall|k: int| 0 <= k < xs@.len() ==> (#[trigger] r@[k])@ == encode(xs@[k]@),
    decreases xs, 2nat,
{
    let mut out: Vec<DynamicValue> = Vec::new();
    let mut i: usize = 0;
    while i < xs.len()
        invariant
            0 <= i <= xs@.len(),
            out@.len() == i,
            forall|k: int| 0 <= k < i ==> (#[trigger] out@[k])@ == encode(xs@[k]@),
        decreases xs@.len() - i,
    {
        out.push(val_to_term(&xs[i]));
        i += 1;
    }
    out
}

fn encode_fields(fs: &Vec<(String, TypedValue)>) -> (r: Vec<(DynamicValue, DynamicValue)>)
    ensures
        r@.len() == fs@.len(),
        forall|k: int|
            0 <= k < fs@.len() ==> (#[trigger] r@[k]).0@ == host_key(fs@[k].0@) && r@[k].1@ == encode(fs@[k].1@),
    decreases fs, 2nat,
{
    let mut out: Vec<(DynamicValue, DynamicValue)> = Vec::new();
    let mut i: usize = 0;
    while i < fs.len()
        invariant
            0 <= i <= fs@.len(),
            out@.len() == i,
            forall|k: int|
                0 <= k < i ==> (#[trigger] out@[k]).0@ == host_key(fs@[k].0@) && out@[k].1@ == encode(fs@[k].1@),
        decreases fs@.len() - i,
    {
        let key = field_name_to_term(fs[i].0.as_str());
        let value = val_to_term(&fs[i].1);
        out.push((key, value));
        i += 1;
    }
    out
}

/// Encodes each value, in order.
pub fn vals_to_terms(vals: &[TypedValue]) -> (r: Vec<DynamicValue>)
    ensures
        r@.len() == vals@.len(),
        forall|k: int| 0 <= k < vals@.len() ==> (#[trigger] r@[k])@ == encode(vals@[k]@),
{
    let mut out: Vec<DynamicValue> = Vec::new();
    let mut i: usize = 0;
    while i < vals.len()
        invariant
            0 <= i <= vals@.len(),
            out@.len() == i,
            forall|k: int| 0 <= k < i ==> (#[trigger] out@[k])@ == encode(vals@[k]@),
        decreases vals@.len() - i,
    {
        out.push(val_to_term(&vals[i]));
        i += 1;
    }
    out
}

/// Wraps the values a call returned, with the caller's correlation token, in the
/// call-completion envelope.
pub fn encode_result(vals: Vec<TypedValue>, from: DynamicValue) -> (r: DynamicValue)
    ensures
        r@ == envelope(payload(typed_models(vals@)), from@),
{
    let ghost xs = typed_models(vals@);
    let result_term = if vals.len() == 1 {
        val_to_term(&vals[0])
    } else {
        let items = vals_to_terms(vals.as_slice());
        let t = DynamicValue::List(items);
        proof { assert(t@->List_0 =~= Seq::new(xs.len(), |i: int| encode(xs[i]))); }
        t
    };
    let ghost from_model = from@;
    let mut parts: Vec<DynamicValue> = Vec::new();
    parts.push(atom("returned_function_call"));
    parts.push(pair(atom("ok"), result_term));
    parts.push(from);
    let r = DynamicValue::Tuple(parts);
    proof {
        assert(r@->Tuple_0 =~= envelope(payload(xs), from_model)->Tuple_0);
    }
    r
}

} // verus!

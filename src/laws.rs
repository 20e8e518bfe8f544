//! Laws relating the decoders and the encoder.
use vstd::prelude::*;

use crate::collect::{collect, lemma_collect_oks, lemma_collect_singles, single};
use crate::decode::{decode, decode_field, key_index, list_pieces, nil_atom, tuple_pieces};
use crate::encode::{encode, fallback};
use crate::schema::{decode_def, decode_schema, SchemaDef, SchemaType};
use crate::value::{ConversionError, DynamicModel, FieldDescriptor, Primitive, TypeDescriptor, TypedModel};

verus! {

/// The primitive kind of a typed value, where it is a primitive.
pub open spec fn primitive_kind(x: TypedModel) -> Option<Primitive> {
    match x {
        TypedModel::Bool(_) => Some(Primitive::Bool),
        TypedModel::S8(_) => Some(Primitive::S8),
        TypedModel::S16(_) => Some(Primitive::S16),
        TypedModel::S32(_) => Some(Primitive::S32),
        TypedModel::S64(_) => Some(Primitive::S64),
        TypedModel::U8(_) => Some(Primitive::U8),
        TypedModel::U16(_) => Some(Primitive::U16),
        TypedModel::U32(_) => Some(Primitive::U32),
        TypedModel::U64(_) => Some(Primitive::U64),
        TypedModel::Float32(_) => Some(Primitive::Float32),
        TypedModel::Float64(_) => Some(Primitive::Float64),
        TypedModel::String(_) => Some(Primitive::String),
        _ => None,
    }
}

/// Types built from primitives by lists and tuples only.
pub open spec fn nested_sequence_type(t: TypeDescriptor) -> bool
    decreases t,
{
    match t {
        TypeDescriptor::Primitive(_) => true,
        TypeDescriptor::List(elem) => nested_sequence_type(*elem),
        TypeDescriptor::Tuple(tys) => forall|i: int| 0 <= i < tys@.len() ==> nested_sequence_type(#[trigger] tys@[i]),
        _ => false,
    }
}

/// Whether a typed value has the shape of a list/tuple/primitive type.
pub open spec fn fits_sequence_type(x: TypedModel, t: TypeDescriptor) -> bool
    decreases t,
{
    match t {
        TypeDescriptor::Primitive(p) => primitive_kind(x) == Some(p),
        TypeDescriptor::List(elem) => x is List && forall|i: int|
            0 <= i < x->List_0.len() ==> fits_sequence_type(#[trigger] x->List_0[i], *elem),
        TypeDescriptor::Tuple(tys) => x is Tuple && x->Tuple_0.len() == tys@.len() && forall|i: int|
            0 <= i < tys@.len() ==> fits_sequence_type(#[trigger] x->Tuple_0[i], tys@[i]),
        _ => false,
    }
}

/// For lists and tuples nested to any depth, encoding a value of the type and decoding
/// the result against that type gives the value back, every member in its place.
pub proof fn sequence_round_trip(x: TypedModel, t: TypeDescriptor)
    requires
        fits_sequence_type(x, t),
    ensures
        decode(encode(x), t) == Ok::<TypedModel, ConversionError>(x),
    decreases t,
{
    match t {
        TypeDescriptor::Primitive(p) => primitive_round_trip(x, p),
        TypeDescriptor::List(elem) => {
            let xs = x->List_0;
            let items = encode(x)->List_0;
            let rs = list_pieces(items, *elem);
            assert forall|i: int| 0 <= i < rs.len() implies #[trigger] rs[i] == Ok::<Seq<TypedModel>, ConversionError>(seq![xs[i]]) by {
                assert(fits_sequence_type(xs[i], *elem));
                sequence_round_trip(xs[i], *elem);
            }
            lemma_collect_oks(rs, xs);
        },
        TypeDescriptor::Tuple(tys) => {
            let xs = x->Tuple_0;
            let items = encode(x)->Tuple_0;
            let rs = tuple_pieces(items, tys@);
            assert forall|i: int| 0 <= i < rs.len() implies #[trigger] rs[i] == Ok::<Seq<TypedModel>, ConversionError>(seq![xs[i]]) by {
                assert(fits_sequence_type(xs[i], tys@[i]));
                sequence_round_trip(xs[i], tys@[i]);
            }
            lemma_collect_oks(rs, xs);
        },
        _ => {},
    }
}

/// Encoding a primitive value and decoding the result against the value's own kind
/// gives the value back.
pub proof fn primitive_round_trip(x: TypedModel, p: Primitive)
    requires
        primitive_kind(x) == Some(p),
    ensures
        decode(encode(x), TypeDescriptor::Primitive(p)) == Ok::<TypedModel, ConversionError>(x),
{
    reveal_strlit("true");
    reveal_strlit("false");
    if let TypedModel::Bool(b) = x {
        assert("false"@ != "true"@) by {
            assert("false"@[0] != "true"@[0]);
        }
    }
}

/// A dynamic value that decodes against a primitive kind encodes back to itself.
pub proof fn primitive_decode_encode(v: DynamicModel, p: Primitive)
    requires
        decode(v, TypeDescriptor::Primitive(p)) is Ok,
    ensures
        encode(decode(v, TypeDescriptor::Primitive(p))->Ok_0) == v,
{
    reveal_strlit("true");
    reveal_strlit("false");
}

/// For lists and tuples nested to any depth, a dynamic value that decodes encodes back
/// to itself: every member keeps its place.
pub proof fn sequence_structure_preserved(v: DynamicModel, t: TypeDescriptor)
    requires
        nested_sequence_type(t),
        decode(v, t) is Ok,
    ensures
        encode(decode(v, t)->Ok_0) == v,
    decreases t,
{
    match t {
        TypeDescriptor::Primitive(p) => primitive_decode_encode(v, p),
        TypeDescriptor::List(elem) => {
            let items = v->List_0;
            let rs = list_pieces(items, *elem);
            let xs = collect(rs)->Ok_0;
            lemma_collect_singles(rs, xs);
            assert forall|i: int| 0 <= i < items.len() implies encode(xs[i]) == items[i] by {
                assert(rs[i] == single(decode(items[i], *elem)));
                assert(seq![decode(items[i], *elem)->Ok_0][0] == xs[i]);
                sequence_structure_preserved(items[i], *elem);
            }
            assert(encode(TypedModel::List(xs))->List_0 =~= items);
        },
        TypeDescriptor::Tuple(tys) => {
            let items = v->Tuple_0;
            let rs = tuple_pieces(items, tys@);
            let xs = collect(rs)->Ok_0;
            lemma_collect_singles(rs, xs);
            assert forall|i: int| 0 <= i < items.len() implies encode(xs[i]) == items[i] by {
                assert(rs[i] == single(decode(items[i], tys@[i])));
                assert(seq![decode(items[i], tys@[i])->Ok_0][0] == xs[i]);
                assert(nested_sequence_type(tys@[i]));
                sequence_structure_preserved(items[i], tys@[i]);
            }
            assert(encode(TypedModel::Tuple(xs))->Tuple_0 =~= items);
        },
        _ => {},
    }
}

/// A declared record field whose name is not among the mapping's keys is left out:
/// it adds no entry and raises no error.
pub proof fn absent_field_left_out(
    entries: Seq<(DynamicModel, DynamicModel)>,
    keys: Seq<Seq<char>>,
    f: FieldDescriptor,
)
    requires
        key_index(keys, f.name@) is None,
    ensures
        decode_field(entries, keys, f) == Ok::<Seq<(Seq<char>, TypedModel)>, ConversionError>(Seq::empty()),
{
}

/// Options are flattened at the boundary: `nil` decodes to absent, anything else to
/// a present value decoded against the inner type; a present value encodes bare,
/// an absent one as `nil`. So a present value whose encoding is `nil` reads back as
/// absent.
pub proof fn option_boundary(v: DynamicModel, inner: TypeDescriptor, x: TypedModel)
    ensures
        decode(nil_atom(), TypeDescriptor::Option(Box::new(inner))) == Ok::<TypedModel, ConversionError>(TypedModel::Option(None)),
        v != nil_atom() ==> decode(v, TypeDescriptor::Option(Box::new(inner))) == match decode(v, inner) {
            Ok(y) => Ok(TypedModel::Option(Some(Box::new(y)))),
            Err(e) => Err(e),
        },
        encode(TypedModel::Option(Some(Box::new(x)))) == encode(x),
        encode(TypedModel::Option(None)) == nil_atom(),
        encode(x) == nil_atom() ==> decode(encode(TypedModel::Option(Some(Box::new(x)))), TypeDescriptor::Option(Box::new(inner)))
            == Ok::<TypedModel, ConversionError>(TypedModel::Option(None)),
{
}

/// A result with a payload encodes as a pair of its tag atom and the payload's
/// encoding; one without a payload encodes as the fallback marker.
pub proof fn result_encoding(x: TypedModel)
    ensures
        encode(TypedModel::Result(Ok(Some(Box::new(x))))) == DynamicModel::Tuple(seq![DynamicModel::Atom("ok"@), encode(x)]),
        encode(TypedModel::Result(Err(Some(Box::new(x))))) == DynamicModel::Tuple(seq![DynamicModel::Atom("error"@), encode(x)]),
        encode(TypedModel::Result(Ok(None))) == fallback(),
        encode(TypedModel::Result(Err(None))) == fallback(),
{
}

/// A composite whose member count differs from the tuple type's fails with an arity
/// error, under both decoders.
pub proof fn arity_mismatch(items: Seq<DynamicModel>, tys: Vec<TypeDescriptor>, stys: Vec<SchemaType>, table: Seq<SchemaDef>)
    requires
        items.len() != tys@.len(),
        items.len() != stys@.len(),
    ensures
        decode(DynamicModel::Tuple(items), TypeDescriptor::Tuple(tys)) == Err::<TypedModel, ConversionError>(
            ConversionError::ArityMismatch { declared: tys@.len() as usize, found: items.len() as usize },
        ),
        decode_def(DynamicModel::Tuple(items), SchemaDef::Tuple(stys), table) == Err::<TypedModel, ConversionError>(
            ConversionError::ArityMismatch { declared: stys@.len() as usize, found: items.len() as usize },
        ),
{
}

/// A schema kind outside lists, records, tuples and primitives fails with an
/// unsupported-kind error, whatever the value.
pub proof fn unsupported_schema_kind(v: DynamicModel, table: Seq<SchemaDef>, id: usize)
    requires
        id < table.len(),
        table[id as int] is Other,
    ensures
        decode_schema(v, SchemaType::Id(id), table) == Err::<TypedModel, ConversionError>(ConversionError::UnsupportedSchemaKind),
        decode_schema(v, SchemaType::Other, table) == Err::<TypedModel, ConversionError>(ConversionError::UnsupportedSchemaKind),
{
}

} // verus!

//! Schema-driven decoding of return values, whose types may be reached only through
//! identifiers into a shared table of type definitions.
use vstd::prelude::*;

use crate::collect::{collect, lemma_collect_all, lemma_collect_step, lemma_collect_stops, single};
use crate::decode::{decode_primitive, decode_primitive_value, field_names, find_key, key_index, key_names, lemma_key_count, mismatch};
use crate::value::{
    dynamic_models, entry_models, field_models, res_model, texts, typed_models, ConversionError,
    DynamicModel, DynamicValue, Primitive, TypeKind, TypedModel, TypedValue,
};

verus! {

/// A reference to a type in a schema: primitives inline, everything else through an
/// identifier into the schema table.
#[derive(Clone, Copy, Debug, PartialEq, Eq, Structural)]
pub enum SchemaType {
    Primitive(Primitive),
    Id(usize),
    /// A type with no decoding path (a char, an error context, ...).
    Other,
}

/// One named field of a record definition.
#[derive(Debug, PartialEq)]
pub struct SchemaField {
    pub name: String,
    pub ty: SchemaType,
}

/// A type definition held in the schema table.
#[derive(Debug, PartialEq)]
pub enum SchemaDef {
    List(SchemaType),
    Record(Vec<SchemaField>),
    Tuple(Vec<SchemaType>),
    /// Any other structural kind: variant, enum, flags, resource, option, result, ...
    Other,
}

/// The shared table of type definitions, addressed by identifier.
#[derive(Debug, PartialEq)]
pub struct SchemaTable {
    pub types: Vec<SchemaDef>,
}

/// Decodes `v` against the schema type `st`, resolving identifiers in `table`.
pub open spec fn decode_schema(v: DynamicModel, st: SchemaType, table: Seq<SchemaDef>) -> Result<TypedModel, ConversionError>
    decreases v, 1nat,
{
    match st {
        SchemaType::Primitive(p) => decode_primitive(v, p),
        SchemaType::Id(id) => if id < table.len() {
            decode_def(v, table[id as int], table)
        } else {
            Err(ConversionError::UnknownTypeId { id })
        },
        SchemaType::Other => Err(ConversionError::UnsupportedSchemaKind),
    }
}

/// Decodes `v` against a type definition of the table.
pub open spec fn decode_def(v: DynamicModel, def: SchemaDef, table: Seq<SchemaDef>) -> Result<TypedModel, ConversionError>
    decreases v, 0nat,
{
    match def {
        SchemaDef::List(elem) => match v {
            DynamicModel::List(items) => match collect(schema_list_pieces(items, elem, table)) {
                Ok(xs) => Ok(TypedModel::List(xs)),
                Err(e) => Err(e),
            },
            _ => Err(mismatch(v, TypeKind::List)),
        },
        SchemaDef::Record(fields) => match v {
            DynamicModel::Mapping(entries) => match key_names(entries) {
                Ok(keys) => match collect(schema_record_pieces(entries, keys, fields@, table)) {
                    Ok(fs) => Ok(TypedModel::Record(fs)),
                    Err(e) => Err(e),
                },
                Err(e) => Err(e),
            },
            _ => Err(mismatch(v, TypeKind::Record)),
        },
        SchemaDef::Tuple(tys) => match v {
            DynamicModel::Tuple(items) => if items.len() != tys@.len() {
                Err(ConversionError::ArityMismatch { declared: tys@.len() as usize, found: items.len() as usize })
            } else {
                match collect(schema_tuple_pieces(items, tys@, table)) {
                    Ok(xs) => Ok(TypedModel::Tuple(xs)),
                    Err(e) => Err(e),
                }
            },
            _ => Err(mismatch(v, TypeKind::Tuple)),
        },
        SchemaDef::Other => Err(ConversionError::UnsupportedSchemaKind),
    }
}

pub open spec fn schema_list_pieces(items: Seq<DynamicModel>, elem: SchemaType, table: Seq<SchemaDef>) -> Seq<Result<Seq<TypedModel>, ConversionError>>
    decreases items, 2nat,
{
    Seq::new(items.len(), |i: int| if 0 <= i < items.len() { single(decode_schema(items[i], elem, table)) } else { Ok(Seq::empty()) })
}

pub open spec fn schema_tuple_pieces(items: Seq<DynamicModel>, tys: Seq<SchemaType>, table: Seq<SchemaDef>) -> Seq<Result<Seq<TypedModel>, ConversionError>>
    decreases items, 2nat,
{
    Seq::new(items.len(), |i: int| if 0 <= i < items.len() && i < tys.len() { single(decode_schema(items[i], tys[i], table)) } else { Ok(Seq::empty()) })
}

pub open spec fn schema_record_pieces(
    entries: Seq<(DynamicModel, DynamicModel)>,
    keys: Seq<Seq<char>>,
    fields: Seq<SchemaField>,
    table: Seq<SchemaDef>,
) -> Seq<Result<Seq<(Seq<char>, TypedModel)>, ConversionError>>
    decreases entries, 2nat,
{
    Seq::new(fields.len(), |i: int| if 0 <= i < fields.len() { decode_schema_field(entries, keys, fields[i], table) } else { Ok(Seq::empty()) })
}

/// A declared field: decoded where its name is among the keys, left out where not.
pub open spec fn decode_schema_field(
    entries: Seq<(DynamicModel, DynamicModel)>,
    keys: Seq<Seq<char>>,
    f: SchemaField,
    table: Seq<SchemaDef>,
) -> Result<Seq<(Seq<char>, TypedModel)>, ConversionError>
    decreases entries, 1nat,
{
    match key_index(keys, f.name@) {
        Some(j) => if 0 <= j < entries.len() {
            match decode_schema(entries[j].1, f.ty, table) {
                Ok(x) => Ok(seq![(f.name@, x)]),
                Err(e) => Err(e),
            }
        } else {
            Ok(Seq::empty())
        },
        None => Ok(Seq::empty()),
    }
}

/// Decodes a return value against its schema type.
pub fn convert_result_term(result_term: &DynamicValue, wit_type: &SchemaType, wit_resolver: &SchemaTable) -> (r: Result<TypedValue, ConversionError>)
    ensures
        res_model(r) == decode_schema(result_term@, *wit_type, wit_resolver.types@),
    decreases result_term, 1nat,
{
    match wit_type {
        SchemaType::Primitive(p) => decode_primitive_value(result_term, *p),
        SchemaType::Id(type_id) => {
            if *type_id < wit_resolver.types.len() {
                convert_complex_result(result_term, &wit_resolver.types[*type_id], wit_resolver)
            } else {
                Err(ConversionError::UnknownTypeId { id: *type_id })
            }
        },
        SchemaType::Other => Err(ConversionError::UnsupportedSchemaKind),
    }
}

fn convert_complex_result(result_term: &DynamicValue, complex_type: &SchemaDef, wit_resolver: &SchemaTable) -> (r: Result<TypedValue, ConversionError>)
    ensures
        res_model(r) == decode_def(result_term@, *complex_type, wit_resolver.types@),
    decreases result_term, 0nat,
{
    match complex_type {
        SchemaDef::List(elem) => match result_term {
            DynamicValue::List(items) => {
                proof { assert(result_term@->List_0 =~= dynamic_models(items@)); }
                match schema_items(items, elem, wit_resolver) {
                    Ok(xs) => {
                        let r = TypedValue::List(xs);
                        proof { assert(r@->List_0 =~= typed_models(xs@)); }
                        Ok(r)
                    },
                    Err(e) => Err(e),
                }
            },
            _ => Err(ConversionError::TagMismatch { tag: result_term.tag(), expected: TypeKind::List }),
        },
        SchemaDef::Record(fields) => match result_term {
            DynamicValue::Mapping(entries) => {
                proof { assert(result_term@->Mapping_0 =~= entry_models(entries@)); }
                let keys = match field_names(entries) {
                    Ok(keys) => keys,
                    Err(e) => return Err(e),
                };
                proof { lemma_key_count(entry_models(entries@), texts(keys@)); }
                match schema_fields(entries, &keys, fields, wit_resolver) {
                    Ok(fs) => {
                        let r = TypedValue::Record(fs);
                        proof { assert(r@->Record_0 =~= field_models(fs@)); }
                        Ok(r)
                    },
                    Err(e) => Err(e),
                }
            },
            _ => Err(ConversionError::TagMismatch { tag: result_term.tag(), expected: TypeKind::Record }),
        },
        SchemaDef::Tuple(tys) => match result_term {
            DynamicValue::Tuple(items) => {
                proof { assert(result_term@->Tuple_0 =~= dynamic_models(items@)); }
                if items.len() != tys.len() {
                    return Err(ConversionError::ArityMismatch { declared: tys.len(), found: items.len() });
                }
                match schema_tuple_items(items, tys, wit_resolver) {
                    Ok(xs) => {
                        let r = TypedValue::Tuple(xs);
                        proof { assert(r@->Tuple_0 =~= typed_models(xs@)); }
                        Ok(r)
                    },
                    Err(e) => Err(e),
                }
            },
            _ => Err(ConversionError::TagMismatch { tag: result_term.tag(), expected: TypeKind::Tuple }),
        },
        SchemaDef::Other => Err(ConversionError::UnsupportedSchemaKind),
    }
}

fn schema_items(items: &Vec<DynamicValue>, elem: &SchemaType, wit_resolver: &SchemaTable) -> (r: Result<Vec<TypedValue>, ConversionError>)
    ensures
        match r {
            Ok(xs) => collect(schema_list_pieces(dynamic_models(items@), *elem, wit_resolver.types@))
                == Ok::<Seq<TypedModel>, ConversionError>(typed_models(xs@)),
            Err(e) => collect(schema_list_pieces(dynamic_models(items@), *elem, wit_resolver.types@))
                == Err::<Seq<TypedModel>, ConversionError>(e),
        },
    decreases items, 2nat,
{
    let ghost rs = schema_list_pieces(dynamic_models(items@), *elem, wit_resolver.types@);
    let mut out: Vec<TypedValue> = Vec::new();
    let mut i: usize = 0;
    proof {
        assert(typed_models(out@) =~= Seq::empty());
        assert(rs.take(0).len() == 0);
    }
    while i < items.len()
        invariant
            0 <= i <= items@.len(),
            rs == schema_list_pieces(dynamic_models(items@), *elem, wit_resolver.types@),
            collect(rs.take(i as int)) == Ok::<Seq<TypedModel>, ConversionError>(typed_models(out@)),
        decreases items@.len() - i,
    {
        proof { lemma_collect_step(rs, i as int); }
        match convert_result_term(&items[i], elem, wit_resolver) {
            Ok(x) => {
                let ghost before = typed_models(out@);
                out.push(x);
                proof { assert(typed_models(out@) =~= before + seq![x@]); }
            },
            Err(e) => {
                proof { lemma_collect_stops(rs, i + 1); }
                return Err(e);
            },
        }
        i += 1;
    }
    proof { lemma_collect_all(rs); }
    Ok(out)
}

fn schema_tuple_items(items: &Vec<DynamicValue>, tys: &Vec<SchemaType>, wit_resolver: &SchemaTable) -> (r: Result<Vec<TypedValue>, ConversionError>)
    requires
        items@.len() == tys@.len(),
    ensures
        match r {
            Ok(xs) => collect(schema_tuple_pieces(dynamic_models(items@), tys@, wit_resolver.types@))
                == Ok::<Seq<TypedModel>, ConversionError>(typed_models(xs@)),
            Err(e) => collect(schema_tuple_pieces(dynamic_models(items@), tys@, wit_resolver.types@))
                == Err::<Seq<TypedModel>, ConversionError>(e),
        },
    decreases items, 2nat,
{
    let ghost rs = schema_tuple_pieces(dynamic_models(items@), tys@, wit_resolver.types@);
    let mut out: Vec<TypedValue> = Vec::new();
    let mut i: usize = 0;
    proof {
        assert(typed_models(out@) =~= Seq::empty());
        assert(rs.take(0).len() == 0);
    }
    while i < items.len()
        invariant
            0 <= i <= items@.len(),
            items@.len() == tys@.len(),
            rs == schema_tuple_pieces(dynamic_models(items@), tys@, wit_resolver.types@),
            collect(rs.take(i as int)) == Ok::<Seq<TypedModel>, ConversionError>(typed_models(out@)),
        decreases items@.len() - i,
    {
        proof { lemma_collect_step(rs, i as int); }
        match convert_result_term(&items[i], &tys[i], wit_resolver) {
            Ok(x) => {
                let ghost before = typed_models(out@);
                out.push(x);
                proof { assert(typed_models(out@) =~= before + seq![x@]); }
            },
            Err(e) => {
                proof { lemma_collect_stops(rs, i + 1); }
                return Err(e);
            },
        }
        i += 1;
    }
    proof { lemma_collect_all(rs); }
    Ok(out)
}

/// Decodes the declared fields of a schema record from a mapping whose keys have
/// already been translated into `keys` (one per entry, in order).
pub fn schema_fields(
    entries: &Vec<(DynamicValue, DynamicValue)>,
    keys: &Vec<String>,
    fields: &Vec<SchemaField>,
    wit_resolver: &SchemaTable,
) -> (r: Result<Vec<(String, TypedValue)>, ConversionError>)
    requires
        keys@.len() == entries@.len(),
    ensures
        match r {
            Ok(fs) => collect(schema_record_pieces(entry_models(entries@), texts(keys@), fields@, wit_resolver.types@))
                == Ok::<Seq<(Seq<char>, TypedModel)>, ConversionError>(field_models(fs@)),
            Err(e) => collect(schema_record_pieces(entry_models(entries@), texts(keys@), fields@, wit_resolver.types@))
                == Err::<Seq<(Seq<char>, TypedModel)>, ConversionError>(e),
        },
    decreases entries, 2nat,
{
    let ghost rs = schema_record_pieces(entry_models(entries@), texts(keys@), fields@, wit_resolver.types@);
    let mut out: Vec<(String, TypedValue)> = Vec::new();
    let mut i: usize = 0;
    proof {
        assert(field_models(out@) =~= Seq::empty());
        assert(rs.take(0).len() == 0);
    }
    while i < fields.len()
        invariant
            0 <= i <= fields@.len(),
            keys@.len() == entries@.len(),
            rs == schema_record_pieces(entry_models(entries@), texts(keys@), fields@, wit_resolver.types@),
            collect(rs.take(i as int)) == Ok::<Seq<(Seq<char>, TypedModel)>, ConversionError>(field_models(out@)),
        decreases fields@.len() - i,
    {
        proof { lemma_collect_step(rs, i as int); }
        let f = &fields[i];
        match find_key(keys, &f.name) {
            Some(j) => {
                match convert_result_term(&entries[j].1, &f.ty, wit_resolver) {
                    Ok(x) => {
                        let ghost before = field_models(out@);
                        out.push((f.name.clone(), x));
                        proof { assert(field_models(out@) =~= before + seq![(f.name@, x@)]); }
                    },
                    Err(e) => {
                        proof { lemma_collect_stops(rs, i + 1); }
                        return Err(e);
                    },
                }
            },
            None => {
                proof { assert(field_models(out@) =~= field_models(out@) + Seq::empty()); }
            },
        }
        i += 1;
    }
    proof { lemma_collect_all(rs); }
    Ok(out)
}

} // verus!

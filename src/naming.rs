//! Field-name convention bridge: hyphen-separated names on the schema side,
//! underscore-separated atoms on the host side.
use convert_case::{Case, Casing};
use vstd::prelude::*;

use crate::value::{ConversionError, DynamicModel, DynamicValue, Primitive, TypeKind};

verus! {

/// What `convert_case` makes of a text in kebab case (hyphen-separated, lower case).
pub uninterp spec fn kebab_of(s: Seq<char>) -> Seq<char>;

/// What `convert_case` makes of a text in snake case (underscore-separated, lower case).
pub uninterp spec fn snake_of(s: Seq<char>) -> Seq<char>;

/// Relies on convert_case's `Casing::to_case` with `Case::Kebab`: the result is a
/// function of the text alone.
#[verifier::external_body]
fn to_kebab(s: &str) -> (r: String)
    ensures
        r@ == kebab_of(s@),
{
    s.to_case(Case::Kebab)
}

/// Relies on convert_case's `Casing::to_case` with `Case::Snake`: the result is a
/// function of the text alone.
#[verifier::external_body]
fn to_snake(s: &str) -> (r: String)
    ensures
        r@ == snake_of(s@),
{
    s.to_case(Case::Snake)
}

/// The schema-side field name a map key stands for: atoms and strings are accepted,
/// in either case convention.
pub open spec fn field_name_of(key: DynamicModel) -> Result<Seq<char>, ConversionError> {
    match key {
        DynamicModel::Atom(s) => Ok(kebab_of(s)),
        DynamicModel::Binary(s) => Ok(kebab_of(s)),
        _ => Err(
            ConversionError::TagMismatch {
                tag: key.tag(),
                expected: TypeKind::Primitive(Primitive::String),
            },
        ),
    }
}

/// The host-side key a schema field name is written under.
pub open spec fn host_key(name: Seq<char>) -> DynamicModel {
    DynamicModel::Atom(snake_of(name))
}

/// Translates a map key into the schema's field-name convention.
pub fn term_to_field_name(key_term: &DynamicValue) -> (r: Result<String, ConversionError>)
    ensures
        match r {
            Ok(s) => field_name_of(key_term@) == Ok::<Seq<char>, ConversionError>(s@),
            Err(e) => field_name_of(key_term@) == Err::<Seq<char>, ConversionError>(e),
        },
{
    match key_term {
        DynamicValue::Atom(s) => Ok(to_kebab(s.as_str())),
        DynamicValue::Binary(s) => Ok(to_kebab(s.as_str())),
        _ => Err(
            ConversionError::TagMismatch {
                tag: key_term.tag(),
                expected: TypeKind::Primitive(Primitive::String),
            },
        ),
    }
}

/// Writes a schema field name as a host atom in the underscore convention.
pub fn field_name_to_term(field_name: &str) -> (r: DynamicValue)
    ensures
        r@ == host_key(field_name@),
{
    DynamicValue::Atom(to_snake(field_name))
}

} // verus!

//! Type-directed conversion between dynamic host values and typed component values:
//! a decoder for call arguments, a schema-driven decoder for return values, a total
//! encoder, and the field-name convention bridge between the two sides.
pub mod collect;
pub mod decode;
pub mod encode;
pub mod laws;
pub mod naming;
pub mod schema;
pub mod value;

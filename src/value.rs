//! The three value representations: dynamic host values, typed component values
//! and the type descriptors that direct conversion between them.
use vstd::prelude::*;

verus! {

/// Runtime tag carried by a dynamic value.
#[derive(Clone, Copy, Debug, PartialEq, Eq, Structural)]
pub enum Tag {
    Binary,
    Integer,
    Float,
    Atom,
    List,
    Tuple,
    Mapping,
    Opaque,
}

/// A host runtime value: it carries a runtime tag and no static type.
///
/// Floats are held as the bit pattern of an IEEE-754 double; map entries are kept
/// in the host's iteration order. `Opaque` is a handle to a host value that has no
/// structure here (a process id, a reference, ...), carried through untouched.
#[derive(Debug, PartialEq)]
pub enum DynamicValue {
    Binary(String),
    Integer(i128),
    Float(u64),
    Atom(String),
    List(Vec<DynamicValue>),
    Tuple(Vec<DynamicValue>),
    Mapping(Vec<(DynamicValue, DynamicValue)>),
    Opaque(u64),
}

/// Mathematical model of a `DynamicValue`.
pub enum DynamicModel {
    Binary(Seq<char>),
    Integer(int),
    Float(u64),
    Atom(Seq<char>),
    List(Seq<DynamicModel>),
    Tuple(Seq<DynamicModel>),
    Mapping(Seq<(DynamicModel, DynamicModel)>),
    Opaque(u64),
}

impl DynamicValue {
    pub open spec fn model(self) -> DynamicModel
        decreases self,
    {
        match self {
            DynamicValue::Binary(s) => DynamicModel::Binary(s@),
            DynamicValue::Integer(n) => DynamicModel::Integer(n as int),
            DynamicValue::Float(b) => DynamicModel::Float(b),
            DynamicValue::Atom(s) => DynamicModel::Atom(s@),
            DynamicValue::List(v) => DynamicModel::List(
                Seq::new(v@.len(), |i: int| if 0 <= i < v@.len() { v@[i].model() } else { DynamicModel::Integer(0) }),
            ),
            DynamicValue::Tuple(v) => DynamicModel::Tuple(
                Seq::new(v@.len(), |i: int| if 0 <= i < v@.len() { v@[i].model() } else { DynamicModel::Integer(0) }),
            ),
            DynamicValue::Mapping(v) => DynamicModel::Mapping(
                Seq::new(v@.len(), |i: int| if 0 <= i < v@.len() { (v@[i].0.model(), v@[i].1.model()) } else { (DynamicModel::Integer(0), DynamicModel::Integer(0)) }),
            ),
            DynamicValue::Opaque(h) => DynamicModel::Opaque(h),
        }
    }
}

impl View for DynamicValue {
    type V = DynamicModel;

    open spec fn view(&self) -> DynamicModel {
        self.model()
    }
}

impl DynamicModel {
    pub open spec fn tag(self) -> Tag {
        match self {
            DynamicModel::Binary(_) => Tag::Binary,
            DynamicModel::Integer(_) => Tag::Integer,
            DynamicModel::Float(_) => Tag::Float,
            DynamicModel::Atom(_) => Tag::Atom,
            DynamicModel::List(_) => Tag::List,
            DynamicModel::Tuple(_) => Tag::Tuple,
            DynamicModel::Mapping(_) => Tag::Mapping,
            DynamicModel::Opaque(_) => Tag::Opaque,
        }
    }
}

impl DynamicValue {
    /// The runtime tag of this value.
    pub fn tag(&self) -> (r: Tag)
        ensures
            r == self@.tag(),
    {
        match self {
            DynamicValue::Binary(_) => Tag::Binary,
            DynamicValue::Integer(_) => Tag::Integer,
            DynamicValue::Float(_) => Tag::Float,
            DynamicValue::Atom(_) => Tag::Atom,
            DynamicValue::List(_) => Tag::List,
            DynamicValue::Tuple(_) => Tag::Tuple,
            DynamicValue::Mapping(_) => Tag::Mapping,
            DynamicValue::Opaque(_) => Tag::Opaque,
        }
    }
}

/// A statically typed component value.
///
/// Floats of either width are held as the bit pattern of their value as an IEEE-754
/// double, which is how the host side carries every float; narrowing to single
/// precision belongs to the engine side. `Unrepresented` stands for an engine value of
/// a kind this codec has no dynamic form for (a char, a variant, a flags set, a
/// resource handle, ...).
#[derive(Debug, PartialEq)]
pub enum TypedValue {
    Bool(bool),
    S8(i8),
    S16(i16),
    S32(i32),
    S64(i64),
    U8(u8),
    U16(u16),
    U32(u32),
    U64(u64),
    Float32(u64),
    Float64(u64),
    String(String),
    List(Vec<TypedValue>),
    Tuple(Vec<TypedValue>),
    Record(Vec<(String, TypedValue)>),
    Option(Option<Box<TypedValue>>),
    Result(Result<Option<Box<TypedValue>>, Option<Box<TypedValue>>>),
    Unrepresented,
}

/// Mathematical model of a `TypedValue`.
pub enum TypedModel {
    Bool(bool),
    S8(i8),
    S16(i16),
    S32(i32),
    S64(i64),
    U8(u8),
    U16(u16),
    U32(u32),
    U64(u64),
    Float32(u64),
    Float64(u64),
    String(Seq<char>),
    List(Seq<TypedModel>),
    Tuple(Seq<TypedModel>),
    Record(Seq<(Seq<char>, TypedModel)>),
    Option(Option<Box<TypedModel>>),
    Result(Result<Option<Box<TypedModel>>, Option<Box<TypedModel>>>),
    Unrepresented,
}

impl TypedValue {
    pub open spec fn model(self) -> TypedModel
        decreases self,
    {
        match self {
            TypedValue::Bool(b) => TypedModel::Bool(b),
            TypedValue::S8(n) => TypedModel::S8(n),
            TypedValue::S16(n) => TypedModel::S16(n),
            TypedValue::S32(n) => TypedModel::S32(n),
            TypedValue::S64(n) => TypedModel::S64(n),
            TypedValue::U8(n) => TypedModel::U8(n),
            TypedValue::U16(n) => TypedModel::U16(n),
            TypedValue::U32(n) => TypedModel::U32(n),
            TypedValue::U64(n) => TypedModel::U64(n),
            TypedValue::Float32(b) => TypedModel::Float32(b),
            TypedValue::Float64(b) => TypedModel::Float64(b),
            TypedValue::String(s) => TypedModel::String(s@),
            TypedValue::List(v) => TypedModel::List(
                Seq::new(v@.len(), |i: int| if 0 <= i < v@.len() { v@[i].model() } else { TypedModel::Unrepresented }),
            ),
            TypedValue::Tuple(v) => TypedModel::Tuple(
                Seq::new(v@.len(), |i: int| if 0 <= i < v@.len() { v@[i].model() } else { TypedModel::Unrepresented }),
            ),
            TypedValue::Record(v) => TypedModel::Record(
                Seq::new(v@.len(), |i: int| if 0 <= i < v@.len() { (v@[i].0@, v@[i].1.model()) } else { (Seq::empty(), TypedModel::Unrepresented) }),
            ),
            TypedValue::Option(o) => TypedModel::Option(
                match o {
                    Some(b) => Some(Box::new(b.model())),
                    None => None,
                },
            ),
            TypedValue::Result(r) => TypedModel::Result(
                match r {
                    Ok(Some(b)) => Ok(Some(Box::new(b.model()))),
                    Ok(None) => Ok(None),
                    Err(Some(b)) => Err(Some(Box::new(b.model()))),
                    Err(None) => Err(None),
                },
            ),
            TypedValue::Unrepresented => TypedModel::Unrepresented,
        }
    }
}

impl View for TypedValue {
    type V = TypedModel;

    open spec fn view(&self) -> TypedModel {
        self.model()
    }
}

/// The primitive kinds a value can be converted into.
#[derive(Clone, Copy, Debug, PartialEq, Eq, Structural)]
pub enum Primitive {
    Bool,
    S8,
    S16,
    S32,
    S64,
    U8,
    U16,
    U32,
    U64,
    Float32,
    Float64,
    String,
}

/// A concrete, non-recursive description of the shape of a call argument.
#[derive(Debug, PartialEq)]
pub enum TypeDescriptor {
    Primitive(Primitive),
    List(Box<TypeDescriptor>),
    Tuple(Vec<TypeDescriptor>),
    Record(Vec<FieldDescriptor>),
    Option(Box<TypeDescriptor>),
}

/// One declared field of a record descriptor.
#[derive(Debug, PartialEq)]
pub struct FieldDescriptor {
    pub name: String,
    pub ty: TypeDescriptor,
}

/// The kind of type a conversion expected, as reported in errors.
#[derive(Clone, Copy, Debug, PartialEq, Eq, Structural)]
pub enum TypeKind {
    Primitive(Primitive),
    List,
    Tuple,
    Record,
    Option,
}

/// Why a conversion failed.
#[derive(Clone, Copy, Debug, PartialEq, Eq, Structural)]
pub enum ConversionError {
    /// The runtime tag is not accepted for the expected kind of type.
    TagMismatch { tag: Tag, expected: TypeKind },
    /// The tag fits but the content does not: an integer outside the target width,
    /// or an atom other than `true` / `false` where a boolean is expected.
    OutOfRange { kind: Primitive },
    /// A composite has another number of members than the tuple type declares.
    ArityMismatch { declared: usize, found: usize },
    /// The schema kind has no decoding path.
    UnsupportedSchemaKind,
    /// A type identifier that the schema table does not hold.
    UnknownTypeId { id: usize },
}

/// A conversion result with the value replaced by its model.
pub open spec fn res_model<T: View>(r: Result<T, ConversionError>) -> Result<T::V, ConversionError> {
    match r {
        Ok(x) => Ok(x@),
        Err(e) => Err(e),
    }
}

pub open spec fn typed_models(v: Seq<TypedValue>) -> Seq<TypedModel> {
    Seq::new(v.len(), |i: int| v[i]@)
}

pub open spec fn field_models(v: Seq<(String, TypedValue)>) -> Seq<(Seq<char>, TypedModel)> {
    Seq::new(v.len(), |i: int| (v[i].0@, v[i].1@))
}

pub open spec fn dynamic_models(v: Seq<DynamicValue>) -> Seq<DynamicModel> {
    Seq::new(v.len(), |i: int| v[i]@)
}

pub open spec fn entry_models(v: Seq<(DynamicValue, DynamicValue)>) -> Seq<(DynamicModel, DynamicModel)> {
    Seq::new(v.len(), |i: int| (v[i].0@, v[i].1@))
}

pub open spec fn texts(v: Seq<String>) -> Seq<Seq<char>> {
    Seq::new(v.len(), |i: int| v[i]@)
}

} // verus!

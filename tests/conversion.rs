use wasmex::decode::{convert_params, decode_record_fields, term_to_val};
use wasmex::encode::{encode_result, val_to_term, vals_to_terms};
use wasmex::naming::{field_name_to_term, term_to_field_name};
use wasmex::schema::{convert_result_term, SchemaDef, SchemaField, SchemaTable, SchemaType};
use wasmex::value::{
    ConversionError, DynamicValue, FieldDescriptor, Primitive, Tag, TypeDescriptor, TypeKind,
    TypedValue,
};

fn atom(s: &str) -> DynamicValue {
    DynamicValue::Atom(s.to_string())
}

fn integer(n: i128) -> DynamicValue {
    DynamicValue::Integer(n)
}

fn prim(p: Primitive) -> TypeDescriptor {
    TypeDescriptor::Primitive(p)
}

fn field(name: &str, ty: TypeDescriptor) -> FieldDescriptor {
    FieldDescriptor { name: name.to_string(), ty }
}

#[test]
fn primitive_round_trip_every_kind() {
    let cases = vec![
        (TypedValue::Bool(true), Primitive::Bool),
        (TypedValue::Bool(false), Primitive::Bool),
        (TypedValue::S8(-128), Primitive::S8),
        (TypedValue::S16(-300), Primitive::S16),
        (TypedValue::S32(i32::MIN), Primitive::S32),
        (TypedValue::S64(i64::MAX), Primitive::S64),
        (TypedValue::U8(255), Primitive::U8),
        (TypedValue::U16(65535), Primitive::U16),
        (TypedValue::U32(7), Primitive::U32),
        (TypedValue::U64(u64::MAX), Primitive::U64),
        (TypedValue::Float32(1.5f64.to_bits()), Primitive::Float32),
        (TypedValue::Float64((-2.25f64).to_bits()), Primitive::Float64),
        (TypedValue::String("héllo".to_string()), Primitive::String),
    ];
    for (value, kind) in cases {
        let dynamic = val_to_term(&value);
        assert_eq!(term_to_val(&dynamic, &prim(kind)), Ok(value));
    }
}

#[test]
fn primitive_decode_then_encode_reproduces_dynamic() {
    let cases = vec![
        (atom("true"), Primitive::Bool),
        (integer(-5), Primitive::S8),
        (integer(40000), Primitive::U16),
        (DynamicValue::Float(3.0f64.to_bits()), Primitive::Float64),
        (DynamicValue::Binary("x".to_string()), Primitive::String),
    ];
    for (dynamic, kind) in cases {
        let typed = term_to_val(&dynamic, &prim(kind)).unwrap();
        assert_eq!(val_to_term(&typed), dynamic);
    }
}

#[test]
fn primitive_encodings() {
    assert_eq!(val_to_term(&TypedValue::Bool(true)), atom("true"));
    assert_eq!(val_to_term(&TypedValue::S16(-2)), integer(-2));
    assert_eq!(val_to_term(&TypedValue::Float32(9)), DynamicValue::Float(9));
    assert_eq!(
        val_to_term(&TypedValue::String("s".to_string())),
        DynamicValue::Binary("s".to_string())
    );
}

#[test]
fn integer_out_of_range_is_rejected() {
    assert_eq!(
        term_to_val(&integer(256), &prim(Primitive::U8)),
        Err(ConversionError::OutOfRange { kind: Primitive::U8 })
    );
    assert_eq!(
        term_to_val(&integer(-1), &prim(Primitive::U64)),
        Err(ConversionError::OutOfRange { kind: Primitive::U64 })
    );
    assert_eq!(
        term_to_val(&integer(-129), &prim(Primitive::S8)),
        Err(ConversionError::OutOfRange { kind: Primitive::S8 })
    );
    assert_eq!(
        term_to_val(&atom("maybe"), &prim(Primitive::Bool)),
        Err(ConversionError::OutOfRange { kind: Primitive::Bool })
    );
}

#[test]
fn tag_mismatch_carries_tag_and_expected_kind() {
    assert_eq!(
        term_to_val(&DynamicValue::Binary("5".to_string()), &prim(Primitive::S32)),
        Err(ConversionError::TagMismatch {
            tag: Tag::Binary,
            expected: TypeKind::Primitive(Primitive::S32)
        })
    );
    assert_eq!(
        term_to_val(&integer(1), &prim(Primitive::Float64)),
        Err(ConversionError::TagMismatch {
            tag: Tag::Integer,
            expected: TypeKind::Primitive(Primitive::Float64)
        })
    );
    assert_eq!(
        term_to_val(&integer(1), &TypeDescriptor::List(Box::new(prim(Primitive::U8)))),
        Err(ConversionError::TagMismatch { tag: Tag::Integer, expected: TypeKind::List })
    );
    assert_eq!(
        term_to_val(&DynamicValue::List(vec![]), &TypeDescriptor::Record(vec![])),
        Err(ConversionError::TagMismatch { tag: Tag::List, expected: TypeKind::Record })
    );
}

#[test]
fn list_element_failure_propagates() {
    let list = DynamicValue::List(vec![integer(1), DynamicValue::Binary("x".to_string()), integer(300)]);
    assert_eq!(
        term_to_val(&list, &TypeDescriptor::List(Box::new(prim(Primitive::U8)))),
        Err(ConversionError::TagMismatch {
            tag: Tag::Binary,
            expected: TypeKind::Primitive(Primitive::U8)
        })
    );
}

#[test]
fn nested_lists_and_tuples_keep_order() {
    let ty = TypeDescriptor::List(Box::new(TypeDescriptor::Tuple(vec![
        prim(Primitive::U8),
        TypeDescriptor::List(Box::new(TypeDescriptor::Tuple(vec![
            prim(Primitive::String),
            prim(Primitive::S64),
        ]))),
    ])));
    let inner = |s: &str, n: i128| {
        DynamicValue::Tuple(vec![DynamicValue::Binary(s.to_string()), integer(n)])
    };
    let dynamic = DynamicValue::List(vec![
        DynamicValue::Tuple(vec![integer(1), DynamicValue::List(vec![inner("a", -1), inner("b", -2)])]),
        DynamicValue::Tuple(vec![integer(2), DynamicValue::List(vec![inner("c", 3)])]),
    ]);
    let typed = term_to_val(&dynamic, &ty).unwrap();
    let tinner = |s: &str, n: i64| {
        TypedValue::Tuple(vec![TypedValue::String(s.to_string()), TypedValue::S64(n)])
    };
    assert_eq!(
        typed,
        TypedValue::List(vec![
            TypedValue::Tuple(vec![
                TypedValue::U8(1),
                TypedValue::List(vec![tinner("a", -1), tinner("b", -2)])
            ]),
            TypedValue::Tuple(vec![TypedValue::U8(2), TypedValue::List(vec![tinner("c", 3)])]),
        ])
    );
    assert_eq!(val_to_term(&typed), dynamic);
}

#[test]
fn record_keeps_only_present_fields() {
    let ty = TypeDescriptor::Record(vec![
        field("a", prim(Primitive::U32)),
        field("b", prim(Primitive::String)),
        field("c", prim(Primitive::Bool)),
    ]);
    let dynamic = DynamicValue::Mapping(vec![
        (atom("b"), DynamicValue::Binary("bee".to_string())),
        (atom("a"), integer(1)),
    ]);
    assert_eq!(
        term_to_val(&dynamic, &ty),
        Ok(TypedValue::Record(vec![
            ("a".to_string(), TypedValue::U32(1)),
            ("b".to_string(), TypedValue::String("bee".to_string())),
        ]))
    );
}

#[test]
fn record_keys_are_translated_to_schema_names() {
    let ty = TypeDescriptor::Record(vec![
        field("first-name", prim(Primitive::String)),
        field("zip-code", prim(Primitive::U32)),
    ]);
    let dynamic = DynamicValue::Mapping(vec![
        (atom("first_name"), DynamicValue::Binary("Ada".to_string())),
        (DynamicValue::Binary("zipCode".to_string()), integer(12345)),
        (atom("ignored"), integer(0)),
    ]);
    assert_eq!(
        term_to_val(&dynamic, &ty),
        Ok(TypedValue::Record(vec![
            ("first-name".to_string(), TypedValue::String("Ada".to_string())),
            ("zip-code".to_string(), TypedValue::U32(12345)),
        ]))
    );
}

#[test]
fn record_with_non_text_key_fails() {
    let ty = TypeDescriptor::Record(vec![field("a", prim(Primitive::U8))]);
    let dynamic = DynamicValue::Mapping(vec![(atom("a"), integer(1)), (integer(7), integer(2))]);
    assert_eq!(
        term_to_val(&dynamic, &ty),
        Err(ConversionError::TagMismatch {
            tag: Tag::Integer,
            expected: TypeKind::Primitive(Primitive::String)
        })
    );
}

#[test]
fn record_encodes_with_underscore_atoms() {
    let typed = TypedValue::Record(vec![
        ("first-name".to_string(), TypedValue::String("Ada".to_string())),
        ("age".to_string(), TypedValue::U8(36)),
    ]);
    assert_eq!(
        val_to_term(&typed),
        DynamicValue::Mapping(vec![
            (atom("first_name"), DynamicValue::Binary("Ada".to_string())),
            (atom("age"), integer(36)),
        ])
    );
}

#[test]
fn option_boundary() {
    let ty = TypeDescriptor::Option(Box::new(prim(Primitive::S32)));
    assert_eq!(term_to_val(&atom("nil"), &ty), Ok(TypedValue::Option(None)));
    assert_eq!(
        term_to_val(&integer(5), &ty),
        Ok(TypedValue::Option(Some(Box::new(TypedValue::S32(5)))))
    );
    assert_eq!(
        val_to_term(&TypedValue::Option(Some(Box::new(TypedValue::S32(5))))),
        integer(5)
    );
    assert_eq!(val_to_term(&TypedValue::Option(None)), atom("nil"));
}

#[test]
fn option_of_option_present_nil_reads_back_as_absent() {
    // A present value whose own encoding is `nil` cannot be told from an absent one.
    let nested = TypedValue::Option(Some(Box::new(TypedValue::Option(None))));
    let dynamic = val_to_term(&nested);
    assert_eq!(dynamic, atom("nil"));
    let ty = TypeDescriptor::Option(Box::new(TypeDescriptor::Option(Box::new(prim(Primitive::U8)))));
    assert_eq!(term_to_val(&dynamic, &ty), Ok(TypedValue::Option(None)));
}

#[test]
fn option_non_nil_atom_is_data() {
    let ty = TypeDescriptor::Option(Box::new(prim(Primitive::Bool)));
    assert_eq!(
        term_to_val(&atom("true"), &ty),
        Ok(TypedValue::Option(Some(Box::new(TypedValue::Bool(true)))))
    );
}

#[test]
fn result_encoding() {
    let ok = TypedValue::Result(Ok(Some(Box::new(TypedValue::S32(5)))));
    assert_eq!(val_to_term(&ok), DynamicValue::Tuple(vec![atom("ok"), integer(5)]));
    let err = TypedValue::Result(Err(Some(Box::new(TypedValue::String("no".to_string())))));
    assert_eq!(
        val_to_term(&err),
        DynamicValue::Tuple(vec![atom("error"), DynamicValue::Binary("no".to_string())])
    );
    let fallback = DynamicValue::Binary("wut".to_string());
    assert_eq!(val_to_term(&TypedValue::Result(Ok(None))), fallback);
    assert_eq!(val_to_term(&TypedValue::Result(Err(None))), fallback);
    assert_eq!(val_to_term(&TypedValue::Unrepresented), fallback);
}

#[test]
fn name_convention_idempotence() {
    for name in ["fooBar", "foo_bar", "foo-bar", "myField-name_Value", "Some_MixedCase-key"] {
        let host = field_name_to_term(name);
        let schema = term_to_field_name(&host).unwrap();
        assert_eq!(field_name_to_term(&schema), host);
    }
}

#[test]
fn name_convention_values() {
    assert_eq!(term_to_field_name(&atom("fooBar")), Ok("foo-bar".to_string()));
    assert_eq!(
        term_to_field_name(&DynamicValue::Binary("foo_bar".to_string())),
        Ok("foo-bar".to_string())
    );
    assert_eq!(field_name_to_term("foo-bar"), atom("foo_bar"));
    assert_eq!(
        term_to_field_name(&integer(3)),
        Err(ConversionError::TagMismatch {
            tag: Tag::Integer,
            expected: TypeKind::Primitive(Primitive::String)
        })
    );
}

#[test]
fn tuple_arity_mismatch() {
    let ty = TypeDescriptor::Tuple(vec![
        prim(Primitive::U8),
        prim(Primitive::U8),
        prim(Primitive::U8),
    ]);
    let dynamic = DynamicValue::Tuple(vec![integer(1), integer(2)]);
    assert_eq!(
        term_to_val(&dynamic, &ty),
        Err(ConversionError::ArityMismatch { declared: 3, found: 2 })
    );
}

fn table() -> SchemaTable {
    SchemaTable {
        types: vec![
            SchemaDef::List(SchemaType::Primitive(Primitive::U16)),
            SchemaDef::Record(vec![
                SchemaField { name: "point-x".to_string(), ty: SchemaType::Primitive(Primitive::S32) },
                SchemaField { name: "tags".to_string(), ty: SchemaType::Id(0) },
                SchemaField { name: "label".to_string(), ty: SchemaType::Primitive(Primitive::String) },
            ]),
            SchemaDef::Tuple(vec![SchemaType::Id(1), SchemaType::Primitive(Primitive::Bool)]),
            SchemaDef::Other,
            SchemaDef::List(SchemaType::Id(4)),
        ],
    }
}

#[test]
fn schema_decodes_through_identifiers() {
    let t = table();
    let dynamic = DynamicValue::Tuple(vec![
        DynamicValue::Mapping(vec![
            (atom("tags"), DynamicValue::List(vec![integer(1), integer(2)])),
            (atom("point_x"), integer(-4)),
        ]),
        atom("false"),
    ]);
    assert_eq!(
        convert_result_term(&dynamic, &SchemaType::Id(2), &t),
        Ok(TypedValue::Tuple(vec![
            TypedValue::Record(vec![
                ("point-x".to_string(), TypedValue::S32(-4)),
                ("tags".to_string(), TypedValue::List(vec![TypedValue::U16(1), TypedValue::U16(2)])),
            ]),
            TypedValue::Bool(false),
        ]))
    );
}

#[test]
fn schema_recursive_definition() {
    let t = table();
    let dynamic = DynamicValue::List(vec![
        DynamicValue::List(vec![]),
        DynamicValue::List(vec![DynamicValue::List(vec![])]),
    ]);
    assert_eq!(
        convert_result_term(&dynamic, &SchemaType::Id(4), &t),
        Ok(TypedValue::List(vec![
            TypedValue::List(vec![]),
            TypedValue::List(vec![TypedValue::List(vec![])]),
        ]))
    );
}

#[test]
fn schema_primitives_follow_tag_rules() {
    let t = table();
    assert_eq!(
        convert_result_term(&integer(70000), &SchemaType::Primitive(Primitive::U16), &t),
        Err(ConversionError::OutOfRange { kind: Primitive::U16 })
    );
    assert_eq!(
        convert_result_term(&DynamicValue::Binary("x".to_string()), &SchemaType::Primitive(Primitive::String), &t),
        Ok(TypedValue::String("x".to_string()))
    );
}

#[test]
fn schema_unsupported_kind() {
    let t = table();
    assert_eq!(
        convert_result_term(&integer(1), &SchemaType::Id(3), &t),
        Err(ConversionError::UnsupportedSchemaKind)
    );
    assert_eq!(
        convert_result_term(&integer(1), &SchemaType::Other, &t),
        Err(ConversionError::UnsupportedSchemaKind)
    );
}

#[test]
fn schema_unknown_identifier() {
    let t = table();
    assert_eq!(
        convert_result_term(&integer(1), &SchemaType::Id(9), &t),
        Err(ConversionError::UnknownTypeId { id: 9 })
    );
}

#[test]
fn schema_tuple_arity_mismatch() {
    let t = table();
    assert_eq!(
        convert_result_term(&DynamicValue::Tuple(vec![atom("true")]), &SchemaType::Id(2), &t),
        Err(ConversionError::ArityMismatch { declared: 2, found: 1 })
    );
}

#[test]
fn params_are_decoded_over_the_shorter_list() {
    let types = vec![prim(Primitive::U8), prim(Primitive::String)];
    let values = vec![integer(3), DynamicValue::Binary("s".to_string()), integer(9)];
    assert_eq!(
        convert_params(&types, values),
        Ok(vec![TypedValue::U8(3), TypedValue::String("s".to_string())])
    );
    assert_eq!(convert_params(&types, vec![integer(4)]), Ok(vec![TypedValue::U8(4)]));
}

#[test]
fn params_stop_at_first_error() {
    let types = vec![prim(Primitive::U8), prim(Primitive::U8)];
    assert_eq!(
        convert_params(&types, vec![integer(300), atom("x")]),
        Err(ConversionError::OutOfRange { kind: Primitive::U8 })
    );
}

fn token() -> DynamicValue {
    DynamicValue::Tuple(vec![integer(1), atom("ref")])
}

#[test]
fn result_envelope_single_value() {
    let r = encode_result(vec![TypedValue::U8(7)], token());
    assert_eq!(
        r,
        DynamicValue::Tuple(vec![
            atom("returned_function_call"),
            DynamicValue::Tuple(vec![atom("ok"), integer(7)]),
            token(),
        ])
    );
}

#[test]
fn result_envelope_several_values() {
    let r = encode_result(vec![TypedValue::U8(7), TypedValue::Bool(false)], token());
    assert_eq!(
        r,
        DynamicValue::Tuple(vec![
            atom("returned_function_call"),
            DynamicValue::Tuple(vec![
                atom("ok"),
                DynamicValue::List(vec![integer(7), atom("false")])
            ]),
            token(),
        ])
    );
    let empty = encode_result(vec![], token());
    assert_eq!(
        empty,
        DynamicValue::Tuple(vec![
            atom("returned_function_call"),
            DynamicValue::Tuple(vec![atom("ok"), DynamicValue::List(vec![])]),
            token(),
        ])
    );
}

#[test]
fn values_encode_in_order() {
    let vals = vec![TypedValue::S8(-1), TypedValue::String("z".to_string())];
    assert_eq!(
        vals_to_terms(&vals),
        vec![integer(-1), DynamicValue::Binary("z".to_string())]
    );
}

#[test]
fn record_fields_match_given_keys() {
    let entries = vec![
        (atom("Whatever"), integer(1)),
        (atom("ignored"), integer(2)),
    ];
    let keys = vec!["size".to_string(), "other".to_string()];
    let fields = vec![field("other", prim(Primitive::U8)), field("size", prim(Primitive::U8))];
    assert_eq!(
        decode_record_fields(&entries, &keys, &fields),
        Ok(vec![
            ("other".to_string(), TypedValue::U8(2)),
            ("size".to_string(), TypedValue::U8(1)),
        ])
    );
}

#[test]
fn opaque_handles_pass_through_the_envelope_only() {
    let r = encode_result(vec![TypedValue::Bool(true)], DynamicValue::Opaque(0));
    assert_eq!(
        r,
        DynamicValue::Tuple(vec![
            atom("returned_function_call"),
            DynamicValue::Tuple(vec![atom("ok"), atom("true")]),
            DynamicValue::Opaque(0),
        ])
    );
    assert_eq!(
        term_to_val(&DynamicValue::Opaque(3), &TypeDescriptor::Option(Box::new(prim(Primitive::U8)))),
        Err(ConversionError::TagMismatch {
            tag: Tag::Opaque,
            expected: TypeKind::Primitive(Primitive::U8)
        })
    );
}

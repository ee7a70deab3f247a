use ros2_encode::columnar::{ColumnarValue, StructValue};
use ros2_encode::defaults::synthesize;
use ros2_encode::descriptor::{
    ElementType, MemberDescriptor, MemberType, MessageDescriptor, PrimitiveKind, StringKind,
    TypeInfo, TypeRegistry,
};
use ros2_encode::encode::{encode, TypedValue};
use ros2_encode::error::EncodeError;
use ros2_encode::value::{Record, Value};

fn s(text: &str) -> String {
    text.to_string()
}

fn member(name: &str, ty: MemberType) -> MemberDescriptor {
    MemberDescriptor { name: s(name), ty }
}

fn primitive(name: &str, kind: PrimitiveKind) -> MemberDescriptor {
    member(name, MemberType::Single(ElementType::Primitive(kind)))
}

fn text(name: &str, kind: StringKind) -> MemberDescriptor {
    member(name, MemberType::Single(ElementType::GenericString(kind)))
}

fn reference(name: &str, message: &str) -> MemberDescriptor {
    member(name, MemberType::Single(ElementType::NamedTypeRef(s(message))))
}

fn message(package: &str, name: &str, members: Vec<MemberDescriptor>) -> MessageDescriptor {
    MessageDescriptor { package: s(package), name: s(name), members }
}

fn registry_of(messages: Vec<MessageDescriptor>) -> TypeRegistry {
    let mut registry = TypeRegistry::new();
    for descriptor in messages {
        registry.insert(descriptor);
    }
    registry
}

fn instance(rows: usize, columns: Vec<(&str, ColumnarValue)>) -> ColumnarValue {
    let mut value = StructValue::new(rows);
    for (name, data) in columns {
        value = value.with_column(s(name), data).expect("column of the struct's length");
    }
    ColumnarValue::Struct(value)
}

fn encode_as(
    value: &ColumnarValue,
    package: &str,
    name: &str,
    registry: &TypeRegistry,
) -> Result<Record, EncodeError> {
    let info = TypeInfo { package_name: s(package), message_name: s(name), registry };
    encode(value, &info)
}

fn f64s(values: &[f64]) -> ColumnarValue {
    ColumnarValue::Float64(values.iter().map(|v| v.to_bits()).collect())
}

fn point_registry() -> TypeRegistry {
    registry_of(vec![message(
        "geometry_msgs",
        "Point",
        vec![
            primitive("x", PrimitiveKind::Float64),
            primitive("y", PrimitiveKind::Float64),
            primitive("z", PrimitiveKind::Float64),
        ],
    )])
}

#[test]
fn point_without_z_gets_zero() {
    let registry = point_registry();
    let value = instance(1, vec![("x", f64s(&[1.0])), ("y", f64s(&[2.0]))]);
    let record = encode_as(&value, "geometry_msgs", "Point", &registry).unwrap();
    assert_eq!(
        record,
        Record {
            fields: vec![
                Value::Float64(1.0f64.to_bits()),
                Value::Float64(2.0f64.to_bits()),
                Value::Float64(0.0f64.to_bits()),
            ]
        }
    );
    let decoded: Vec<f64> = record
        .fields
        .iter()
        .map(|field| match field {
            Value::Float64(bits) => f64::from_bits(*bits),
            other => panic!("not a float: {:?}", other),
        })
        .collect();
    assert_eq!(decoded, vec![1.0, 2.0, 0.0]);
}

#[test]
fn header_text_from_wide_offsets_equals_narrow() {
    let registry =
        registry_of(vec![message("std_msgs", "Header", vec![text("frame_id", StringKind::String)])]);
    let wide = instance(1, vec![("frame_id", ColumnarValue::LargeUtf8(vec![s("map")]))]);
    let narrow = instance(1, vec![("frame_id", ColumnarValue::Utf8(vec![s("map")]))]);
    let from_wide = encode_as(&wide, "std_msgs", "Header", &registry).unwrap();
    let from_narrow = encode_as(&narrow, "std_msgs", "Header", &registry).unwrap();
    assert_eq!(from_wide, Record { fields: vec![Value::Text(s("map"))] });
    assert_eq!(from_wide, from_narrow);
}

#[test]
fn encoding_twice_gives_the_same_record() {
    let registry = point_registry();
    let value = instance(1, vec![("y", f64s(&[-3.5])), ("z", f64s(&[7.25]))]);
    let first = encode_as(&value, "geometry_msgs", "Point", &registry);
    let second = encode_as(&value, "geometry_msgs", "Point", &registry);
    assert!(first.is_ok());
    assert_eq!(first, second);
}

#[test]
fn typed_value_serializes_like_encode() {
    let registry = point_registry();
    let value = instance(1, vec![("x", f64s(&[4.0]))]);
    let info =
        TypeInfo { package_name: s("geometry_msgs"), message_name: s("Point"), registry: &registry };
    let typed = TypedValue { value: &value, type_info: &info };
    assert_eq!(typed.serialize(), encode(&value, &info));
    assert_eq!(
        typed.serialize().unwrap().fields,
        vec![Value::Float64(4.0f64.to_bits()), Value::Float64(0), Value::Float64(0)]
    );
}

#[test]
fn column_order_does_not_change_the_record() {
    let registry = point_registry();
    let ordered =
        instance(1, vec![("x", f64s(&[1.0])), ("y", f64s(&[2.0])), ("z", f64s(&[3.0]))]);
    let shuffled =
        instance(1, vec![("z", f64s(&[3.0])), ("x", f64s(&[1.0])), ("y", f64s(&[2.0]))]);
    let expected = Record {
        fields: vec![
            Value::Float64(1.0f64.to_bits()),
            Value::Float64(2.0f64.to_bits()),
            Value::Float64(3.0f64.to_bits()),
        ],
    };
    assert_eq!(encode_as(&ordered, "geometry_msgs", "Point", &registry).unwrap(), expected);
    assert_eq!(encode_as(&shuffled, "geometry_msgs", "Point", &registry).unwrap(), expected);
}

#[test]
fn member_order_decides_the_field_order() {
    let plain = registry_of(vec![message(
        "demo",
        "Pair",
        vec![primitive("a", PrimitiveKind::Int32), primitive("b", PrimitiveKind::UInt16)],
    )]);
    let swapped = registry_of(vec![message(
        "demo",
        "Pair",
        vec![primitive("b", PrimitiveKind::UInt16), primitive("a", PrimitiveKind::Int32)],
    )]);
    let value = instance(
        1,
        vec![("a", ColumnarValue::Int32(vec![-7])), ("b", ColumnarValue::UInt16(vec![9]))],
    );
    assert_eq!(
        encode_as(&value, "demo", "Pair", &plain).unwrap().fields,
        vec![Value::Int32(-7), Value::UInt16(9)]
    );
    assert_eq!(
        encode_as(&value, "demo", "Pair", &swapped).unwrap().fields,
        vec![Value::UInt16(9), Value::Int32(-7)]
    );
}

#[test]
fn absent_member_equals_explicit_default() {
    let registry = registry_of(vec![
        message(
            "demo",
            "Inner",
            vec![primitive("flag", PrimitiveKind::Bool), text("label", StringKind::String)],
        ),
        message(
            "demo",
            "Outer",
            vec![
                primitive("id", PrimitiveKind::UInt32),
                reference("inner", "Inner"),
                member(
                    "samples",
                    MemberType::FixedArray {
                        element_type: ElementType::Primitive(PrimitiveKind::Int16),
                        size: 3,
                    },
                ),
            ],
        ),
    ]);
    let outer = registry.get(&s("demo"), &s("Outer")).unwrap();
    let absent = instance(1, vec![("id", ColumnarValue::UInt32(vec![5]))]);
    let expected = Record {
        fields: vec![
            Value::UInt32(5),
            Value::Struct(vec![Value::Bool(false), Value::Text(s(""))]),
            Value::Array(vec![Value::Int16(0), Value::Int16(0), Value::Int16(0)]),
        ],
    };
    assert_eq!(encode_as(&absent, "demo", "Outer", &registry).unwrap(), expected);

    let inner_default = synthesize(&outer.members[1], &s("demo"), &registry).unwrap();
    let with_inner =
        instance(1, vec![("id", ColumnarValue::UInt32(vec![5])), ("inner", inner_default)]);
    assert_eq!(encode_as(&with_inner, "demo", "Outer", &registry).unwrap(), expected);

    let samples_default = synthesize(&outer.members[2], &s("demo"), &registry).unwrap();
    let with_samples =
        instance(1, vec![("samples", samples_default), ("id", ColumnarValue::UInt32(vec![5]))]);
    assert_eq!(encode_as(&with_samples, "demo", "Outer", &registry).unwrap(), expected);
}

#[test]
fn row_count_must_be_one() {
    let registry = point_registry();
    let none = instance(0, vec![("x", f64s(&[]))]);
    let two = instance(2, vec![("x", f64s(&[1.0, 2.0]))]);
    let one = instance(1, vec![("x", f64s(&[1.0]))]);
    assert_eq!(encode_as(&none, "geometry_msgs", "Point", &registry), Err(EncodeError::EmptyInput));
    assert_eq!(
        encode_as(&two, "geometry_msgs", "Point", &registry),
        Err(EncodeError::MultipleInstances { rows: 2 })
    );
    assert!(encode_as(&one, "geometry_msgs", "Point", &registry).is_ok());
}

#[test]
fn undeclared_column_is_refused_anywhere() {
    let registry = point_registry();
    let first = instance(1, vec![("w", f64s(&[9.0])), ("x", f64s(&[1.0])), ("y", f64s(&[2.0]))]);
    let middle = instance(1, vec![("x", f64s(&[1.0])), ("w", f64s(&[9.0])), ("y", f64s(&[2.0]))]);
    let last = instance(1, vec![("x", f64s(&[1.0])), ("y", f64s(&[2.0])), ("w", f64s(&[9.0]))]);
    for value in [first, middle, last] {
        assert_eq!(
            encode_as(&value, "geometry_msgs", "Point", &registry),
            Err(EncodeError::UnknownField { column: s("w") })
        );
    }
}

#[test]
fn first_undeclared_column_is_named() {
    let registry = point_registry();
    let value = instance(1, vec![("x", f64s(&[1.0])), ("u", f64s(&[0.0])), ("v", f64s(&[0.0]))]);
    assert_eq!(
        encode_as(&value, "geometry_msgs", "Point", &registry),
        Err(EncodeError::UnknownField { column: s("u") })
    );
}

#[test]
fn row_count_is_checked_before_columns() {
    let registry = point_registry();
    let value = instance(0, vec![("w", f64s(&[]))]);
    assert_eq!(encode_as(&value, "geometry_msgs", "Point", &registry), Err(EncodeError::EmptyInput));
}

fn bounded_registry() -> TypeRegistry {
    registry_of(vec![message(
        "demo",
        "Bounded",
        vec![member(
            "values",
            MemberType::BoundedSequence {
                element_type: ElementType::Primitive(PrimitiveKind::UInt8),
                max_len: 3,
            },
        )],
    )])
}

#[test]
fn bounded_sequence_enforces_its_bound() {
    let registry = bounded_registry();
    let four = instance(
        1,
        vec![("values", ColumnarValue::List(vec![ColumnarValue::UInt8(vec![1, 2, 3, 4])]))],
    );
    let three = instance(
        1,
        vec![("values", ColumnarValue::List(vec![ColumnarValue::UInt8(vec![1, 2, 3])]))],
    );
    assert_eq!(
        encode_as(&four, "demo", "Bounded", &registry),
        Err(EncodeError::BoundViolation { field: s("values") })
    );
    assert_eq!(
        encode_as(&three, "demo", "Bounded", &registry).unwrap().fields,
        vec![Value::Sequence(vec![Value::UInt8(1), Value::UInt8(2), Value::UInt8(3)])]
    );
}

#[test]
fn bounded_sequence_may_be_empty_or_absent() {
    let registry = bounded_registry();
    let empty =
        instance(1, vec![("values", ColumnarValue::List(vec![ColumnarValue::UInt8(vec![])]))]);
    let absent = instance(1, vec![]);
    let expected = Record { fields: vec![Value::Sequence(vec![])] };
    assert_eq!(encode_as(&empty, "demo", "Bounded", &registry).unwrap(), expected);
    assert_eq!(encode_as(&absent, "demo", "Bounded", &registry).unwrap(), expected);
}

fn chain_registry() -> TypeRegistry {
    registry_of(vec![
        message("demo", "A", vec![reference("ref", "B")]),
        message("demo", "B", vec![reference("ref", "C")]),
        message("demo", "C", vec![primitive("x", PrimitiveKind::Int32)]),
    ])
}

#[test]
fn nested_messages_are_encoded_level_by_level() {
    let registry = chain_registry();
    let c = instance(1, vec![("x", ColumnarValue::Int32(vec![42]))]);
    let c_record = encode_as(&c, "demo", "C", &registry).unwrap();
    assert_eq!(c_record.fields, vec![Value::Int32(42)]);

    let b = instance(1, vec![("ref", instance(1, vec![("x", ColumnarValue::Int32(vec![42]))]))]);
    let b_record = encode_as(&b, "demo", "B", &registry).unwrap();
    assert_eq!(b_record.fields, vec![Value::Struct(c_record.fields)]);

    let a = instance(
        1,
        vec![(
            "ref",
            instance(1, vec![("ref", instance(1, vec![("x", ColumnarValue::Int32(vec![42]))]))]),
        )],
    );
    let a_record = encode_as(&a, "demo", "A", &registry).unwrap();
    assert_eq!(a_record.fields, vec![Value::Struct(b_record.fields)]);
    assert_eq!(
        a_record.fields,
        vec![Value::Struct(vec![Value::Struct(vec![Value::Int32(42)])])]
    );
}

#[test]
fn nested_messages_default_at_every_level() {
    let registry = chain_registry();
    let a = instance(1, vec![]);
    assert_eq!(
        encode_as(&a, "demo", "A", &registry).unwrap().fields,
        vec![Value::Struct(vec![Value::Struct(vec![Value::Int32(0)])])]
    );
    let partly = instance(1, vec![("ref", instance(1, vec![]))]);
    assert_eq!(
        encode_as(&partly, "demo", "A", &registry).unwrap().fields,
        vec![Value::Struct(vec![Value::Struct(vec![Value::Int32(0)])])]
    );
}

#[test]
fn every_scalar_kind_is_extracted() {
    let kinds = vec![
        ("a", PrimitiveKind::Bool),
        ("b", PrimitiveKind::Int8),
        ("c", PrimitiveKind::Int16),
        ("d", PrimitiveKind::Int32),
        ("e", PrimitiveKind::Int64),
        ("f", PrimitiveKind::UInt8),
        ("g", PrimitiveKind::UInt16),
        ("h", PrimitiveKind::UInt32),
        ("i", PrimitiveKind::UInt64),
        ("j", PrimitiveKind::Float32),
        ("k", PrimitiveKind::Float64),
        ("l", PrimitiveKind::Char),
        ("m", PrimitiveKind::Byte),
    ];
    let members = kinds.iter().map(|(name, kind)| primitive(name, *kind)).collect();
    let registry = registry_of(vec![message("demo", "All", members)]);
    let value = instance(
        1,
        vec![
            ("a", ColumnarValue::Bool(vec![true])),
            ("b", ColumnarValue::Int8(vec![-8])),
            ("c", ColumnarValue::Int16(vec![-16])),
            ("d", ColumnarValue::Int32(vec![-32])),
            ("e", ColumnarValue::Int64(vec![-64])),
            ("f", ColumnarValue::UInt8(vec![8])),
            ("g", ColumnarValue::UInt16(vec![16])),
            ("h", ColumnarValue::UInt32(vec![32])),
            ("i", ColumnarValue::UInt64(vec![64])),
            ("j", ColumnarValue::Float32(vec![1.5f32.to_bits()])),
            ("k", ColumnarValue::Float64(vec![2.5f64.to_bits()])),
            ("l", ColumnarValue::UInt8(vec![b'x'])),
            ("m", ColumnarValue::UInt8(vec![0xff])),
        ],
    );
    assert_eq!(
        encode_as(&value, "demo", "All", &registry).unwrap().fields,
        vec![
            Value::Bool(true),
            Value::Int8(-8),
            Value::Int16(-16),
            Value::Int32(-32),
            Value::Int64(-64),
            Value::UInt8(8),
            Value::UInt16(16),
            Value::UInt32(32),
            Value::UInt64(64),
            Value::Float32(1.5f32.to_bits()),
            Value::Float64(2.5f64.to_bits()),
            Value::UInt8(b'x'),
            Value::UInt8(0xff),
        ]
    );
}

#[test]
fn every_scalar_kind_defaults_to_zero() {
    let kinds = vec![
        PrimitiveKind::Bool,
        PrimitiveKind::Int8,
        PrimitiveKind::Int16,
        PrimitiveKind::Int32,
        PrimitiveKind::Int64,
        PrimitiveKind::UInt8,
        PrimitiveKind::UInt16,
        PrimitiveKind::UInt32,
        PrimitiveKind::UInt64,
        PrimitiveKind::Float32,
        PrimitiveKind::Float64,
        PrimitiveKind::Char,
        PrimitiveKind::Byte,
    ];
    let members = kinds.iter().map(|kind| primitive(&format!("{:?}", kind), *kind)).collect();
    let registry = registry_of(vec![message("demo", "All", members)]);
    let value = instance(1, vec![]);
    assert_eq!(
        encode_as(&value, "demo", "All", &registry).unwrap().fields,
        vec![
            Value::Bool(false),
            Value::Int8(0),
            Value::Int16(0),
            Value::Int32(0),
            Value::Int64(0),
            Value::UInt8(0),
            Value::UInt16(0),
            Value::UInt32(0),
            Value::UInt64(0),
            Value::Float32(0.0f32.to_bits()),
            Value::Float64(0.0f64.to_bits()),
            Value::UInt8(0),
            Value::UInt8(0),
        ]
    );
}

#[test]
fn scalar_of_another_kind_is_a_mismatch() {
    let registry = point_registry();
    let value = instance(1, vec![("x", ColumnarValue::Float32(vec![1.0f32.to_bits()]))]);
    assert_eq!(
        encode_as(&value, "geometry_msgs", "Point", &registry),
        Err(EncodeError::TypeMismatch { field: s("x") })
    );
    let unsigned = instance(1, vec![("y", ColumnarValue::UInt64(vec![1.0f64.to_bits()]))]);
    assert_eq!(
        encode_as(&unsigned, "geometry_msgs", "Point", &registry),
        Err(EncodeError::TypeMismatch { field: s("y") })
    );
}

#[test]
fn value_that_is_no_struct_is_a_mismatch() {
    let registry = point_registry();
    let value = f64s(&[1.0]);
    assert_eq!(
        encode_as(&value, "geometry_msgs", "Point", &registry),
        Err(EncodeError::TypeMismatch { field: s("") })
    );
}

#[test]
fn unknown_message_type_is_reported() {
    let registry = point_registry();
    let value = instance(1, vec![]);
    assert_eq!(
        encode_as(&value, "geometry_msgs", "Pose", &registry),
        Err(EncodeError::UnknownMessageType {
            package: s("geometry_msgs"),
            message_name: s("Pose")
        })
    );
    assert_eq!(
        encode_as(&value, "other_msgs", "Point", &registry),
        Err(EncodeError::UnknownMessageType { package: s("other_msgs"), message_name: s("Point") })
    );
    assert_eq!(
        encode_as(&f64s(&[1.0]), "geometry_msgs", "Pose", &registry),
        Err(EncodeError::UnknownMessageType {
            package: s("geometry_msgs"),
            message_name: s("Pose")
        })
    );
}

#[test]
fn string_column_must_be_a_string_array() {
    let registry =
        registry_of(vec![message("std_msgs", "Header", vec![text("frame_id", StringKind::String)])]);
    let value = instance(1, vec![("frame_id", ColumnarValue::UInt8(vec![65]))]);
    assert_eq!(
        encode_as(&value, "std_msgs", "Header", &registry),
        Err(EncodeError::TypeMismatch { field: s("frame_id") })
    );
}

#[test]
fn bounded_string_counts_characters() {
    let registry = registry_of(vec![message(
        "demo",
        "Name",
        vec![text("name", StringKind::BoundedString(3))],
    )]);
    let fits = instance(1, vec![("name", ColumnarValue::Utf8(vec![s("äöü")]))]);
    let too_long = instance(1, vec![("name", ColumnarValue::LargeUtf8(vec![s("abcd")]))]);
    let absent = instance(1, vec![]);
    assert_eq!(
        encode_as(&fits, "demo", "Name", &registry).unwrap().fields,
        vec![Value::Text(s("äöü"))]
    );
    assert_eq!(
        encode_as(&too_long, "demo", "Name", &registry),
        Err(EncodeError::BoundViolation { field: s("name") })
    );
    assert_eq!(
        encode_as(&absent, "demo", "Name", &registry).unwrap().fields,
        vec![Value::Text(s(""))]
    );
}

#[test]
fn wide_strings_are_not_implemented() {
    let registry = registry_of(vec![
        message("demo", "Wide", vec![text("w", StringKind::WString)]),
        message("demo", "BoundedWide", vec![text("w", StringKind::BoundedWString(8))]),
    ]);
    let given = instance(1, vec![("w", ColumnarValue::Utf8(vec![s("text")]))]);
    let absent = instance(1, vec![]);
    for name in ["Wide", "BoundedWide"] {
        assert_eq!(
            encode_as(&given, "demo", name, &registry),
            Err(EncodeError::NotImplemented { field: s("w") })
        );
        assert_eq!(
            encode_as(&absent, "demo", name, &registry),
            Err(EncodeError::NotImplemented { field: s("w") })
        );
    }
}

fn namespaced(name: &str, package: &str, message: &str, namespace: &str) -> MemberDescriptor {
    member(
        name,
        MemberType::Single(ElementType::NamespacedTypeRef {
            package: s(package),
            message_name: s(message),
            namespace: s(namespace),
        }),
    )
}

#[test]
fn cross_package_reference_is_followed() {
    let registry = registry_of(vec![
        message("std_msgs", "Header", vec![text("frame_id", StringKind::String)]),
        message(
            "nav_msgs",
            "Stamped",
            vec![
                namespaced("header", "std_msgs", "Header", "msg"),
                primitive("seq", PrimitiveKind::UInt32),
            ],
        ),
    ]);
    let value = instance(
        1,
        vec![
            ("seq", ColumnarValue::UInt32(vec![3])),
            ("header", instance(1, vec![("frame_id", ColumnarValue::Utf8(vec![s("odom")]))])),
        ],
    );
    assert_eq!(
        encode_as(&value, "nav_msgs", "Stamped", &registry).unwrap().fields,
        vec![Value::Struct(vec![Value::Text(s("odom"))]), Value::UInt32(3)]
    );
    let absent = instance(1, vec![]);
    assert_eq!(
        encode_as(&absent, "nav_msgs", "Stamped", &registry).unwrap().fields,
        vec![Value::Struct(vec![Value::Text(s(""))]), Value::UInt32(0)]
    );
}

#[test]
fn reference_outside_msg_namespace_is_refused() {
    let registry = registry_of(vec![
        message("std_srvs", "Empty", vec![]),
        message("demo", "Call", vec![namespaced("request", "std_srvs", "Empty", "srv")]),
    ]);
    let value = instance(1, vec![("request", instance(1, vec![]))]);
    assert_eq!(
        encode_as(&value, "demo", "Call", &registry),
        Err(EncodeError::UnsupportedNamespace { field: s("request") })
    );
    let absent = instance(1, vec![]);
    assert_eq!(
        encode_as(&absent, "demo", "Call", &registry),
        Err(EncodeError::UnsupportedNamespace { field: s("request") })
    );
}

#[test]
fn same_package_reference_stays_in_its_package() {
    let registry = registry_of(vec![
        message("one", "Leaf", vec![primitive("v", PrimitiveKind::Int8)]),
        message("two", "Leaf", vec![primitive("v", PrimitiveKind::Int64)]),
        message("two", "Holder", vec![reference("leaf", "Leaf")]),
    ]);
    let value = instance(1, vec![]);
    assert_eq!(
        encode_as(&value, "two", "Holder", &registry).unwrap().fields,
        vec![Value::Struct(vec![Value::Int64(0)])]
    );
}

#[test]
fn nested_column_must_be_a_struct() {
    let registry = chain_registry();
    let value = instance(1, vec![("ref", ColumnarValue::Int32(vec![1]))]);
    assert_eq!(
        encode_as(&value, "demo", "B", &registry),
        Err(EncodeError::TypeMismatch { field: s("ref") })
    );
}

#[test]
fn missing_referenced_type_has_no_default() {
    let registry = registry_of(vec![message("demo", "Holder", vec![reference("part", "Gone")])]);
    let absent = instance(1, vec![]);
    assert_eq!(
        encode_as(&absent, "demo", "Holder", &registry),
        Err(EncodeError::NoDefaultAvailable { field: s("part") })
    );
    let given = instance(1, vec![("part", instance(1, vec![]))]);
    assert_eq!(
        encode_as(&given, "demo", "Holder", &registry),
        Err(EncodeError::UnknownMessageType { package: s("demo"), message_name: s("Gone") })
    );
}

#[test]
fn self_containing_type_is_given_up() {
    let registry = registry_of(vec![message(
        "demo",
        "Node",
        vec![primitive("id", PrimitiveKind::UInt8), reference("next", "Node")],
    )]);
    let absent = instance(1, vec![("id", ColumnarValue::UInt8(vec![1]))]);
    assert_eq!(
        encode_as(&absent, "demo", "Node", &registry),
        Err(EncodeError::CyclicType { package: s("demo"), message_name: s("Node") })
    );
    assert_eq!(
        synthesize(&reference("next", "Node"), &s("demo"), &registry),
        Err(EncodeError::CyclicType { package: s("demo"), message_name: s("Node") })
    );
}

#[test]
fn fixed_array_must_have_its_size() {
    let registry = registry_of(vec![message(
        "demo",
        "Triple",
        vec![member(
            "v",
            MemberType::FixedArray {
                element_type: ElementType::Primitive(PrimitiveKind::Float32),
                size: 3,
            },
        )],
    )]);
    let bits = |values: &[f32]| {
        ColumnarValue::List(vec![ColumnarValue::Float32(
            values.iter().map(|v| v.to_bits()).collect(),
        )])
    };
    let exact = instance(1, vec![("v", bits(&[1.0, 2.0, 3.0]))]);
    let short = instance(1, vec![("v", bits(&[1.0, 2.0]))]);
    let long = instance(1, vec![("v", bits(&[1.0, 2.0, 3.0, 4.0]))]);
    assert_eq!(
        encode_as(&exact, "demo", "Triple", &registry).unwrap().fields,
        vec![Value::Array(vec![
            Value::Float32(1.0f32.to_bits()),
            Value::Float32(2.0f32.to_bits()),
            Value::Float32(3.0f32.to_bits()),
        ])]
    );
    for value in [short, long] {
        assert_eq!(
            encode_as(&value, "demo", "Triple", &registry),
            Err(EncodeError::BoundViolation { field: s("v") })
        );
    }
    let no_list = instance(1, vec![("v", ColumnarValue::Float32(vec![1.0f32.to_bits()]))]);
    assert_eq!(
        encode_as(&no_list, "demo", "Triple", &registry),
        Err(EncodeError::TypeMismatch { field: s("v") })
    );
}

#[test]
fn unbounded_sequence_keeps_array_order() {
    let registry = registry_of(vec![message(
        "demo",
        "Words",
        vec![member(
            "words",
            MemberType::Sequence { element_type: ElementType::GenericString(StringKind::String) },
        )],
    )]);
    let value = instance(
        1,
        vec![(
            "words",
            ColumnarValue::List(vec![ColumnarValue::LargeUtf8(vec![s("b"), s("a"), s("c")])]),
        )],
    );
    assert_eq!(
        encode_as(&value, "demo", "Words", &registry).unwrap().fields,
        vec![Value::Sequence(vec![Value::Text(s("b")), Value::Text(s("a")), Value::Text(s("c"))])]
    );
}

fn trajectory_registry() -> TypeRegistry {
    registry_of(vec![
        message(
            "demo",
            "Waypoint",
            vec![
                primitive("t", PrimitiveKind::UInt32),
                member(
                    "positions",
                    MemberType::Sequence {
                        element_type: ElementType::Primitive(PrimitiveKind::Int16),
                    },
                ),
                text("note", StringKind::String),
            ],
        ),
        message(
            "demo",
            "Trajectory",
            vec![member(
                "points",
                MemberType::Sequence { element_type: ElementType::NamedTypeRef(s("Waypoint")) },
            )],
        ),
    ])
}

#[test]
fn sequence_of_messages_encodes_each_row() {
    let registry = trajectory_registry();
    let points = instance(
        2,
        vec![
            (
                "positions",
                ColumnarValue::List(vec![
                    ColumnarValue::Int16(vec![1, 2]),
                    ColumnarValue::Int16(vec![]),
                ]),
            ),
            ("t", ColumnarValue::UInt32(vec![10, 20])),
        ],
    );
    let value = instance(1, vec![("points", ColumnarValue::List(vec![points]))]);
    assert_eq!(
        encode_as(&value, "demo", "Trajectory", &registry).unwrap().fields,
        vec![Value::Sequence(vec![
            Value::Struct(vec![
                Value::UInt32(10),
                Value::Sequence(vec![Value::Int16(1), Value::Int16(2)]),
                Value::Text(s("")),
            ]),
            Value::Struct(vec![Value::UInt32(20), Value::Sequence(vec![]), Value::Text(s(""))]),
        ])]
    );
}

#[test]
fn failure_inside_an_element_is_the_result() {
    let registry = trajectory_registry();
    let points = instance(2, vec![("t", ColumnarValue::Int32(vec![10, 20]))]);
    let value = instance(1, vec![("points", ColumnarValue::List(vec![points]))]);
    assert_eq!(
        encode_as(&value, "demo", "Trajectory", &registry),
        Err(EncodeError::TypeMismatch { field: s("t") })
    );
    let strangers = instance(2, vec![("speed", ColumnarValue::Int32(vec![10, 20]))]);
    let value = instance(1, vec![("points", ColumnarValue::List(vec![strangers]))]);
    assert_eq!(
        encode_as(&value, "demo", "Trajectory", &registry),
        Err(EncodeError::UnknownField { column: s("speed") })
    );
}

#[test]
fn first_failing_member_in_declared_order_wins() {
    let registry = registry_of(vec![message(
        "demo",
        "Two",
        vec![primitive("first", PrimitiveKind::Int32), text("second", StringKind::WString)],
    )]);
    let value = instance(
        1,
        vec![
            ("second", ColumnarValue::Utf8(vec![s("x")])),
            ("first", ColumnarValue::Bool(vec![true])),
        ],
    );
    assert_eq!(
        encode_as(&value, "demo", "Two", &registry),
        Err(EncodeError::TypeMismatch { field: s("first") })
    );
}

#[test]
fn fixed_array_of_messages_defaults_every_element() {
    let registry = registry_of(vec![
        message(
            "demo",
            "Cell",
            vec![primitive("on", PrimitiveKind::Bool), text("tag", StringKind::BoundedString(4))],
        ),
        message(
            "demo",
            "Grid",
            vec![member(
                "cells",
                MemberType::FixedArray {
                    element_type: ElementType::NamedTypeRef(s("Cell")),
                    size: 2,
                },
            )],
        ),
    ]);
    let absent = instance(1, vec![]);
    let cell = || Value::Struct(vec![Value::Bool(false), Value::Text(s(""))]);
    assert_eq!(
        encode_as(&absent, "demo", "Grid", &registry).unwrap().fields,
        vec![Value::Array(vec![cell(), cell()])]
    );
}

#[test]
fn message_without_members_gives_an_empty_record() {
    let registry = registry_of(vec![message("std_msgs", "Empty", vec![])]);
    let value = instance(1, vec![]);
    assert_eq!(encode_as(&value, "std_msgs", "Empty", &registry).unwrap(), Record { fields: vec![] });
}

use hepta::value::{
    HeapPointer, StructDefinitionIndex, UserStructMeta, UserStructMetaField, Value, ValueType,
    value_eq,
};

fn field(name: &str, size: usize) -> UserStructMetaField {
    UserStructMetaField { name: name.to_string(), size, ttag: ValueType::Integer }
}

#[test]
fn struct_meta_size_sums_field_sizes() {
    let meta = UserStructMeta { fields: vec![field("a", 8), field("b", 1), field("c", 4)] };
    assert_eq!(meta.size(), 13);
}

#[test]
fn struct_meta_with_no_fields_has_size_zero() {
    let meta = UserStructMeta { fields: Vec::new() };
    assert_eq!(meta.size(), 0);
}

#[test]
fn placeholder_value_kinds_compare_by_content() {
    assert!(value_eq(&Value::Pointer(HeapPointer(3)), &Value::Pointer(HeapPointer(3))));
    assert!(!value_eq(&Value::Pointer(HeapPointer(3)), &Value::Pointer(HeapPointer(4))));
    assert!(value_eq(
        &Value::UserDefined(StructDefinitionIndex(1)),
        &Value::UserDefined(StructDefinitionIndex(1)),
    ));
    assert!(!value_eq(&Value::Index(2), &Value::Index(3)));
}

#[test]
fn placeholder_value_kinds_have_their_tags() {
    assert_eq!(Value::Pointer(HeapPointer(0)).type_(), ValueType::Pointer);
    assert_eq!(Value::Index(0).type_(), ValueType::Index);
    assert_eq!(
        Value::UserDefined(StructDefinitionIndex(0)).type_(),
        ValueType::UserDefined,
    );
}

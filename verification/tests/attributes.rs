use stream_json::serde::IntoSerializer;
use stream_json::derived::attributes::{PersonWithOptional, MixedStruct, AllIntegerTypes, BoolFields, StringFields, TupleStructWithSkip, SeparateAttrsOnDifferentFields, SeparateAttrsOnSameField, CombinedAttrSameField, MixedBothAttrs, IntFieldWithRenameAndSkip, WithOptionField, WithVecField, WithTwoVecFields};
use bytes::Bytes;
use stream_json::error::Error;
use stream_json::serde::{Poll, Serializer};

/// A task context whose waker does nothing.
fn cx() -> std::task::Context<'static> {
    std::task::Context::from_waker(std::task::Waker::noop())
}

fn poll_next<S: Serializer>(ser: &mut S) -> Option<Result<Bytes, Error>> {
    match ser.poll(&mut cx()) {
        Poll::Ready(v) => v,
        Poll::Pending => panic!("poll returned Pending"),
    }
}

fn collect_bytes<S: Serializer>(mut ser: S) -> Vec<u8> {
    let mut result = Vec::new();
    while let Some(Ok(bytes)) = poll_next(&mut ser) {
        result.extend_from_slice(&bytes);
    }
    result
}

#[test]
fn attributes_test_skip_serialize_if_named_field_skipped() {
    let person = PersonWithOptional {
        name: "Alice".to_string(),
        nickname: "".to_string(),
        age: 30,
    };
    assert_eq!(person.size(), Some(25));
    let bytes = collect_bytes(person.into_serializer());
    assert_eq!(&bytes[..], b"{\"name\":\"Alice\",\"age\":30}");
}

#[test]
fn attributes_test_skip_serialize_if_named_field_included() {
    let person = PersonWithOptional {
        name: "Alice".to_string(),
        nickname: "Ali".to_string(),
        age: 30,
    };
    assert_eq!(person.size(), Some(42));
    let bytes = collect_bytes(person.into_serializer());
    assert_eq!(
        &bytes[..],
        b"{\"name\":\"Alice\",\"nickname\":\"Ali\",\"age\":30}"
    );
}

#[test]
fn test_skip_serialize_if_struct_is_send() {
    fn assert_send<T: Send>() {}
    assert_send::<PersonWithOptional>();
}

#[test]
fn attributes_test_mixed_struct_with_mixed_attributes() {
    let s = MixedStruct {
        string_field: "hello".to_string(),
        int_field: 42,
        bool_field: false,
        optional_int: 0,
    };
    let bytes = collect_bytes(s.into_serializer());
    assert_eq!(
        &bytes[..],
        b"{\"string_field\":\"hello\",\"int_field\":42,\"bool_field\":false}"
    );
}

#[test]
fn attributes_test_mixed_struct_with_mixed_attributes_included() {
    let s = MixedStruct {
        string_field: "world".to_string(),
        int_field: 100,
        bool_field: true,
        optional_int: 5,
    };
    let bytes = collect_bytes(s.into_serializer());
    assert_eq!(
        &bytes[..],
        b"{\"string_field\":\"world\",\"int_field\":100,\"bool_field\":true,\"optional_int\":5}"
    );
}

#[test]
fn attributes_test_all_integer_types() {
    let s = AllIntegerTypes {
        i8_field: -1,
        i16_field: -2,
        i32_field: -3,
        i64_field: -4,
        u8_field: 1,
        u16_field: 2,
        u32_field: 3,
        u64_field: 4,
    };
    let bytes = collect_bytes(s.into_serializer());
    assert_eq!(
        &bytes[..],
        b"{\"i8_field\":-1,\"i16_field\":-2,\"i32_field\":-3,\"i64_field\":-4,\"u8_field\":1,\"u16_field\":2,\"u32_field\":3,\"u64_field\":4}"
    );
}

#[test]
fn attributes_test_bool_fields() {
    let s = BoolFields {
        true_field: true,
        false_field: false,
    };
    let bytes = collect_bytes(s.into_serializer());
    assert_eq!(&bytes[..], b"{\"true_field\":true,\"false_field\":false}");
}

#[test]
fn attributes_test_string_fields() {
    let s = StringFields {
        empty: String::new(),
        with_content: "hello".to_string(),
        with_escape: "line\nbreak".to_string(),
    };
    let bytes = collect_bytes(s.into_serializer());
    assert_eq!(
        &bytes[..],
        b"{\"empty\":\"\",\"with_content\":\"hello\",\"with_escape\":\"line\\nbreak\"}"
    );
}

#[test]
fn attributes_test_tuple_struct_with_skip_all_empty() {
    let s = TupleStructWithSkip {
        field0: "first".to_string(),
        field1: String::new(),
        field2: 99,
    };
    let bytes = collect_bytes(s.into_serializer());
    assert_eq!(&bytes[..], b"{\"field0\":\"first\",\"field2\":99}");
}

#[test]
fn attributes_test_tuple_struct_with_skip_none_empty() {
    let s = TupleStructWithSkip {
        field0: "first".to_string(),
        field1: "second".to_string(),
        field2: 99,
    };
    let bytes = collect_bytes(s.into_serializer());
    assert_eq!(
        &bytes[..],
        b"{\"field0\":\"first\",\"field1\":\"second\",\"field2\":99}"
    );
}

#[test]
fn test_separate_attrs_on_different_fields_renamed_skipped() {
    let s = SeparateAttrsOnDifferentFields {
        field_a: "hello".to_string(),
        field_b: "".to_string(),
        field_c: 42,
    };
    let bytes = collect_bytes(s.into_serializer());
    assert_eq!(&bytes[..], b"{\"renamed_field\":\"hello\",\"field_c\":42}");
}

#[test]
fn test_separate_attrs_on_different_fields_renamed_included() {
    let s = SeparateAttrsOnDifferentFields {
        field_a: "hello".to_string(),
        field_b: "world".to_string(),
        field_c: 42,
    };
    let bytes = collect_bytes(s.into_serializer());
    assert_eq!(
        &bytes[..],
        b"{\"renamed_field\":\"hello\",\"field_b\":\"world\",\"field_c\":42}"
    );
}

#[test]
fn test_separate_attrs_on_same_field_skipped() {
    let s = SeparateAttrsOnSameField {
        field: "".to_string(),
    };
    let bytes = collect_bytes(s.into_serializer());
    assert_eq!(&bytes[..], b"{}");
}

#[test]
fn test_separate_attrs_on_same_field_included() {
    let s = SeparateAttrsOnSameField {
        field: "visible".to_string(),
    };
    let bytes = collect_bytes(s.into_serializer());
    assert_eq!(&bytes[..], b"{\"custom_name\":\"visible\"}");
}

#[test]
fn test_combined_attr_same_field_skipped() {
    let s = CombinedAttrSameField {
        field: "".to_string(),
    };
    let bytes = collect_bytes(s.into_serializer());
    assert_eq!(&bytes[..], b"{}");
}

#[test]
fn test_combined_attr_same_field_included() {
    let s = CombinedAttrSameField {
        field: "visible".to_string(),
    };
    let bytes = collect_bytes(s.into_serializer());
    assert_eq!(&bytes[..], b"{\"renamed\":\"visible\"}");
}

#[test]
fn test_mixed_both_attrs_all_skipped() {
    let s = MixedBothAttrs {
        field_a: "".to_string(),
        field_b: "".to_string(),
        field_c: 99,
    };
    let bytes = collect_bytes(s.into_serializer());
    assert_eq!(&bytes[..], b"{\"field_c\":99}");
}

#[test]
fn test_mixed_both_attrs_first_skipped_second_included() {
    let s = MixedBothAttrs {
        field_a: "".to_string(),
        field_b: "present".to_string(),
        field_c: 99,
    };
    let bytes = collect_bytes(s.into_serializer());
    assert_eq!(&bytes[..], b"{\"renamed_b\":\"present\",\"field_c\":99}");
}

#[test]
fn test_mixed_both_attrs_both_included() {
    let s = MixedBothAttrs {
        field_a: "visible".to_string(),
        field_b: "also_visible".to_string(),
        field_c: 99,
    };
    let bytes = collect_bytes(s.into_serializer());
    assert_eq!(
        &bytes[..],
        b"{\"renamed_a\":\"visible\",\"renamed_b\":\"also_visible\",\"field_c\":99}"
    );
}

#[test]
fn test_int_rename_and_skip_zero() {
    let s = IntFieldWithRenameAndSkip { value: 0 };
    let bytes = collect_bytes(s.into_serializer());
    assert_eq!(&bytes[..], b"{}");
}

#[test]
fn test_int_rename_and_skip_nonzero() {
    let s = IntFieldWithRenameAndSkip { value: 42 };
    let bytes = collect_bytes(s.into_serializer());
    assert_eq!(&bytes[..], b"{\"renamed_int\":42}");
}

#[test]
fn test_option_field_none_skipped_size_matches_actual() {
    let person = WithOptionField {
        name: "Alice".to_string(),
        nickname: None,
        age: 30,
    };
    let size = person.size();
    let bytes = collect_bytes(person.into_serializer());
    let actual_size = bytes.len();
    assert_eq!(
        size,
        Some(actual_size),
        "size() should match actual bytes when field is skipped"
    );
    assert_eq!(&bytes[..], b"{\"name\":\"Alice\",\"age\":30}");
}

#[test]
fn test_option_field_some_included_size_matches_actual() {
    let person = WithOptionField {
        name: "Alice".to_string(),
        nickname: Some("Ali".to_string()),
        age: 30,
    };
    let size = person.size();
    let bytes = collect_bytes(person.into_serializer());
    let actual_size = bytes.len();
    assert_eq!(
        size,
        Some(actual_size),
        "size() should match actual bytes when field is included"
    );
    assert_eq!(
        &bytes[..],
        b"{\"name\":\"Alice\",\"nickname\":\"Ali\",\"age\":30}"
    );
}

#[test]
fn test_vec_field_empty_skipped_size_matches_actual() {
    let person = WithVecField {
        name: "Alice".to_string(),
        tags: vec![],
        value: 30,
    };
    let size = person.size();
    let bytes = collect_bytes(person.into_serializer());
    let actual_size = bytes.len();
    assert_eq!(
        size,
        Some(actual_size),
        "size() should match actual bytes for skipped empty Vec"
    );
    assert_eq!(&bytes[..], b"{\"name\":\"Alice\",\"value\":30}");
}

#[test]
fn test_vec_field_nonempty_size_matches_actual() {
    let person = WithVecField {
        name: "Alice".to_string(),
        tags: vec!["rust".to_string()],
        value: 30,
    };
    let size = person.size();
    let bytes = collect_bytes(person.into_serializer());
    let actual_size = bytes.len();
    assert_eq!(
        size,
        Some(actual_size),
        "size() should match actual bytes for non-empty Vec"
    );
}

#[test]
fn test_two_vec_fields_both_empty_size_matches_actual() {
    let person = WithTwoVecFields {
        name: "Alice".to_string(),
        tags: vec![],
        extra: vec![],
        value: 30,
    };
    let size = person.size();
    let bytes = collect_bytes(person.into_serializer());
    let actual_size = bytes.len();
    assert_eq!(
        size,
        Some(actual_size),
        "size() should match actual bytes when both Vecs are empty"
    );
    assert_eq!(&bytes[..], b"{\"name\":\"Alice\",\"value\":30}");
}

#[test]
fn test_two_vec_fields_first_empty_second_nonempty_size_matches_actual() {
    let person = WithTwoVecFields {
        name: "Alice".to_string(),
        tags: vec![],
        extra: vec!["x".to_string()],
        value: 30,
    };
    let size = person.size();
    let bytes = collect_bytes(person.into_serializer());
    let actual_size = bytes.len();
    assert_eq!(
        size,
        Some(actual_size),
        "size() should match when first empty, second non-empty"
    );
}

use stream_json::serde::IntoSerializer;
use stream_json::derived::enums::{Color, Status, MixedEnum, RenamedEnum, ComplexEnum, EnumWithRenamedFields, ThreeElements, SingleVariantEnum, EnumVariantWithRenameAndSkip, EnumVariantWithEscapedRename};
use bytes::Bytes;
use stream_json::error::Error;
use stream_json::serde::{Poll, Serializer};

/// A task context whose waker does nothing.
fn cx() -> std::task::Context<'static> {
    std::task::Context::from_waker(std::task::Waker::noop())
}

fn poll_next<S: Serializer>(ser: &mut S) -> Option<Result<Bytes, Error>> {
    match ser.poll(&mut cx()) {
        Poll::Ready(v) => v,
        Poll::Pending => panic!("poll returned Pending"),
    }
}

fn collect_bytes<S: Serializer>(mut ser: S) -> Vec<u8> {
    let mut result = Vec::new();
    while let Some(Ok(bytes)) = poll_next(&mut ser) {
        result.extend_from_slice(&bytes);
    }
    result
}

#[test]
fn enums_test_derive_simple_enum() {
    let color = Color::Red;
    let bytes = collect_bytes(color.into_serializer());
    assert_eq!(&bytes[..], b"\"red\"");
}

#[test]
fn enums_test_derive_enum_with_data() {
    let status = Status::Inactive(true);
    let bytes = collect_bytes(status.into_serializer());
    assert_eq!(&bytes[..], b"\"inactive\"");
}

#[test]
fn enums_test_mixed_enum_unit_variant() {
    let en = MixedEnum::Unit;
    let bytes = collect_bytes(en.into_serializer());
    assert_eq!(&bytes[..], b"\"unit\"");
}

#[test]
fn enums_test_mixed_enum_tuple_variant() {
    let en = MixedEnum::Tuple(1, 2);
    let bytes = collect_bytes(en.into_serializer());
    assert_eq!(&bytes[..], b"\"tuple\"");
}

#[test]
fn enums_test_mixed_enum_named_variant() {
    let en = MixedEnum::Named { x: 10, y: 20 };
    let bytes = collect_bytes(en.into_serializer());
    assert_eq!(&bytes[..], b"\"named\"");
}

#[test]
fn enums_test_renamed_enum_unit_variant() {
    let en = RenamedEnum::Unit;
    let bytes = collect_bytes(en.into_serializer());
    assert_eq!(&bytes[..], b"\"unit_variant\"");
}

#[test]
fn enums_test_renamed_enum_tuple_variant() {
    let en = RenamedEnum::Tuple(42);
    let bytes = collect_bytes(en.into_serializer());
    assert_eq!(&bytes[..], b"\"tuple_variant\"");
}

#[test]
fn enums_test_renamed_enum_named_variant() {
    let en = RenamedEnum::Named { value: 99 };
    let bytes = collect_bytes(en.into_serializer());
    assert_eq!(&bytes[..], b"\"named_variant\"");
}

#[test]
fn enums_test_complex_enum_empty_variant() {
    let en = ComplexEnum::Empty {};
    let bytes = collect_bytes(en.into_serializer());
    assert_eq!(&bytes[..], b"\"empty\"");
}

#[test]
fn enums_test_complex_enum_single_unnamed() {
    let en = ComplexEnum::SingleUnnamed("test".to_string());
    let bytes = collect_bytes(en.into_serializer());
    assert_eq!(&bytes[..], b"\"single_unnamed\"");
}

#[test]
fn enums_test_complex_enum_multiple_unnamed() {
    let en = ComplexEnum::MultipleUnnamed("test".to_string(), 42, true);
    let bytes = collect_bytes(en.into_serializer());
    assert_eq!(&bytes[..], b"\"multiple_unnamed\"");
}

#[test]
fn enums_test_complex_enum_single_named() {
    let en = ComplexEnum::SingleNamed {
        name: "Alice".to_string(),
    };
    let bytes = collect_bytes(en.into_serializer());
    assert_eq!(&bytes[..], b"\"single_named\"");
}

#[test]
fn enums_test_complex_enum_multiple_named() {
    let en = ComplexEnum::MultipleNamed {
        name: "Bob".to_string(),
        age: 30,
        active: true,
    };
    let bytes = collect_bytes(en.into_serializer());
    assert_eq!(&bytes[..], b"\"multiple_named\"");
}

#[test]
fn enums_test_enum_with_renamed_fields() {
    let en = EnumWithRenamedFields::Named { field: 42 };
    let bytes = collect_bytes(en.into_serializer());
    assert_eq!(&bytes[..], b"\"named\"");
}

#[test]
fn enums_test_three_element_enum_first() {
    let en = ThreeElements::First;
    let bytes = collect_bytes(en.into_serializer());
    assert_eq!(&bytes[..], b"\"first\"");
}

#[test]
fn enums_test_three_element_enum_second() {
    let en = ThreeElements::Second;
    let bytes = collect_bytes(en.into_serializer());
    assert_eq!(&bytes[..], b"\"second\"");
}

#[test]
fn enums_test_three_element_enum_third() {
    let en = ThreeElements::Third;
    let bytes = collect_bytes(en.into_serializer());
    assert_eq!(&bytes[..], b"\"third\"");
}

#[test]
fn enums_test_single_variant_enum() {
    let en = SingleVariantEnum::Only { value: 77 };
    let bytes = collect_bytes(en.into_serializer());
    assert_eq!(&bytes[..], b"\"only\"");
}

#[test]
fn test_enum_variant_with_rename_and_skip() {
    let en = EnumVariantWithRenameAndSkip::Named { value: 10 };
    let bytes = collect_bytes(en.into_serializer());
    assert_eq!(&bytes[..], b"\"renamed_variant\"");
}

#[test]
fn test_enum_variant_with_escaped_rename_size_matches_output() {
    let en = EnumVariantWithEscapedRename::Value;
    let expected_size = en.size();
    let bytes = collect_bytes(en.into_serializer());
    assert_eq!(&bytes[..], b"\"key\\\"with\\\\slashes\\n\"");
    assert_eq!(expected_size, Some(bytes.len()));
}

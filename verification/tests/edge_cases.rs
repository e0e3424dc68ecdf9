use stream_json::serde::IntoSerializer;
use stream_json::derived::edge_cases::{SimpleStruct, NestedStructLevel1, DeeplyNested3Levels, WithSkipSerializeIf, WithSkipAndRename, VecOfStructs, VecWithSkip, NestedWithVec, VecWrapper, WithOption, OptionVec, NestedWithOption, ComplexNestedOptionSkip, DeepNestingWithSkipAndRename, Level1, Level2, AllFieldTypes, VecOfVec, EmptyVecStruct, MixedEmptyAndPopulatedVec, WithBoxedValue, VecOfBoxedValues, WithSpecialChars, LargeStringInStruct, VeryDeepNesting, DeepLevel1, DeepLevel2, DeepLevel3, DeepLevel4, SkipConditionWithVec};
use bytes::Bytes;
use stream_json::error::Error;
use stream_json::serde::{Poll, Serializer};
use stream_json::derived::members::{object, push_member};
use stream_json::std_impl::DynObjectSerializer;
use stream_json::base64_embed::{Base64EmbedFile, Base64EmbedURL};
use stream_json::derived::embedded::{Base64InNestedStruct, Base64Inner, Base64Outer, Base64Wrapper, Base64WrapperFile, NestedWithBase64, VecWithBase64, WithBase64AndSkip};

/// A task context whose waker does nothing.
fn cx() -> std::task::Context<'static> {
    std::task::Context::from_waker(std::task::Waker::noop())
}

fn poll_next<S: Serializer>(ser: &mut S) -> Option<Result<Bytes, Error>> {
    match ser.poll(&mut cx()) {
        Poll::Ready(v) => v,
        Poll::Pending => panic!("poll returned Pending"),
    }
}

fn collect_bytes<S: Serializer>(mut ser: S) -> Vec<u8> {
    let mut result = Vec::new();
    while let Some(Ok(bytes)) = poll_next(&mut ser) {
        result.extend_from_slice(&bytes);
    }
    result
}

fn collect_bytes_with_errors<S: Serializer>(ser: &mut S) -> (Vec<u8>, Option<Error>) {
    let mut result = Vec::new();
    let mut err = None;
    while let Some(r) = poll_next(ser) {
        match r {
            Ok(bytes) => result.extend_from_slice(&bytes),
            Err(e) => {
                err = Some(e);
                break;
            }
        }
    }
    (result, err)
}

fn assert_size_matches_output<S: IntoSerializer>(value: S)
{
    let size = value.size().expect("size should be known");
    let bytes = collect_bytes(value.into_serializer());
    let actual_size = bytes.len();
    assert_eq!(
        size,
        actual_size,
        "size() returned {} but actual output was {} bytes. Output: {:?}",
        size,
        actual_size,
        String::from_utf8_lossy(&bytes)
    );
}

fn assert_valid_json<S: IntoSerializer>(value: S)
{
    let bytes = collect_bytes(value.into_serializer());
    let json_str = String::from_utf8(bytes).expect("output should be valid UTF-8");
    let parsed: serde_json::Value =
        serde_json::from_str(&json_str).expect("output should be valid JSON");
    let back = serde_json::to_string(&parsed).expect("re-serialization should work");
    assert_eq!(json_str, back, "JSON should be canonical");
}

#[test]
fn test_simple_struct_size_matches_output() {
    let s = SimpleStruct {
        name: "test".to_string(),
        value: 42,
    };
    assert_size_matches_output(s);
}

#[test]
fn test_nested_struct_size_matches_output() {
    let s = NestedStructLevel1 {
        inner: SimpleStruct {
            name: "nested".to_string(),
            value: 100,
        },
        label: "label".to_string(),
    };
    assert_size_matches_output(s);
}

#[test]
fn test_deeply_nested_3_levels_size_matches_output() {
    let s = DeeplyNested3Levels {
        level1: NestedStructLevel1 {
            inner: SimpleStruct {
                name: "l1".to_string(),
                value: 1,
            },
            label: "L1".to_string(),
        },
        level2: NestedStructLevel1 {
            inner: SimpleStruct {
                name: "l2".to_string(),
                value: 2,
            },
            label: "L2".to_string(),
        },
        level3: SimpleStruct {
            name: "l3".to_string(),
            value: 3,
        },
    };
    assert_size_matches_output(s);
}

#[test]
fn test_skip_serialize_if_all_fields_present_size_matches() {
    let s = WithSkipSerializeIf {
        name: "Alice".to_string(),
        nickname: "Ali".to_string(),
        age: 30,
    };
    assert_size_matches_output(s);
}

#[test]
fn test_skip_serialize_if_nickname_skipped_size_matches() {
    let s = WithSkipSerializeIf {
        name: "Bob".to_string(),
        nickname: "".to_string(),
        age: 25,
    };
    assert_size_matches_output(s);
}

#[test]
fn test_skip_and_rename_name_present_size_matches() {
    let s = WithSkipAndRename {
        name: "Visible".to_string(),
        value: 42,
    };
    assert_size_matches_output(s);
}

#[test]
fn test_skip_and_rename_name_skipped_size_matches() {
    let s = WithSkipAndRename {
        name: "".to_string(),
        value: 42,
    };
    assert_size_matches_output(s);
}

#[test]
fn test_vec_of_structs_size_matches() {
    let s = VecOfStructs {
        items: vec![
            SimpleStruct {
                name: "a".to_string(),
                value: 1,
            },
            SimpleStruct {
                name: "b".to_string(),
                value: 2,
            },
            SimpleStruct {
                name: "c".to_string(),
                value: 3,
            },
        ],
    };
    assert_size_matches_output(s);
}

#[test]
fn test_vec_with_skip_size_matches() {
    let s = VecWithSkip {
        items: vec![
            WithSkipSerializeIf {
                name: "first".to_string(),
                nickname: "".to_string(),
                age: 10,
            },
            WithSkipSerializeIf {
                name: "second".to_string(),
                nickname: "nick".to_string(),
                age: 20,
            },
            WithSkipSerializeIf {
                name: "third".to_string(),
                nickname: "".to_string(),
                age: 30,
            },
        ],
    };
    assert_size_matches_output(s);
}

#[test]
fn test_nested_with_vec_size_matches() {
    let s = NestedWithVec {
        outer: VecWrapper {
            name: "list".to_string(),
            items: vec![1, 2, 3],
        },
        label: "test".to_string(),
    };
    assert_size_matches_output(s);
}

#[test]
fn test_option_some_size_matches() {
    let s = WithOption {
        name: "opt".to_string(),
        value: Some(42),
    };
    assert_size_matches_output(s);
}

#[test]
fn test_option_none_size_matches() {
    let s = WithOption {
        name: "opt".to_string(),
        value: None,
    };
    assert_size_matches_output(s);
}

#[test]
fn test_option_vec_size_matches() {
    let s = OptionVec {
        items: Some(vec!["a".to_string(), "b".to_string()]),
    };
    assert_size_matches_output(s);
}

#[test]
fn test_nested_option_size_matches() {
    let s1 = NestedWithOption {
        inner: WithOption {
            name: "inner".to_string(),
            value: Some(99),
        },
        tag: "has_value".to_string(),
    };
    assert_size_matches_output(s1);

    let s2 = NestedWithOption {
        inner: WithOption {
            name: "inner".to_string(),
            value: None,
        },
        tag: "no_value".to_string(),
    };
    assert_size_matches_output(s2);
}

#[test]
fn test_complex_nested_option_skip_size_matches() {
    let s = ComplexNestedOptionSkip {
        items: vec![
            WithSkipSerializeIf {
                name: "a".to_string(),
                nickname: "".to_string(),
                age: 1,
            },
            WithSkipSerializeIf {
                name: "b".to_string(),
                nickname: "B".to_string(),
                age: 2,
            },
        ],
        optional_total: Some(100),
        metadata: SimpleStruct {
            name: "meta".to_string(),
            value: 42,
        },
    };
    assert_size_matches_output(s);
}

#[test]
fn test_complex_nested_option_skip_none_total_size_matches() {
    let s = ComplexNestedOptionSkip {
        items: vec![
            WithSkipSerializeIf {
                name: "a".to_string(),
                nickname: "A".to_string(),
                age: 1,
            },
            WithSkipSerializeIf {
                name: "b".to_string(),
                nickname: "".to_string(),
                age: 2,
            },
        ],
        optional_total: None,
        metadata: SimpleStruct {
            name: "meta".to_string(),
            value: 42,
        },
    };
    assert_size_matches_output(s);
}

struct TwoPollSerializer {
    poll_count: usize,
}

impl TwoPollSerializer {
    fn new() -> Self {
        Self { poll_count: 0 }
    }
}

impl Serializer for TwoPollSerializer {
    fn poll(&mut self, _cx: &mut std::task::Context<'_>) -> Poll<Option<Result<Bytes, Error>>> {
        self.poll_count += 1;
        match self.poll_count {
            1 => Poll::Pending,
            2 => Poll::Ready(Some(Ok(Bytes::from_static(b"\"hello\"")))),
            _ => Poll::Ready(None),
        }
    }
}

impl IntoSerializer for TwoPollSerializer {
    type S = Self;
    fn into_serializer(self) -> Self::S {
        self
    }
    fn size(&self) -> Option<usize> {
        Some(7)
    }
}

fn collect_bytes_allowing_pending<S: Serializer>(mut ser: S) -> Vec<u8> {
    let mut result = Vec::new();
    loop {
        match ser.poll(&mut cx()) {
            Poll::Ready(Some(Ok(bytes))) => result.extend_from_slice(&bytes),
            Poll::Ready(Some(Err(e))) => panic!("unexpected error: {:?}", e),
            Poll::Ready(None) => break,
            Poll::Pending => continue,
        }
    }
    result
}

/// A name and an optional value whose serializer needs more than one poll,
/// serialized as an object the way the derived structs are.
struct WithPendingOption {
    name: String,
    value: Option<TwoPollSerializer>,
}

impl IntoSerializer for WithPendingOption {
    type S = DynObjectSerializer;
    fn into_serializer(self) -> Self::S {
        let mut fields = Vec::new();
        push_member(&mut fields, "name", self.name);
        push_member(&mut fields, "value", self.value);
        object(fields)
    }
    fn size(&self) -> Option<usize> {
        let name = self.name.size()?;
        let value = self.value.size()?;
        Some(2 + "\"name\":".len() + name + 1 + "\"value\":".len() + value)
    }
}

#[test]
fn test_option_with_two_poll_inner_size_matches() {
    let opt: Option<TwoPollSerializer> = Some(TwoPollSerializer::new());
    let size = opt.size().expect("size should be known");
    let bytes = collect_bytes_allowing_pending(opt.into_serializer());
    let actual_size = bytes.len();
    assert_eq!(
        size,
        actual_size,
        "size() returned {} but actual output was {} bytes. Output: {:?}",
        size,
        actual_size,
        String::from_utf8_lossy(&bytes)
    );
}

#[test]
fn test_option_none_with_pending_inner_size() {
    let opt: Option<TwoPollSerializer> = None;
    assert_size_matches_output(opt);
}

#[test]
fn test_struct_with_option_requiring_multiple_polls_size_matches() {
    let s = WithPendingOption {
        name: "test".to_string(),
        value: Some(TwoPollSerializer::new()),
    };
    let size = s.size().expect("size should be known");
    let bytes = collect_bytes_allowing_pending(s.into_serializer());
    assert_eq!(
        size,
        bytes.len(),
        "size() returned {} but actual output was {} bytes. Output: {:?}",
        size,
        bytes.len(),
        String::from_utf8_lossy(&bytes)
    );
}

#[test]
fn test_struct_with_none_option_requiring_multiple_polls_size_matches() {
    let s = WithPendingOption {
        name: "test".to_string(),
        value: None,
    };
    assert_size_matches_output(s);
}

#[test]
fn test_deep_nesting_with_skip_and_rename_size_matches() {
    let s = DeepNestingWithSkipAndRename {
        l1: Level1 {
            l2: Level2 {
                value: 42,
                name: "deep".to_string(),
            },
        },
    };
    assert_size_matches_output(s);
}

#[test]
fn test_deep_nesting_with_skip_and_rename_value_zero_size_matches() {
    let s = DeepNestingWithSkipAndRename {
        l1: Level1 {
            l2: Level2 {
                value: 0,
                name: "deep".to_string(),
            },
        },
    };
    assert_size_matches_output(s);
}

#[test]
fn test_all_field_types_size_matches() {
    let s = AllFieldTypes {
        string_field: "hello".to_string(),
        int_field: 42,
        bool_field: true,
        optional_int: 0,
        vec_field: vec![1, 2, 3],
        option_field: Some("world".to_string()),
    };
    assert_size_matches_output(s);
}

#[test]
fn test_all_field_types_optional_int_present_size_matches() {
    let s = AllFieldTypes {
        string_field: "hello".to_string(),
        int_field: 42,
        bool_field: true,
        optional_int: 99,
        vec_field: vec![1, 2, 3],
        option_field: Some("world".to_string()),
    };
    assert_size_matches_output(s);
}

#[test]
fn test_all_field_types_option_none_size_matches() {
    let s = AllFieldTypes {
        string_field: "hello".to_string(),
        int_field: 42,
        bool_field: true,
        optional_int: 0,
        vec_field: vec![1, 2, 3],
        option_field: None,
    };
    assert_size_matches_output(s);
}

#[test]
fn test_vec_of_vec_size_matches() {
    let s = VecOfVec {
        matrix: vec![vec![1, 2], vec![3, 4], vec![5]],
    };
    assert_size_matches_output(s);
}

#[test]
fn test_empty_vec_struct_size_matches() {
    let s = EmptyVecStruct { items: vec![] };
    assert_size_matches_output(s);
}

#[test]
fn test_mixed_empty_and_populated_vec_size_matches() {
    let s = MixedEmptyAndPopulatedVec {
        empty: vec![],
        populated: vec![SimpleStruct {
            name: "test".to_string(),
            value: 1,
        }],
        another_empty: vec![],
    };
    assert_size_matches_output(s);
}

#[test]
fn test_boxed_value_size_matches() {
    let s = WithBoxedValue {
        name: "boxed".to_string(),
        value: Box::new(42),
    };
    assert_size_matches_output(s);
}

#[test]
fn test_vec_of_boxed_values_size_matches() {
    let s = VecOfBoxedValues {
        values: vec![Box::new(1), Box::new(2), Box::new(3)],
    };
    assert_size_matches_output(s);
}

#[test]
fn test_rename_with_special_chars_size_matches() {
    let s = WithSpecialChars {
        key1: "value1".to_string(),
        key2: "value2".to_string(),
        key3: "value3".to_string(),
    };
    assert_size_matches_output(s);
}

#[test]
fn test_large_string_skip_threshold_size_matches() {
    let s = LargeStringInStruct {
        name: "test".to_string(),
        large_content: "x".repeat(500),
    };
    assert_size_matches_output(s);
}

#[test]
fn test_large_string_above_threshold_size_matches() {
    let s = LargeStringInStruct {
        name: "test".to_string(),
        large_content: "y".repeat(1500),
    };
    assert_size_matches_output(s);
}

#[test]
fn test_very_deep_nesting_4_levels_size_matches() {
    let s = VeryDeepNesting {
        a: DeepLevel1 {
            b: DeepLevel2 {
                c: DeepLevel3 {
                    d: DeepLevel4 { value: 42 },
                },
            },
        },
    };
    assert_size_matches_output(s);
}

#[test]
fn test_very_deep_nesting_4_levels_skip_size_matches() {
    let s = VeryDeepNesting {
        a: DeepLevel1 {
            b: DeepLevel2 {
                c: DeepLevel3 {
                    d: DeepLevel4 { value: 0 },
                },
            },
        },
    };
    assert_size_matches_output(s);
}

#[test]
fn test_skip_condition_with_empty_vec_size_matches() {
    let s = SkipConditionWithVec {
        name: "test".to_string(),
        items: vec![],
        value: 1,
    };
    assert_size_matches_output(s);
}

#[test]
fn test_skip_condition_with_populated_vec_size_matches() {
    let s = SkipConditionWithVec {
        name: "test".to_string(),
        items: vec![1, 2, 3],
        value: 1,
    };
    assert_size_matches_output(s);
}

#[test]
fn test_base64_wrapper_size_matches() {
    let data = vec![
        0x89, 0x50, 0x4E, 0x47, 0x0D, 0x0A, 0x1A, 0x0A, 0x00, 0x00, 0x00, 0x0D, 0x49, 0x48, 0x44,
        0x52,
    ];
    let wrapper = Base64Wrapper {
        data: Base64EmbedURL::new(data.clone(), 16, "image/png".to_string()).unwrap(),
    };
    assert_size_matches_output(wrapper);
}

#[test]
fn test_base64_wrapper_file_size_matches() {
    let data = vec![
        0x89, 0x50, 0x4E, 0x47, 0x0D, 0x0A, 0x1A, 0x0A, 0x00, 0x00, 0x00, 0x0D, 0x49, 0x48, 0x44,
        0x52,
    ];
    let wrapper = Base64WrapperFile {
        data: Base64EmbedFile::new(data.clone(), 16).unwrap(),
    };
    assert_size_matches_output(wrapper);
}

#[test]
fn test_nested_with_base64_size_matches() {
    let data = vec![0x89, 0x50, 0x4E, 0x47, 0x0D, 0x0A, 0x1A, 0x0A];
    let s = NestedWithBase64 {
        wrapper: Base64Wrapper {
            data: Base64EmbedURL::new(data.clone(), 8, "image/png".to_string()).unwrap(),
        },
        label: "test".to_string(),
    };
    assert_size_matches_output(s);
}

#[test]
fn test_vec_with_base64_size_matches() {
    let data1 = vec![0x89, 0x50, 0x4E, 0x47];
    let s = VecWithBase64 {
        images: vec![
            Base64Wrapper {
                data: Base64EmbedURL::new(data1.clone(), 4, "image/png".to_string()).unwrap(),
            },
            Base64Wrapper {
                data: Base64EmbedURL::new(data1, 4, "image/png".to_string()).unwrap(),
            },
        ],
    };
    assert_size_matches_output(s);
}

#[test]
fn test_base64_with_skip_size_matches() {
    let data = vec![0x89, 0x50, 0x4E, 0x47];
    let s = WithBase64AndSkip {
        label: "test".to_string(),
        count: 5,
        data: Base64EmbedURL::new(data.clone(), 4, "image/png".to_string()).unwrap(),
    };
    assert_size_matches_output(s);
}

#[test]
fn test_base64_with_skip_count_zero_size_matches() {
    let data = vec![0x89, 0x50, 0x4E, 0x47];
    let s = WithBase64AndSkip {
        label: "test".to_string(),
        count: 0,
        data: Base64EmbedURL::new(data.clone(), 4, "image/png".to_string()).unwrap(),
    };
    assert_size_matches_output(s);
}

#[test]
fn test_nested_base64_early_eof_error_detected() {
    let data = vec![0x89, 0x50, 0x4E, 0x47];
    let wrapper = Base64Wrapper {
        data: Base64EmbedURL::new(data, 16, "image/png".to_string()).unwrap(),
    };
    let mut ser = wrapper.into_serializer();

    let (_result, err) = collect_bytes_with_errors(&mut ser);

    assert!(err.is_some(), "Expected error for early EOF but got none");
    let err_msg = err.unwrap().to_string();
    assert!(
        err_msg.contains("size mismatch"),
        "Error message should mention 'size mismatch', got: {}",
        err_msg
    );
}

#[test]
fn test_vec_with_base64_early_eof_error_detected() {
    let data = vec![0x89, 0x50, 0x4E, 0x47];
    let wrapper = Base64Wrapper {
        data: Base64EmbedURL::new(data, 16, "image/png".to_string()).unwrap(),
    };
    let s = VecWithBase64 {
        images: vec![wrapper],
    };
    let mut ser = s.into_serializer();

    let (_result, err) = collect_bytes_with_errors(&mut ser);

    assert!(err.is_some(), "Expected error for early EOF but got none");
    let err_msg = err.unwrap().to_string();
    assert!(
        err_msg.contains("size mismatch"),
        "Error message should mention 'size mismatch', got: {}",
        err_msg
    );
}

#[test]
fn base64_wrapper_output_is_an_object_with_the_quoted_data_url() {
    let wrapper = Base64Wrapper {
        data: Base64EmbedURL::new(b"hi".to_vec(), 2, "text/plain".to_string()).unwrap(),
    };
    let bytes = collect_bytes(wrapper.into_serializer());
    assert_eq!(&bytes[..], b"{\"data\":\"data:text/plain;base64,aGk=\"}");
}

#[test]
fn test_deeply_nested_base64_early_eof_error_detected() {
    let data = vec![0x89, 0x50, 0x4E, 0x47];
    let s = Base64InNestedStruct {
        outer: Base64Outer {
            label: "test".to_string(),
            inner: Base64Inner {
                data: Base64EmbedURL::new(data, 16, "image/png".to_string()).unwrap(),
            },
        },
    };
    let mut ser = s.into_serializer();

    let (_result, err) = collect_bytes_with_errors(&mut ser);

    assert!(err.is_some(), "Expected error for early EOF but got none");
    let err_msg = err.unwrap().to_string();
    assert!(
        err_msg.contains("size mismatch"),
        "Error message should mention 'size mismatch', got: {}",
        err_msg
    );
}

#[test]
fn deeply_nested_base64_size_matches_output() {
    let s = Base64InNestedStruct {
        outer: Base64Outer {
            label: "x".to_string(),
            inner: Base64Inner {
                data: Base64EmbedURL::new(vec![1u8, 2, 3, 4, 5], 5, "a/b".to_string()).unwrap(),
            },
        },
    };
    assert_size_matches_output(s);
}

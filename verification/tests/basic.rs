use stream_json::serde::IntoSerializer;
use stream_json::derived::basic::{public_person_serializer, Person, PublicPerson, RenamedPerson, NestedStruct, DeeplyNested, Point, EmptyStruct, UnitStruct, NewtypeStruct, SingleFieldStruct, UnitStructWrapper, UnitStructWrapperMulti, UnitStructWrapperWithRename};
use bytes::Bytes;
use stream_json::error::Error;
use stream_json::serde::{Poll, Serializer};

/// A task context whose waker does nothing.
fn cx() -> std::task::Context<'static> {
    std::task::Context::from_waker(std::task::Waker::noop())
}

fn poll_next<S: Serializer>(ser: &mut S) -> Option<Result<Bytes, Error>> {
    match ser.poll(&mut cx()) {
        Poll::Ready(v) => v,
        Poll::Pending => panic!("poll returned Pending"),
    }
}

fn collect_bytes<S: Serializer>(mut ser: S) -> Vec<u8> {
    let mut result = Vec::new();
    while let Some(Ok(bytes)) = poll_next(&mut ser) {
        result.extend_from_slice(&bytes);
    }
    result
}

#[test]
fn basic_test_derive_named_struct() {
    let person = Person {
        name: "Alice".to_string(),
        age: 30,
    };
    assert_eq!(person.size(), Some(25));
    let bytes = collect_bytes(person.into_serializer());
    assert_eq!(&bytes[..], b"{\"name\":\"Alice\",\"age\":30}");
}

#[test]
fn test_public_struct_serializer_visibility() {
    let person = PublicPerson {
        name: "Alice".to_string(),
        age: 30,
    };
    let _serializer = public_person_serializer(person);
}

#[test]
fn basic_test_derive_tuple_struct() {
    let point = Point(10, 20);
    let bytes = collect_bytes(point.into_serializer());
    assert_eq!(&bytes[..], b"[10,20]");
}

#[test]
fn basic_test_derive_empty_struct() {
    let empty = EmptyStruct {};
    let bytes = collect_bytes(empty.into_serializer());
    assert_eq!(&bytes[..], b"{}");
}

#[test]
fn basic_test_renamed_fields() {
    let person = RenamedPerson {
        name: "Bob".to_string(),
        age: 25,
    };
    let bytes = collect_bytes(person.into_serializer());
    assert_eq!(&bytes[..], b"{\"user_name\":\"Bob\",\"user_age\":25}");
}

#[test]
fn basic_test_nested_struct() {
    let nested = NestedStruct {
        inner: Person {
            name: "Nested".to_string(),
            age: 10,
        },
        label: "label".to_string(),
    };
    let bytes = collect_bytes(nested.into_serializer());
    assert_eq!(
        &bytes[..],
        b"{\"inner\":{\"name\":\"Nested\",\"age\":10},\"label\":\"label\"}"
    );
}

#[test]
fn basic_test_deeply_nested_struct() {
    let nested = DeeplyNested {
        level1: NestedStruct {
            inner: Person {
                name: "L1".to_string(),
                age: 1,
            },
            label: "L1".to_string(),
        },
        level2: NestedStruct {
            inner: Person {
                name: "L2".to_string(),
                age: 2,
            },
            label: "L2".to_string(),
        },
    };
    let bytes = collect_bytes(nested.into_serializer());
    assert_eq!(
        &bytes[..],
        b"{\"level1\":{\"inner\":{\"name\":\"L1\",\"age\":1},\"label\":\"L1\"},\"level2\":{\"inner\":{\"name\":\"L2\",\"age\":2},\"label\":\"L2\"}}"
    );
}

#[test]
fn basic_test_unit_struct() {
    let unit = UnitStruct;
    let bytes = collect_bytes(unit.into_serializer());
    assert_eq!(&bytes[..], b"{}");
}

#[test]
fn basic_test_newtype_struct() {
    let newtype = NewtypeStruct("wrapper".to_string());
    let bytes = collect_bytes(newtype.into_serializer());
    assert_eq!(&bytes[..], b"\"wrapper\"");
}

#[test]
fn basic_test_single_field_struct() {
    let s = SingleFieldStruct { value: 42 };
    let bytes = collect_bytes(s.into_serializer());
    assert_eq!(&bytes[..], b"{\"value\":42}");
}

#[test]
fn test_unit_struct_wrapper() {
    let s = UnitStructWrapper("hello".to_string());
    let bytes = collect_bytes(s.into_serializer());
    assert_eq!(&bytes[..], b"\"hello\"");
}

#[test]
fn test_unit_struct_wrapper_multi() {
    let s = UnitStructWrapperMulti("hello".to_string(), 42);
    let bytes = collect_bytes(s.into_serializer());
    assert_eq!(&bytes[..], b"[\"hello\",42]");
}

#[test]
fn test_unit_struct_wrapper_with_rename() {
    let s = UnitStructWrapperWithRename {
        inner: UnitStructWrapper("test".to_string()),
    };
    let bytes = collect_bytes(s.into_serializer());
    assert_eq!(&bytes[..], b"{\"wrapped\":\"test\"}");
}

//! Structs whose fields are renamed or left out.
use vstd::prelude::*;
use vstd::utf8::encode_utf8;

use crate::derived::members::{add_member, member_text, object, push_member, JoinedSizes};
use crate::serde::{object_json, IntoSerializer, Serializer};
use crate::std_impl::{members, DynObjectSerializer};

verus! {

/// A person whose nickname is left out when it is empty.
pub struct PersonWithOptional {
    pub name: String,
    pub nickname: String,
    pub age: i32,
}

impl PersonWithOptional {
    /// The object's members, in field order, without those left out.
    pub open spec fn member_texts(&self) -> Seq<Seq<u8>> {
        add_member(add_member(add_member(Seq::empty(), true, member_text("name"@, self.name.json())), !(self.nickname@.len() == 0), member_text("nickname"@, self.nickname.json())), true, member_text("age"@, self.age.json()))
    }
}

/// Law: a `PersonWithOptional` is written as a JSON object of its fields in order: `name` under the key `name`, `nickname` under the key `nickname`, `age` under the key `age`.
/// `nickname` is written exactly when `nickname` is not empty.
pub proof fn law_person_with_optional_text(v: PersonWithOptional)
    ensures
        v.json() == object_json(
            seq![member_text("name"@, v.name.json())]
                + (if v.nickname@.len() > 0 {
                seq![member_text("nickname"@, v.nickname.json())]
            } else {
                Seq::empty()
            })
                + seq![member_text("age"@, v.age.json())],
        ),
{
    assert(v.member_texts() =~= seq![member_text("name"@, v.name.json())]
                + (if v.nickname@.len() > 0 {
                seq![member_text("nickname"@, v.nickname.json())]
            } else {
                Seq::empty()
            })
                + seq![member_text("age"@, v.age.json())]);
}

impl IntoSerializer for PersonWithOptional {
    type S = DynObjectSerializer;

    open spec fn size_unknown(&self) -> bool {
        false
    }

    open spec fn json(&self) -> Seq<u8> {
        object_json(self.member_texts())
    }

    open spec fn json_fails(&self) -> bool {
        false
    }

    open spec fn size_known(&self) -> bool {
        true
    }

    open spec fn json_may_pend(&self) -> bool {
        false
    }

    fn into_serializer(self) -> (s: Self::S) {
        let ghost ms = self.member_texts();
        let present_nickname = !(self.nickname.as_str().is_empty());
        let mut fields: Vec<(bytes::Bytes, Box<dyn Serializer>)> = Vec::new();
        push_member(&mut fields, "name", self.name);
        if present_nickname {
            push_member(&mut fields, "nickname", self.nickname);
        }
        push_member(&mut fields, "age", self.age);
        assert(members(fields@) =~= ms);
        object(fields)
    }

    fn size(&self) -> (r: Option<usize>) {
        let mut sizes = JoinedSizes::new();
        sizes.count_member("name", self.name.size(), Ghost(self.name.json()));
        if !(self.nickname.as_str().is_empty()) {
            sizes.count_member("nickname", self.nickname.size(), Ghost(self.nickname.json()));
        }
        sizes.count_member("age", self.age.size(), Ghost(self.age.json()));
        assert(sizes.counted() =~= self.member_texts());
        sizes.object_size()
    }
}

/// A struct mixing a renamed field and one left out when zero.
pub struct MixedStruct {
    pub string_field: String,
    pub int_field: i32,
    pub bool_field: bool,
    pub optional_int: i32,
}

impl MixedStruct {
    /// The object's members, in field order, without those left out.
    pub open spec fn member_texts(&self) -> Seq<Seq<u8>> {
        add_member(add_member(add_member(add_member(Seq::empty(), true, member_text("string_field"@, self.string_field.json())), true, member_text("int_field"@, self.int_field.json())), true, member_text("bool_field"@, self.bool_field.json())), !(self.optional_int == 0), member_text("optional_int"@, self.optional_int.json()))
    }
}

/// Law: a `MixedStruct` is written as a JSON object of its fields in order: `string_field` under the key `string_field`, `int_field` under the key `int_field`, `bool_field` under the key `bool_field`, `optional_int` under the key `optional_int`.
/// `optional_int` is written exactly when `optional_int` is not zero.
pub proof fn law_mixed_struct_text(v: MixedStruct)
    ensures
        v.json() == object_json(
            seq![member_text("string_field"@, v.string_field.json())]
                + seq![member_text("int_field"@, v.int_field.json())]
                + seq![member_text("bool_field"@, v.bool_field.json())]
                + (if v.optional_int != 0 {
                seq![member_text("optional_int"@, v.optional_int.json())]
            } else {
                Seq::empty()
            }),
        ),
{
    assert(v.member_texts() =~= seq![member_text("string_field"@, v.string_field.json())]
                + seq![member_text("int_field"@, v.int_field.json())]
                + seq![member_text("bool_field"@, v.bool_field.json())]
                + (if v.optional_int != 0 {
                seq![member_text("optional_int"@, v.optional_int.json())]
            } else {
                Seq::empty()
            }));
}

impl IntoSerializer for MixedStruct {
    type S = DynObjectSerializer;

    open spec fn size_unknown(&self) -> bool {
        false
    }

    open spec fn json(&self) -> Seq<u8> {
        object_json(self.member_texts())
    }

    open spec fn json_fails(&self) -> bool {
        false
    }

    open spec fn size_known(&self) -> bool {
        true
    }

    open spec fn json_may_pend(&self) -> bool {
        false
    }

    fn into_serializer(self) -> (s: Self::S) {
        let ghost ms = self.member_texts();
        let present_optional_int = !(self.optional_int == 0);
        let mut fields: Vec<(bytes::Bytes, Box<dyn Serializer>)> = Vec::new();
        push_member(&mut fields, "string_field", self.string_field);
        push_member(&mut fields, "int_field", self.int_field);
        push_member(&mut fields, "bool_field", self.bool_field);
        if present_optional_int {
            push_member(&mut fields, "optional_int", self.optional_int);
        }
        assert(members(fields@) =~= ms);
        object(fields)
    }

    fn size(&self) -> (r: Option<usize>) {
        let mut sizes = JoinedSizes::new();
        sizes.count_member("string_field", self.string_field.size(), Ghost(self.string_field.json()));
        sizes.count_member("int_field", self.int_field.size(), Ghost(self.int_field.json()));
        sizes.count_member("bool_field", self.bool_field.size(), Ghost(self.bool_field.json()));
        if !(self.optional_int == 0) {
            sizes.count_member("optional_int", self.optional_int.size(), Ghost(self.optional_int.json()));
        }
        assert(sizes.counted() =~= self.member_texts());
        sizes.object_size()
    }
}

/// One field of each integer type.
pub struct AllIntegerTypes {
    pub i8_field: i8,
    pub i16_field: i16,
    pub i32_field: i32,
    pub i64_field: i64,
    pub u8_field: u8,
    pub u16_field: u16,
    pub u32_field: u32,
    pub u64_field: u64,
}

impl AllIntegerTypes {
    /// The object's members, in field order, without those left out.
    pub open spec fn member_texts(&self) -> Seq<Seq<u8>> {
        add_member(add_member(add_member(add_member(add_member(add_member(add_member(add_member(Seq::empty(), true, member_text("i8_field"@, self.i8_field.json())), true, member_text("i16_field"@, self.i16_field.json())), true, member_text("i32_field"@, self.i32_field.json())), true, member_text("i64_field"@, self.i64_field.json())), true, member_text("u8_field"@, self.u8_field.json())), true, member_text("u16_field"@, self.u16_field.json())), true, member_text("u32_field"@, self.u32_field.json())), true, member_text("u64_field"@, self.u64_field.json()))
    }
}

/// Law: a `AllIntegerTypes` is written as a JSON object of its fields in order: `i8_field` under the key `i8_field`, `i16_field` under the key `i16_field`, `i32_field` under the key `i32_field`, `i64_field` under the key `i64_field`, `u8_field` under the key `u8_field`, `u16_field` under the key `u16_field`, `u32_field` under the key `u32_field`, `u64_field` under the key `u64_field`.
pub proof fn law_all_integer_types_text(v: AllIntegerTypes)
    ensures
        v.json() == object_json(
            seq![member_text("i8_field"@, v.i8_field.json())]
                + seq![member_text("i16_field"@, v.i16_field.json())]
                + seq![member_text("i32_field"@, v.i32_field.json())]
                + seq![member_text("i64_field"@, v.i64_field.json())]
                + seq![member_text("u8_field"@, v.u8_field.json())]
                + seq![member_text("u16_field"@, v.u16_field.json())]
                + seq![member_text("u32_field"@, v.u32_field.json())]
                + seq![member_text("u64_field"@, v.u64_field.json())],
        ),
{
    assert(v.member_texts() =~= seq![member_text("i8_field"@, v.i8_field.json())]
                + seq![member_text("i16_field"@, v.i16_field.json())]
                + seq![member_text("i32_field"@, v.i32_field.json())]
                + seq![member_text("i64_field"@, v.i64_field.json())]
                + seq![member_text("u8_field"@, v.u8_field.json())]
                + seq![member_text("u16_field"@, v.u16_field.json())]
                + seq![member_text("u32_field"@, v.u32_field.json())]
                + seq![member_text("u64_field"@, v.u64_field.json())]);
}

impl IntoSerializer for AllIntegerTypes {
    type S = DynObjectSerializer;

    open spec fn size_unknown(&self) -> bool {
        false
    }

    open spec fn json(&self) -> Seq<u8> {
        object_json(self.member_texts())
    }

    open spec fn json_fails(&self) -> bool {
        false
    }

    open spec fn size_known(&self) -> bool {
        true
    }

    open spec fn json_may_pend(&self) -> bool {
        false
    }

    fn into_serializer(self) -> (s: Self::S) {
        let ghost ms = self.member_texts();
        let mut fields: Vec<(bytes::Bytes, Box<dyn Serializer>)> = Vec::new();
        push_member(&mut fields, "i8_field", self.i8_field);
        push_member(&mut fields, "i16_field", self.i16_field);
        push_member(&mut fields, "i32_field", self.i32_field);
        push_member(&mut fields, "i64_field", self.i64_field);
        push_member(&mut fields, "u8_field", self.u8_field);
        push_member(&mut fields, "u16_field", self.u16_field);
        push_member(&mut fields, "u32_field", self.u32_field);
        push_member(&mut fields, "u64_field", self.u64_field);
        assert(members(fields@) =~= ms);
        object(fields)
    }

    fn size(&self) -> (r: Option<usize>) {
        let mut sizes = JoinedSizes::new();
        sizes.count_member("i8_field", self.i8_field.size(), Ghost(self.i8_field.json()));
        sizes.count_member("i16_field", self.i16_field.size(), Ghost(self.i16_field.json()));
        sizes.count_member("i32_field", self.i32_field.size(), Ghost(self.i32_field.json()));
        sizes.count_member("i64_field", self.i64_field.size(), Ghost(self.i64_field.json()));
        sizes.count_member("u8_field", self.u8_field.size(), Ghost(self.u8_field.json()));
        sizes.count_member("u16_field", self.u16_field.size(), Ghost(self.u16_field.json()));
        sizes.count_member("u32_field", self.u32_field.size(), Ghost(self.u32_field.json()));
        sizes.count_member("u64_field", self.u64_field.size(), Ghost(self.u64_field.json()));
        assert(sizes.counted() =~= self.member_texts());
        sizes.object_size()
    }
}

/// Two boolean fields.
pub struct BoolFields {
    pub true_field: bool,
    pub false_field: bool,
}

impl BoolFields {
    /// The object's members, in field order, without those left out.
    pub open spec fn member_texts(&self) -> Seq<Seq<u8>> {
        add_member(add_member(Seq::empty(), true, member_text("true_field"@, self.true_field.json())), true, member_text("false_field"@, self.false_field.json()))
    }
}

/// Law: a `BoolFields` is written as a JSON object of its fields in order: `true_field` under the key `true_field`, `false_field` under the key `false_field`.
pub proof fn law_bool_fields_text(v: BoolFields)
    ensures
        v.json() == object_json(
            seq![member_text("true_field"@, v.true_field.json())]
                + seq![member_text("false_field"@, v.false_field.json())],
        ),
{
    assert(v.member_texts() =~= seq![member_text("true_field"@, v.true_field.json())]
                + seq![member_text("false_field"@, v.false_field.json())]);
}

impl IntoSerializer for BoolFields {
    type S = DynObjectSerializer;

    open spec fn size_unknown(&self) -> bool {
        false
    }

    open spec fn json(&self) -> Seq<u8> {
        object_json(self.member_texts())
    }

    open spec fn json_fails(&self) -> bool {
        false
    }

    open spec fn size_known(&self) -> bool {
        true
    }

    open spec fn json_may_pend(&self) -> bool {
        false
    }

    fn into_serializer(self) -> (s: Self::S) {
        let ghost ms = self.member_texts();
        let mut fields: Vec<(bytes::Bytes, Box<dyn Serializer>)> = Vec::new();
        push_member(&mut fields, "true_field", self.true_field);
        push_member(&mut fields, "false_field", self.false_field);
        assert(members(fields@) =~= ms);
        object(fields)
    }

    fn size(&self) -> (r: Option<usize>) {
        let mut sizes = JoinedSizes::new();
        sizes.count_member("true_field", self.true_field.size(), Ghost(self.true_field.json()));
        sizes.count_member("false_field", self.false_field.size(), Ghost(self.false_field.json()));
        assert(sizes.counted() =~= self.member_texts());
        sizes.object_size()
    }
}

/// Three string fields.
pub struct StringFields {
    pub empty: String,
    pub with_content: String,
    pub with_escape: String,
}

impl StringFields {
    /// The object's members, in field order, without those left out.
    pub open spec fn member_texts(&self) -> Seq<Seq<u8>> {
        add_member(add_member(add_member(Seq::empty(), true, member_text("empty"@, self.empty.json())), true, member_text("with_content"@, self.with_content.json())), true, member_text("with_escape"@, self.with_escape.json()))
    }
}

/// Law: a `StringFields` is written as a JSON object of its fields in order: `empty` under the key `empty`, `with_content` under the key `with_content`, `with_escape` under the key `with_escape`.
pub proof fn law_string_fields_text(v: StringFields)
    ensures
        v.json() == object_json(
            seq![member_text("empty"@, v.empty.json())]
                + seq![member_text("with_content"@, v.with_content.json())]
                + seq![member_text("with_escape"@, v.with_escape.json())],
        ),
{
    assert(v.member_texts() =~= seq![member_text("empty"@, v.empty.json())]
                + seq![member_text("with_content"@, v.with_content.json())]
                + seq![member_text("with_escape"@, v.with_escape.json())]);
}

impl IntoSerializer for StringFields {
    type S = DynObjectSerializer;

    open spec fn size_unknown(&self) -> bool {
        false
    }

    open spec fn json(&self) -> Seq<u8> {
        object_json(self.member_texts())
    }

    open spec fn json_fails(&self) -> bool {
        false
    }

    open spec fn size_known(&self) -> bool {
        true
    }

    open spec fn json_may_pend(&self) -> bool {
        false
    }

    fn into_serializer(self) -> (s: Self::S) {
        let ghost ms = self.member_texts();
        let mut fields: Vec<(bytes::Bytes, Box<dyn Serializer>)> = Vec::new();
        push_member(&mut fields, "empty", self.empty);
        push_member(&mut fields, "with_content", self.with_content);
        push_member(&mut fields, "with_escape", self.with_escape);
        assert(members(fields@) =~= ms);
        object(fields)
    }

    fn size(&self) -> (r: Option<usize>) {
        let mut sizes = JoinedSizes::new();
        sizes.count_member("empty", self.empty.size(), Ghost(self.empty.json()));
        sizes.count_member("with_content", self.with_content.size(), Ghost(self.with_content.json()));
        sizes.count_member("with_escape", self.with_escape.size(), Ghost(self.with_escape.json()));
        assert(sizes.counted() =~= self.member_texts());
        sizes.object_size()
    }
}

/// Three fields, the middle one left out when empty.
pub struct TupleStructWithSkip {
    pub field0: String,
    pub field1: String,
    pub field2: i32,
}

impl TupleStructWithSkip {
    /// The object's members, in field order, without those left out.
    pub open spec fn member_texts(&self) -> Seq<Seq<u8>> {
        add_member(add_member(add_member(Seq::empty(), true, member_text("field0"@, self.field0.json())), !(self.field1@.len() == 0), member_text("field1"@, self.field1.json())), true, member_text("field2"@, self.field2.json()))
    }
}

/// Law: a `TupleStructWithSkip` is written as a JSON object of its fields in order: `field0` under the key `field0`, `field1` under the key `field1`, `field2` under the key `field2`.
/// `field1` is written exactly when `field1` is not empty.
pub proof fn law_tuple_struct_with_skip_text(v: TupleStructWithSkip)
    ensures
        v.json() == object_json(
            seq![member_text("field0"@, v.field0.json())]
                + (if v.field1@.len() > 0 {
                seq![member_text("field1"@, v.field1.json())]
            } else {
                Seq::empty()
            })
                + seq![member_text("field2"@, v.field2.json())],
        ),
{
    assert(v.member_texts() =~= seq![member_text("field0"@, v.field0.json())]
                + (if v.field1@.len() > 0 {
                seq![member_text("field1"@, v.field1.json())]
            } else {
                Seq::empty()
            })
                + seq![member_text("field2"@, v.field2.json())]);
}

impl IntoSerializer for TupleStructWithSkip {
    type S = DynObjectSerializer;

    open spec fn size_unknown(&self) -> bool {
        false
    }

    open spec fn json(&self) -> Seq<u8> {
        object_json(self.member_texts())
    }

    open spec fn json_fails(&self) -> bool {
        false
    }

    open spec fn size_known(&self) -> bool {
        true
    }

    open spec fn json_may_pend(&self) -> bool {
        false
    }

    fn into_serializer(self) -> (s: Self::S) {
        let ghost ms = self.member_texts();
        let present_field1 = !(self.field1.as_str().is_empty());
        let mut fields: Vec<(bytes::Bytes, Box<dyn Serializer>)> = Vec::new();
        push_member(&mut fields, "field0", self.field0);
        if present_field1 {
            push_member(&mut fields, "field1", self.field1);
        }
        push_member(&mut fields, "field2", self.field2);
        assert(members(fields@) =~= ms);
        object(fields)
    }

    fn size(&self) -> (r: Option<usize>) {
        let mut sizes = JoinedSizes::new();
        sizes.count_member("field0", self.field0.size(), Ghost(self.field0.json()));
        if !(self.field1.as_str().is_empty()) {
            sizes.count_member("field1", self.field1.size(), Ghost(self.field1.json()));
        }
        sizes.count_member("field2", self.field2.size(), Ghost(self.field2.json()));
        assert(sizes.counted() =~= self.member_texts());
        sizes.object_size()
    }
}

/// A renamed field, a field left out when empty, and a plain one.
pub struct SeparateAttrsOnDifferentFields {
    pub field_a: String,
    pub field_b: String,
    pub field_c: i32,
}

impl SeparateAttrsOnDifferentFields {
    /// The object's members, in field order, without those left out.
    pub open spec fn member_texts(&self) -> Seq<Seq<u8>> {
        add_member(add_member(add_member(Seq::empty(), true, member_text("renamed_field"@, self.field_a.json())), !(self.field_b@.len() == 0), member_text("field_b"@, self.field_b.json())), true, member_text("field_c"@, self.field_c.json()))
    }
}

/// Law: a `SeparateAttrsOnDifferentFields` is written as a JSON object of its fields in order: `field_a` under the key `renamed_field`, `field_b` under the key `field_b`, `field_c` under the key `field_c`.
/// `field_b` is written exactly when `field_b` is not empty.
pub proof fn law_separate_attrs_on_different_fields_text(v: SeparateAttrsOnDifferentFields)
    ensures
        v.json() == object_json(
            seq![member_text("renamed_field"@, v.field_a.json())]
                + (if v.field_b@.len() > 0 {
                seq![member_text("field_b"@, v.field_b.json())]
            } else {
                Seq::empty()
            })
                + seq![member_text("field_c"@, v.field_c.json())],
        ),
{
    assert(v.member_texts() =~= seq![member_text("renamed_field"@, v.field_a.json())]
                + (if v.field_b@.len() > 0 {
                seq![member_text("field_b"@, v.field_b.json())]
            } else {
                Seq::empty()
            })
                + seq![member_text("field_c"@, v.field_c.json())]);
}

impl IntoSerializer for SeparateAttrsOnDifferentFields {
    type S = DynObjectSerializer;

    open spec fn size_unknown(&self) -> bool {
        false
    }

    open spec fn json(&self) -> Seq<u8> {
        object_json(self.member_texts())
    }

    open spec fn json_fails(&self) -> bool {
        false
    }

    open spec fn size_known(&self) -> bool {
        true
    }

    open spec fn json_may_pend(&self) -> bool {
        false
    }

    fn into_serializer(self) -> (s: Self::S) {
        let ghost ms = self.member_texts();
        let present_field_b = !(self.field_b.as_str().is_empty());
        let mut fields: Vec<(bytes::Bytes, Box<dyn Serializer>)> = Vec::new();
        push_member(&mut fields, "renamed_field", self.field_a);
        if present_field_b {
            push_member(&mut fields, "field_b", self.field_b);
        }
        push_member(&mut fields, "field_c", self.field_c);
        assert(members(fields@) =~= ms);
        object(fields)
    }

    fn size(&self) -> (r: Option<usize>) {
        let mut sizes = JoinedSizes::new();
        sizes.count_member("renamed_field", self.field_a.size(), Ghost(self.field_a.json()));
        if !(self.field_b.as_str().is_empty()) {
            sizes.count_member("field_b", self.field_b.size(), Ghost(self.field_b.json()));
        }
        sizes.count_member("field_c", self.field_c.size(), Ghost(self.field_c.json()));
        assert(sizes.counted() =~= self.member_texts());
        sizes.object_size()
    }
}

/// One field, renamed and left out when empty.
pub struct SeparateAttrsOnSameField {
    pub field: String,
}

impl SeparateAttrsOnSameField {
    /// The object's members, in field order, without those left out.
    pub open spec fn member_texts(&self) -> Seq<Seq<u8>> {
        add_member(Seq::empty(), !(self.field@.len() == 0), member_text("custom_name"@, self.field.json()))
    }
}

/// Law: a `SeparateAttrsOnSameField` is written as a JSON object of its fields in order: `field` under the key `custom_name`.
/// `field` is written exactly when `field` is not empty.
pub proof fn law_separate_attrs_on_same_field_text(v: SeparateAttrsOnSameField)
    ensures
        v.json() == object_json(
            (if v.field@.len() > 0 {
                seq![member_text("custom_name"@, v.field.json())]
            } else {
                Seq::empty()
            }),
        ),
{
    assert(v.member_texts() =~= (if v.field@.len() > 0 {
                seq![member_text("custom_name"@, v.field.json())]
            } else {
                Seq::empty()
            }));
}

impl IntoSerializer for SeparateAttrsOnSameField {
    type S = DynObjectSerializer;

    open spec fn size_unknown(&self) -> bool {
        false
    }

    open spec fn json(&self) -> Seq<u8> {
        object_json(self.member_texts())
    }

    open spec fn json_fails(&self) -> bool {
        false
    }

    open spec fn size_known(&self) -> bool {
        true
    }

    open spec fn json_may_pend(&self) -> bool {
        false
    }

    fn into_serializer(self) -> (s: Self::S) {
        let ghost ms = self.member_texts();
        let present_field = !(self.field.as_str().is_empty());
        let mut fields: Vec<(bytes::Bytes, Box<dyn Serializer>)> = Vec::new();
        if present_field {
            push_member(&mut fields, "custom_name", self.field);
        }
        assert(members(fields@) =~= ms);
        object(fields)
    }

    fn size(&self) -> (r: Option<usize>) {
        let mut sizes = JoinedSizes::new();
        if !(self.field.as_str().is_empty()) {
            sizes.count_member("custom_name", self.field.size(), Ghost(self.field.json()));
        }
        assert(sizes.counted() =~= self.member_texts());
        sizes.object_size()
    }
}

/// One field, renamed and left out when empty.
pub struct CombinedAttrSameField {
    pub field: String,
}

impl CombinedAttrSameField {
    /// The object's members, in field order, without those left out.
    pub open spec fn member_texts(&self) -> Seq<Seq<u8>> {
        add_member(Seq::empty(), !(self.field@.len() == 0), member_text("renamed"@, self.field.json()))
    }
}

/// Law: a `CombinedAttrSameField` is written as a JSON object of its fields in order: `field` under the key `renamed`.
/// `field` is written exactly when `field` is not empty.
pub proof fn law_combined_attr_same_field_text(v: CombinedAttrSameField)
    ensures
        v.json() == object_json(
            (if v.field@.len() > 0 {
                seq![member_text("renamed"@, v.field.json())]
            } else {
                Seq::empty()
            }),
        ),
{
    assert(v.member_texts() =~= (if v.field@.len() > 0 {
                seq![member_text("renamed"@, v.field.json())]
            } else {
                Seq::empty()
            }));
}

impl IntoSerializer for CombinedAttrSameField {
    type S = DynObjectSerializer;

    open spec fn size_unknown(&self) -> bool {
        false
    }

    open spec fn json(&self) -> Seq<u8> {
        object_json(self.member_texts())
    }

    open spec fn json_fails(&self) -> bool {
        false
    }

    open spec fn size_known(&self) -> bool {
        true
    }

    open spec fn json_may_pend(&self) -> bool {
        false
    }

    fn into_serializer(self) -> (s: Self::S) {
        let ghost ms = self.member_texts();
        let present_field = !(self.field.as_str().is_empty());
        let mut fields: Vec<(bytes::Bytes, Box<dyn Serializer>)> = Vec::new();
        if present_field {
            push_member(&mut fields, "renamed", self.field);
        }
        assert(members(fields@) =~= ms);
        object(fields)
    }

    fn size(&self) -> (r: Option<usize>) {
        let mut sizes = JoinedSizes::new();
        if !(self.field.as_str().is_empty()) {
            sizes.count_member("renamed", self.field.size(), Ghost(self.field.json()));
        }
        assert(sizes.counted() =~= self.member_texts());
        sizes.object_size()
    }
}

/// Two renamed fields left out when empty, and a plain one.
pub struct MixedBothAttrs {
    pub field_a: String,
    pub field_b: String,
    pub field_c: i32,
}

impl MixedBothAttrs {
    /// The object's members, in field order, without those left out.
    pub open spec fn member_texts(&self) -> Seq<Seq<u8>> {
        add_member(add_member(add_member(Seq::empty(), !(self.field_a@.len() == 0), member_text("renamed_a"@, self.field_a.json())), !(self.field_b@.len() == 0), member_text("renamed_b"@, self.field_b.json())), true, member_text("field_c"@, self.field_c.json()))
    }
}

/// Law: a `MixedBothAttrs` is written as a JSON object of its fields in order: `field_a` under the key `renamed_a`, `field_b` under the key `renamed_b`, `field_c` under the key `field_c`.
/// `field_a` is written exactly when `field_a` is not empty; `field_b` is written exactly when `field_b` is not empty.
pub proof fn law_mixed_both_attrs_text(v: MixedBothAttrs)
    ensures
        v.json() == object_json(
            (if v.field_a@.len() > 0 {
                seq![member_text("renamed_a"@, v.field_a.json())]
            } else {
                Seq::empty()
            })
                + (if v.field_b@.len() > 0 {
                seq![member_text("renamed_b"@, v.field_b.json())]
            } else {
                Seq::empty()
            })
                + seq![member_text("field_c"@, v.field_c.json())],
        ),
{
    assert(v.member_texts() =~= (if v.field_a@.len() > 0 {
                seq![member_text("renamed_a"@, v.field_a.json())]
            } else {
                Seq::empty()
            })
                + (if v.field_b@.len() > 0 {
                seq![member_text("renamed_b"@, v.field_b.json())]
            } else {
                Seq::empty()
            })
                + seq![member_text("field_c"@, v.field_c.json())]);
}

impl IntoSerializer for MixedBothAttrs {
    type S = DynObjectSerializer;

    open spec fn size_unknown(&self) -> bool {
        false
    }

    open spec fn json(&self) -> Seq<u8> {
        object_json(self.member_texts())
    }

    open spec fn json_fails(&self) -> bool {
        false
    }

    open spec fn size_known(&self) -> bool {
        true
    }

    open spec fn json_may_pend(&self) -> bool {
        false
    }

    fn into_serializer(self) -> (s: Self::S) {
        let ghost ms = self.member_texts();
        let present_field_a = !(self.field_a.as_str().is_empty());
        let present_field_b = !(self.field_b.as_str().is_empty());
        let mut fields: Vec<(bytes::Bytes, Box<dyn Serializer>)> = Vec::new();
        if present_field_a {
            push_member(&mut fields, "renamed_a", self.field_a);
        }
        if present_field_b {
            push_member(&mut fields, "renamed_b", self.field_b);
        }
        push_member(&mut fields, "field_c", self.field_c);
        assert(members(fields@) =~= ms);
        object(fields)
    }

    fn size(&self) -> (r: Option<usize>) {
        let mut sizes = JoinedSizes::new();
        if !(self.field_a.as_str().is_empty()) {
            sizes.count_member("renamed_a", self.field_a.size(), Ghost(self.field_a.json()));
        }
        if !(self.field_b.as_str().is_empty()) {
            sizes.count_member("renamed_b", self.field_b.size(), Ghost(self.field_b.json()));
        }
        sizes.count_member("field_c", self.field_c.size(), Ghost(self.field_c.json()));
        assert(sizes.counted() =~= self.member_texts());
        sizes.object_size()
    }
}

/// One integer field, renamed and left out when zero.
pub struct IntFieldWithRenameAndSkip {
    pub value: i32,
}

impl IntFieldWithRenameAndSkip {
    /// The object's members, in field order, without those left out.
    pub open spec fn member_texts(&self) -> Seq<Seq<u8>> {
        add_member(Seq::empty(), !(self.value == 0), member_text("renamed_int"@, self.value.json()))
    }
}

/// Law: a `IntFieldWithRenameAndSkip` is written as a JSON object of its fields in order: `value` under the key `renamed_int`.
/// `value` is written exactly when `value` is not zero.
pub proof fn law_int_field_with_rename_and_skip_text(v: IntFieldWithRenameAndSkip)
    ensures
        v.json() == object_json(
            (if v.value != 0 {
                seq![member_text("renamed_int"@, v.value.json())]
            } else {
                Seq::empty()
            }),
        ),
{
    assert(v.member_texts() =~= (if v.value != 0 {
                seq![member_text("renamed_int"@, v.value.json())]
            } else {
                Seq::empty()
            }));
}

impl IntoSerializer for IntFieldWithRenameAndSkip {
    type S = DynObjectSerializer;

    open spec fn size_unknown(&self) -> bool {
        false
    }

    open spec fn json(&self) -> Seq<u8> {
        object_json(self.member_texts())
    }

    open spec fn json_fails(&self) -> bool {
        false
    }

    open spec fn size_known(&self) -> bool {
        true
    }

    open spec fn json_may_pend(&self) -> bool {
        false
    }

    fn into_serializer(self) -> (s: Self::S) {
        let ghost ms = self.member_texts();
        let present_value = !(self.value == 0);
        let mut fields: Vec<(bytes::Bytes, Box<dyn Serializer>)> = Vec::new();
        if present_value {
            push_member(&mut fields, "renamed_int", self.value);
        }
        assert(members(fields@) =~= ms);
        object(fields)
    }

    fn size(&self) -> (r: Option<usize>) {
        let mut sizes = JoinedSizes::new();
        if !(self.value == 0) {
            sizes.count_member("renamed_int", self.value.size(), Ghost(self.value.json()));
        }
        assert(sizes.counted() =~= self.member_texts());
        sizes.object_size()
    }
}

/// A person whose optional nickname is left out when absent.
pub struct WithOptionField {
    pub name: String,
    pub nickname: Option<String>,
    pub age: i32,
}

impl WithOptionField {
    /// The object's members, in field order, without those left out.
    pub open spec fn member_texts(&self) -> Seq<Seq<u8>> {
        add_member(add_member(add_member(Seq::empty(), true, member_text("name"@, self.name.json())), !(self.nickname is None), member_text("nickname"@, self.nickname.json())), true, member_text("age"@, self.age.json()))
    }
}

/// Law: a `WithOptionField` is written as a JSON object of its fields in order: `name` under the key `name`, `nickname` under the key `nickname`, `age` under the key `age`.
/// `nickname` is written exactly when `nickname` holds a value.
pub proof fn law_with_option_field_text(v: WithOptionField)
    ensures
        v.json() == object_json(
            seq![member_text("name"@, v.name.json())]
                + (if v.nickname is Some {
                seq![member_text("nickname"@, v.nickname.json())]
            } else {
                Seq::empty()
            })
                + seq![member_text("age"@, v.age.json())],
        ),
{
    assert(v.member_texts() =~= seq![member_text("name"@, v.name.json())]
                + (if v.nickname is Some {
                seq![member_text("nickname"@, v.nickname.json())]
            } else {
                Seq::empty()
            })
                + seq![member_text("age"@, v.age.json())]);
}

impl IntoSerializer for WithOptionField {
    type S = DynObjectSerializer;

    open spec fn size_unknown(&self) -> bool {
        false
    }

    open spec fn json(&self) -> Seq<u8> {
        object_json(self.member_texts())
    }

    open spec fn json_fails(&self) -> bool {
        false
    }

    open spec fn size_known(&self) -> bool {
        true
    }

    open spec fn json_may_pend(&self) -> bool {
        false
    }

    fn into_serializer(self) -> (s: Self::S) {
        let ghost ms = self.member_texts();
        let present_nickname = !(self.nickname.is_none());
        let mut fields: Vec<(bytes::Bytes, Box<dyn Serializer>)> = Vec::new();
        push_member(&mut fields, "name", self.name);
        if present_nickname {
            push_member(&mut fields, "nickname", self.nickname);
        }
        push_member(&mut fields, "age", self.age);
        assert(members(fields@) =~= ms);
        object(fields)
    }

    fn size(&self) -> (r: Option<usize>) {
        let mut sizes = JoinedSizes::new();
        sizes.count_member("name", self.name.size(), Ghost(self.name.json()));
        if !(self.nickname.is_none()) {
            sizes.count_member("nickname", self.nickname.size(), Ghost(self.nickname.json()));
        }
        sizes.count_member("age", self.age.size(), Ghost(self.age.json()));
        assert(sizes.counted() =~= self.member_texts());
        sizes.object_size()
    }
}

/// A struct whose tag list is left out when empty.
pub struct WithVecField {
    pub name: String,
    pub tags: Vec<String>,
    pub value: i32,
}

impl WithVecField {
    /// The object's members, in field order, without those left out.
    pub open spec fn member_texts(&self) -> Seq<Seq<u8>> {
        add_member(add_member(add_member(Seq::empty(), true, member_text("name"@, self.name.json())), !(self.tags@.len() == 0), member_text("tags"@, self.tags.json())), true, member_text("value"@, self.value.json()))
    }
}

/// Law: a `WithVecField` is written as a JSON object of its fields in order: `name` under the key `name`, `tags` under the key `tags`, `value` under the key `value`.
/// `tags` is written exactly when `tags` is not empty.
pub proof fn law_with_vec_field_text(v: WithVecField)
    ensures
        v.json() == object_json(
            seq![member_text("name"@, v.name.json())]
                + (if v.tags@.len() > 0 {
                seq![member_text("tags"@, v.tags.json())]
            } else {
                Seq::empty()
            })
                + seq![member_text("value"@, v.value.json())],
        ),
{
    assert(v.member_texts() =~= seq![member_text("name"@, v.name.json())]
                + (if v.tags@.len() > 0 {
                seq![member_text("tags"@, v.tags.json())]
            } else {
                Seq::empty()
            })
                + seq![member_text("value"@, v.value.json())]);
}

impl IntoSerializer for WithVecField {
    type S = DynObjectSerializer;

    open spec fn size_unknown(&self) -> bool {
        false
    }

    open spec fn json(&self) -> Seq<u8> {
        object_json(self.member_texts())
    }

    open spec fn json_fails(&self) -> bool {
        false
    }

    open spec fn size_known(&self) -> bool {
        true
    }

    open spec fn json_may_pend(&self) -> bool {
        false
    }

    fn into_serializer(self) -> (s: Self::S) {
        let ghost ms = self.member_texts();
        let present_tags = !(self.tags.is_empty());
        let mut fields: Vec<(bytes::Bytes, Box<dyn Serializer>)> = Vec::new();
        push_member(&mut fields, "name", self.name);
        if present_tags {
            push_member(&mut fields, "tags", self.tags);
        }
        push_member(&mut fields, "value", self.value);
        assert(members(fields@) =~= ms);
        object(fields)
    }

    fn size(&self) -> (r: Option<usize>) {
        let mut sizes = JoinedSizes::new();
        sizes.count_member("name", self.name.size(), Ghost(self.name.json()));
        if !(self.tags.is_empty()) {
            sizes.count_member("tags", self.tags.size(), Ghost(self.tags.json()));
        }
        sizes.count_member("value", self.value.size(), Ghost(self.value.json()));
        assert(sizes.counted() =~= self.member_texts());
        sizes.object_size()
    }
}

/// A struct with two lists, each left out when empty.
pub struct WithTwoVecFields {
    pub name: String,
    pub tags: Vec<String>,
    pub extra: Vec<String>,
    pub value: i32,
}

impl WithTwoVecFields {
    /// The object's members, in field order, without those left out.
    pub open spec fn member_texts(&self) -> Seq<Seq<u8>> {
        add_member(add_member(add_member(add_member(Seq::empty(), true, member_text("name"@, self.name.json())), !(self.tags@.len() == 0), member_text("tags"@, self.tags.json())), !(self.extra@.len() == 0), member_text("extra"@, self.extra.json())), true, member_text("value"@, self.value.json()))
    }
}

/// Law: a `WithTwoVecFields` is written as a JSON object of its fields in order: `name` under the key `name`, `tags` under the key `tags`, `extra` under the key `extra`, `value` under the key `value`.
/// `tags` is written exactly when `tags` is not empty; `extra` is written exactly when `extra` is not empty.
pub proof fn law_with_two_vec_fields_text(v: WithTwoVecFields)
    ensures
        v.json() == object_json(
            seq![member_text("name"@, v.name.json())]
                + (if v.tags@.len() > 0 {
                seq![member_text("tags"@, v.tags.json())]
            } else {
                Seq::empty()
            })
                + (if v.extra@.len() > 0 {
                seq![member_text("extra"@, v.extra.json())]
            } else {
                Seq::empty()
            })
                + seq![member_text("value"@, v.value.json())],
        ),
{
    assert(v.member_texts() =~= seq![member_text("name"@, v.name.json())]
                + (if v.tags@.len() > 0 {
                seq![member_text("tags"@, v.tags.json())]
            } else {
                Seq::empty()
            })
                + (if v.extra@.len() > 0 {
                seq![member_text("extra"@, v.extra.json())]
            } else {
                Seq::empty()
            })
                + seq![member_text("value"@, v.value.json())]);
}

impl IntoSerializer for WithTwoVecFields {
    type S = DynObjectSerializer;

    open spec fn size_unknown(&self) -> bool {
        false
    }

    open spec fn json(&self) -> Seq<u8> {
        object_json(self.member_texts())
    }

    open spec fn json_fails(&self) -> bool {
        false
    }

    open spec fn size_known(&self) -> bool {
        true
    }

    open spec fn json_may_pend(&self) -> bool {
        false
    }

    fn into_serializer(self) -> (s: Self::S) {
        let ghost ms = self.member_texts();
        let present_tags = !(self.tags.is_empty());
        let present_extra = !(self.extra.is_empty());
        let mut fields: Vec<(bytes::Bytes, Box<dyn Serializer>)> = Vec::new();
        push_member(&mut fields, "name", self.name);
        if present_tags {
            push_member(&mut fields, "tags", self.tags);
        }
        if present_extra {
            push_member(&mut fields, "extra", self.extra);
        }
        push_member(&mut fields, "value", self.value);
        assert(members(fields@) =~= ms);
        object(fields)
    }

    fn size(&self) -> (r: Option<usize>) {
        let mut sizes = JoinedSizes::new();
        sizes.count_member("name", self.name.size(), Ghost(self.name.json()));
        if !(self.tags.is_empty()) {
            sizes.count_member("tags", self.tags.size(), Ghost(self.tags.json()));
        }
        if !(self.extra.is_empty()) {
            sizes.count_member("extra", self.extra.size(), Ghost(self.extra.json()));
        }
        sizes.count_member("value", self.value.size(), Ghost(self.value.json()));
        assert(sizes.counted() =~= self.member_texts());
        sizes.object_size()
    }
}
} // verus!

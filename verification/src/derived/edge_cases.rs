//! Structs that combine nesting, lists, options, renamed keys and fields
//! left out.
use vstd::prelude::*;
use vstd::utf8::encode_utf8;

use crate::derived::members::{add_member, member_text, object, push_member, JoinedSizes};
use crate::serde::{object_json, IntoSerializer, Serializer};
use crate::std_impl::{members, DynObjectSerializer};

verus! {

/// A name and a number.
pub struct SimpleStruct {
    pub name: String,
    pub value: i32,
}

impl SimpleStruct {
    /// The object's members, in field order, without those left out.
    pub open spec fn member_texts(&self) -> Seq<Seq<u8>> {
        add_member(add_member(Seq::empty(), true, member_text("name"@, self.name.json())), true, member_text("value"@, self.value.json()))
    }
}

/// Law: a `SimpleStruct` is written as a JSON object of its fields in order: `name` under the key `name`, `value` under the key `value`.
pub proof fn law_simple_struct_text(v: SimpleStruct)
    ensures
        v.json() == object_json(
            seq![member_text("name"@, v.name.json())]
                + seq![member_text("value"@, v.value.json())],
        ),
{
    assert(v.member_texts() =~= seq![member_text("name"@, v.name.json())]
                + seq![member_text("value"@, v.value.json())]);
}

impl IntoSerializer for SimpleStruct {
    type S = DynObjectSerializer;

    open spec fn size_unknown(&self) -> bool {
        false
    }

    open spec fn json(&self) -> Seq<u8> {
        object_json(self.member_texts())
    }

    open spec fn json_fails(&self) -> bool {
        false
    }

    open spec fn size_known(&self) -> bool {
        true
    }

    open spec fn json_may_pend(&self) -> bool {
        false
    }

    fn into_serializer(self) -> (s: Self::S) {
        let ghost ms = self.member_texts();
        let mut fields: Vec<(bytes::Bytes, Box<dyn Serializer>)> = Vec::new();
        push_member(&mut fields, "name", self.name);
        push_member(&mut fields, "value", self.value);
        assert(members(fields@) =~= ms);
        object(fields)
    }

    fn size(&self) -> (r: Option<usize>) {
        let mut sizes = JoinedSizes::new();
        sizes.count_member("name", self.name.size(), Ghost(self.name.json()));
        sizes.count_member("value", self.value.size(), Ghost(self.value.json()));
        assert(sizes.counted() =~= self.member_texts());
        sizes.object_size()
    }
}

/// A simple struct with a label.
pub struct NestedStructLevel1 {
    pub inner: SimpleStruct,
    pub label: String,
}

impl NestedStructLevel1 {
    /// The object's members, in field order, without those left out.
    pub open spec fn member_texts(&self) -> Seq<Seq<u8>> {
        add_member(add_member(Seq::empty(), true, member_text("inner"@, self.inner.json())), true, member_text("label"@, self.label.json()))
    }
}

/// Law: a `NestedStructLevel1` is written as a JSON object of its fields in order: `inner` under the key `inner`, `label` under the key `label`.
pub proof fn law_nested_struct_level1_text(v: NestedStructLevel1)
    ensures
        v.json() == object_json(
            seq![member_text("inner"@, v.inner.json())]
                + seq![member_text("label"@, v.label.json())],
        ),
{
    assert(v.member_texts() =~= seq![member_text("inner"@, v.inner.json())]
                + seq![member_text("label"@, v.label.json())]);
}

impl IntoSerializer for NestedStructLevel1 {
    type S = DynObjectSerializer;

    open spec fn size_unknown(&self) -> bool {
        false
    }

    open spec fn json(&self) -> Seq<u8> {
        object_json(self.member_texts())
    }

    open spec fn json_fails(&self) -> bool {
        false
    }

    open spec fn size_known(&self) -> bool {
        true
    }

    open spec fn json_may_pend(&self) -> bool {
        false
    }

    fn into_serializer(self) -> (s: Self::S) {
        let ghost ms = self.member_texts();
        let mut fields: Vec<(bytes::Bytes, Box<dyn Serializer>)> = Vec::new();
        push_member(&mut fields, "inner", self.inner);
        push_member(&mut fields, "label", self.label);
        assert(members(fields@) =~= ms);
        object(fields)
    }

    fn size(&self) -> (r: Option<usize>) {
        let mut sizes = JoinedSizes::new();
        sizes.count_member("inner", self.inner.size(), Ghost(self.inner.json()));
        sizes.count_member("label", self.label.size(), Ghost(self.label.json()));
        assert(sizes.counted() =~= self.member_texts());
        sizes.object_size()
    }
}

/// Nested structs three levels deep.
pub struct DeeplyNested3Levels {
    pub level1: NestedStructLevel1,
    pub level2: NestedStructLevel1,
    pub level3: SimpleStruct,
}

impl DeeplyNested3Levels {
    /// The object's members, in field order, without those left out.
    pub open spec fn member_texts(&self) -> Seq<Seq<u8>> {
        add_member(add_member(add_member(Seq::empty(), true, member_text("level1"@, self.level1.json())), true, member_text("level2"@, self.level2.json())), true, member_text("level3"@, self.level3.json()))
    }
}

/// Law: a `DeeplyNested3Levels` is written as a JSON object of its fields in order: `level1` under the key `level1`, `level2` under the key `level2`, `level3` under the key `level3`.
pub proof fn law_deeply_nested3_levels_text(v: DeeplyNested3Levels)
    ensures
        v.json() == object_json(
            seq![member_text("level1"@, v.level1.json())]
                + seq![member_text("level2"@, v.level2.json())]
                + seq![member_text("level3"@, v.level3.json())],
        ),
{
    assert(v.member_texts() =~= seq![member_text("level1"@, v.level1.json())]
                + seq![member_text("level2"@, v.level2.json())]
                + seq![member_text("level3"@, v.level3.json())]);
}

impl IntoSerializer for DeeplyNested3Levels {
    type S = DynObjectSerializer;

    open spec fn size_unknown(&self) -> bool {
        false
    }

    open spec fn json(&self) -> Seq<u8> {
        object_json(self.member_texts())
    }

    open spec fn json_fails(&self) -> bool {
        false
    }

    open spec fn size_known(&self) -> bool {
        true
    }

    open spec fn json_may_pend(&self) -> bool {
        false
    }

    fn into_serializer(self) -> (s: Self::S) {
        let ghost ms = self.member_texts();
        let mut fields: Vec<(bytes::Bytes, Box<dyn Serializer>)> = Vec::new();
        push_member(&mut fields, "level1", self.level1);
        push_member(&mut fields, "level2", self.level2);
        push_member(&mut fields, "level3", self.level3);
        assert(members(fields@) =~= ms);
        object(fields)
    }

    fn size(&self) -> (r: Option<usize>) {
        let mut sizes = JoinedSizes::new();
        sizes.count_member("level1", self.level1.size(), Ghost(self.level1.json()));
        sizes.count_member("level2", self.level2.size(), Ghost(self.level2.json()));
        sizes.count_member("level3", self.level3.size(), Ghost(self.level3.json()));
        assert(sizes.counted() =~= self.member_texts());
        sizes.object_size()
    }
}

/// A person whose nickname is left out when empty.
pub struct WithSkipSerializeIf {
    pub name: String,
    pub nickname: String,
    pub age: i32,
}

impl WithSkipSerializeIf {
    /// The object's members, in field order, without those left out.
    pub open spec fn member_texts(&self) -> Seq<Seq<u8>> {
        add_member(add_member(add_member(Seq::empty(), true, member_text("name"@, self.name.json())), !(self.nickname@.len() == 0), member_text("nickname"@, self.nickname.json())), true, member_text("age"@, self.age.json()))
    }
}

/// Law: a `WithSkipSerializeIf` is written as a JSON object of its fields in order: `name` under the key `name`, `nickname` under the key `nickname`, `age` under the key `age`.
/// `nickname` is written exactly when `nickname` is not empty.
pub proof fn law_with_skip_serialize_if_text(v: WithSkipSerializeIf)
    ensures
        v.json() == object_json(
            seq![member_text("name"@, v.name.json())]
                + (if v.nickname@.len() > 0 {
                seq![member_text("nickname"@, v.nickname.json())]
            } else {
                Seq::empty()
            })
                + seq![member_text("age"@, v.age.json())],
        ),
{
    assert(v.member_texts() =~= seq![member_text("name"@, v.name.json())]
                + (if v.nickname@.len() > 0 {
                seq![member_text("nickname"@, v.nickname.json())]
            } else {
                Seq::empty()
            })
                + seq![member_text("age"@, v.age.json())]);
}

impl IntoSerializer for WithSkipSerializeIf {
    type S = DynObjectSerializer;

    open spec fn size_unknown(&self) -> bool {
        false
    }

    open spec fn json(&self) -> Seq<u8> {
        object_json(self.member_texts())
    }

    open spec fn json_fails(&self) -> bool {
        false
    }

    open spec fn size_known(&self) -> bool {
        true
    }

    open spec fn json_may_pend(&self) -> bool {
        false
    }

    fn into_serializer(self) -> (s: Self::S) {
        let ghost ms = self.member_texts();
        let present_nickname = !(self.nickname.as_str().is_empty());
        let mut fields: Vec<(bytes::Bytes, Box<dyn Serializer>)> = Vec::new();
        push_member(&mut fields, "name", self.name);
        if present_nickname {
            push_member(&mut fields, "nickname", self.nickname);
        }
        push_member(&mut fields, "age", self.age);
        assert(members(fields@) =~= ms);
        object(fields)
    }

    fn size(&self) -> (r: Option<usize>) {
        let mut sizes = JoinedSizes::new();
        sizes.count_member("name", self.name.size(), Ghost(self.name.json()));
        if !(self.nickname.as_str().is_empty()) {
            sizes.count_member("nickname", self.nickname.size(), Ghost(self.nickname.json()));
        }
        sizes.count_member("age", self.age.size(), Ghost(self.age.json()));
        assert(sizes.counted() =~= self.member_texts());
        sizes.object_size()
    }
}

/// A renamed name, left out when empty, and a number.
pub struct WithSkipAndRename {
    pub name: String,
    pub value: i32,
}

impl WithSkipAndRename {
    /// The object's members, in field order, without those left out.
    pub open spec fn member_texts(&self) -> Seq<Seq<u8>> {
        add_member(add_member(Seq::empty(), !(self.name@.len() == 0), member_text("display_name"@, self.name.json())), true, member_text("value"@, self.value.json()))
    }
}

/// Law: a `WithSkipAndRename` is written as a JSON object of its fields in order: `name` under the key `display_name`, `value` under the key `value`.
/// `name` is written exactly when `name` is not empty.
pub proof fn law_with_skip_and_rename_text(v: WithSkipAndRename)
    ensures
        v.json() == object_json(
            (if v.name@.len() > 0 {
                seq![member_text("display_name"@, v.name.json())]
            } else {
                Seq::empty()
            })
                + seq![member_text("value"@, v.value.json())],
        ),
{
    assert(v.member_texts() =~= (if v.name@.len() > 0 {
                seq![member_text("display_name"@, v.name.json())]
            } else {
                Seq::empty()
            })
                + seq![member_text("value"@, v.value.json())]);
}

impl IntoSerializer for WithSkipAndRename {
    type S = DynObjectSerializer;

    open spec fn size_unknown(&self) -> bool {
        false
    }

    open spec fn json(&self) -> Seq<u8> {
        object_json(self.member_texts())
    }

    open spec fn json_fails(&self) -> bool {
        false
    }

    open spec fn size_known(&self) -> bool {
        true
    }

    open spec fn json_may_pend(&self) -> bool {
        false
    }

    fn into_serializer(self) -> (s: Self::S) {
        let ghost ms = self.member_texts();
        let present_name = !(self.name.as_str().is_empty());
        let mut fields: Vec<(bytes::Bytes, Box<dyn Serializer>)> = Vec::new();
        if present_name {
            push_member(&mut fields, "display_name", self.name);
        }
        push_member(&mut fields, "value", self.value);
        assert(members(fields@) =~= ms);
        object(fields)
    }

    fn size(&self) -> (r: Option<usize>) {
        let mut sizes = JoinedSizes::new();
        if !(self.name.as_str().is_empty()) {
            sizes.count_member("display_name", self.name.size(), Ghost(self.name.json()));
        }
        sizes.count_member("value", self.value.size(), Ghost(self.value.json()));
        assert(sizes.counted() =~= self.member_texts());
        sizes.object_size()
    }
}

/// A list of simple structs.
pub struct VecOfStructs {
    pub items: Vec<SimpleStruct>,
}

impl VecOfStructs {
    /// The object's members, in field order, without those left out.
    pub open spec fn member_texts(&self) -> Seq<Seq<u8>> {
        add_member(Seq::empty(), true, member_text("items"@, self.items.json()))
    }
}

/// Law: a `VecOfStructs` is written as a JSON object of its fields in order: `items` under the key `items`.
pub proof fn law_vec_of_structs_text(v: VecOfStructs)
    ensures
        v.json() == object_json(
            seq![member_text("items"@, v.items.json())],
        ),
{
    assert(v.member_texts() =~= seq![member_text("items"@, v.items.json())]);
}

impl IntoSerializer for VecOfStructs {
    type S = DynObjectSerializer;

    open spec fn size_unknown(&self) -> bool {
        false
    }

    open spec fn json(&self) -> Seq<u8> {
        object_json(self.member_texts())
    }

    open spec fn json_fails(&self) -> bool {
        false
    }

    open spec fn size_known(&self) -> bool {
        true
    }

    open spec fn json_may_pend(&self) -> bool {
        false
    }

    fn into_serializer(self) -> (s: Self::S) {
        let ghost ms = self.member_texts();
        let mut fields: Vec<(bytes::Bytes, Box<dyn Serializer>)> = Vec::new();
        push_member(&mut fields, "items", self.items);
        assert(members(fields@) =~= ms);
        object(fields)
    }

    fn size(&self) -> (r: Option<usize>) {
        let mut sizes = JoinedSizes::new();
        sizes.count_member("items", self.items.size(), Ghost(self.items.json()));
        assert(sizes.counted() =~= self.member_texts());
        sizes.object_size()
    }
}

/// A list of structs with fields left out.
pub struct VecWithSkip {
    pub items: Vec<WithSkipSerializeIf>,
}

impl VecWithSkip {
    /// The object's members, in field order, without those left out.
    pub open spec fn member_texts(&self) -> Seq<Seq<u8>> {
        add_member(Seq::empty(), true, member_text("items"@, self.items.json()))
    }
}

/// Law: a `VecWithSkip` is written as a JSON object of its fields in order: `items` under the key `items`.
pub proof fn law_vec_with_skip_text(v: VecWithSkip)
    ensures
        v.json() == object_json(
            seq![member_text("items"@, v.items.json())],
        ),
{
    assert(v.member_texts() =~= seq![member_text("items"@, v.items.json())]);
}

impl IntoSerializer for VecWithSkip {
    type S = DynObjectSerializer;

    open spec fn size_unknown(&self) -> bool {
        false
    }

    open spec fn json(&self) -> Seq<u8> {
        object_json(self.member_texts())
    }

    open spec fn json_fails(&self) -> bool {
        false
    }

    open spec fn size_known(&self) -> bool {
        true
    }

    open spec fn json_may_pend(&self) -> bool {
        false
    }

    fn into_serializer(self) -> (s: Self::S) {
        let ghost ms = self.member_texts();
        let mut fields: Vec<(bytes::Bytes, Box<dyn Serializer>)> = Vec::new();
        push_member(&mut fields, "items", self.items);
        assert(members(fields@) =~= ms);
        object(fields)
    }

    fn size(&self) -> (r: Option<usize>) {
        let mut sizes = JoinedSizes::new();
        sizes.count_member("items", self.items.size(), Ghost(self.items.json()));
        assert(sizes.counted() =~= self.member_texts());
        sizes.object_size()
    }
}

/// A name and a list of numbers.
pub struct VecWrapper {
    pub name: String,
    pub items: Vec<i32>,
}

impl VecWrapper {
    /// The object's members, in field order, without those left out.
    pub open spec fn member_texts(&self) -> Seq<Seq<u8>> {
        add_member(add_member(Seq::empty(), true, member_text("name"@, self.name.json())), true, member_text("items"@, self.items.json()))
    }
}

/// Law: a `VecWrapper` is written as a JSON object of its fields in order: `name` under the key `name`, `items` under the key `items`.
pub proof fn law_vec_wrapper_text(v: VecWrapper)
    ensures
        v.json() == object_json(
            seq![member_text("name"@, v.name.json())]
                + seq![member_text("items"@, v.items.json())],
        ),
{
    assert(v.member_texts() =~= seq![member_text("name"@, v.name.json())]
                + seq![member_text("items"@, v.items.json())]);
}

impl IntoSerializer for VecWrapper {
    type S = DynObjectSerializer;

    open spec fn size_unknown(&self) -> bool {
        false
    }

    open spec fn json(&self) -> Seq<u8> {
        object_json(self.member_texts())
    }

    open spec fn json_fails(&self) -> bool {
        false
    }

    open spec fn size_known(&self) -> bool {
        true
    }

    open spec fn json_may_pend(&self) -> bool {
        false
    }

    fn into_serializer(self) -> (s: Self::S) {
        let ghost ms = self.member_texts();
        let mut fields: Vec<(bytes::Bytes, Box<dyn Serializer>)> = Vec::new();
        push_member(&mut fields, "name", self.name);
        push_member(&mut fields, "items", self.items);
        assert(members(fields@) =~= ms);
        object(fields)
    }

    fn size(&self) -> (r: Option<usize>) {
        let mut sizes = JoinedSizes::new();
        sizes.count_member("name", self.name.size(), Ghost(self.name.json()));
        sizes.count_member("items", self.items.size(), Ghost(self.items.json()));
        assert(sizes.counted() =~= self.member_texts());
        sizes.object_size()
    }
}

/// A list wrapper with a label.
pub struct NestedWithVec {
    pub outer: VecWrapper,
    pub label: String,
}

impl NestedWithVec {
    /// The object's members, in field order, without those left out.
    pub open spec fn member_texts(&self) -> Seq<Seq<u8>> {
        add_member(add_member(Seq::empty(), true, member_text("outer"@, self.outer.json())), true, member_text("label"@, self.label.json()))
    }
}

/// Law: a `NestedWithVec` is written as a JSON object of its fields in order: `outer` under the key `outer`, `label` under the key `label`.
pub proof fn law_nested_with_vec_text(v: NestedWithVec)
    ensures
        v.json() == object_json(
            seq![member_text("outer"@, v.outer.json())]
                + seq![member_text("label"@, v.label.json())],
        ),
{
    assert(v.member_texts() =~= seq![member_text("outer"@, v.outer.json())]
                + seq![member_text("label"@, v.label.json())]);
}

impl IntoSerializer for NestedWithVec {
    type S = DynObjectSerializer;

    open spec fn size_unknown(&self) -> bool {
        false
    }

    open spec fn json(&self) -> Seq<u8> {
        object_json(self.member_texts())
    }

    open spec fn json_fails(&self) -> bool {
        false
    }

    open spec fn size_known(&self) -> bool {
        true
    }

    open spec fn json_may_pend(&self) -> bool {
        false
    }

    fn into_serializer(self) -> (s: Self::S) {
        let ghost ms = self.member_texts();
        let mut fields: Vec<(bytes::Bytes, Box<dyn Serializer>)> = Vec::new();
        push_member(&mut fields, "outer", self.outer);
        push_member(&mut fields, "label", self.label);
        assert(members(fields@) =~= ms);
        object(fields)
    }

    fn size(&self) -> (r: Option<usize>) {
        let mut sizes = JoinedSizes::new();
        sizes.count_member("outer", self.outer.size(), Ghost(self.outer.json()));
        sizes.count_member("label", self.label.size(), Ghost(self.label.json()));
        assert(sizes.counted() =~= self.member_texts());
        sizes.object_size()
    }
}

/// A name and an optional number.
pub struct WithOption {
    pub name: String,
    pub value: Option<i32>,
}

impl WithOption {
    /// The object's members, in field order, without those left out.
    pub open spec fn member_texts(&self) -> Seq<Seq<u8>> {
        add_member(add_member(Seq::empty(), true, member_text("name"@, self.name.json())), true, member_text("value"@, self.value.json()))
    }
}

/// Law: a `WithOption` is written as a JSON object of its fields in order: `name` under the key `name`, `value` under the key `value`.
pub proof fn law_with_option_text(v: WithOption)
    ensures
        v.json() == object_json(
            seq![member_text("name"@, v.name.json())]
                + seq![member_text("value"@, v.value.json())],
        ),
{
    assert(v.member_texts() =~= seq![member_text("name"@, v.name.json())]
                + seq![member_text("value"@, v.value.json())]);
}

impl IntoSerializer for WithOption {
    type S = DynObjectSerializer;

    open spec fn size_unknown(&self) -> bool {
        false
    }

    open spec fn json(&self) -> Seq<u8> {
        object_json(self.member_texts())
    }

    open spec fn json_fails(&self) -> bool {
        false
    }

    open spec fn size_known(&self) -> bool {
        true
    }

    open spec fn json_may_pend(&self) -> bool {
        false
    }

    fn into_serializer(self) -> (s: Self::S) {
        let ghost ms = self.member_texts();
        let mut fields: Vec<(bytes::Bytes, Box<dyn Serializer>)> = Vec::new();
        push_member(&mut fields, "name", self.name);
        push_member(&mut fields, "value", self.value);
        assert(members(fields@) =~= ms);
        object(fields)
    }

    fn size(&self) -> (r: Option<usize>) {
        let mut sizes = JoinedSizes::new();
        sizes.count_member("name", self.name.size(), Ghost(self.name.json()));
        sizes.count_member("value", self.value.size(), Ghost(self.value.json()));
        assert(sizes.counted() =~= self.member_texts());
        sizes.object_size()
    }
}

/// An optional list of strings.
pub struct OptionVec {
    pub items: Option<Vec<String>>,
}

impl OptionVec {
    /// The object's members, in field order, without those left out.
    pub open spec fn member_texts(&self) -> Seq<Seq<u8>> {
        add_member(Seq::empty(), true, member_text("items"@, self.items.json()))
    }
}

/// Law: a `OptionVec` is written as a JSON object of its fields in order: `items` under the key `items`.
pub proof fn law_option_vec_text(v: OptionVec)
    ensures
        v.json() == object_json(
            seq![member_text("items"@, v.items.json())],
        ),
{
    assert(v.member_texts() =~= seq![member_text("items"@, v.items.json())]);
}

impl IntoSerializer for OptionVec {
    type S = DynObjectSerializer;

    open spec fn size_unknown(&self) -> bool {
        false
    }

    open spec fn json(&self) -> Seq<u8> {
        object_json(self.member_texts())
    }

    open spec fn json_fails(&self) -> bool {
        false
    }

    open spec fn size_known(&self) -> bool {
        true
    }

    open spec fn json_may_pend(&self) -> bool {
        false
    }

    fn into_serializer(self) -> (s: Self::S) {
        let ghost ms = self.member_texts();
        let mut fields: Vec<(bytes::Bytes, Box<dyn Serializer>)> = Vec::new();
        push_member(&mut fields, "items", self.items);
        assert(members(fields@) =~= ms);
        object(fields)
    }

    fn size(&self) -> (r: Option<usize>) {
        let mut sizes = JoinedSizes::new();
        sizes.count_member("items", self.items.size(), Ghost(self.items.json()));
        assert(sizes.counted() =~= self.member_texts());
        sizes.object_size()
    }
}

/// A struct with an optional number, and a tag.
pub struct NestedWithOption {
    pub inner: WithOption,
    pub tag: String,
}

impl NestedWithOption {
    /// The object's members, in field order, without those left out.
    pub open spec fn member_texts(&self) -> Seq<Seq<u8>> {
        add_member(add_member(Seq::empty(), true, member_text("inner"@, self.inner.json())), true, member_text("tag"@, self.tag.json()))
    }
}

/// Law: a `NestedWithOption` is written as a JSON object of its fields in order: `inner` under the key `inner`, `tag` under the key `tag`.
pub proof fn law_nested_with_option_text(v: NestedWithOption)
    ensures
        v.json() == object_json(
            seq![member_text("inner"@, v.inner.json())]
                + seq![member_text("tag"@, v.tag.json())],
        ),
{
    assert(v.member_texts() =~= seq![member_text("inner"@, v.inner.json())]
                + seq![member_text("tag"@, v.tag.json())]);
}

impl IntoSerializer for NestedWithOption {
    type S = DynObjectSerializer;

    open spec fn size_unknown(&self) -> bool {
        false
    }

    open spec fn json(&self) -> Seq<u8> {
        object_json(self.member_texts())
    }

    open spec fn json_fails(&self) -> bool {
        false
    }

    open spec fn size_known(&self) -> bool {
        true
    }

    open spec fn json_may_pend(&self) -> bool {
        false
    }

    fn into_serializer(self) -> (s: Self::S) {
        let ghost ms = self.member_texts();
        let mut fields: Vec<(bytes::Bytes, Box<dyn Serializer>)> = Vec::new();
        push_member(&mut fields, "inner", self.inner);
        push_member(&mut fields, "tag", self.tag);
        assert(members(fields@) =~= ms);
        object(fields)
    }

    fn size(&self) -> (r: Option<usize>) {
        let mut sizes = JoinedSizes::new();
        sizes.count_member("inner", self.inner.size(), Ghost(self.inner.json()));
        sizes.count_member("tag", self.tag.size(), Ghost(self.tag.json()));
        assert(sizes.counted() =~= self.member_texts());
        sizes.object_size()
    }
}

/// Lists, options and nested structs together.
pub struct ComplexNestedOptionSkip {
    pub items: Vec<WithSkipSerializeIf>,
    pub optional_total: Option<i32>,
    pub metadata: SimpleStruct,
}

impl ComplexNestedOptionSkip {
    /// The object's members, in field order, without those left out.
    pub open spec fn member_texts(&self) -> Seq<Seq<u8>> {
        add_member(add_member(add_member(Seq::empty(), true, member_text("items"@, self.items.json())), true, member_text("optional_total"@, self.optional_total.json())), true, member_text("metadata"@, self.metadata.json()))
    }
}

/// Law: a `ComplexNestedOptionSkip` is written as a JSON object of its fields in order: `items` under the key `items`, `optional_total` under the key `optional_total`, `metadata` under the key `metadata`.
pub proof fn law_complex_nested_option_skip_text(v: ComplexNestedOptionSkip)
    ensures
        v.json() == object_json(
            seq![member_text("items"@, v.items.json())]
                + seq![member_text("optional_total"@, v.optional_total.json())]
                + seq![member_text("metadata"@, v.metadata.json())],
        ),
{
    assert(v.member_texts() =~= seq![member_text("items"@, v.items.json())]
                + seq![member_text("optional_total"@, v.optional_total.json())]
                + seq![member_text("metadata"@, v.metadata.json())]);
}

impl IntoSerializer for ComplexNestedOptionSkip {
    type S = DynObjectSerializer;

    open spec fn size_unknown(&self) -> bool {
        false
    }

    open spec fn json(&self) -> Seq<u8> {
        object_json(self.member_texts())
    }

    open spec fn json_fails(&self) -> bool {
        false
    }

    open spec fn size_known(&self) -> bool {
        true
    }

    open spec fn json_may_pend(&self) -> bool {
        false
    }

    fn into_serializer(self) -> (s: Self::S) {
        let ghost ms = self.member_texts();
        let mut fields: Vec<(bytes::Bytes, Box<dyn Serializer>)> = Vec::new();
        push_member(&mut fields, "items", self.items);
        push_member(&mut fields, "optional_total", self.optional_total);
        push_member(&mut fields, "metadata", self.metadata);
        assert(members(fields@) =~= ms);
        object(fields)
    }

    fn size(&self) -> (r: Option<usize>) {
        let mut sizes = JoinedSizes::new();
        sizes.count_member("items", self.items.size(), Ghost(self.items.json()));
        sizes.count_member("optional_total", self.optional_total.size(), Ghost(self.optional_total.json()));
        sizes.count_member("metadata", self.metadata.size(), Ghost(self.metadata.json()));
        assert(sizes.counted() =~= self.member_texts());
        sizes.object_size()
    }
}

/// The innermost level: a number left out when zero, and a renamed name.
pub struct Level2 {
    pub value: i32,
    pub name: String,
}

impl Level2 {
    /// The object's members, in field order, without those left out.
    pub open spec fn member_texts(&self) -> Seq<Seq<u8>> {
        add_member(add_member(Seq::empty(), !(self.value == 0), member_text("value"@, self.value.json())), true, member_text("label"@, self.name.json()))
    }
}

/// Law: a `Level2` is written as a JSON object of its fields in order: `value` under the key `value`, `name` under the key `label`.
/// `value` is written exactly when `value` is not zero.
pub proof fn law_level2_text(v: Level2)
    ensures
        v.json() == object_json(
            (if v.value != 0 {
                seq![member_text("value"@, v.value.json())]
            } else {
                Seq::empty()
            })
                + seq![member_text("label"@, v.name.json())],
        ),
{
    assert(v.member_texts() =~= (if v.value != 0 {
                seq![member_text("value"@, v.value.json())]
            } else {
                Seq::empty()
            })
                + seq![member_text("label"@, v.name.json())]);
}

impl IntoSerializer for Level2 {
    type S = DynObjectSerializer;

    open spec fn size_unknown(&self) -> bool {
        false
    }

    open spec fn json(&self) -> Seq<u8> {
        object_json(self.member_texts())
    }

    open spec fn json_fails(&self) -> bool {
        false
    }

    open spec fn size_known(&self) -> bool {
        true
    }

    open spec fn json_may_pend(&self) -> bool {
        false
    }

    fn into_serializer(self) -> (s: Self::S) {
        let ghost ms = self.member_texts();
        let present_value = !(self.value == 0);
        let mut fields: Vec<(bytes::Bytes, Box<dyn Serializer>)> = Vec::new();
        if present_value {
            push_member(&mut fields, "value", self.value);
        }
        push_member(&mut fields, "label", self.name);
        assert(members(fields@) =~= ms);
        object(fields)
    }

    fn size(&self) -> (r: Option<usize>) {
        let mut sizes = JoinedSizes::new();
        if !(self.value == 0) {
            sizes.count_member("value", self.value.size(), Ghost(self.value.json()));
        }
        sizes.count_member("label", self.name.size(), Ghost(self.name.json()));
        assert(sizes.counted() =~= self.member_texts());
        sizes.object_size()
    }
}

/// The middle level, under a renamed key.
pub struct Level1 {
    pub l2: Level2,
}

impl Level1 {
    /// The object's members, in field order, without those left out.
    pub open spec fn member_texts(&self) -> Seq<Seq<u8>> {
        add_member(Seq::empty(), true, member_text("level2"@, self.l2.json()))
    }
}

/// Law: a `Level1` is written as a JSON object of its fields in order: `l2` under the key `level2`.
pub proof fn law_level1_text(v: Level1)
    ensures
        v.json() == object_json(
            seq![member_text("level2"@, v.l2.json())],
        ),
{
    assert(v.member_texts() =~= seq![member_text("level2"@, v.l2.json())]);
}

impl IntoSerializer for Level1 {
    type S = DynObjectSerializer;

    open spec fn size_unknown(&self) -> bool {
        false
    }

    open spec fn json(&self) -> Seq<u8> {
        object_json(self.member_texts())
    }

    open spec fn json_fails(&self) -> bool {
        false
    }

    open spec fn size_known(&self) -> bool {
        true
    }

    open spec fn json_may_pend(&self) -> bool {
        false
    }

    fn into_serializer(self) -> (s: Self::S) {
        let ghost ms = self.member_texts();
        let mut fields: Vec<(bytes::Bytes, Box<dyn Serializer>)> = Vec::new();
        push_member(&mut fields, "level2", self.l2);
        assert(members(fields@) =~= ms);
        object(fields)
    }

    fn size(&self) -> (r: Option<usize>) {
        let mut sizes = JoinedSizes::new();
        sizes.count_member("level2", self.l2.size(), Ghost(self.l2.json()));
        assert(sizes.counted() =~= self.member_texts());
        sizes.object_size()
    }
}

/// The outer level, under a renamed key.
pub struct DeepNestingWithSkipAndRename {
    pub l1: Level1,
}

impl DeepNestingWithSkipAndRename {
    /// The object's members, in field order, without those left out.
    pub open spec fn member_texts(&self) -> Seq<Seq<u8>> {
        add_member(Seq::empty(), true, member_text("level1"@, self.l1.json()))
    }
}

/// Law: a `DeepNestingWithSkipAndRename` is written as a JSON object of its fields in order: `l1` under the key `level1`.
pub proof fn law_deep_nesting_with_skip_and_rename_text(v: DeepNestingWithSkipAndRename)
    ensures
        v.json() == object_json(
            seq![member_text("level1"@, v.l1.json())],
        ),
{
    assert(v.member_texts() =~= seq![member_text("level1"@, v.l1.json())]);
}

impl IntoSerializer for DeepNestingWithSkipAndRename {
    type S = DynObjectSerializer;

    open spec fn size_unknown(&self) -> bool {
        false
    }

    open spec fn json(&self) -> Seq<u8> {
        object_json(self.member_texts())
    }

    open spec fn json_fails(&self) -> bool {
        false
    }

    open spec fn size_known(&self) -> bool {
        true
    }

    open spec fn json_may_pend(&self) -> bool {
        false
    }

    fn into_serializer(self) -> (s: Self::S) {
        let ghost ms = self.member_texts();
        let mut fields: Vec<(bytes::Bytes, Box<dyn Serializer>)> = Vec::new();
        push_member(&mut fields, "level1", self.l1);
        assert(members(fields@) =~= ms);
        object(fields)
    }

    fn size(&self) -> (r: Option<usize>) {
        let mut sizes = JoinedSizes::new();
        sizes.count_member("level1", self.l1.size(), Ghost(self.l1.json()));
        assert(sizes.counted() =~= self.member_texts());
        sizes.object_size()
    }
}

/// Fields of many kinds.
pub struct AllFieldTypes {
    pub string_field: String,
    pub int_field: i32,
    pub bool_field: bool,
    pub optional_int: i32,
    pub vec_field: Vec<i32>,
    pub option_field: Option<String>,
}

impl AllFieldTypes {
    /// The object's members, in field order, without those left out.
    pub open spec fn member_texts(&self) -> Seq<Seq<u8>> {
        add_member(add_member(add_member(add_member(add_member(add_member(Seq::empty(), true, member_text("string_field"@, self.string_field.json())), true, member_text("int_field"@, self.int_field.json())), true, member_text("bool_field"@, self.bool_field.json())), !(self.optional_int == 0), member_text("optional_int"@, self.optional_int.json())), true, member_text("vec_field"@, self.vec_field.json())), true, member_text("option_field"@, self.option_field.json()))
    }
}

/// Law: a `AllFieldTypes` is written as a JSON object of its fields in order: `string_field` under the key `string_field`, `int_field` under the key `int_field`, `bool_field` under the key `bool_field`, `optional_int` under the key `optional_int`, `vec_field` under the key `vec_field`, `option_field` under the key `option_field`.
/// `optional_int` is written exactly when `optional_int` is not zero.
pub proof fn law_all_field_types_text(v: AllFieldTypes)
    ensures
        v.json() == object_json(
            seq![member_text("string_field"@, v.string_field.json())]
                + seq![member_text("int_field"@, v.int_field.json())]
                + seq![member_text("bool_field"@, v.bool_field.json())]
                + (if v.optional_int != 0 {
                seq![member_text("optional_int"@, v.optional_int.json())]
            } else {
                Seq::empty()
            })
                + seq![member_text("vec_field"@, v.vec_field.json())]
                + seq![member_text("option_field"@, v.option_field.json())],
        ),
{
    assert(v.member_texts() =~= seq![member_text("string_field"@, v.string_field.json())]
                + seq![member_text("int_field"@, v.int_field.json())]
                + seq![member_text("bool_field"@, v.bool_field.json())]
                + (if v.optional_int != 0 {
                seq![member_text("optional_int"@, v.optional_int.json())]
            } else {
                Seq::empty()
            })
                + seq![member_text("vec_field"@, v.vec_field.json())]
                + seq![member_text("option_field"@, v.option_field.json())]);
}

impl IntoSerializer for AllFieldTypes {
    type S = DynObjectSerializer;

    open spec fn size_unknown(&self) -> bool {
        false
    }

    open spec fn json(&self) -> Seq<u8> {
        object_json(self.member_texts())
    }

    open spec fn json_fails(&self) -> bool {
        false
    }

    open spec fn size_known(&self) -> bool {
        true
    }

    open spec fn json_may_pend(&self) -> bool {
        false
    }

    fn into_serializer(self) -> (s: Self::S) {
        let ghost ms = self.member_texts();
        let present_optional_int = !(self.optional_int == 0);
        let mut fields: Vec<(bytes::Bytes, Box<dyn Serializer>)> = Vec::new();
        push_member(&mut fields, "string_field", self.string_field);
        push_member(&mut fields, "int_field", self.int_field);
        push_member(&mut fields, "bool_field", self.bool_field);
        if present_optional_int {
            push_member(&mut fields, "optional_int", self.optional_int);
        }
        push_member(&mut fields, "vec_field", self.vec_field);
        push_member(&mut fields, "option_field", self.option_field);
        assert(members(fields@) =~= ms);
        object(fields)
    }

    fn size(&self) -> (r: Option<usize>) {
        let mut sizes = JoinedSizes::new();
        sizes.count_member("string_field", self.string_field.size(), Ghost(self.string_field.json()));
        sizes.count_member("int_field", self.int_field.size(), Ghost(self.int_field.json()));
        sizes.count_member("bool_field", self.bool_field.size(), Ghost(self.bool_field.json()));
        if !(self.optional_int == 0) {
            sizes.count_member("optional_int", self.optional_int.size(), Ghost(self.optional_int.json()));
        }
        sizes.count_member("vec_field", self.vec_field.size(), Ghost(self.vec_field.json()));
        sizes.count_member("option_field", self.option_field.size(), Ghost(self.option_field.json()));
        assert(sizes.counted() =~= self.member_texts());
        sizes.object_size()
    }
}

/// A matrix of numbers.
pub struct VecOfVec {
    pub matrix: Vec<Vec<i32>>,
}

impl VecOfVec {
    /// The object's members, in field order, without those left out.
    pub open spec fn member_texts(&self) -> Seq<Seq<u8>> {
        add_member(Seq::empty(), true, member_text("matrix"@, self.matrix.json()))
    }
}

/// Law: a `VecOfVec` is written as a JSON object of its fields in order: `matrix` under the key `matrix`.
pub proof fn law_vec_of_vec_text(v: VecOfVec)
    ensures
        v.json() == object_json(
            seq![member_text("matrix"@, v.matrix.json())],
        ),
{
    assert(v.member_texts() =~= seq![member_text("matrix"@, v.matrix.json())]);
}

impl IntoSerializer for VecOfVec {
    type S = DynObjectSerializer;

    open spec fn size_unknown(&self) -> bool {
        false
    }

    open spec fn json(&self) -> Seq<u8> {
        object_json(self.member_texts())
    }

    open spec fn json_fails(&self) -> bool {
        false
    }

    open spec fn size_known(&self) -> bool {
        true
    }

    open spec fn json_may_pend(&self) -> bool {
        false
    }

    fn into_serializer(self) -> (s: Self::S) {
        let ghost ms = self.member_texts();
        let mut fields: Vec<(bytes::Bytes, Box<dyn Serializer>)> = Vec::new();
        push_member(&mut fields, "matrix", self.matrix);
        assert(members(fields@) =~= ms);
        object(fields)
    }

    fn size(&self) -> (r: Option<usize>) {
        let mut sizes = JoinedSizes::new();
        sizes.count_member("matrix", self.matrix.size(), Ghost(self.matrix.json()));
        assert(sizes.counted() =~= self.member_texts());
        sizes.object_size()
    }
}

/// A list of simple structs, possibly empty.
pub struct EmptyVecStruct {
    pub items: Vec<SimpleStruct>,
}

impl EmptyVecStruct {
    /// The object's members, in field order, without those left out.
    pub open spec fn member_texts(&self) -> Seq<Seq<u8>> {
        add_member(Seq::empty(), true, member_text("items"@, self.items.json()))
    }
}

/// Law: a `EmptyVecStruct` is written as a JSON object of its fields in order: `items` under the key `items`.
pub proof fn law_empty_vec_struct_text(v: EmptyVecStruct)
    ensures
        v.json() == object_json(
            seq![member_text("items"@, v.items.json())],
        ),
{
    assert(v.member_texts() =~= seq![member_text("items"@, v.items.json())]);
}

impl IntoSerializer for EmptyVecStruct {
    type S = DynObjectSerializer;

    open spec fn size_unknown(&self) -> bool {
        false
    }

    open spec fn json(&self) -> Seq<u8> {
        object_json(self.member_texts())
    }

    open spec fn json_fails(&self) -> bool {
        false
    }

    open spec fn size_known(&self) -> bool {
        true
    }

    open spec fn json_may_pend(&self) -> bool {
        false
    }

    fn into_serializer(self) -> (s: Self::S) {
        let ghost ms = self.member_texts();
        let mut fields: Vec<(bytes::Bytes, Box<dyn Serializer>)> = Vec::new();
        push_member(&mut fields, "items", self.items);
        assert(members(fields@) =~= ms);
        object(fields)
    }

    fn size(&self) -> (r: Option<usize>) {
        let mut sizes = JoinedSizes::new();
        sizes.count_member("items", self.items.size(), Ghost(self.items.json()));
        assert(sizes.counted() =~= self.member_texts());
        sizes.object_size()
    }
}

/// Empty and filled lists side by side.
pub struct MixedEmptyAndPopulatedVec {
    pub empty: Vec<i32>,
    pub populated: Vec<SimpleStruct>,
    pub another_empty: Vec<String>,
}

impl MixedEmptyAndPopulatedVec {
    /// The object's members, in field order, without those left out.
    pub open spec fn member_texts(&self) -> Seq<Seq<u8>> {
        add_member(add_member(add_member(Seq::empty(), true, member_text("empty"@, self.empty.json())), true, member_text("populated"@, self.populated.json())), true, member_text("another_empty"@, self.another_empty.json()))
    }
}

/// Law: a `MixedEmptyAndPopulatedVec` is written as a JSON object of its fields in order: `empty` under the key `empty`, `populated` under the key `populated`, `another_empty` under the key `another_empty`.
pub proof fn law_mixed_empty_and_populated_vec_text(v: MixedEmptyAndPopulatedVec)
    ensures
        v.json() == object_json(
            seq![member_text("empty"@, v.empty.json())]
                + seq![member_text("populated"@, v.populated.json())]
                + seq![member_text("another_empty"@, v.another_empty.json())],
        ),
{
    assert(v.member_texts() =~= seq![member_text("empty"@, v.empty.json())]
                + seq![member_text("populated"@, v.populated.json())]
                + seq![member_text("another_empty"@, v.another_empty.json())]);
}

impl IntoSerializer for MixedEmptyAndPopulatedVec {
    type S = DynObjectSerializer;

    open spec fn size_unknown(&self) -> bool {
        false
    }

    open spec fn json(&self) -> Seq<u8> {
        object_json(self.member_texts())
    }

    open spec fn json_fails(&self) -> bool {
        false
    }

    open spec fn size_known(&self) -> bool {
        true
    }

    open spec fn json_may_pend(&self) -> bool {
        false
    }

    fn into_serializer(self) -> (s: Self::S) {
        let ghost ms = self.member_texts();
        let mut fields: Vec<(bytes::Bytes, Box<dyn Serializer>)> = Vec::new();
        push_member(&mut fields, "empty", self.empty);
        push_member(&mut fields, "populated", self.populated);
        push_member(&mut fields, "another_empty", self.another_empty);
        assert(members(fields@) =~= ms);
        object(fields)
    }

    fn size(&self) -> (r: Option<usize>) {
        let mut sizes = JoinedSizes::new();
        sizes.count_member("empty", self.empty.size(), Ghost(self.empty.json()));
        sizes.count_member("populated", self.populated.size(), Ghost(self.populated.json()));
        sizes.count_member("another_empty", self.another_empty.size(), Ghost(self.another_empty.json()));
        assert(sizes.counted() =~= self.member_texts());
        sizes.object_size()
    }
}

/// A name and a boxed number.
pub struct WithBoxedValue {
    pub name: String,
    pub value: Box<i32>,
}

impl WithBoxedValue {
    /// The object's members, in field order, without those left out.
    pub open spec fn member_texts(&self) -> Seq<Seq<u8>> {
        add_member(add_member(Seq::empty(), true, member_text("name"@, self.name.json())), true, member_text("value"@, self.value.json()))
    }
}

/// Law: a `WithBoxedValue` is written as a JSON object of its fields in order: `name` under the key `name`, `value` under the key `value`.
pub proof fn law_with_boxed_value_text(v: WithBoxedValue)
    ensures
        v.json() == object_json(
            seq![member_text("name"@, v.name.json())]
                + seq![member_text("value"@, v.value.json())],
        ),
{
    assert(v.member_texts() =~= seq![member_text("name"@, v.name.json())]
                + seq![member_text("value"@, v.value.json())]);
}

impl IntoSerializer for WithBoxedValue {
    type S = DynObjectSerializer;

    open spec fn size_unknown(&self) -> bool {
        false
    }

    open spec fn json(&self) -> Seq<u8> {
        object_json(self.member_texts())
    }

    open spec fn json_fails(&self) -> bool {
        false
    }

    open spec fn size_known(&self) -> bool {
        true
    }

    open spec fn json_may_pend(&self) -> bool {
        false
    }

    fn into_serializer(self) -> (s: Self::S) {
        let ghost ms = self.member_texts();
        let mut fields: Vec<(bytes::Bytes, Box<dyn Serializer>)> = Vec::new();
        push_member(&mut fields, "name", self.name);
        push_member(&mut fields, "value", self.value);
        assert(members(fields@) =~= ms);
        object(fields)
    }

    fn size(&self) -> (r: Option<usize>) {
        let mut sizes = JoinedSizes::new();
        sizes.count_member("name", self.name.size(), Ghost(self.name.json()));
        sizes.count_member("value", self.value.size(), Ghost(self.value.json()));
        assert(sizes.counted() =~= self.member_texts());
        sizes.object_size()
    }
}

/// A list of boxed numbers.
pub struct VecOfBoxedValues {
    pub values: Vec<Box<i32>>,
}

impl VecOfBoxedValues {
    /// The object's members, in field order, without those left out.
    pub open spec fn member_texts(&self) -> Seq<Seq<u8>> {
        add_member(Seq::empty(), true, member_text("values"@, self.values.json()))
    }
}

/// Law: a `VecOfBoxedValues` is written as a JSON object of its fields in order: `values` under the key `values`.
pub proof fn law_vec_of_boxed_values_text(v: VecOfBoxedValues)
    ensures
        v.json() == object_json(
            seq![member_text("values"@, v.values.json())],
        ),
{
    assert(v.member_texts() =~= seq![member_text("values"@, v.values.json())]);
}

impl IntoSerializer for VecOfBoxedValues {
    type S = DynObjectSerializer;

    open spec fn size_unknown(&self) -> bool {
        false
    }

    open spec fn json(&self) -> Seq<u8> {
        object_json(self.member_texts())
    }

    open spec fn json_fails(&self) -> bool {
        false
    }

    open spec fn size_known(&self) -> bool {
        true
    }

    open spec fn json_may_pend(&self) -> bool {
        false
    }

    fn into_serializer(self) -> (s: Self::S) {
        let ghost ms = self.member_texts();
        let mut fields: Vec<(bytes::Bytes, Box<dyn Serializer>)> = Vec::new();
        push_member(&mut fields, "values", self.values);
        assert(members(fields@) =~= ms);
        object(fields)
    }

    fn size(&self) -> (r: Option<usize>) {
        let mut sizes = JoinedSizes::new();
        sizes.count_member("values", self.values.size(), Ghost(self.values.json()));
        assert(sizes.counted() =~= self.member_texts());
        sizes.object_size()
    }
}

/// Keys that need escaping.
pub struct WithSpecialChars {
    pub key1: String,
    pub key2: String,
    pub key3: String,
}

impl WithSpecialChars {
    /// The object's members, in field order, without those left out.
    pub open spec fn member_texts(&self) -> Seq<Seq<u8>> {
        add_member(add_member(add_member(Seq::empty(), true, member_text("key\"with\"quotes"@, self.key1.json())), true, member_text("key\\with\\backslashes"@, self.key2.json())), true, member_text("key\nwith\nnewlines"@, self.key3.json()))
    }
}

/// Law: a `WithSpecialChars` is written as a JSON object of its fields in order: `key1` under the key `key\"with\"quotes`, `key2` under the key `key\\with\\backslashes`, `key3` under the key `key\nwith\nnewlines`.
pub proof fn law_with_special_chars_text(v: WithSpecialChars)
    ensures
        v.json() == object_json(
            seq![member_text("key\"with\"quotes"@, v.key1.json())]
                + seq![member_text("key\\with\\backslashes"@, v.key2.json())]
                + seq![member_text("key\nwith\nnewlines"@, v.key3.json())],
        ),
{
    assert(v.member_texts() =~= seq![member_text("key\"with\"quotes"@, v.key1.json())]
                + seq![member_text("key\\with\\backslashes"@, v.key2.json())]
                + seq![member_text("key\nwith\nnewlines"@, v.key3.json())]);
}

impl IntoSerializer for WithSpecialChars {
    type S = DynObjectSerializer;

    open spec fn size_unknown(&self) -> bool {
        false
    }

    open spec fn json(&self) -> Seq<u8> {
        object_json(self.member_texts())
    }

    open spec fn json_fails(&self) -> bool {
        false
    }

    open spec fn size_known(&self) -> bool {
        true
    }

    open spec fn json_may_pend(&self) -> bool {
        false
    }

    fn into_serializer(self) -> (s: Self::S) {
        let ghost ms = self.member_texts();
        let mut fields: Vec<(bytes::Bytes, Box<dyn Serializer>)> = Vec::new();
        push_member(&mut fields, "key\"with\"quotes", self.key1);
        push_member(&mut fields, "key\\with\\backslashes", self.key2);
        push_member(&mut fields, "key\nwith\nnewlines", self.key3);
        assert(members(fields@) =~= ms);
        object(fields)
    }

    fn size(&self) -> (r: Option<usize>) {
        let mut sizes = JoinedSizes::new();
        sizes.count_member("key\"with\"quotes", self.key1.size(), Ghost(self.key1.json()));
        sizes.count_member("key\\with\\backslashes", self.key2.size(), Ghost(self.key2.json()));
        sizes.count_member("key\nwith\nnewlines", self.key3.size(), Ghost(self.key3.json()));
        assert(sizes.counted() =~= self.member_texts());
        sizes.object_size()
    }
}

/// Content left out when under 1000 bytes.
pub struct LargeStringInStruct {
    pub name: String,
    pub large_content: String,
}

impl LargeStringInStruct {
    /// The object's members, in field order, without those left out.
    pub open spec fn member_texts(&self) -> Seq<Seq<u8>> {
        add_member(add_member(Seq::empty(), true, member_text("name"@, self.name.json())), !(encode_utf8(self.large_content@).len() < 1000), member_text("large_content"@, self.large_content.json()))
    }
}

/// Law: a `LargeStringInStruct` is written as a JSON object of its fields in order: `name` under the key `name`, `large_content` under the key `large_content`.
/// `large_content` is written exactly when `large_content` takes at least 1000 bytes.
pub proof fn law_large_string_in_struct_text(v: LargeStringInStruct)
    ensures
        v.json() == object_json(
            seq![member_text("name"@, v.name.json())]
                + (if encode_utf8(v.large_content@).len() >= 1000 {
                seq![member_text("large_content"@, v.large_content.json())]
            } else {
                Seq::empty()
            }),
        ),
{
    assert(v.member_texts() =~= seq![member_text("name"@, v.name.json())]
                + (if encode_utf8(v.large_content@).len() >= 1000 {
                seq![member_text("large_content"@, v.large_content.json())]
            } else {
                Seq::empty()
            }));
}

impl IntoSerializer for LargeStringInStruct {
    type S = DynObjectSerializer;

    open spec fn size_unknown(&self) -> bool {
        false
    }

    open spec fn json(&self) -> Seq<u8> {
        object_json(self.member_texts())
    }

    open spec fn json_fails(&self) -> bool {
        false
    }

    open spec fn size_known(&self) -> bool {
        true
    }

    open spec fn json_may_pend(&self) -> bool {
        false
    }

    fn into_serializer(self) -> (s: Self::S) {
        let ghost ms = self.member_texts();
        let present_large_content = !(self.large_content.as_str().as_bytes().len() < 1000);
        let mut fields: Vec<(bytes::Bytes, Box<dyn Serializer>)> = Vec::new();
        push_member(&mut fields, "name", self.name);
        if present_large_content {
            push_member(&mut fields, "large_content", self.large_content);
        }
        assert(members(fields@) =~= ms);
        object(fields)
    }

    fn size(&self) -> (r: Option<usize>) {
        let mut sizes = JoinedSizes::new();
        sizes.count_member("name", self.name.size(), Ghost(self.name.json()));
        if !(self.large_content.as_str().as_bytes().len() < 1000) {
            sizes.count_member("large_content", self.large_content.size(), Ghost(self.large_content.json()));
        }
        assert(sizes.counted() =~= self.member_texts());
        sizes.object_size()
    }
}

/// A number left out when zero.
pub struct DeepLevel4 {
    pub value: i32,
}

impl DeepLevel4 {
    /// The object's members, in field order, without those left out.
    pub open spec fn member_texts(&self) -> Seq<Seq<u8>> {
        add_member(Seq::empty(), !(self.value == 0), member_text("value"@, self.value.json()))
    }
}

/// Law: a `DeepLevel4` is written as a JSON object of its fields in order: `value` under the key `value`.
/// `value` is written exactly when `value` is not zero.
pub proof fn law_deep_level4_text(v: DeepLevel4)
    ensures
        v.json() == object_json(
            (if v.value != 0 {
                seq![member_text("value"@, v.value.json())]
            } else {
                Seq::empty()
            }),
        ),
{
    assert(v.member_texts() =~= (if v.value != 0 {
                seq![member_text("value"@, v.value.json())]
            } else {
                Seq::empty()
            }));
}

impl IntoSerializer for DeepLevel4 {
    type S = DynObjectSerializer;

    open spec fn size_unknown(&self) -> bool {
        false
    }

    open spec fn json(&self) -> Seq<u8> {
        object_json(self.member_texts())
    }

    open spec fn json_fails(&self) -> bool {
        false
    }

    open spec fn size_known(&self) -> bool {
        true
    }

    open spec fn json_may_pend(&self) -> bool {
        false
    }

    fn into_serializer(self) -> (s: Self::S) {
        let ghost ms = self.member_texts();
        let present_value = !(self.value == 0);
        let mut fields: Vec<(bytes::Bytes, Box<dyn Serializer>)> = Vec::new();
        if present_value {
            push_member(&mut fields, "value", self.value);
        }
        assert(members(fields@) =~= ms);
        object(fields)
    }

    fn size(&self) -> (r: Option<usize>) {
        let mut sizes = JoinedSizes::new();
        if !(self.value == 0) {
            sizes.count_member("value", self.value.size(), Ghost(self.value.json()));
        }
        assert(sizes.counted() =~= self.member_texts());
        sizes.object_size()
    }
}

/// One level of nesting.
pub struct DeepLevel3 {
    pub d: DeepLevel4,
}

impl DeepLevel3 {
    /// The object's members, in field order, without those left out.
    pub open spec fn member_texts(&self) -> Seq<Seq<u8>> {
        add_member(Seq::empty(), true, member_text("d"@, self.d.json()))
    }
}

/// Law: a `DeepLevel3` is written as a JSON object of its fields in order: `d` under the key `d`.
pub proof fn law_deep_level3_text(v: DeepLevel3)
    ensures
        v.json() == object_json(
            seq![member_text("d"@, v.d.json())],
        ),
{
    assert(v.member_texts() =~= seq![member_text("d"@, v.d.json())]);
}

impl IntoSerializer for DeepLevel3 {
    type S = DynObjectSerializer;

    open spec fn size_unknown(&self) -> bool {
        false
    }

    open spec fn json(&self) -> Seq<u8> {
        object_json(self.member_texts())
    }

    open spec fn json_fails(&self) -> bool {
        false
    }

    open spec fn size_known(&self) -> bool {
        true
    }

    open spec fn json_may_pend(&self) -> bool {
        false
    }

    fn into_serializer(self) -> (s: Self::S) {
        let ghost ms = self.member_texts();
        let mut fields: Vec<(bytes::Bytes, Box<dyn Serializer>)> = Vec::new();
        push_member(&mut fields, "d", self.d);
        assert(members(fields@) =~= ms);
        object(fields)
    }

    fn size(&self) -> (r: Option<usize>) {
        let mut sizes = JoinedSizes::new();
        sizes.count_member("d", self.d.size(), Ghost(self.d.json()));
        assert(sizes.counted() =~= self.member_texts());
        sizes.object_size()
    }
}

/// Two levels of nesting.
pub struct DeepLevel2 {
    pub c: DeepLevel3,
}

impl DeepLevel2 {
    /// The object's members, in field order, without those left out.
    pub open spec fn member_texts(&self) -> Seq<Seq<u8>> {
        add_member(Seq::empty(), true, member_text("c"@, self.c.json()))
    }
}

/// Law: a `DeepLevel2` is written as a JSON object of its fields in order: `c` under the key `c`.
pub proof fn law_deep_level2_text(v: DeepLevel2)
    ensures
        v.json() == object_json(
            seq![member_text("c"@, v.c.json())],
        ),
{
    assert(v.member_texts() =~= seq![member_text("c"@, v.c.json())]);
}

impl IntoSerializer for DeepLevel2 {
    type S = DynObjectSerializer;

    open spec fn size_unknown(&self) -> bool {
        false
    }

    open spec fn json(&self) -> Seq<u8> {
        object_json(self.member_texts())
    }

    open spec fn json_fails(&self) -> bool {
        false
    }

    open spec fn size_known(&self) -> bool {
        true
    }

    open spec fn json_may_pend(&self) -> bool {
        false
    }

    fn into_serializer(self) -> (s: Self::S) {
        let ghost ms = self.member_texts();
        let mut fields: Vec<(bytes::Bytes, Box<dyn Serializer>)> = Vec::new();
        push_member(&mut fields, "c", self.c);
        assert(members(fields@) =~= ms);
        object(fields)
    }

    fn size(&self) -> (r: Option<usize>) {
        let mut sizes = JoinedSizes::new();
        sizes.count_member("c", self.c.size(), Ghost(self.c.json()));
        assert(sizes.counted() =~= self.member_texts());
        sizes.object_size()
    }
}

/// Three levels of nesting.
pub struct DeepLevel1 {
    pub b: DeepLevel2,
}

impl DeepLevel1 {
    /// The object's members, in field order, without those left out.
    pub open spec fn member_texts(&self) -> Seq<Seq<u8>> {
        add_member(Seq::empty(), true, member_text("b"@, self.b.json()))
    }
}

/// Law: a `DeepLevel1` is written as a JSON object of its fields in order: `b` under the key `b`.
pub proof fn law_deep_level1_text(v: DeepLevel1)
    ensures
        v.json() == object_json(
            seq![member_text("b"@, v.b.json())],
        ),
{
    assert(v.member_texts() =~= seq![member_text("b"@, v.b.json())]);
}

impl IntoSerializer for DeepLevel1 {
    type S = DynObjectSerializer;

    open spec fn size_unknown(&self) -> bool {
        false
    }

    open spec fn json(&self) -> Seq<u8> {
        object_json(self.member_texts())
    }

    open spec fn json_fails(&self) -> bool {
        false
    }

    open spec fn size_known(&self) -> bool {
        true
    }

    open spec fn json_may_pend(&self) -> bool {
        false
    }

    fn into_serializer(self) -> (s: Self::S) {
        let ghost ms = self.member_texts();
        let mut fields: Vec<(bytes::Bytes, Box<dyn Serializer>)> = Vec::new();
        push_member(&mut fields, "b", self.b);
        assert(members(fields@) =~= ms);
        object(fields)
    }

    fn size(&self) -> (r: Option<usize>) {
        let mut sizes = JoinedSizes::new();
        sizes.count_member("b", self.b.size(), Ghost(self.b.json()));
        assert(sizes.counted() =~= self.member_texts());
        sizes.object_size()
    }
}

/// Four levels of nesting.
pub struct VeryDeepNesting {
    pub a: DeepLevel1,
}

impl VeryDeepNesting {
    /// The object's members, in field order, without those left out.
    pub open spec fn member_texts(&self) -> Seq<Seq<u8>> {
        add_member(Seq::empty(), true, member_text("a"@, self.a.json()))
    }
}

/// Law: a `VeryDeepNesting` is written as a JSON object of its fields in order: `a` under the key `a`.
pub proof fn law_very_deep_nesting_text(v: VeryDeepNesting)
    ensures
        v.json() == object_json(
            seq![member_text("a"@, v.a.json())],
        ),
{
    assert(v.member_texts() =~= seq![member_text("a"@, v.a.json())]);
}

impl IntoSerializer for VeryDeepNesting {
    type S = DynObjectSerializer;

    open spec fn size_unknown(&self) -> bool {
        false
    }

    open spec fn json(&self) -> Seq<u8> {
        object_json(self.member_texts())
    }

    open spec fn json_fails(&self) -> bool {
        false
    }

    open spec fn size_known(&self) -> bool {
        true
    }

    open spec fn json_may_pend(&self) -> bool {
        false
    }

    fn into_serializer(self) -> (s: Self::S) {
        let ghost ms = self.member_texts();
        let mut fields: Vec<(bytes::Bytes, Box<dyn Serializer>)> = Vec::new();
        push_member(&mut fields, "a", self.a);
        assert(members(fields@) =~= ms);
        object(fields)
    }

    fn size(&self) -> (r: Option<usize>) {
        let mut sizes = JoinedSizes::new();
        sizes.count_member("a", self.a.size(), Ghost(self.a.json()));
        assert(sizes.counted() =~= self.member_texts());
        sizes.object_size()
    }
}

/// A list left out when empty.
pub struct SkipConditionWithVec {
    pub name: String,
    pub items: Vec<i32>,
    pub value: i32,
}

impl SkipConditionWithVec {
    /// The object's members, in field order, without those left out.
    pub open spec fn member_texts(&self) -> Seq<Seq<u8>> {
        add_member(add_member(add_member(Seq::empty(), true, member_text("name"@, self.name.json())), !(self.items@.len() == 0), member_text("items"@, self.items.json())), true, member_text("value"@, self.value.json()))
    }
}

/// Law: a `SkipConditionWithVec` is written as a JSON object of its fields in order: `name` under the key `name`, `items` under the key `items`, `value` under the key `value`.
/// `items` is written exactly when `items` is not empty.
pub proof fn law_skip_condition_with_vec_text(v: SkipConditionWithVec)
    ensures
        v.json() == object_json(
            seq![member_text("name"@, v.name.json())]
                + (if v.items@.len() > 0 {
                seq![member_text("items"@, v.items.json())]
            } else {
                Seq::empty()
            })
                + seq![member_text("value"@, v.value.json())],
        ),
{
    assert(v.member_texts() =~= seq![member_text("name"@, v.name.json())]
                + (if v.items@.len() > 0 {
                seq![member_text("items"@, v.items.json())]
            } else {
                Seq::empty()
            })
                + seq![member_text("value"@, v.value.json())]);
}

impl IntoSerializer for SkipConditionWithVec {
    type S = DynObjectSerializer;

    open spec fn size_unknown(&self) -> bool {
        false
    }

    open spec fn json(&self) -> Seq<u8> {
        object_json(self.member_texts())
    }

    open spec fn json_fails(&self) -> bool {
        false
    }

    open spec fn size_known(&self) -> bool {
        true
    }

    open spec fn json_may_pend(&self) -> bool {
        false
    }

    fn into_serializer(self) -> (s: Self::S) {
        let ghost ms = self.member_texts();
        let present_items = !(self.items.is_empty());
        let mut fields: Vec<(bytes::Bytes, Box<dyn Serializer>)> = Vec::new();
        push_member(&mut fields, "name", self.name);
        if present_items {
            push_member(&mut fields, "items", self.items);
        }
        push_member(&mut fields, "value", self.value);
        assert(members(fields@) =~= ms);
        object(fields)
    }

    fn size(&self) -> (r: Option<usize>) {
        let mut sizes = JoinedSizes::new();
        sizes.count_member("name", self.name.size(), Ghost(self.name.json()));
        if !(self.items.is_empty()) {
            sizes.count_member("items", self.items.size(), Ghost(self.items.json()));
        }
        sizes.count_member("value", self.value.size(), Ghost(self.value.json()));
        assert(sizes.counted() =~= self.member_texts());
        sizes.object_size()
    }
}
} // verus!

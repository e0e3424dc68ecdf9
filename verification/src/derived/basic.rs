//! Plain structs: named fields become objects, tuple structs arrays, and
//! a single-field tuple struct stands for its field.
use vstd::prelude::*;

use crate::derived::members::{
    add_member, array, member_text, object, push_element, push_member, JoinedSizes,
};
use crate::text::json_string;
use crate::serde::{array_json, object_json, IntoSerializer, Serializer};
use crate::std_impl::{members, remainings, DynArraySerializer, DynObjectSerializer};

verus! {

/// A person: a name and an age.
pub struct Person {
    pub name: String,
    pub age: i32,
}

impl Person {
    /// The object's members, in field order, without those left out.
    pub open spec fn member_texts(&self) -> Seq<Seq<u8>> {
        add_member(add_member(Seq::empty(), true, member_text("name"@, self.name.json())), true, member_text("age"@, self.age.json()))
    }
}

/// Law: a `Person` is written as a JSON object of its fields in order: `name` under the key `name`, `age` under the key `age`.
pub proof fn law_person_text(v: Person)
    ensures
        v.json() == object_json(
            seq![member_text("name"@, v.name.json())]
                + seq![member_text("age"@, v.age.json())],
        ),
{
    assert(v.member_texts() =~= seq![member_text("name"@, v.name.json())]
                + seq![member_text("age"@, v.age.json())]);
}

impl IntoSerializer for Person {
    type S = DynObjectSerializer;

    open spec fn size_unknown(&self) -> bool {
        false
    }

    open spec fn json(&self) -> Seq<u8> {
        object_json(self.member_texts())
    }

    open spec fn json_fails(&self) -> bool {
        false
    }

    open spec fn size_known(&self) -> bool {
        true
    }

    open spec fn json_may_pend(&self) -> bool {
        false
    }

    fn into_serializer(self) -> (s: Self::S) {
        let ghost ms = self.member_texts();
        let mut fields: Vec<(bytes::Bytes, Box<dyn Serializer>)> = Vec::new();
        push_member(&mut fields, "name", self.name);
        push_member(&mut fields, "age", self.age);
        assert(members(fields@) =~= ms);
        object(fields)
    }

    fn size(&self) -> (r: Option<usize>) {
        let mut sizes = JoinedSizes::new();
        sizes.count_member("name", self.name.size(), Ghost(self.name.json()));
        sizes.count_member("age", self.age.size(), Ghost(self.age.json()));
        assert(sizes.counted() =~= self.member_texts());
        sizes.object_size()
    }
}

/// A person with a public serializer type.
pub struct PublicPerson {
    pub name: String,
    pub age: i32,
}

impl PublicPerson {
    /// The object's members, in field order, without those left out.
    pub open spec fn member_texts(&self) -> Seq<Seq<u8>> {
        add_member(add_member(Seq::empty(), true, member_text("name"@, self.name.json())), true, member_text("age"@, self.age.json()))
    }
}

/// Law: a `PublicPerson` is written as a JSON object of its fields in order: `name` under the key `name`, `age` under the key `age`.
pub proof fn law_public_person_text(v: PublicPerson)
    ensures
        v.json() == object_json(
            seq![member_text("name"@, v.name.json())]
                + seq![member_text("age"@, v.age.json())],
        ),
{
    assert(v.member_texts() =~= seq![member_text("name"@, v.name.json())]
                + seq![member_text("age"@, v.age.json())]);
}

impl IntoSerializer for PublicPerson {
    type S = DynObjectSerializer;

    open spec fn size_unknown(&self) -> bool {
        false
    }

    open spec fn json(&self) -> Seq<u8> {
        object_json(self.member_texts())
    }

    open spec fn json_fails(&self) -> bool {
        false
    }

    open spec fn size_known(&self) -> bool {
        true
    }

    open spec fn json_may_pend(&self) -> bool {
        false
    }

    fn into_serializer(self) -> (s: Self::S) {
        let ghost ms = self.member_texts();
        let mut fields: Vec<(bytes::Bytes, Box<dyn Serializer>)> = Vec::new();
        push_member(&mut fields, "name", self.name);
        push_member(&mut fields, "age", self.age);
        assert(members(fields@) =~= ms);
        object(fields)
    }

    fn size(&self) -> (r: Option<usize>) {
        let mut sizes = JoinedSizes::new();
        sizes.count_member("name", self.name.size(), Ghost(self.name.json()));
        sizes.count_member("age", self.age.size(), Ghost(self.age.json()));
        assert(sizes.counted() =~= self.member_texts());
        sizes.object_size()
    }
}

/// A person whose fields are written under other keys.
pub struct RenamedPerson {
    pub name: String,
    pub age: i32,
}

impl RenamedPerson {
    /// The object's members, in field order, without those left out.
    pub open spec fn member_texts(&self) -> Seq<Seq<u8>> {
        add_member(add_member(Seq::empty(), true, member_text("user_name"@, self.name.json())), true, member_text("user_age"@, self.age.json()))
    }
}

/// Law: a `RenamedPerson` is written as a JSON object of its fields in order: `name` under the key `user_name`, `age` under the key `user_age`.
pub proof fn law_renamed_person_text(v: RenamedPerson)
    ensures
        v.json() == object_json(
            seq![member_text("user_name"@, v.name.json())]
                + seq![member_text("user_age"@, v.age.json())],
        ),
{
    assert(v.member_texts() =~= seq![member_text("user_name"@, v.name.json())]
                + seq![member_text("user_age"@, v.age.json())]);
}

impl IntoSerializer for RenamedPerson {
    type S = DynObjectSerializer;

    open spec fn size_unknown(&self) -> bool {
        false
    }

    open spec fn json(&self) -> Seq<u8> {
        object_json(self.member_texts())
    }

    open spec fn json_fails(&self) -> bool {
        false
    }

    open spec fn size_known(&self) -> bool {
        true
    }

    open spec fn json_may_pend(&self) -> bool {
        false
    }

    fn into_serializer(self) -> (s: Self::S) {
        let ghost ms = self.member_texts();
        let mut fields: Vec<(bytes::Bytes, Box<dyn Serializer>)> = Vec::new();
        push_member(&mut fields, "user_name", self.name);
        push_member(&mut fields, "user_age", self.age);
        assert(members(fields@) =~= ms);
        object(fields)
    }

    fn size(&self) -> (r: Option<usize>) {
        let mut sizes = JoinedSizes::new();
        sizes.count_member("user_name", self.name.size(), Ghost(self.name.json()));
        sizes.count_member("user_age", self.age.size(), Ghost(self.age.json()));
        assert(sizes.counted() =~= self.member_texts());
        sizes.object_size()
    }
}

/// A person with a label.
pub struct NestedStruct {
    pub inner: Person,
    pub label: String,
}

impl NestedStruct {
    /// The object's members, in field order, without those left out.
    pub open spec fn member_texts(&self) -> Seq<Seq<u8>> {
        add_member(add_member(Seq::empty(), true, member_text("inner"@, self.inner.json())), true, member_text("label"@, self.label.json()))
    }
}

/// Law: a `NestedStruct` is written as a JSON object of its fields in order: `inner` under the key `inner`, `label` under the key `label`.
pub proof fn law_nested_struct_text(v: NestedStruct)
    ensures
        v.json() == object_json(
            seq![member_text("inner"@, v.inner.json())]
                + seq![member_text("label"@, v.label.json())],
        ),
{
    assert(v.member_texts() =~= seq![member_text("inner"@, v.inner.json())]
                + seq![member_text("label"@, v.label.json())]);
}

impl IntoSerializer for NestedStruct {
    type S = DynObjectSerializer;

    open spec fn size_unknown(&self) -> bool {
        false
    }

    open spec fn json(&self) -> Seq<u8> {
        object_json(self.member_texts())
    }

    open spec fn json_fails(&self) -> bool {
        false
    }

    open spec fn size_known(&self) -> bool {
        true
    }

    open spec fn json_may_pend(&self) -> bool {
        false
    }

    fn into_serializer(self) -> (s: Self::S) {
        let ghost ms = self.member_texts();
        let mut fields: Vec<(bytes::Bytes, Box<dyn Serializer>)> = Vec::new();
        push_member(&mut fields, "inner", self.inner);
        push_member(&mut fields, "label", self.label);
        assert(members(fields@) =~= ms);
        object(fields)
    }

    fn size(&self) -> (r: Option<usize>) {
        let mut sizes = JoinedSizes::new();
        sizes.count_member("inner", self.inner.size(), Ghost(self.inner.json()));
        sizes.count_member("label", self.label.size(), Ghost(self.label.json()));
        assert(sizes.counted() =~= self.member_texts());
        sizes.object_size()
    }
}

/// Two labelled persons.
pub struct DeeplyNested {
    pub level1: NestedStruct,
    pub level2: NestedStruct,
}

impl DeeplyNested {
    /// The object's members, in field order, without those left out.
    pub open spec fn member_texts(&self) -> Seq<Seq<u8>> {
        add_member(add_member(Seq::empty(), true, member_text("level1"@, self.level1.json())), true, member_text("level2"@, self.level2.json()))
    }
}

/// Law: a `DeeplyNested` is written as a JSON object of its fields in order: `level1` under the key `level1`, `level2` under the key `level2`.
pub proof fn law_deeply_nested_text(v: DeeplyNested)
    ensures
        v.json() == object_json(
            seq![member_text("level1"@, v.level1.json())]
                + seq![member_text("level2"@, v.level2.json())],
        ),
{
    assert(v.member_texts() =~= seq![member_text("level1"@, v.level1.json())]
                + seq![member_text("level2"@, v.level2.json())]);
}

impl IntoSerializer for DeeplyNested {
    type S = DynObjectSerializer;

    open spec fn size_unknown(&self) -> bool {
        false
    }

    open spec fn json(&self) -> Seq<u8> {
        object_json(self.member_texts())
    }

    open spec fn json_fails(&self) -> bool {
        false
    }

    open spec fn size_known(&self) -> bool {
        true
    }

    open spec fn json_may_pend(&self) -> bool {
        false
    }

    fn into_serializer(self) -> (s: Self::S) {
        let ghost ms = self.member_texts();
        let mut fields: Vec<(bytes::Bytes, Box<dyn Serializer>)> = Vec::new();
        push_member(&mut fields, "level1", self.level1);
        push_member(&mut fields, "level2", self.level2);
        assert(members(fields@) =~= ms);
        object(fields)
    }

    fn size(&self) -> (r: Option<usize>) {
        let mut sizes = JoinedSizes::new();
        sizes.count_member("level1", self.level1.size(), Ghost(self.level1.json()));
        sizes.count_member("level2", self.level2.size(), Ghost(self.level2.json()));
        assert(sizes.counted() =~= self.member_texts());
        sizes.object_size()
    }
}

/// A point, written as a two-element array.
pub struct Point(pub i32, pub i32);

impl Point {
    /// The array's elements, in field order.
    pub open spec fn element_texts(&self) -> Seq<Seq<u8>> {
        seq![self.0.json(), self.1.json()]
    }
}

/// Law: a `Point` is written as a JSON array of its fields in order.
pub proof fn law_point_text(v: Point)
    ensures
        v.json() == array_json(seq![v.0.json(), v.1.json()]),
{
    assert(v.element_texts() =~= seq![v.0.json(), v.1.json()]);
}

impl IntoSerializer for Point {
    type S = DynArraySerializer;

    open spec fn size_unknown(&self) -> bool {
        false
    }

    open spec fn json(&self) -> Seq<u8> {
        array_json(self.element_texts())
    }

    open spec fn json_fails(&self) -> bool {
        false
    }

    open spec fn size_known(&self) -> bool {
        true
    }

    open spec fn json_may_pend(&self) -> bool {
        false
    }

    fn into_serializer(self) -> (s: Self::S) {
        let ghost es = self.element_texts();
        let mut items: Vec<Box<dyn Serializer>> = Vec::new();
        push_element(&mut items, self.0);
        push_element(&mut items, self.1);
        assert(remainings(items@) =~= es);
        array(items)
    }

    fn size(&self) -> (r: Option<usize>) {
        let mut sizes = JoinedSizes::new();
        sizes.count_element(self.0.size(), Ghost(self.0.json()));
        sizes.count_element(self.1.size(), Ghost(self.1.json()));
        assert(sizes.counted() =~= self.element_texts());
        sizes.array_size()
    }
}

/// A struct without fields, written as an empty object.
pub struct EmptyStruct {
}

impl EmptyStruct {
    /// The object's members, in field order, without those left out.
    pub open spec fn member_texts(&self) -> Seq<Seq<u8>> {
        Seq::empty()
    }
}

/// Law: a `EmptyStruct` is written as the empty object `{}`.
pub proof fn law_empty_struct_text(v: EmptyStruct)
    ensures
        v.json() == seq![123u8, 125u8],
{
}

impl IntoSerializer for EmptyStruct {
    type S = DynObjectSerializer;

    open spec fn size_unknown(&self) -> bool {
        false
    }

    open spec fn json(&self) -> Seq<u8> {
        object_json(self.member_texts())
    }

    open spec fn json_fails(&self) -> bool {
        false
    }

    open spec fn size_known(&self) -> bool {
        true
    }

    open spec fn json_may_pend(&self) -> bool {
        false
    }

    fn into_serializer(self) -> (s: Self::S) {
        let ghost ms = self.member_texts();
        let mut fields: Vec<(bytes::Bytes, Box<dyn Serializer>)> = Vec::new();
        assert(members(fields@) =~= ms);
        object(fields)
    }

    fn size(&self) -> (r: Option<usize>) {
        let mut sizes = JoinedSizes::new();
        assert(sizes.counted() =~= self.member_texts());
        sizes.object_size()
    }
}

/// A unit struct, written as an empty object.
pub struct UnitStruct;

impl UnitStruct {
    /// The object's members, in field order, without those left out.
    pub open spec fn member_texts(&self) -> Seq<Seq<u8>> {
        Seq::empty()
    }
}

/// Law: a `UnitStruct` is written as the empty object `{}`.
pub proof fn law_unit_struct_text(v: UnitStruct)
    ensures
        v.json() == seq![123u8, 125u8],
{
}

impl IntoSerializer for UnitStruct {
    type S = DynObjectSerializer;

    open spec fn size_unknown(&self) -> bool {
        false
    }

    open spec fn json(&self) -> Seq<u8> {
        object_json(self.member_texts())
    }

    open spec fn json_fails(&self) -> bool {
        false
    }

    open spec fn size_known(&self) -> bool {
        true
    }

    open spec fn json_may_pend(&self) -> bool {
        false
    }

    fn into_serializer(self) -> (s: Self::S) {
        let ghost ms = self.member_texts();
        let mut fields: Vec<(bytes::Bytes, Box<dyn Serializer>)> = Vec::new();
        assert(members(fields@) =~= ms);
        object(fields)
    }

    fn size(&self) -> (r: Option<usize>) {
        let mut sizes = JoinedSizes::new();
        assert(sizes.counted() =~= self.member_texts());
        sizes.object_size()
    }
}

/// A string wrapper, written as the string itself.
pub struct NewtypeStruct(pub String);

/// Law: a `NewtypeStruct` is written as its string itself, with no object around it.
pub proof fn law_newtype_struct_text(v: NewtypeStruct)
    ensures
        v.json() == json_string(v.0@),
{
}

impl IntoSerializer for NewtypeStruct {
    type S = <String as IntoSerializer>::S;

    open spec fn size_unknown(&self) -> bool {
        false
    }

    open spec fn json(&self) -> Seq<u8> {
        self.0.json()
    }

    open spec fn json_fails(&self) -> bool {
        self.0.json_fails()
    }

    open spec fn size_known(&self) -> bool {
        self.0.size_known()
    }

    open spec fn json_may_pend(&self) -> bool {
        self.0.json_may_pend()
    }

    fn into_serializer(self) -> (s: Self::S) {
        self.0.into_serializer()
    }

    fn size(&self) -> (r: Option<usize>) {
        self.0.size()
    }
}

/// A single number.
pub struct SingleFieldStruct {
    pub value: i32,
}

impl SingleFieldStruct {
    /// The object's members, in field order, without those left out.
    pub open spec fn member_texts(&self) -> Seq<Seq<u8>> {
        add_member(Seq::empty(), true, member_text("value"@, self.value.json()))
    }
}

/// Law: a `SingleFieldStruct` is written as a JSON object of its fields in order: `value` under the key `value`.
pub proof fn law_single_field_struct_text(v: SingleFieldStruct)
    ensures
        v.json() == object_json(
            seq![member_text("value"@, v.value.json())],
        ),
{
    assert(v.member_texts() =~= seq![member_text("value"@, v.value.json())]);
}

impl IntoSerializer for SingleFieldStruct {
    type S = DynObjectSerializer;

    open spec fn size_unknown(&self) -> bool {
        false
    }

    open spec fn json(&self) -> Seq<u8> {
        object_json(self.member_texts())
    }

    open spec fn json_fails(&self) -> bool {
        false
    }

    open spec fn size_known(&self) -> bool {
        true
    }

    open spec fn json_may_pend(&self) -> bool {
        false
    }

    fn into_serializer(self) -> (s: Self::S) {
        let ghost ms = self.member_texts();
        let mut fields: Vec<(bytes::Bytes, Box<dyn Serializer>)> = Vec::new();
        push_member(&mut fields, "value", self.value);
        assert(members(fields@) =~= ms);
        object(fields)
    }

    fn size(&self) -> (r: Option<usize>) {
        let mut sizes = JoinedSizes::new();
        sizes.count_member("value", self.value.size(), Ghost(self.value.json()));
        assert(sizes.counted() =~= self.member_texts());
        sizes.object_size()
    }
}

/// A string wrapper, written as the string itself.
pub struct UnitStructWrapper(pub String);

/// Law: a `UnitStructWrapper` is written as its string itself, with no object around it.
pub proof fn law_unit_struct_wrapper_text(v: UnitStructWrapper)
    ensures
        v.json() == json_string(v.0@),
{
}

impl IntoSerializer for UnitStructWrapper {
    type S = <String as IntoSerializer>::S;

    open spec fn size_unknown(&self) -> bool {
        false
    }

    open spec fn json(&self) -> Seq<u8> {
        self.0.json()
    }

    open spec fn json_fails(&self) -> bool {
        self.0.json_fails()
    }

    open spec fn size_known(&self) -> bool {
        self.0.size_known()
    }

    open spec fn json_may_pend(&self) -> bool {
        self.0.json_may_pend()
    }

    fn into_serializer(self) -> (s: Self::S) {
        self.0.into_serializer()
    }

    fn size(&self) -> (r: Option<usize>) {
        self.0.size()
    }
}

/// A string and a number, written as an array.
pub struct UnitStructWrapperMulti(pub String, pub i32);

impl UnitStructWrapperMulti {
    /// The array's elements, in field order.
    pub open spec fn element_texts(&self) -> Seq<Seq<u8>> {
        seq![self.0.json(), self.1.json()]
    }
}

/// Law: a `UnitStructWrapperMulti` is written as a JSON array of its fields in order.
pub proof fn law_unit_struct_wrapper_multi_text(v: UnitStructWrapperMulti)
    ensures
        v.json() == array_json(seq![v.0.json(), v.1.json()]),
{
    assert(v.element_texts() =~= seq![v.0.json(), v.1.json()]);
}

impl IntoSerializer for UnitStructWrapperMulti {
    type S = DynArraySerializer;

    open spec fn size_unknown(&self) -> bool {
        false
    }

    open spec fn json(&self) -> Seq<u8> {
        array_json(self.element_texts())
    }

    open spec fn json_fails(&self) -> bool {
        false
    }

    open spec fn size_known(&self) -> bool {
        true
    }

    open spec fn json_may_pend(&self) -> bool {
        false
    }

    fn into_serializer(self) -> (s: Self::S) {
        let ghost es = self.element_texts();
        let mut items: Vec<Box<dyn Serializer>> = Vec::new();
        push_element(&mut items, self.0);
        push_element(&mut items, self.1);
        assert(remainings(items@) =~= es);
        array(items)
    }

    fn size(&self) -> (r: Option<usize>) {
        let mut sizes = JoinedSizes::new();
        sizes.count_element(self.0.size(), Ghost(self.0.json()));
        sizes.count_element(self.1.size(), Ghost(self.1.json()));
        assert(sizes.counted() =~= self.element_texts());
        sizes.array_size()
    }
}

/// A wrapped string under another key.
pub struct UnitStructWrapperWithRename {
    pub inner: UnitStructWrapper,
}

impl UnitStructWrapperWithRename {
    /// The object's members, in field order, without those left out.
    pub open spec fn member_texts(&self) -> Seq<Seq<u8>> {
        add_member(Seq::empty(), true, member_text("wrapped"@, self.inner.json()))
    }
}

/// Law: a `UnitStructWrapperWithRename` is written as a JSON object of its fields in order: `inner` under the key `wrapped`.
pub proof fn law_unit_struct_wrapper_with_rename_text(v: UnitStructWrapperWithRename)
    ensures
        v.json() == object_json(
            seq![member_text("wrapped"@, v.inner.json())],
        ),
{
    assert(v.member_texts() =~= seq![member_text("wrapped"@, v.inner.json())]);
}

impl IntoSerializer for UnitStructWrapperWithRename {
    type S = DynObjectSerializer;

    open spec fn size_unknown(&self) -> bool {
        false
    }

    open spec fn json(&self) -> Seq<u8> {
        object_json(self.member_texts())
    }

    open spec fn json_fails(&self) -> bool {
        false
    }

    open spec fn size_known(&self) -> bool {
        true
    }

    open spec fn json_may_pend(&self) -> bool {
        false
    }

    fn into_serializer(self) -> (s: Self::S) {
        let ghost ms = self.member_texts();
        let mut fields: Vec<(bytes::Bytes, Box<dyn Serializer>)> = Vec::new();
        push_member(&mut fields, "wrapped", self.inner);
        assert(members(fields@) =~= ms);
        object(fields)
    }

    fn size(&self) -> (r: Option<usize>) {
        let mut sizes = JoinedSizes::new();
        sizes.count_member("wrapped", self.inner.size(), Ghost(self.inner.json()));
        assert(sizes.counted() =~= self.member_texts());
        sizes.object_size()
    }
}

/// The serializer of a [`PublicPerson`].
pub fn public_person_serializer(person: PublicPerson) -> (s: DynObjectSerializer)
    ensures
        s.inv(),
        s.remaining() == person.json(),
        !s.fails(),
{
    person.into_serializer()
}

} // verus!

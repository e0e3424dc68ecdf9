//! Structs holding containers.
use vstd::prelude::*;
use vstd::utf8::encode_utf8;

use crate::derived::members::{add_member, member_text, object, push_member, JoinedSizes};
use crate::serde::{object_json, IntoSerializer, Serializer};
use crate::std_impl::{members, DynObjectSerializer};

verus! {

/// A name and a list of numbers.
pub struct VecWrapper {
    pub name: String,
    pub items: Vec<i32>,
}

impl VecWrapper {
    /// The object's members, in field order, without those left out.
    pub open spec fn member_texts(&self) -> Seq<Seq<u8>> {
        add_member(add_member(Seq::empty(), true, member_text("name"@, self.name.json())), true, member_text("items"@, self.items.json()))
    }
}

/// Law: a `VecWrapper` is written as a JSON object of its fields in order: `name` under the key `name`, `items` under the key `items`.
pub proof fn law_vec_wrapper_text(v: VecWrapper)
    ensures
        v.json() == object_json(
            seq![member_text("name"@, v.name.json())]
                + seq![member_text("items"@, v.items.json())],
        ),
{
    assert(v.member_texts() =~= seq![member_text("name"@, v.name.json())]
                + seq![member_text("items"@, v.items.json())]);
}

impl IntoSerializer for VecWrapper {
    type S = DynObjectSerializer;

    open spec fn size_unknown(&self) -> bool {
        false
    }

    open spec fn json(&self) -> Seq<u8> {
        object_json(self.member_texts())
    }

    open spec fn json_fails(&self) -> bool {
        false
    }

    open spec fn size_known(&self) -> bool {
        true
    }

    open spec fn json_may_pend(&self) -> bool {
        false
    }

    fn into_serializer(self) -> (s: Self::S) {
        let ghost ms = self.member_texts();
        let mut fields: Vec<(bytes::Bytes, Box<dyn Serializer>)> = Vec::new();
        push_member(&mut fields, "name", self.name);
        push_member(&mut fields, "items", self.items);
        assert(members(fields@) =~= ms);
        object(fields)
    }

    fn size(&self) -> (r: Option<usize>) {
        let mut sizes = JoinedSizes::new();
        sizes.count_member("name", self.name.size(), Ghost(self.name.json()));
        sizes.count_member("items", self.items.size(), Ghost(self.items.json()));
        assert(sizes.counted() =~= self.member_texts());
        sizes.object_size()
    }
}

/// A name and an optional number.
pub struct OptionWrapper {
    pub name: String,
    pub value: Option<i32>,
}

impl OptionWrapper {
    /// The object's members, in field order, without those left out.
    pub open spec fn member_texts(&self) -> Seq<Seq<u8>> {
        add_member(add_member(Seq::empty(), true, member_text("name"@, self.name.json())), true, member_text("value"@, self.value.json()))
    }
}

/// Law: a `OptionWrapper` is written as a JSON object of its fields in order: `name` under the key `name`, `value` under the key `value`.
pub proof fn law_option_wrapper_text(v: OptionWrapper)
    ensures
        v.json() == object_json(
            seq![member_text("name"@, v.name.json())]
                + seq![member_text("value"@, v.value.json())],
        ),
{
    assert(v.member_texts() =~= seq![member_text("name"@, v.name.json())]
                + seq![member_text("value"@, v.value.json())]);
}

impl IntoSerializer for OptionWrapper {
    type S = DynObjectSerializer;

    open spec fn size_unknown(&self) -> bool {
        false
    }

    open spec fn json(&self) -> Seq<u8> {
        object_json(self.member_texts())
    }

    open spec fn json_fails(&self) -> bool {
        false
    }

    open spec fn size_known(&self) -> bool {
        true
    }

    open spec fn json_may_pend(&self) -> bool {
        false
    }

    fn into_serializer(self) -> (s: Self::S) {
        let ghost ms = self.member_texts();
        let mut fields: Vec<(bytes::Bytes, Box<dyn Serializer>)> = Vec::new();
        push_member(&mut fields, "name", self.name);
        push_member(&mut fields, "value", self.value);
        assert(members(fields@) =~= ms);
        object(fields)
    }

    fn size(&self) -> (r: Option<usize>) {
        let mut sizes = JoinedSizes::new();
        sizes.count_member("name", self.name.size(), Ghost(self.name.json()));
        sizes.count_member("value", self.value.size(), Ghost(self.value.json()));
        assert(sizes.counted() =~= self.member_texts());
        sizes.object_size()
    }
}

/// A boxed number.
pub struct BoxWrapper {
    pub value: Box<i32>,
}

impl BoxWrapper {
    /// The object's members, in field order, without those left out.
    pub open spec fn member_texts(&self) -> Seq<Seq<u8>> {
        add_member(Seq::empty(), true, member_text("value"@, self.value.json()))
    }
}

/// Law: a `BoxWrapper` is written as a JSON object of its fields in order: `value` under the key `value`.
pub proof fn law_box_wrapper_text(v: BoxWrapper)
    ensures
        v.json() == object_json(
            seq![member_text("value"@, v.value.json())],
        ),
{
    assert(v.member_texts() =~= seq![member_text("value"@, v.value.json())]);
}

impl IntoSerializer for BoxWrapper {
    type S = DynObjectSerializer;

    open spec fn size_unknown(&self) -> bool {
        false
    }

    open spec fn json(&self) -> Seq<u8> {
        object_json(self.member_texts())
    }

    open spec fn json_fails(&self) -> bool {
        false
    }

    open spec fn size_known(&self) -> bool {
        true
    }

    open spec fn json_may_pend(&self) -> bool {
        false
    }

    fn into_serializer(self) -> (s: Self::S) {
        let ghost ms = self.member_texts();
        let mut fields: Vec<(bytes::Bytes, Box<dyn Serializer>)> = Vec::new();
        push_member(&mut fields, "value", self.value);
        assert(members(fields@) =~= ms);
        object(fields)
    }

    fn size(&self) -> (r: Option<usize>) {
        let mut sizes = JoinedSizes::new();
        sizes.count_member("value", self.value.size(), Ghost(self.value.json()));
        assert(sizes.counted() =~= self.member_texts());
        sizes.object_size()
    }
}

/// A struct whose short name is left out when under three bytes.
pub struct SkipWithCondition {
    pub name: String,
    pub short_name: String,
    pub value: i32,
}

impl SkipWithCondition {
    /// The object's members, in field order, without those left out.
    pub open spec fn member_texts(&self) -> Seq<Seq<u8>> {
        add_member(add_member(add_member(Seq::empty(), true, member_text("name"@, self.name.json())), !(encode_utf8(self.short_name@).len() < 3), member_text("short_name"@, self.short_name.json())), true, member_text("value"@, self.value.json()))
    }
}

/// Law: a `SkipWithCondition` is written as a JSON object of its fields in order: `name` under the key `name`, `short_name` under the key `short_name`, `value` under the key `value`.
/// `short_name` is written exactly when `short_name` takes at least 3 bytes.
pub proof fn law_skip_with_condition_text(v: SkipWithCondition)
    ensures
        v.json() == object_json(
            seq![member_text("name"@, v.name.json())]
                + (if encode_utf8(v.short_name@).len() >= 3 {
                seq![member_text("short_name"@, v.short_name.json())]
            } else {
                Seq::empty()
            })
                + seq![member_text("value"@, v.value.json())],
        ),
{
    assert(v.member_texts() =~= seq![member_text("name"@, v.name.json())]
                + (if encode_utf8(v.short_name@).len() >= 3 {
                seq![member_text("short_name"@, v.short_name.json())]
            } else {
                Seq::empty()
            })
                + seq![member_text("value"@, v.value.json())]);
}

impl IntoSerializer for SkipWithCondition {
    type S = DynObjectSerializer;

    open spec fn size_unknown(&self) -> bool {
        false
    }

    open spec fn json(&self) -> Seq<u8> {
        object_json(self.member_texts())
    }

    open spec fn json_fails(&self) -> bool {
        false
    }

    open spec fn size_known(&self) -> bool {
        true
    }

    open spec fn json_may_pend(&self) -> bool {
        false
    }

    fn into_serializer(self) -> (s: Self::S) {
        let ghost ms = self.member_texts();
        let present_short_name = !(self.short_name.as_str().as_bytes().len() < 3);
        let mut fields: Vec<(bytes::Bytes, Box<dyn Serializer>)> = Vec::new();
        push_member(&mut fields, "name", self.name);
        if present_short_name {
            push_member(&mut fields, "short_name", self.short_name);
        }
        push_member(&mut fields, "value", self.value);
        assert(members(fields@) =~= ms);
        object(fields)
    }

    fn size(&self) -> (r: Option<usize>) {
        let mut sizes = JoinedSizes::new();
        sizes.count_member("name", self.name.size(), Ghost(self.name.json()));
        if !(self.short_name.as_str().as_bytes().len() < 3) {
            sizes.count_member("short_name", self.short_name.size(), Ghost(self.short_name.json()));
        }
        sizes.count_member("value", self.value.size(), Ghost(self.value.json()));
        assert(sizes.counted() =~= self.member_texts());
        sizes.object_size()
    }
}
} // verus!

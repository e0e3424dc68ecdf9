//! Structs holding base64-embedded data. Such a field fails where its data is
//! shorter than announced, and its size is known only before its first poll;
//! the struct's size and failure follow from its fields'.
use vstd::prelude::*;

use crate::base64_embed::{Base64EmbedFile, Base64EmbedURL};
use crate::derived::members::{add_member, member_text, object, push_member, JoinedSizes};
use crate::serde::{object_json, IntoSerializer, Serializer};
use crate::std_impl::{members, DynObjectSerializer};

verus! {

/// Data written as a data URL.
pub struct Base64Wrapper {
    pub data: Base64EmbedURL,
}

impl Base64Wrapper {
    /// The object's members, in field order.
    pub open spec fn member_texts(&self) -> Seq<Seq<u8>> {
        add_member(Seq::empty(), true, member_text("data"@, self.data.json()))
    }
}

/// Law: a `Base64Wrapper` is written as a JSON object of its fields in order: `data` under the key `data`.
pub proof fn law_base64_wrapper_text(v: Base64Wrapper)
    ensures
        v.json() == object_json(
            seq![member_text("data"@, v.data.json())],
        ),
{
    assert(v.member_texts() =~= seq![member_text("data"@, v.data.json())]);
}

impl IntoSerializer for Base64Wrapper {
    type S = DynObjectSerializer;

    open spec fn size_unknown(&self) -> bool {
        false
    }

    open spec fn json(&self) -> Seq<u8> {
        object_json(self.member_texts())
    }

    open spec fn json_fails(&self) -> bool {
        self.data.json_fails()
    }

    open spec fn size_known(&self) -> bool {
        self.data.size_known()
    }

    open spec fn json_may_pend(&self) -> bool {
        false
    }

    fn into_serializer(self) -> (s: Self::S) {
        let ghost ms = self.member_texts();
        let mut fields: Vec<(bytes::Bytes, Box<dyn Serializer>)> = Vec::new();
        push_member(&mut fields, "data", self.data);
        assert(members(fields@) =~= ms);
        object(fields)
    }

    fn size(&self) -> (r: Option<usize>) {
        let mut sizes = JoinedSizes::new();
        let ghost known = self.data.size_known() && !self.data.json_fails();
        sizes.count_member_if(
            "data",
            IntoSerializer::size(&self.data),
            Ghost(self.data.json()),
            Ghost(known),
        );
        assert(sizes.counted() =~= self.member_texts());
        sizes.object_size()
    }
}

/// Data written as bare base64 text.
pub struct Base64WrapperFile {
    pub data: Base64EmbedFile,
}

impl Base64WrapperFile {
    /// The object's members, in field order.
    pub open spec fn member_texts(&self) -> Seq<Seq<u8>> {
        add_member(Seq::empty(), true, member_text("data"@, self.data.json()))
    }
}

/// Law: a `Base64WrapperFile` is written as a JSON object of its fields in order: `data` under the key `data`.
pub proof fn law_base64_wrapper_file_text(v: Base64WrapperFile)
    ensures
        v.json() == object_json(
            seq![member_text("data"@, v.data.json())],
        ),
{
    assert(v.member_texts() =~= seq![member_text("data"@, v.data.json())]);
}

impl IntoSerializer for Base64WrapperFile {
    type S = DynObjectSerializer;

    open spec fn size_unknown(&self) -> bool {
        false
    }

    open spec fn json(&self) -> Seq<u8> {
        object_json(self.member_texts())
    }

    open spec fn json_fails(&self) -> bool {
        self.data.json_fails()
    }

    open spec fn size_known(&self) -> bool {
        self.data.size_known()
    }

    open spec fn json_may_pend(&self) -> bool {
        false
    }

    fn into_serializer(self) -> (s: Self::S) {
        let ghost ms = self.member_texts();
        let mut fields: Vec<(bytes::Bytes, Box<dyn Serializer>)> = Vec::new();
        push_member(&mut fields, "data", self.data);
        assert(members(fields@) =~= ms);
        object(fields)
    }

    fn size(&self) -> (r: Option<usize>) {
        let mut sizes = JoinedSizes::new();
        let ghost known = self.data.size_known() && !self.data.json_fails();
        sizes.count_member_if(
            "data",
            IntoSerializer::size(&self.data),
            Ghost(self.data.json()),
            Ghost(known),
        );
        assert(sizes.counted() =~= self.member_texts());
        sizes.object_size()
    }
}

/// An embedded data URL and a label.
pub struct NestedWithBase64 {
    pub wrapper: Base64Wrapper,
    pub label: String,
}

impl NestedWithBase64 {
    /// The object's members, in field order.
    pub open spec fn member_texts(&self) -> Seq<Seq<u8>> {
        add_member(
            add_member(Seq::empty(), true, member_text("wrapper"@, self.wrapper.json())),
            true,
            member_text("label"@, self.label.json()),
        )
    }
}

/// Law: a `NestedWithBase64` is written as a JSON object of its fields in order: `wrapper` under the key `wrapper`, `label` under the key `label`.
pub proof fn law_nested_with_base64_text(v: NestedWithBase64)
    ensures
        v.json() == object_json(
            seq![member_text("wrapper"@, v.wrapper.json())]
                + seq![member_text("label"@, v.label.json())],
        ),
{
    assert(v.member_texts() =~= seq![member_text("wrapper"@, v.wrapper.json())]
        + seq![member_text("label"@, v.label.json())]);
}

impl IntoSerializer for NestedWithBase64 {
    type S = DynObjectSerializer;

    open spec fn size_unknown(&self) -> bool {
        false
    }

    open spec fn json(&self) -> Seq<u8> {
        object_json(self.member_texts())
    }

    open spec fn json_fails(&self) -> bool {
        self.wrapper.json_fails()
    }

    open spec fn size_known(&self) -> bool {
        self.wrapper.size_known()
    }

    open spec fn json_may_pend(&self) -> bool {
        false
    }

    fn into_serializer(self) -> (s: Self::S) {
        let ghost ms = self.member_texts();
        let mut fields: Vec<(bytes::Bytes, Box<dyn Serializer>)> = Vec::new();
        push_member(&mut fields, "wrapper", self.wrapper);
        push_member(&mut fields, "label", self.label);
        assert(members(fields@) =~= ms);
        object(fields)
    }

    fn size(&self) -> (r: Option<usize>) {
        let mut sizes = JoinedSizes::new();
        let ghost known = self.wrapper.size_known() && !self.wrapper.json_fails();
        sizes.count_member_if(
            "wrapper",
            self.wrapper.size(),
            Ghost(self.wrapper.json()),
            Ghost(known),
        );
        sizes.count_member("label", self.label.size(), Ghost(self.label.json()));
        assert(sizes.counted() =~= self.member_texts());
        sizes.object_size()
    }
}

/// A list of embedded data URLs.
pub struct VecWithBase64 {
    pub images: Vec<Base64Wrapper>,
}

impl VecWithBase64 {
    /// The object's members, in field order.
    pub open spec fn member_texts(&self) -> Seq<Seq<u8>> {
        add_member(Seq::empty(), true, member_text("images"@, self.images.json()))
    }
}

/// Law: a `VecWithBase64` is written as a JSON object of its fields in order: `images` under the key `images`.
pub proof fn law_vec_with_base64_text(v: VecWithBase64)
    ensures
        v.json() == object_json(
            seq![member_text("images"@, v.images.json())],
        ),
{
    assert(v.member_texts() =~= seq![member_text("images"@, v.images.json())]);
}

impl IntoSerializer for VecWithBase64 {
    type S = DynObjectSerializer;

    open spec fn size_unknown(&self) -> bool {
        false
    }

    open spec fn json(&self) -> Seq<u8> {
        object_json(self.member_texts())
    }

    open spec fn json_fails(&self) -> bool {
        self.images.json_fails()
    }

    open spec fn size_known(&self) -> bool {
        self.images.size_known()
    }

    open spec fn json_may_pend(&self) -> bool {
        false
    }

    fn into_serializer(self) -> (s: Self::S) {
        let ghost ms = self.member_texts();
        let mut fields: Vec<(bytes::Bytes, Box<dyn Serializer>)> = Vec::new();
        push_member(&mut fields, "images", self.images);
        assert(members(fields@) =~= ms);
        object(fields)
    }

    fn size(&self) -> (r: Option<usize>) {
        let mut sizes = JoinedSizes::new();
        let ghost known = self.images.size_known() && !self.images.json_fails();
        sizes.count_member_if(
            "images",
            self.images.size(),
            Ghost(self.images.json()),
            Ghost(known),
        );
        assert(sizes.counted() =~= self.member_texts());
        sizes.object_size()
    }
}

/// A label, a count left out when zero, and an embedded data URL.
pub struct WithBase64AndSkip {
    pub label: String,
    pub count: i32,
    pub data: Base64EmbedURL,
}

impl WithBase64AndSkip {
    /// The object's members, in field order, without those left out.
    pub open spec fn member_texts(&self) -> Seq<Seq<u8>> {
        add_member(
            add_member(
                add_member(Seq::empty(), true, member_text("label"@, self.label.json())),
                !(self.count == 0),
                member_text("count"@, self.count.json()),
            ),
            true,
            member_text("data"@, self.data.json()),
        )
    }
}

/// Law: a `WithBase64AndSkip` is written as a JSON object of its fields in order: `label` under the key `label`, `count` under the key `count`, `data` under the key `data`.
/// `count` is written exactly when `count` is not zero.
pub proof fn law_with_base64_and_skip_text(v: WithBase64AndSkip)
    ensures
        v.json() == object_json(
            seq![member_text("label"@, v.label.json())]
                + (if v.count != 0 {
                seq![member_text("count"@, v.count.json())]
            } else {
                Seq::empty()
            })
                + seq![member_text("data"@, v.data.json())],
        ),
{
    assert(v.member_texts() =~= seq![member_text("label"@, v.label.json())]
        + (if v.count != 0 {
        seq![member_text("count"@, v.count.json())]
    } else {
        Seq::empty()
    })
        + seq![member_text("data"@, v.data.json())]);
}

impl IntoSerializer for WithBase64AndSkip {
    type S = DynObjectSerializer;

    open spec fn size_unknown(&self) -> bool {
        false
    }

    open spec fn json(&self) -> Seq<u8> {
        object_json(self.member_texts())
    }

    open spec fn json_fails(&self) -> bool {
        self.data.json_fails()
    }

    open spec fn size_known(&self) -> bool {
        self.data.size_known()
    }

    open spec fn json_may_pend(&self) -> bool {
        false
    }

    fn into_serializer(self) -> (s: Self::S) {
        let ghost ms = self.member_texts();
        let present_count = !(self.count == 0);
        let mut fields: Vec<(bytes::Bytes, Box<dyn Serializer>)> = Vec::new();
        push_member(&mut fields, "label", self.label);
        if present_count {
            push_member(&mut fields, "count", self.count);
        }
        push_member(&mut fields, "data", self.data);
        assert(members(fields@) =~= ms);
        object(fields)
    }

    fn size(&self) -> (r: Option<usize>) {
        let mut sizes = JoinedSizes::new();
        sizes.count_member("label", self.label.size(), Ghost(self.label.json()));
        if !(self.count == 0) {
            sizes.count_member("count", self.count.size(), Ghost(self.count.json()));
        }
        let ghost known = self.data.size_known() && !self.data.json_fails();
        sizes.count_member_if(
            "data",
            IntoSerializer::size(&self.data),
            Ghost(self.data.json()),
            Ghost(known),
        );
        assert(sizes.counted() =~= self.member_texts());
        sizes.object_size()
    }
}

/// A data URL under the renamed key `image_data`.
pub struct Base64Inner {
    pub data: Base64EmbedURL,
}

impl Base64Inner {
    /// The object's members, in field order.
    pub open spec fn member_texts(&self) -> Seq<Seq<u8>> {
        add_member(Seq::empty(), true, member_text("image_data"@, self.data.json()))
    }
}

/// Law: a `Base64Inner` is written as a JSON object of its fields in order: `data` under the key `image_data`.
pub proof fn law_base64_inner_text(v: Base64Inner)
    ensures
        v.json() == object_json(
            seq![member_text("image_data"@, v.data.json())],
        ),
{
    assert(v.member_texts() =~= seq![member_text("image_data"@, v.data.json())]);
}

impl IntoSerializer for Base64Inner {
    type S = DynObjectSerializer;

    open spec fn size_unknown(&self) -> bool {
        false
    }

    open spec fn json(&self) -> Seq<u8> {
        object_json(self.member_texts())
    }

    open spec fn json_fails(&self) -> bool {
        self.data.json_fails()
    }

    open spec fn size_known(&self) -> bool {
        self.data.size_known()
    }

    open spec fn json_may_pend(&self) -> bool {
        false
    }

    fn into_serializer(self) -> (s: Self::S) {
        let ghost ms = self.member_texts();
        let mut fields: Vec<(bytes::Bytes, Box<dyn Serializer>)> = Vec::new();
        push_member(&mut fields, "image_data", self.data);
        assert(members(fields@) =~= ms);
        object(fields)
    }

    fn size(&self) -> (r: Option<usize>) {
        let mut sizes = JoinedSizes::new();
        let ghost known_data = self.data.size_known() && !self.data.json_fails();
        sizes.count_member_if(
            "image_data",
            IntoSerializer::size(&self.data),
            Ghost(self.data.json()),
            Ghost(known_data),
        );
        assert(sizes.counted() =~= self.member_texts());
        sizes.object_size()
    }
}

/// A label and a struct holding a data URL.
pub struct Base64Outer {
    pub label: String,
    pub inner: Base64Inner,
}

impl Base64Outer {
    /// The object's members, in field order.
    pub open spec fn member_texts(&self) -> Seq<Seq<u8>> {
        add_member(add_member(Seq::empty(), true, member_text("label"@, self.label.json())), true, member_text("inner"@, self.inner.json()))
    }
}

/// Law: a `Base64Outer` is written as a JSON object of its fields in order: `label` under the key `label`, `inner` under the key `inner`.
pub proof fn law_base64_outer_text(v: Base64Outer)
    ensures
        v.json() == object_json(
            seq![member_text("label"@, v.label.json())]
                + seq![member_text("inner"@, v.inner.json())],
        ),
{
    assert(v.member_texts() =~= seq![member_text("label"@, v.label.json())]
                + seq![member_text("inner"@, v.inner.json())]);
}

impl IntoSerializer for Base64Outer {
    type S = DynObjectSerializer;

    open spec fn size_unknown(&self) -> bool {
        false
    }

    open spec fn json(&self) -> Seq<u8> {
        object_json(self.member_texts())
    }

    open spec fn json_fails(&self) -> bool {
        self.inner.json_fails()
    }

    open spec fn size_known(&self) -> bool {
        self.inner.size_known()
    }

    open spec fn json_may_pend(&self) -> bool {
        false
    }

    fn into_serializer(self) -> (s: Self::S) {
        let ghost ms = self.member_texts();
        let mut fields: Vec<(bytes::Bytes, Box<dyn Serializer>)> = Vec::new();
        push_member(&mut fields, "label", self.label);
        push_member(&mut fields, "inner", self.inner);
        assert(members(fields@) =~= ms);
        object(fields)
    }

    fn size(&self) -> (r: Option<usize>) {
        let mut sizes = JoinedSizes::new();
        sizes.count_member("label", self.label.size(), Ghost(self.label.json()));
        let ghost known_inner = self.inner.size_known() && !self.inner.json_fails();
        sizes.count_member_if(
            "inner",
            IntoSerializer::size(&self.inner),
            Ghost(self.inner.json()),
            Ghost(known_inner),
        );
        assert(sizes.counted() =~= self.member_texts());
        sizes.object_size()
    }
}

/// A data URL two structs deep.
pub struct Base64InNestedStruct {
    pub outer: Base64Outer,
}

impl Base64InNestedStruct {
    /// The object's members, in field order.
    pub open spec fn member_texts(&self) -> Seq<Seq<u8>> {
        add_member(Seq::empty(), true, member_text("outer"@, self.outer.json()))
    }
}

/// Law: a `Base64InNestedStruct` is written as a JSON object of its fields in order: `outer` under the key `outer`.
pub proof fn law_base64_in_nested_struct_text(v: Base64InNestedStruct)
    ensures
        v.json() == object_json(
            seq![member_text("outer"@, v.outer.json())],
        ),
{
    assert(v.member_texts() =~= seq![member_text("outer"@, v.outer.json())]);
}

impl IntoSerializer for Base64InNestedStruct {
    type S = DynObjectSerializer;

    open spec fn size_unknown(&self) -> bool {
        false
    }

    open spec fn json(&self) -> Seq<u8> {
        object_json(self.member_texts())
    }

    open spec fn json_fails(&self) -> bool {
        self.outer.json_fails()
    }

    open spec fn size_known(&self) -> bool {
        self.outer.size_known()
    }

    open spec fn json_may_pend(&self) -> bool {
        false
    }

    fn into_serializer(self) -> (s: Self::S) {
        let ghost ms = self.member_texts();
        let mut fields: Vec<(bytes::Bytes, Box<dyn Serializer>)> = Vec::new();
        push_member(&mut fields, "outer", self.outer);
        assert(members(fields@) =~= ms);
        object(fields)
    }

    fn size(&self) -> (r: Option<usize>) {
        let mut sizes = JoinedSizes::new();
        let ghost known_outer = self.outer.size_known() && !self.outer.json_fails();
        sizes.count_member_if(
            "outer",
            IntoSerializer::size(&self.outer),
            Ghost(self.outer.json()),
            Ghost(known_outer),
        );
        assert(sizes.counted() =~= self.member_texts());
        sizes.object_size()
    }
}

} // verus!

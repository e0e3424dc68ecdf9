//! The pieces a derived struct serializer is built from.
use vstd::prelude::*;

use crate::buffer::{chunk_bytes, chunk_from_vec};
use crate::serde::{
    array_json, comma_join, lemma_comma_join_push, object_json, reported_size, token_text, FieldState,
    IntoSerializer, Serializer, Token,
};
use crate::std_impl::{members, push_field, push_item, quoted_size, remainings, DynArraySerializer};
use crate::text::{json_string, quote_string};

verus! {

/// The text of an object member: the quoted, escaped key, `:`, the value.
pub open spec fn member_text(key: Seq<char>, value: Seq<u8>) -> Seq<u8> {
    json_string(key) + seq![58u8] + value
}

/// The member list with `m` added when `present` holds.
pub open spec fn add_member(ms: Seq<Seq<u8>>, present: bool, m: Seq<u8>) -> Seq<Seq<u8>> {
    if present {
        ms.push(m)
    } else {
        ms
    }
}

/// The key bytes of a member: the quoted, escaped key and `:`.
pub fn key_chunk(key: &str) -> (b: bytes::Bytes)
    ensures
        chunk_bytes(b) == json_string(key@) + seq![58u8],
{
    let mut v = quote_string(key);
    v.push(58u8);
    chunk_from_vec(v)
}

/// Whether every field's serializer is consistent.
pub open spec fn sound_fields(fields: Seq<(bytes::Bytes, Box<dyn Serializer>)>) -> bool {
    forall|j: int| 0 <= j < fields.len() ==> (#[trigger] fields[j]).1.inv()
}

/// Whether some field's serializer will fail.
pub open spec fn some_field_fails(fields: Seq<(bytes::Bytes, Box<dyn Serializer>)>) -> bool {
    exists|j: int| 0 <= j < fields.len() && (#[trigger] fields[j]).1.fails()
}

/// Whether some field's serializer may answer `Pending`.
pub open spec fn some_field_may_pend(fields: Seq<(bytes::Bytes, Box<dyn Serializer>)>) -> bool {
    exists|j: int| 0 <= j < fields.len() && (#[trigger] fields[j]).1.may_pend()
}

/// Adds a member whose value is serialized when its turn comes.
pub fn push_member<F: IntoSerializer + 'static>(
    fields: &mut Vec<(bytes::Bytes, Box<dyn Serializer>)>,
    key: &str,
    value: F,
)
    requires
        sound_fields(old(fields)@),
    ensures
        sound_fields(final(fields)@),
        members(final(fields)@) == members(old(fields)@).push(member_text(key@, value.json())),
        some_field_fails(final(fields)@) == (some_field_fails(old(fields)@) || value.json_fails()),
        some_field_may_pend(final(fields)@) ==> (some_field_may_pend(old(fields)@) || value.json_may_pend()),
{
    let ghost json = value.json();
    let ghost fails = value.json_fails();
    let ghost pends = value.json_may_pend();
    let k = key_chunk(key);
    let st = FieldState::new(value, false);
    push_field(fields, k, st);
    proof {
        let o = old(fields)@;
        let f = fields@;
        assert(members(f) =~= members(o).push(member_text(key@, json)));
        assert(some_field_fails(f) == (some_field_fails(o) || fails)) by {
            if some_field_fails(f) {
                let j = choose|j: int| 0 <= j < f.len() && (#[trigger] f[j]).1.fails();
                if j < o.len() {
                    assert(f[j] == o[j]);
                }
            }
            if some_field_fails(o) {
                let j = choose|j: int| 0 <= j < o.len() && (#[trigger] o[j]).1.fails();
                assert(f[j] == o[j]);
            }
            if fails {
                assert(f[o.len() as int].1.fails());
            }
        }
        assert(some_field_may_pend(f) ==> (some_field_may_pend(o) || pends)) by {
            if some_field_may_pend(f) {
                let j = choose|j: int| 0 <= j < f.len() && (#[trigger] f[j]).1.may_pend();
                if j < o.len() {
                    assert(f[j] == o[j]);
                }
            }
        }
    }
}

/// The serializer of an object with the given members.
pub fn object(fields: Vec<(bytes::Bytes, Box<dyn Serializer>)>) -> (s: crate::std_impl::DynObjectSerializer)
    requires
        sound_fields(fields@),
    ensures
        s.inv(),
        s.remaining() == object_json(members(fields@)),
        s.fails() == some_field_fails(fields@),
        s.may_pend() == some_field_may_pend(fields@),
{
    crate::std_impl::DynObjectSerializer::new(fields)
}

/// Whether every element's serializer is consistent.
pub open spec fn sound_items(items: Seq<Box<dyn Serializer>>) -> bool {
    forall|j: int| 0 <= j < items.len() ==> (#[trigger] items[j]).inv()
}

/// Whether some element's serializer will fail.
pub open spec fn some_item_fails(items: Seq<Box<dyn Serializer>>) -> bool {
    exists|j: int| 0 <= j < items.len() && (#[trigger] items[j]).fails()
}

/// Whether some element's serializer may answer `Pending`.
pub open spec fn some_item_may_pend(items: Seq<Box<dyn Serializer>>) -> bool {
    exists|j: int| 0 <= j < items.len() && (#[trigger] items[j]).may_pend()
}

/// Adds an element whose value is serialized when its turn comes.
pub fn push_element<F: IntoSerializer + 'static>(items: &mut Vec<Box<dyn Serializer>>, value: F)
    requires
        sound_items(old(items)@),
    ensures
        sound_items(final(items)@),
        remainings(final(items)@) == remainings(old(items)@).push(value.json()),
        some_item_fails(final(items)@) == (some_item_fails(old(items)@) || value.json_fails()),
        some_item_may_pend(final(items)@) ==> (some_item_may_pend(old(items)@) || value.json_may_pend()),
{
    let ghost json = value.json();
    let ghost fails = value.json_fails();
    let ghost pends = value.json_may_pend();
    let st = FieldState::new(value, false);
    push_item(items, st);
    proof {
        let o = old(items)@;
        let f = items@;
        assert(remainings(f) =~= remainings(o).push(json));
        assert(some_item_fails(f) == (some_item_fails(o) || fails)) by {
            if some_item_fails(f) {
                let j = choose|j: int| 0 <= j < f.len() && (#[trigger] f[j]).fails();
                if j < o.len() {
                    assert(f[j] == o[j]);
                }
            }
            if some_item_fails(o) {
                let j = choose|j: int| 0 <= j < o.len() && (#[trigger] o[j]).fails();
                assert(f[j] == o[j]);
            }
            if fails {
                assert(f[o.len() as int].fails());
            }
        }
        assert(some_item_may_pend(f) ==> (some_item_may_pend(o) || pends)) by {
            if some_item_may_pend(f) {
                let j = choose|j: int| 0 <= j < f.len() && (#[trigger] f[j]).may_pend();
                if j < o.len() {
                    assert(f[j] == o[j]);
                }
            }
        }
    }
}

/// The serializer of an array with the given elements.
pub fn array(items: Vec<Box<dyn Serializer>>) -> (s: DynArraySerializer)
    requires
        sound_items(items@),
    ensures
        s.inv(),
        s.remaining() == array_json(remainings(items@)),
        s.fails() == some_item_fails(items@),
        s.may_pend() == some_item_may_pend(items@),
{
    DynArraySerializer::new(items)
}

/// The size of a member, given its value's size.
pub fn member_size(key: &str, value_size: Option<usize>, Ghost(value): Ghost<Seq<u8>>) -> (r: Option<usize>)
    ensures
        value_size == reported_size(value) ==> r == reported_size(member_text(key@, value)),
{
    assert(member_text(key@, value).len() == json_string(key@).len() + 1 + value.len());
    match (quoted_size(key), value_size) {
        (Some(k), Some(v)) => {
            if k > usize::MAX - 1 || k + 1 > usize::MAX - v {
                None
            } else {
                Some(k + 1 + v)
            }
        },
        _ => None,
    }
}

/// The running size of an object's members or an array's elements.
pub struct JoinedSizes {
    acc: Option<usize>,
    first: bool,
    parts: Ghost<Seq<Seq<u8>>>,
    exact: Ghost<bool>,
}

impl JoinedSizes {
    /// The parts counted so far.
    pub closed spec fn counted(&self) -> Seq<Seq<u8>> {
        self.parts@
    }

    /// Whether every part was counted with its exact size.
    pub closed spec fn exact(&self) -> bool {
        self.exact@
    }

    /// The running total matches the parts counted, where each was counted
    /// with its exact size.
    pub closed spec fn wf(&self) -> bool {
        &&& self.exact@ ==> self.acc == reported_size(comma_join(self.parts@))
        &&& self.first == (self.parts@.len() == 0)
    }

    /// Nothing counted yet.
    pub fn new() -> (s: Self)
        ensures
            s.wf(),
            s.exact(),
            s.counted() == Seq::<Seq<u8>>::empty(),
    {
        let ghost e: Seq<Seq<u8>> = Seq::empty();
        assert(comma_join(e).len() == 0);
        JoinedSizes { acc: Some(0), first: true, parts: Ghost(e), exact: Ghost(true) }
    }

    /// Counts one more object member, given its value's size.
    pub fn count_member(&mut self, key: &str, value_size: Option<usize>, Ghost(value): Ghost<Seq<u8>>)
        requires
            old(self).wf(),
            value_size == reported_size(value),
        ensures
            final(self).wf(),
            final(self).exact() == old(self).exact(),
            final(self).counted() == old(self).counted().push(member_text(key@, value)),
    {
        let m_size = member_size(key, value_size, Ghost(value));
        self.count(m_size, Ghost(member_text(key@, value)), Ghost(true));
    }

    /// Counts one more object member, given a size of its value that is
    /// exact where `known` holds; where it does not, the total is no longer
    /// exact.
    pub fn count_member_if(
        &mut self,
        key: &str,
        value_size: Option<usize>,
        Ghost(value): Ghost<Seq<u8>>,
        Ghost(known): Ghost<bool>,
    )
        requires
            old(self).wf(),
            known ==> value_size == reported_size(value),
        ensures
            final(self).wf(),
            final(self).exact() == (old(self).exact() && known),
            final(self).counted() == old(self).counted().push(member_text(key@, value)),
    {
        let m_size = member_size(key, value_size, Ghost(value));
        self.count(m_size, Ghost(member_text(key@, value)), Ghost(known));
    }

    /// Counts one more array element, given its size.
    pub fn count_element(&mut self, value_size: Option<usize>, Ghost(value): Ghost<Seq<u8>>)
        requires
            old(self).wf(),
            value_size == reported_size(value),
        ensures
            final(self).wf(),
            final(self).exact() == old(self).exact(),
            final(self).counted() == old(self).counted().push(value),
    {
        self.count(value_size, Ghost(value), Ghost(true));
    }

    fn count(&mut self, m_size: Option<usize>, Ghost(m): Ghost<Seq<u8>>, Ghost(known): Ghost<bool>)
        requires
            old(self).wf(),
            known ==> m_size == reported_size(m),
        ensures
            final(self).wf(),
            final(self).exact() == (old(self).exact() && known),
            final(self).counted() == old(self).counted().push(m),
    {
        let ghost ms = self.parts@;
        proof {
            lemma_comma_join_push(ms, m);
        }
        let acc = match (self.acc, m_size) {
            (Some(a), Some(k)) => {
                if self.first {
                    if a > usize::MAX - k {
                        None
                    } else {
                        Some(a + k)
                    }
                } else {
                    if a > usize::MAX - 1 || a + 1 > usize::MAX - k {
                        None
                    } else {
                        Some(a + 1 + k)
                    }
                }
            },
            _ => None,
        };
        self.acc = acc;
        self.first = false;
        self.parts = Ghost(ms.push(m));
        let ghost ex = self.exact@ && known;
        self.exact = Ghost(ex);
    }

    /// The object's size: its joined members between braces.
    pub fn object_size(&self) -> (r: Option<usize>)
        requires
            self.wf(),
        ensures
            self.exact() ==> r == reported_size(object_json(self.counted())),
    {
        match self.acc {
            Some(a) => if a > usize::MAX - 2 {
                None
            } else {
                Some(a + 2)
            },
            None => None,
        }
    }

    /// The array's size: its joined elements between brackets.
    pub fn array_size(&self) -> (r: Option<usize>)
        requires
            self.wf(),
        ensures
            self.exact() ==> r == reported_size(array_json(self.counted())),
    {
        match self.acc {
            Some(a) => if a > usize::MAX - 2 {
                None
            } else {
                Some(a + 2)
            },
            None => None,
        }
    }
}

/// Law: a document written token by token reads as the values it stands for.
/// `null`, a boolean, an integer and a string token are written as the value
/// itself would be; a key token followed by a value is that object member;
/// bracket, brace and comma tokens around element texts give the array or
/// object of those elements.
pub proof fn law_tokens_match_values(b: bool, i: i64, u: u64, s: &str, k: &str, x: Seq<u8>, y: Seq<u8>)
    ensures
        token_text(Token::Null) == ().json(),
        token_text(Token::Bool(b)) == b.json(),
        token_text(Token::I64(i)) == i.json(),
        token_text(Token::U64(u)) == u.json(),
        token_text(Token::String(s)) == s.json(),
        token_text(Token::Key(k)) + x == member_text(k@, x),
        json_string(k@) + token_text(Token::Colon) + x == member_text(k@, x),
        token_text(Token::StartArray) + token_text(Token::EndArray) == array_json(Seq::empty()),
        token_text(Token::StartObject) + token_text(Token::EndObject) == object_json(Seq::empty()),
        token_text(Token::StartArray) + x + token_text(Token::EndArray) == array_json(seq![x]),
        token_text(Token::StartArray) + x + token_text(Token::Comma) + y + token_text(Token::EndArray)
            == array_json(seq![x, y]),
        token_text(Token::StartObject) + x + token_text(Token::Comma) + y + token_text(Token::EndObject)
            == object_json(seq![x, y]),
{
    let e = Seq::<Seq<u8>>::empty();
    lemma_comma_join_push(e, x);
    lemma_comma_join_push(e.push(x), y);
    assert(e.push(x) =~= seq![x]);
    assert(e.push(x).push(y) =~= seq![x, y]);
    assert(comma_join(e) =~= Seq::<u8>::empty());
    assert(token_text(Token::Key(k)) + x =~= member_text(k@, x));
    assert(json_string(k@) + token_text(Token::Colon) + x =~= member_text(k@, x));
    assert(token_text(Token::StartArray) + token_text(Token::EndArray) =~= array_json(e));
    assert(token_text(Token::StartObject) + token_text(Token::EndObject) =~= object_json(e));
    assert(token_text(Token::StartArray) + x + token_text(Token::EndArray) =~= array_json(seq![x]));
    assert(token_text(Token::StartArray) + x + token_text(Token::Comma) + y + token_text(Token::EndArray)
        =~= array_json(seq![x, y]));
    assert(token_text(Token::StartObject) + x + token_text(Token::Comma) + y + token_text(Token::EndObject)
        =~= object_json(seq![x, y]));
}

/// Law: the punctuation of JSON. An array is `[`, its elements separated by
/// `,`, then `]`; an object is `{`, its members separated by `,`, then `}`;
/// a member is its key as a JSON string, `:`, then its value.
pub proof fn law_json_punctuation(x: Seq<u8>, y: Seq<u8>, k: Seq<char>)
    ensures
        array_json(seq![x, y]) == seq![0x5bu8] + x + seq![0x2cu8] + y + seq![0x5du8],
        object_json(seq![x, y]) == seq![0x7bu8] + x + seq![0x2cu8] + y + seq![0x7du8],
        array_json(Seq::empty()) == seq![0x5bu8, 0x5du8],
        object_json(Seq::empty()) == seq![0x7bu8, 0x7du8],
        member_text(k, x) == seq![0x22u8] + crate::text::escape(k) + seq![0x22u8, 0x3au8] + x,
{
    let e = Seq::<Seq<u8>>::empty();
    lemma_comma_join_push(e, x);
    lemma_comma_join_push(e.push(x), y);
    assert(e.push(x).push(y) =~= seq![x, y]);
    assert(comma_join(e) =~= Seq::<u8>::empty());
    assert(array_json(seq![x, y]) =~= seq![0x5bu8] + x + seq![0x2cu8] + y + seq![0x5du8]);
    assert(object_json(seq![x, y]) =~= seq![0x7bu8] + x + seq![0x2cu8] + y + seq![0x7du8]);
    assert(array_json(e) =~= seq![0x5bu8, 0x5du8]);
    assert(object_json(e) =~= seq![0x7bu8, 0x7du8]);
    assert(member_text(k, x) =~= seq![0x22u8] + crate::text::escape(k) + seq![0x22u8, 0x3au8] + x);
}

} // verus!

//! Serializers for primitive values, strings and containers.
use std::task::Context;
use vstd::prelude::*;

use crate::buffer::{chunk_bytes, chunk_clone, chunk_from_vec, chunk_len};
use crate::error::Error;
use crate::serde::{
    array_json, chunk_of, comma_join, comma_tail, is_chunk, lemma_comma_join_first, lemma_comma_join_prefix_len,
    lemma_comma_join_push, object_json, lemma_comma_tail_end, lemma_comma_tail_step,
    poll_step, reported_size, IntoSerializer, Poll, Serializer,
};
use crate::text::{
    decimal, escape, escape_string, escaped_string_size, i64_text, json_string, push_escaped,
    law_decimal_reads_back, signed_decimal, u64_text,
};
use crate::CHUNK_SIZE;

verus! {

/// The text `null`.
pub open spec fn null_text() -> Seq<u8> {
    seq![110u8, 117u8, 108u8, 108u8]
}

/// The text `true` or `false`.
pub open spec fn bool_text(b: bool) -> Seq<u8> {
    if b {
        seq![116u8, 114u8, 117u8, 101u8]
    } else {
        seq![102u8, 97u8, 108u8, 115u8, 101u8]
    }
}

/// A poll that hands out everything that is left as one chunk, or ends when
/// nothing is left.
pub open spec fn whole_chunk_step(rest: Seq<u8>, r: Poll<Option<Result<bytes::Bytes, Error>>>) -> bool {
    if rest.len() == 0 {
        r == Poll::<Option<Result<bytes::Bytes, Error>>>::Ready(None)
    } else {
        r matches Poll::Ready(Some(Ok(b))) && chunk_bytes(b) == rest
    }
}

fn null_bytes() -> (v: Vec<u8>)
    ensures
        v@ == null_text(),
{
    vec![110u8, 117u8, 108u8, 108u8]
}

fn bool_bytes(b: bool) -> (v: Vec<u8>)
    ensures
        v@ == bool_text(b),
{
    if b {
        vec![116u8, 114u8, 117u8, 101u8]
    } else {
        vec![102u8, 97u8, 108u8, 115u8, 101u8]
    }
}

/// Serializer for `()`: emits `null` as a single chunk.
pub struct UnitSerializer {
    emitted: bool,
}

impl UnitSerializer {
    /// Creates a new unit serializer.
    pub fn new() -> (s: Self)
        ensures
            s.inv(),
            s.remaining() == null_text(),
            !s.fails(),
    {
        UnitSerializer { emitted: false }
    }
}

impl Default for UnitSerializer {
    /// The same as [`UnitSerializer::new`].
    fn default() -> (s: Self)
        ensures
            s.inv(),
            s.remaining() == null_text(),
            !s.fails(),
    {
        UnitSerializer::new()
    }
}

impl Serializer for UnitSerializer {
    open spec fn reports(&self, e: Error) -> bool {
        false
    }

    open spec fn may_pend(&self) -> bool {
        false
    }

    closed spec fn inv(&self) -> bool {
        true
    }

    closed spec fn remaining(&self) -> Seq<u8> {
        if self.emitted {
            Seq::empty()
        } else {
            null_text()
        }
    }

    closed spec fn fails(&self) -> bool {
        false
    }

    fn poll(&mut self, cx: &mut Context<'_>) -> (r: Poll<Option<Result<bytes::Bytes, Error>>>)
        ensures
            whole_chunk_step(old(self).remaining(), r),
    {
        if self.emitted {
            Poll::Ready(None)
        } else {
            self.emitted = true;
            Poll::Ready(Some(Ok(chunk_from_vec(null_bytes()))))
        }
    }
}

impl IntoSerializer for () {
    type S = UnitSerializer;

    open spec fn size_unknown(&self) -> bool {
        false
    }

    open spec fn json_may_pend(&self) -> bool {
        false
    }

    open spec fn json(&self) -> Seq<u8> {
        null_text()
    }

    open spec fn json_fails(&self) -> bool {
        false
    }

    open spec fn size_known(&self) -> bool {
        true
    }

    fn into_serializer(self) -> (s: Self::S) {
        UnitSerializer::new()
    }

    fn size(&self) -> (r: Option<usize>) {
        Some(4)
    }
}

/// Serializer for booleans: emits `true` or `false` as a single chunk.
pub struct BoolSerializerState {
    value: bool,
    emitted: bool,
}

impl BoolSerializerState {
    /// Creates a new boolean serializer.
    pub fn new(value: bool) -> (s: Self)
        ensures
            s.inv(),
            s.remaining() == bool_text(value),
            !s.fails(),
    {
        BoolSerializerState { value, emitted: false }
    }
}

impl Serializer for BoolSerializerState {
    open spec fn reports(&self, e: Error) -> bool {
        false
    }

    open spec fn may_pend(&self) -> bool {
        false
    }

    closed spec fn inv(&self) -> bool {
        true
    }

    closed spec fn remaining(&self) -> Seq<u8> {
        if self.emitted {
            Seq::empty()
        } else {
            bool_text(self.value)
        }
    }

    closed spec fn fails(&self) -> bool {
        false
    }

    fn poll(&mut self, cx: &mut Context<'_>) -> (r: Poll<Option<Result<bytes::Bytes, Error>>>)
        ensures
            whole_chunk_step(old(self).remaining(), r),
    {
        if self.emitted {
            Poll::Ready(None)
        } else {
            self.emitted = true;
            Poll::Ready(Some(Ok(chunk_from_vec(bool_bytes(self.value)))))
        }
    }
}

impl IntoSerializer for bool {
    type S = BoolSerializerState;

    open spec fn size_unknown(&self) -> bool {
        false
    }

    open spec fn json_may_pend(&self) -> bool {
        false
    }

    open spec fn json(&self) -> Seq<u8> {
        bool_text(*self)
    }

    open spec fn json_fails(&self) -> bool {
        false
    }

    open spec fn size_known(&self) -> bool {
        true
    }

    fn into_serializer(self) -> (s: Self::S) {
        BoolSerializerState::new(self)
    }

    fn size(&self) -> (r: Option<usize>) {
        Some(if *self { 4 } else { 5 })
    }
}

/// Serializer for signed integers: emits the decimal number as a single
/// chunk. `i8`, `i16` and `i32` use it too.
pub struct I64Serializer {
    value: i64,
    emitted: bool,
}

impl I64Serializer {
    /// Creates a new i64 serializer.
    pub fn new(value: i64) -> (s: Self)
        ensures
            s.inv(),
            s.remaining() == signed_decimal(value as int),
            !s.fails(),
    {
        I64Serializer { value, emitted: false }
    }
}

impl Serializer for I64Serializer {
    open spec fn reports(&self, e: Error) -> bool {
        false
    }

    open spec fn may_pend(&self) -> bool {
        false
    }

    closed spec fn inv(&self) -> bool {
        true
    }

    closed spec fn remaining(&self) -> Seq<u8> {
        if self.emitted {
            Seq::empty()
        } else {
            signed_decimal(self.value as int)
        }
    }

    closed spec fn fails(&self) -> bool {
        false
    }

    fn poll(&mut self, cx: &mut Context<'_>) -> (r: Poll<Option<Result<bytes::Bytes, Error>>>)
        ensures
            whole_chunk_step(old(self).remaining(), r),
    {
        if self.emitted {
            Poll::Ready(None)
        } else {
            self.emitted = true;
            let text = i64_text(self.value);
            proof {
                if self.value < 0 {
                    law_decimal_reads_back((-self.value) as nat);
                } else {
                    law_decimal_reads_back(self.value as nat);
                }
            }
            Poll::Ready(Some(Ok(chunk_from_vec(text))))
        }
    }
}

/// Serializer for unsigned integers: emits the decimal number as a single
/// chunk. `u8`, `u16` and `u32` use it too.
pub struct U64Serializer {
    value: u64,
    emitted: bool,
}

impl U64Serializer {
    /// Creates a new u64 serializer.
    pub fn new(value: u64) -> (s: Self)
        ensures
            s.inv(),
            s.remaining() == decimal(value as nat),
            !s.fails(),
    {
        U64Serializer { value, emitted: false }
    }
}

impl Serializer for U64Serializer {
    open spec fn reports(&self, e: Error) -> bool {
        false
    }

    open spec fn may_pend(&self) -> bool {
        false
    }

    closed spec fn inv(&self) -> bool {
        true
    }

    closed spec fn remaining(&self) -> Seq<u8> {
        if self.emitted {
            Seq::empty()
        } else {
            decimal(self.value as nat)
        }
    }

    closed spec fn fails(&self) -> bool {
        false
    }

    fn poll(&mut self, cx: &mut Context<'_>) -> (r: Poll<Option<Result<bytes::Bytes, Error>>>)
        ensures
            whole_chunk_step(old(self).remaining(), r),
    {
        if self.emitted {
            Poll::Ready(None)
        } else {
            self.emitted = true;
            let text = u64_text(self.value);
            proof {
                law_decimal_reads_back(self.value as nat);
            }
            Poll::Ready(Some(Ok(chunk_from_vec(text))))
        }
    }
}

impl IntoSerializer for i64 {
    type S = I64Serializer;

    open spec fn size_unknown(&self) -> bool {
        false
    }

    open spec fn json_may_pend(&self) -> bool {
        false
    }

    open spec fn json(&self) -> Seq<u8> {
        signed_decimal(*self as int)
    }

    open spec fn json_fails(&self) -> bool {
        false
    }

    open spec fn size_known(&self) -> bool {
        true
    }

    fn into_serializer(self) -> (s: Self::S) {
        I64Serializer::new(self)
    }

    fn size(&self) -> (r: Option<usize>) {
        Some(i64_text(*self).len())
    }
}

impl IntoSerializer for i32 {
    type S = I64Serializer;

    open spec fn size_unknown(&self) -> bool {
        false
    }

    open spec fn json_may_pend(&self) -> bool {
        false
    }

    open spec fn json(&self) -> Seq<u8> {
        signed_decimal(*self as int)
    }

    open spec fn json_fails(&self) -> bool {
        false
    }

    open spec fn size_known(&self) -> bool {
        true
    }

    fn into_serializer(self) -> (s: Self::S) {
        I64Serializer::new(self as i64)
    }

    fn size(&self) -> (r: Option<usize>) {
        Some(i64_text(*self as i64).len())
    }
}

impl IntoSerializer for i16 {
    type S = I64Serializer;

    open spec fn size_unknown(&self) -> bool {
        false
    }

    open spec fn json_may_pend(&self) -> bool {
        false
    }

    open spec fn json(&self) -> Seq<u8> {
        signed_decimal(*self as int)
    }

    open spec fn json_fails(&self) -> bool {
        false
    }

    open spec fn size_known(&self) -> bool {
        true
    }

    fn into_serializer(self) -> (s: Self::S) {
        I64Serializer::new(self as i64)
    }

    fn size(&self) -> (r: Option<usize>) {
        Some(i64_text(*self as i64).len())
    }
}

impl IntoSerializer for i8 {
    type S = I64Serializer;

    open spec fn size_unknown(&self) -> bool {
        false
    }

    open spec fn json_may_pend(&self) -> bool {
        false
    }

    open spec fn json(&self) -> Seq<u8> {
        signed_decimal(*self as int)
    }

    open spec fn json_fails(&self) -> bool {
        false
    }

    open spec fn size_known(&self) -> bool {
        true
    }

    fn into_serializer(self) -> (s: Self::S) {
        I64Serializer::new(self as i64)
    }

    fn size(&self) -> (r: Option<usize>) {
        Some(i64_text(*self as i64).len())
    }
}

impl IntoSerializer for u64 {
    type S = U64Serializer;

    open spec fn size_unknown(&self) -> bool {
        false
    }

    open spec fn json_may_pend(&self) -> bool {
        false
    }

    open spec fn json(&self) -> Seq<u8> {
        decimal(*self as nat)
    }

    open spec fn json_fails(&self) -> bool {
        false
    }

    open spec fn size_known(&self) -> bool {
        true
    }

    fn into_serializer(self) -> (s: Self::S) {
        U64Serializer::new(self)
    }

    fn size(&self) -> (r: Option<usize>) {
        Some(u64_text(*self).len())
    }
}

impl IntoSerializer for u32 {
    type S = U64Serializer;

    open spec fn size_unknown(&self) -> bool {
        false
    }

    open spec fn json_may_pend(&self) -> bool {
        false
    }

    open spec fn json(&self) -> Seq<u8> {
        decimal(*self as nat)
    }

    open spec fn json_fails(&self) -> bool {
        false
    }

    open spec fn size_known(&self) -> bool {
        true
    }

    fn into_serializer(self) -> (s: Self::S) {
        U64Serializer::new(self as u64)
    }

    fn size(&self) -> (r: Option<usize>) {
        Some(u64_text(*self as u64).len())
    }
}

impl IntoSerializer for u16 {
    type S = U64Serializer;

    open spec fn size_unknown(&self) -> bool {
        false
    }

    open spec fn json_may_pend(&self) -> bool {
        false
    }

    open spec fn json(&self) -> Seq<u8> {
        decimal(*self as nat)
    }

    open spec fn json_fails(&self) -> bool {
        false
    }

    open spec fn size_known(&self) -> bool {
        true
    }

    fn into_serializer(self) -> (s: Self::S) {
        U64Serializer::new(self as u64)
    }

    fn size(&self) -> (r: Option<usize>) {
        Some(u64_text(*self as u64).len())
    }
}

impl IntoSerializer for u8 {
    type S = U64Serializer;

    open spec fn size_unknown(&self) -> bool {
        false
    }

    open spec fn json_may_pend(&self) -> bool {
        false
    }

    open spec fn json(&self) -> Seq<u8> {
        decimal(*self as nat)
    }

    open spec fn json_fails(&self) -> bool {
        false
    }

    open spec fn size_known(&self) -> bool {
        true
    }

    fn into_serializer(self) -> (s: Self::S) {
        U64Serializer::new(self as u64)
    }

    fn size(&self) -> (r: Option<usize>) {
        Some(u64_text(*self as u64).len())
    }
}

enum StringState {
    Start,
    Streaming { chunk_start: usize },
    Closing,
    Done,
}

/// Serializer for strings. A string whose escaped text fits in
/// [`CHUNK_SIZE`](crate::CHUNK_SIZE) bytes is emitted as one quoted chunk;
/// a longer one is emitted as `"` with the first `CHUNK_SIZE` escaped bytes,
/// then further pieces of at most `CHUNK_SIZE` bytes, the last one followed
/// by the closing `"`.
pub struct StringSerializer {
    data: String,
    escaped: Vec<u8>,
    state: StringState,
}

/// Appends `bytes[start..end]`.
pub(crate) fn push_range(out: &mut Vec<u8>, bytes: &Vec<u8>, start: usize, end: usize)
    requires
        start <= end <= bytes@.len(),
    ensures
        final(out)@ == old(out)@ + bytes@.subrange(start as int, end as int),
{
    let mut i = start;
    while i < end
        invariant
            start <= i <= end <= bytes@.len(),
            out@ == old(out)@ + bytes@.subrange(start as int, i as int),
        decreases end - i,
    {
        out.push(bytes[i]);
        i = i + 1;
        assert(out@ =~= old(out)@ + bytes@.subrange(start as int, i as int));
    }
}

impl StringSerializer {
    /// Creates a new string serializer.
    pub fn new(data: String) -> (s: Self)
        ensures
            s.inv(),
            s.is_fresh(),
            s.text() == data@,
            s.remaining() == json_string(data@),
            !s.fails(),
    {
        StringSerializer { data, escaped: Vec::new(), state: StringState::Start }
    }

    fn poll_start(&mut self, cx: &mut Context<'_>) -> (r: Poll<Option<Result<bytes::Bytes, Error>>>)
        requires
            old(self).state is Start,
        ensures
            final(self).inv(),
            poll_step(old(self).remaining(), old(self).fails(), final(self).remaining(), final(self).fails(), r),
            r matches Poll::Ready(Some(Ok(b))) ==> chunk_bytes(b).len() <= CHUNK_SIZE + 2,
            r !is Pending,
            !(final(self).state is Start),
            escape(old(self).text()).len() <= CHUNK_SIZE ==> whole_chunk_step(old(self).remaining(), r),
            escape(old(self).text()).len() > CHUNK_SIZE ==> (r matches Poll::Ready(Some(Ok(b)))
                && chunk_bytes(b) == seq![34u8] + escape(old(self).text()).take(CHUNK_SIZE as int)),
    {
        let escaped = escape_string(self.data.as_str());
        if escaped.len() <= CHUNK_SIZE {
            self.state = StringState::Done;
            let mut out: Vec<u8> = Vec::new();
            out.push(34u8);
            push_range(&mut out, &escaped, 0, escaped.len());
            out.push(34u8);
            assert(escaped@.subrange(0, escaped@.len() as int) =~= escaped@);
            assert(out@ =~= json_string(self.data@));
            let r = Poll::Ready(Some(Ok(chunk_from_vec(out))));
            assert(poll_step(old(self).remaining(), old(self).fails(), self.remaining(), self.fails(), r));
            return r;
        }
        let end = CHUNK_SIZE;
        let mut out: Vec<u8> = Vec::new();
        out.push(34u8);
        push_range(&mut out, &escaped, 0, end);
        self.escaped = escaped;
        self.state = StringState::Streaming { chunk_start: end };
        proof {
            assert(out@ =~= seq![34u8] + self.escaped@.take(end as int));
            assert(json_string(self.data@) =~= out@ + (self.escaped@.skip(end as int)
                + seq![34u8]));
            assert(old(self).remaining() == json_string(self.data@));
            assert(self.remaining() == self.escaped@.skip(end as int) + seq![34u8]);
        }
        let r = Poll::Ready(Some(Ok(chunk_from_vec(out))));
        assert(poll_step(old(self).remaining(), old(self).fails(), self.remaining(), self.fails(), r));
        r
    }

    /// Whether nothing has been emitted yet.
    pub closed spec fn is_fresh(&self) -> bool {
        self.state is Start
    }

    /// The string being serialized.
    pub closed spec fn text(&self) -> Seq<char> {
        self.data@
    }
}

impl Serializer for StringSerializer {
    open spec fn reports(&self, e: Error) -> bool {
        false
    }

    open spec fn may_pend(&self) -> bool {
        false
    }

    closed spec fn inv(&self) -> bool {
        match self.state {
            StringState::Streaming { chunk_start } => chunk_start < self.escaped@.len(),
            _ => true,
        }
    }

    closed spec fn remaining(&self) -> Seq<u8> {
        match self.state {
            StringState::Start => json_string(self.data@),
            StringState::Streaming { chunk_start } => self.escaped@.skip(chunk_start as int)
                + seq![34u8],
            StringState::Closing => seq![34u8],
            StringState::Done => Seq::empty(),
        }
    }

    closed spec fn fails(&self) -> bool {
        false
    }

    fn poll(&mut self, cx: &mut Context<'_>) -> (r: Poll<Option<Result<bytes::Bytes, Error>>>)
        ensures
            r matches Poll::Ready(Some(Ok(b))) ==> chunk_bytes(b).len() <= CHUNK_SIZE + 2,
            r !is Pending,
            old(self).is_fresh() && escape(old(self).text()).len() <= CHUNK_SIZE ==> whole_chunk_step(
                old(self).remaining(),
                r,
            ),
            old(self).is_fresh() && escape(old(self).text()).len() > CHUNK_SIZE ==> (r matches Poll::Ready(Some(Ok(b)))
                && chunk_bytes(b) == seq![34u8] + escape(old(self).text()).take(CHUNK_SIZE as int)),
            !final(self).is_fresh(),
            !old(self).is_fresh() ==> {
                let rest = old(self).remaining();
                &&& rest.len() == 0 ==> r == Poll::<Option<Result<bytes::Bytes, Error>>>::Ready(None)
                &&& 0 < rest.len() <= CHUNK_SIZE + 1 ==> (r matches Poll::Ready(Some(Ok(b))) && chunk_bytes(b) == rest)
                &&& rest.len() > CHUNK_SIZE + 1 ==> (r matches Poll::Ready(Some(Ok(b))) && chunk_bytes(b) == rest.take(
                    CHUNK_SIZE as int,
                ))
            },
    {
        let chunk_start = match &self.state {
            StringState::Start => {
                return self.poll_start(cx);
            },
            StringState::Streaming { chunk_start } => *chunk_start,
            StringState::Closing => {
                self.state = StringState::Done;
                let out = vec![34u8];
                assert(old(self).remaining() =~= out@ + self.remaining());
                return Poll::Ready(Some(Ok(chunk_from_vec(out))));
            },
            StringState::Done => {
                return Poll::Ready(None);
            },
        };
        let len = self.escaped.len();
        if chunk_start >= len {
            self.state = StringState::Closing;
            return Poll::Ready(Some(Ok(chunk_from_vec(vec![34u8]))));
        }
        let end = if len - chunk_start <= CHUNK_SIZE {
            len
        } else {
            chunk_start + CHUNK_SIZE
        };
        let mut out: Vec<u8> = Vec::new();
        push_range(&mut out, &self.escaped, chunk_start, end);
        let ghost piece = self.escaped@.subrange(chunk_start as int, end as int);
        if end >= len {
            self.state = StringState::Done;
            out.push(34u8);
            proof {
                assert(self.escaped@.skip(chunk_start as int) =~= piece);
                assert(out@ =~= piece + seq![34u8]);
                assert(old(self).remaining() =~= out@ + self.remaining());
            }
            return Poll::Ready(Some(Ok(chunk_from_vec(out))));
        }
        self.state = StringState::Streaming { chunk_start: end };
        proof {
            assert(self.escaped@.skip(chunk_start as int) =~= piece + self.escaped@.skip(end as int));
            assert(out@ =~= piece);
            assert(old(self).remaining() =~= out@ + self.remaining());
        }
        Poll::Ready(Some(Ok(chunk_from_vec(out))))
    }
}

/// The size of a quoted string, or `None` where it does not fit in a `usize`.
pub fn quoted_size(s: &str) -> (r: Option<usize>)
    ensures
        r == reported_size(json_string(s@)),
{
    assert(json_string(s@).len() == escape(s@).len() + 2);
    match escaped_string_size(s) {
        Some(k) => if k <= usize::MAX - 2 {
            Some(k + 2)
        } else {
            None
        },
        None => None,
    }
}

impl IntoSerializer for String {
    type S = StringSerializer;

    open spec fn size_unknown(&self) -> bool {
        false
    }

    open spec fn json_may_pend(&self) -> bool {
        false
    }

    open spec fn json(&self) -> Seq<u8> {
        json_string(self@)
    }

    open spec fn json_fails(&self) -> bool {
        false
    }

    open spec fn size_known(&self) -> bool {
        true
    }

    fn into_serializer(self) -> (s: Self::S)
        ensures
            s.is_fresh(),
            s.text() == self@,
    {
        StringSerializer::new(self)
    }

    fn size(&self) -> (r: Option<usize>) {
        quoted_size(self.as_str())
    }
}

impl<'a> IntoSerializer for &'a str {
    type S = StringSerializer;

    open spec fn size_unknown(&self) -> bool {
        false
    }

    open spec fn json_may_pend(&self) -> bool {
        false
    }

    open spec fn json(&self) -> Seq<u8> {
        json_string(self@)
    }

    open spec fn json_fails(&self) -> bool {
        false
    }

    open spec fn size_known(&self) -> bool {
        true
    }

    fn into_serializer(self) -> (s: Self::S)
        ensures
            s.is_fresh(),
            s.text() == self@,
    {
        StringSerializer::new(self.to_owned())
    }

    fn size(&self) -> (r: Option<usize>) {
        quoted_size(self)
    }
}

/// The text of an optional value: the value's text, or `null`.
pub open spec fn option_json<T: IntoSerializer>(value: Option<T>) -> Seq<u8> {
    match value {
        Some(v) => v.json(),
        None => null_text(),
    }
}

/// Serializer for `Option<T>`: the inner value's output, or `null`.
pub struct OptionSerializer<T: IntoSerializer> {
    inner: Option<T::S>,
    emitted: bool,
}

impl<T: IntoSerializer> OptionSerializer<T> {
    /// Creates a new option serializer, converting the inner value.
    pub fn new(value: Option<T>) -> (s: Self)
        ensures
            s.inv(),
            s.remaining() == option_json(value),
            s.fails() == (value matches Some(v) && v.json_fails()),
            s.may_pend() ==> (value matches Some(v) && v.json_may_pend()),
            !s.is_done(),
            s.is_none() == (value is None),
    {
        let inner = match value {
            Some(v) => Some(v.into_serializer()),
            None => None,
        };
        OptionSerializer { inner, emitted: false }
    }

    /// Whether the serializer has finished (after its text, or after an
    /// error from the inner value).
    pub closed spec fn is_done(&self) -> bool {
        self.emitted
    }

    /// Whether the value is absent, so `null` is written.
    pub closed spec fn is_none(&self) -> bool {
        self.inner is None
    }

    /// The inner value's serializer, when there is a value.
    pub closed spec fn inner(&self) -> Option<T::S> {
        self.inner
    }
}

impl<T: IntoSerializer> Serializer for OptionSerializer<T> {
    closed spec fn reports(&self, e: Error) -> bool {
        &&& !self.emitted
        &&& self.inner matches Some(s) && s.reports(e)
    }

    closed spec fn may_pend(&self) -> bool {
        !self.emitted && (self.inner matches Some(s) && s.may_pend())
    }

    closed spec fn inv(&self) -> bool {
        !self.emitted ==> (self.inner matches Some(s) ==> s.inv())
    }

    closed spec fn remaining(&self) -> Seq<u8> {
        if self.emitted {
            Seq::empty()
        } else {
            match self.inner {
                Some(s) => s.remaining(),
                None => null_text(),
            }
        }
    }

    closed spec fn fails(&self) -> bool {
        !self.emitted && (self.inner matches Some(s) && s.fails())
    }

    /// `null` in one chunk for an absent value; otherwise what the inner
    /// serializer answers, passed on. After the end or an error, `Ready(None)`
    /// without polling the inner serializer again.
    fn poll(&mut self, cx: &mut Context<'_>) -> (r: Poll<Option<Result<bytes::Bytes, Error>>>)
        ensures
            old(self).is_done() ==> r == Poll::<Option<Result<bytes::Bytes, Error>>>::Ready(None)
                && *final(self) == *old(self),
            !old(self).is_done() && old(self).is_none() ==> (r matches Poll::Ready(Some(Ok(b))) && chunk_bytes(b)
                == null_text() && final(self).is_done()),
            r matches Poll::Ready(Some(Err(_))) ==> final(self).is_done(),
            r matches Poll::Ready(Some(Err(e))) ==> (old(self).inner() matches Some(s) && s.reports(e)),
            r == Poll::<Option<Result<bytes::Bytes, Error>>>::Ready(None) ==> final(self).is_done(),
            final(self).is_none() == old(self).is_none(),
    {
        if self.emitted {
            return Poll::Ready(None);
        }
        let r = match &mut self.inner {
            Some(serializer) => serializer.poll(cx),
            None => {
                let out = null_bytes();
                assert(out@ =~= null_text());
                Poll::Ready(Some(Ok(chunk_from_vec(out))))
            },
        };
        match &r {
            Poll::Ready(Some(Ok(_))) => {
                if self.inner.is_none() {
                    self.emitted = true;
                    assert(old(self).remaining() =~= null_text() + self.remaining());
                }
            },
            Poll::Ready(Some(Err(_))) => {
                self.emitted = true;
            },
            Poll::Ready(None) => {
                self.emitted = true;
            },
            Poll::Pending => {},
        }
        r
    }
}

impl<T: IntoSerializer> IntoSerializer for Option<T> {
    type S = OptionSerializer<T>;

    open spec fn size_unknown(&self) -> bool {
        *self matches Some(v) && v.size_unknown()
    }

    open spec fn json_may_pend(&self) -> bool {
        *self matches Some(v) && v.json_may_pend()
    }

    open spec fn json(&self) -> Seq<u8> {
        option_json(*self)
    }

    open spec fn json_fails(&self) -> bool {
        *self matches Some(v) && v.json_fails()
    }

    open spec fn size_known(&self) -> bool {
        match *self {
            Some(v) => v.size_known(),
            None => true,
        }
    }

    fn into_serializer(self) -> (s: Self::S) {
        OptionSerializer::new(self)
    }

    fn size(&self) -> (r: Option<usize>) {
        match self {
            Some(value) => value.size(),
            None => Some(4),
        }
    }
}

/// Serializer for `Box<T>`: the boxed value's serializer.
pub struct BoxSerializer<T: IntoSerializer> {
    inner: T::S,
}

impl<T: IntoSerializer> BoxSerializer<T> {
    /// Creates a new box serializer from the boxed value.
    pub fn new(value: Box<T>) -> (s: Self)
        ensures
            s.inv(),
            s.remaining() == (*value).json(),
            s.fails() == (*value).json_fails(),
            s.may_pend() ==> (*value).json_may_pend(),
    {
        BoxSerializer { inner: (*value).into_serializer() }
    }
}

impl<T: IntoSerializer> Serializer for BoxSerializer<T> {
    closed spec fn reports(&self, e: Error) -> bool {
        self.inner.reports(e)
    }

    closed spec fn may_pend(&self) -> bool {
        self.inner.may_pend()
    }

    closed spec fn inv(&self) -> bool {
        self.inner.inv()
    }

    closed spec fn remaining(&self) -> Seq<u8> {
        self.inner.remaining()
    }

    closed spec fn fails(&self) -> bool {
        self.inner.fails()
    }

    fn poll(&mut self, cx: &mut Context<'_>) -> (r: Poll<Option<Result<bytes::Bytes, Error>>>) {
        self.inner.poll(cx)
    }
}

impl<T: IntoSerializer> IntoSerializer for Box<T> {
    type S = BoxSerializer<T>;

    open spec fn size_unknown(&self) -> bool {
        (**self).size_unknown()
    }

    open spec fn json_may_pend(&self) -> bool {
        (**self).json_may_pend()
    }

    open spec fn json(&self) -> Seq<u8> {
        (**self).json()
    }

    open spec fn json_fails(&self) -> bool {
        (**self).json_fails()
    }

    open spec fn size_known(&self) -> bool {
        (**self).size_known()
    }

    fn into_serializer(self) -> (s: Self::S) {
        BoxSerializer::new(self)
    }

    fn size(&self) -> (r: Option<usize>) {
        (**self).size()
    }
}

enum VecState {
    Start,
    EmitOpenBracket,
    Serializing { idx: usize },
    EmitComma { next_idx: usize },
    EmitCloseBracket,
    End,
}

/// The texts still to come from each of a list of serializers.
pub open spec fn remainings<S: Serializer>(sers: Seq<S>) -> Seq<Seq<u8>> {
    sers.map_values(|s: S| s.remaining())
}

/// The JSON texts of a list of values.
pub open spec fn jsons<T: IntoSerializer>(items: Seq<T>) -> Seq<Seq<u8>> {
    items.map_values(|t: T| t.json())
}

/// Serializer for `Vec<T>`: a JSON array of the elements' outputs, with
/// commas between them; `[]` for an empty vector.
pub struct VecSerializer<T: IntoSerializer> {
    serializers: Vec<T::S>,
    state: VecState,
}

spec fn vec_rank(st: VecState) -> nat {
    match st {
        VecState::Start => 2,
        VecState::Serializing { .. } => 2,
        _ => 1,
    }
}

impl<T: IntoSerializer> VecSerializer<T> {
    /// Creates a new vec serializer; each element is converted to its
    /// serializer right away.
    pub fn new(items: Vec<T>) -> (s: Self)
        ensures
            s.inv(),
            s.remaining() == array_json(jsons(items@)),
            s.fails() == (exists|j: int| 0 <= j < items@.len() && #[trigger] items@[j].json_fails()),
            s.may_pend() ==> (exists|j: int| 0 <= j < items@.len() && #[trigger] items@[j].json_may_pend()),
            s.is_fresh(),
            s.count() == items@.len(),
            s.element_rests() == jsons(items@),
    {
        let ghost orig = items@;
        let mut serializers: Vec<T::S> = Vec::new();
        let n = items.len();
        for item in it: items
            invariant
                n == orig.len(),
                it.seq() == orig,
                serializers@.len() == it.index(),
                forall|j: int| 0 <= j < serializers@.len() ==> (#[trigger] serializers@[j]).inv(),
                forall|j: int| 0 <= j < serializers@.len() ==> (#[trigger] serializers@[j]).remaining() == orig[j].json(),
                forall|j: int| 0 <= j < serializers@.len() ==> (#[trigger] serializers@[j]).fails() == orig[j].json_fails(),
                forall|j: int| 0 <= j < serializers@.len() ==> (#[trigger] serializers@[j]).may_pend() ==> orig[j].json_may_pend(),
        {
            serializers.push(item.into_serializer());
        }
        let ghost sers: Seq<T::S> = serializers@;
        let s = VecSerializer { serializers, state: VecState::Start };
        assert(remainings(s.serializers@) =~= jsons(orig));
        assert(s.fails() == (exists|j: int| 0 <= j < orig.len() && #[trigger] orig[j].json_fails())) by {
            if s.fails() {
                let j = choose|j: int| 0 <= j < n && #[trigger] sers[j].fails();
                assert(orig[j].json_fails());
            }
            if exists|j: int| 0 <= j < orig.len() && #[trigger] orig[j].json_fails() {
                let j = choose|j: int| 0 <= j < orig.len() && #[trigger] orig[j].json_fails();
                assert(sers[j].fails());
            }
        }
        assert(s.may_pend() ==> (exists|j: int| 0 <= j < orig.len() && #[trigger] orig[j].json_may_pend())) by {
            if s.may_pend() {
                let j = choose|j: int| 0 <= j < n && #[trigger] sers[j].may_pend();
                assert(orig[j].json_may_pend());
            }
        }
        s
    }
}

impl<T: IntoSerializer> VecSerializer<T> {
    /// Whether nothing has been emitted yet.
    pub closed spec fn is_fresh(&self) -> bool {
        self.state is Start
    }

    /// Whether the serializer has finished.
    pub closed spec fn is_done(&self) -> bool {
        self.state is End
    }

    /// How many values it serializes.
    pub closed spec fn count(&self) -> nat {
        self.serializers@.len()
    }

    /// What each element's serializer has still to emit.
    pub closed spec fn element_rests(&self) -> Seq<Seq<u8>> {
        remainings(self.serializers@)
    }

    /// Whether an element is being serialized.
    pub closed spec fn at_element(&self) -> bool {
        self.state is Serializing
    }

    /// The element being serialized (when one is).
    pub closed spec fn current_index(&self) -> int {
        match self.state {
            VecState::Serializing { idx } => idx as int,
            _ => 0,
        }
    }

    spec fn rems(&self) -> Seq<Seq<u8>> {
        remainings(self.serializers@)
    }

    spec fn fails_from(&self, from: int) -> bool {
        exists|j: int| from <= j < self.serializers@.len() && #[trigger] self.serializers@[j].fails()
    }
}

impl<T: IntoSerializer> Serializer for VecSerializer<T> {
    closed spec fn reports(&self, e: Error) -> bool {
        self.state matches VecState::Serializing { idx } && self.serializers@[idx as int].reports(e)
    }

    closed spec fn may_pend(&self) -> bool {
        exists|j: int| 0 <= j < self.serializers@.len() && #[trigger] self.serializers@[j].may_pend()
    }

    closed spec fn inv(&self) -> bool {
        &&& forall|j: int| 0 <= j < self.serializers@.len() ==> (#[trigger] self.serializers@[j]).inv()
        &&& match self.state {
            VecState::EmitOpenBracket => self.serializers@.len() > 0,
            VecState::Serializing { idx } => idx < self.serializers@.len(),
            VecState::EmitComma { next_idx } => 0 < next_idx < self.serializers@.len(),
            _ => true,
        }
    }

    closed spec fn remaining(&self) -> Seq<u8> {
        match self.state {
            VecState::Start => array_json(self.rems()),
            VecState::EmitOpenBracket => array_json(self.rems()),
            VecState::Serializing { idx } => self.rems()[idx as int] + comma_tail(
                self.rems(),
                idx + 1,
            ) + seq![93u8],
            VecState::EmitComma { next_idx } => comma_tail(self.rems(), next_idx as int) + seq![93u8],
            VecState::EmitCloseBracket => seq![93u8],
            VecState::End => Seq::empty(),
        }
    }

    closed spec fn fails(&self) -> bool {
        match self.state {
            VecState::Start => self.fails_from(0),
            VecState::EmitOpenBracket => self.fails_from(0),
            VecState::Serializing { idx } => self.fails_from(idx as int),
            VecState::EmitComma { next_idx } => self.fails_from(next_idx as int),
            VecState::EmitCloseBracket => false,
            VecState::End => false,
        }
    }

    /// The first poll hands out the opening bracket (both brackets when
    /// there is nothing inside). While an element is being serialized, each
    /// poll passes on its answer; once it has ended, the next poll hands out
    /// the comma before the next element, or the closing bracket after the
    /// last. After the end, `Ready(None)`.
    #[verifier::rlimit(60)]
    #[verifier::spinoff_prover]
    fn poll(&mut self, cx: &mut Context<'_>) -> (r: Poll<Option<Result<bytes::Bytes, Error>>>)
        ensures
            final(self).count() == old(self).count(),
            final(self).element_rests().len() == old(self).element_rests().len(),
            forall|j: int|
                0 <= j < old(self).count() && !(old(self).at_element() && old(self).current_index() == j)
                    ==> #[trigger] final(self).element_rests()[j] == old(self).element_rests()[j],
            old(self).is_fresh() && old(self).count() > 0 ==> final(self).at_element()
                && final(self).current_index() == 0,
            old(self).at_element() ==> {
                let i = old(self).current_index();
                let e = old(self).element_rests()[i];
                &&& e.len() > 0 && is_chunk(r) ==> chunk_of(r).len() <= e.len() && chunk_of(r) == e.take(
                    chunk_of(r).len() as int,
                )
                    && final(self).at_element() && final(self).current_index() == i
                    && final(self).element_rests()[i] == e.skip(chunk_of(r).len() as int)
                &&& e.len() == 0 && !old(self).fails() && r !is Pending ==> is_chunk(r) && (if i + 1
                    < old(self).count() {
                    chunk_of(r) == seq![44u8] && final(self).at_element() && final(self).current_index()
                        == i + 1
                } else {
                    chunk_of(r) == seq![93u8] && final(self).is_done()
                })
            },
            old(self).is_fresh() ==> (r matches Poll::Ready(Some(Ok(b))) && chunk_bytes(b) == (if old(
                self,
            ).count() == 0 {
                seq![91u8, 93u8]
            } else {
                seq![91u8]
            })),
            old(self).is_done() ==> r == Poll::<Option<Result<bytes::Bytes, Error>>>::Ready(None),
            r is Pending ==> old(self).at_element(),
            r == Poll::<Option<Result<bytes::Bytes, Error>>>::Ready(None) ==> final(self).is_done(),
    {
        let ghost n = self.serializers@.len();
        loop
            invariant
                self.inv(),
                self.serializers@.len() == n,
                n == old(self).serializers@.len(),
                self.remaining() == old(self).remaining(),
                self.fails() == old(self).fails(),
                self.may_pend() ==> old(self).may_pend(),
                old(self).is_done() ==> self.state is End,
                old(self).is_fresh() ==> self.state is Start || self.state is EmitOpenBracket,
                old(self).is_fresh() ==> self.rems() == old(self).rems(),
                self.state is Serializing ==> self.state == old(self).state && self.serializers@
                    == old(self).serializers@,
                forall|j: int|
                    0 <= j < n && !(old(self).at_element() && old(self).current_index() == j)
                        ==> #[trigger] self.rems()[j] == old(self).rems()[j],
                old(self).at_element() ==> {
                    let i = old(self).current_index();
                    ||| self.at_element() && self.current_index() == i && self.rems() == old(self).rems()
                    ||| old(self).rems()[i].len() == 0 && i + 1 < n && self.state is EmitComma && self.state->next_idx == i + 1
                    ||| old(self).rems()[i].len() == 0 && i + 1 == n && self.state is EmitCloseBracket
                },
            decreases vec_rank(self.state),
        {
            match &self.state {
                VecState::Start => {
                    if self.serializers.len() == 0 {
                        self.state = VecState::End;
                        let out = vec![91u8, 93u8];
                        assert(out@ =~= seq![91u8, 93u8]);
                        proof {
                            assert(old(self).remaining() =~= out@ + self.remaining());
                        }
                        return Poll::Ready(Some(Ok(chunk_from_vec(out))));
                    }
                    self.state = VecState::EmitOpenBracket;
                },
                VecState::EmitOpenBracket => {
                    self.state = VecState::Serializing { idx: 0 };
                    let out = vec![91u8];
                    assert(out@ =~= seq![91u8]);
                    proof {
                        lemma_comma_join_first(self.rems());
                        assert(old(self).remaining() =~= out@ + self.remaining());
                    }
                    return Poll::Ready(Some(Ok(chunk_from_vec(out))));
                },
                VecState::Serializing { idx } => {
                    let idx = *idx;
                    let len = self.serializers.len();
                    let ghost before = self.rems();
                    let ghost sers_before = self.serializers@;
                    assert((exists|j: int| 0 <= j < n && #[trigger] sers_before[j].may_pend()) ==> old(self).may_pend());
                    let r = self.serializers[idx].poll(cx);
                    proof {
                        assert(self.serializers@ == sers_before.update(idx as int, self.serializers@[idx as int]));
                        assert(self.rems().subrange(idx + 1, n as int) =~= before.subrange(idx + 1, n as int));
                        assert forall|j: int| 0 <= j < n && j != idx implies self.serializers@[j] == sers_before[j] by {}
                        assert(self.may_pend() ==> old(self).may_pend()) by {
                            if self.may_pend() {
                                let j = choose|j: int| 0 <= j < n && #[trigger] self.serializers@[j].may_pend();
                                if j != idx {
                                    assert(self.serializers@[j] == sers_before[j]);
                                }
                                assert(sers_before[j].may_pend());
                            }
                        }
                        assert(r is Pending ==> sers_before[idx as int].may_pend());
                        assert(self.rems().len() == n);
                        assert forall|j: int| 0 <= j < n && j != idx implies #[trigger] self.rems()[j] == old(self).rems()[j] by {
                            assert(self.serializers@[j] == sers_before[j]);
                        }
                        let e = before[idx as int];
                        if is_chunk(r) {
                            let c = chunk_of(r);
                            assert(e == c + self.rems()[idx as int]);
                            assert(e.take(c.len() as int) =~= c);
                            assert(e.skip(c.len() as int) =~= self.rems()[idx as int]);
                        }
                    }
                    match r {
                        Poll::Ready(Some(result)) => {
                            proof {
                                if result is Ok {
                                    assert(self.fails_from(idx as int) == old(self).fails()) by {
                                        if old(self).fails() {
                                            let j = choose|j: int| idx <= j < n && #[trigger] sers_before[j].fails();
                                            assert(self.serializers@[j].fails());
                                        }
                                        if self.fails_from(idx as int) {
                                            let j = choose|j: int| idx <= j < n && #[trigger] self.serializers@[j].fails();
                                            assert(sers_before[j].fails());
                                        }
                                    }
                                    let b = result->Ok_0;
                                    assert(old(self).remaining() =~= chunk_bytes(b) + self.remaining());
                                }
                            }
                            return Poll::Ready(Some(result));
                        },
                        Poll::Ready(None) => {
                            let next_idx = idx + 1;
                            if next_idx >= len {
                                self.state = VecState::EmitCloseBracket;
                                proof {
                                    lemma_comma_tail_end(self.rems());
                                    assert(old(self).remaining() =~= self.remaining());
                                    assert(!old(self).fails()) by {
                                        if old(self).fails() {
                                            let j = choose|j: int| idx <= j < n && #[trigger] sers_before[j].fails();
                                            assert(j == idx);
                                        }
                                    }
                                }
                            } else {
                                self.state = VecState::EmitComma { next_idx };
                                proof {
                                    assert(old(self).remaining() =~= self.remaining());
                                    assert(self.fails() == old(self).fails()) by {
                                        if old(self).fails() {
                                            let j = choose|j: int| idx <= j < n && #[trigger] sers_before[j].fails();
                                            assert(j != idx);
                                            assert(self.serializers@[j].fails());
                                        }
                                        if self.fails() {
                                            let j = choose|j: int| next_idx <= j < n && #[trigger] self.serializers@[j].fails();
                                            assert(sers_before[j].fails());
                                        }
                                    }
                                }
                            }
                        },
                        Poll::Pending => {
                            proof {
                                assert(old(self).remaining() =~= self.remaining());
                                assert(self.fails() == old(self).fails()) by {
                                    if old(self).fails() {
                                        let j = choose|j: int| idx <= j < n && #[trigger] sers_before[j].fails();
                                        assert(self.serializers@[j].fails());
                                    }
                                    if self.fails() {
                                        let j = choose|j: int| idx <= j < n && #[trigger] self.serializers@[j].fails();
                                        assert(sers_before[j].fails());
                                    }
                                }
                            }
                            return Poll::Pending;
                        },
                    }
                },
                VecState::EmitComma { next_idx } => {
                    let next_idx = *next_idx;
                    proof {
                        if old(self).at_element() {
                            let i = old(self).current_index();
                            assert(!self.at_element());
                            assert(!(self.state is EmitCloseBracket));
                            assert(old(self).rems()[i].len() == 0);
                            assert(i + 1 == next_idx);
                        }
                    }
                    self.state = VecState::Serializing { idx: next_idx };
                    let out = vec![44u8];
                    assert(out@ =~= seq![44u8]);
                    proof {
                        lemma_comma_tail_step(self.rems(), next_idx as int);
                        assert(old(self).remaining() =~= out@ + self.remaining());
                    }
                    return Poll::Ready(Some(Ok(chunk_from_vec(out))));
                },
                VecState::EmitCloseBracket => {
                    self.state = VecState::End;
                    let out = vec![93u8];
                    assert(out@ =~= seq![93u8]);
                    proof {
                        assert(old(self).remaining() =~= out@ + self.remaining());
                    }
                    return Poll::Ready(Some(Ok(chunk_from_vec(out))));
                },
                VecState::End => {
                    return Poll::Ready(None);
                },
            }
        }
    }
}

/// Law: the unit value and every absent optional value are written as the
/// four bytes of `null`.
pub proof fn law_null_text<T: IntoSerializer>(u: (), v: Option<T>)
    ensures
        u.json() == seq![0x6eu8, 0x75u8, 0x6cu8, 0x6cu8],
        v is None ==> v.json() == seq![0x6eu8, 0x75u8, 0x6cu8, 0x6cu8],
{
}

/// Law: a boolean is written as `true` or `false`, and the two differ.
pub proof fn law_bool_text(b: bool)
    ensures
        b ==> b.json() == seq![0x74u8, 0x72u8, 0x75u8, 0x65u8],
        !b ==> b.json() == seq![0x66u8, 0x61u8, 0x6cu8, 0x73u8, 0x65u8],
        true.json() != false.json(),
{
    assert(true.json().len() != false.json().len());
}

/// Law: a present optional value and a boxed value are written as the value
/// itself.
pub proof fn law_wrapper_text<T: IntoSerializer>(v: Option<T>, b: Box<T>)
    ensures
        v matches Some(x) ==> v.json() == x.json(),
        b.json() == (*b).json(),
{
}

/// Law: a vector is written as a JSON array whose `i`-th element is the text
/// of the vector's `i`-th value, for every position.
pub proof fn law_vec_text<T: IntoSerializer>(v: Vec<T>)
    ensures
        v.json() == array_json(Seq::new(v@.len(), |i: int| v@[i].json())),
{
    assert(jsons(v@) =~= Seq::new(v@.len(), |i: int| v@[i].json()));
}

impl<T: IntoSerializer> IntoSerializer for Vec<T> {
    type S = VecSerializer<T>;

    open spec fn size_unknown(&self) -> bool {
        exists|j: int| 0 <= j < self@.len() && #[trigger] self@[j].size_unknown()
    }

    open spec fn json_may_pend(&self) -> bool {
        exists|j: int| 0 <= j < self@.len() && #[trigger] self@[j].json_may_pend()
    }

    open spec fn json(&self) -> Seq<u8> {
        array_json(jsons(self@))
    }

    open spec fn json_fails(&self) -> bool {
        exists|j: int| 0 <= j < self@.len() && #[trigger] self@[j].json_fails()
    }

    open spec fn size_known(&self) -> bool {
        forall|j: int| 0 <= j < self@.len() ==> #[trigger] self@[j].size_known()
    }

    fn into_serializer(self) -> (s: Self::S) {
        VecSerializer::new(self)
    }

    fn size(&self) -> (r: Option<usize>) {
        let ghost items = jsons(self@);
        let mut total: usize = 2;
        let mut i: usize = 0;
        assert(items.take(0) =~= Seq::<Seq<u8>>::empty());
        while i < self.len()
            invariant
                i <= self@.len(),
                items == jsons(self@),
                self.size_known() && !self.json_fails() ==> total == comma_join(items.take(i as int)).len() + 2,
                forall|j: int| 0 <= j < i ==> !(#[trigger] self@[j].size_unknown()),
            decreases self@.len() - i,
        {
            let item_size = self[i].size();
            proof {
                assert(items.take(i + 1) =~= items.take(i as int).push(items[i as int]));
                lemma_comma_join_push(items.take(i as int), items[i as int]);
                lemma_comma_join_prefix_len(items, i as int);
                lemma_comma_join_prefix_len(items, i + 1);
            }
            proof {
                if self.size_known() && !self.json_fails() {
                    assert(!self@[i as int].json_fails());
                    assert(self@[i as int].size_known());
                }
            }
            match item_size {
                None => {
                    return None;
                },
                Some(k) => {
                    let sep: usize = if i > 0 { 1 } else { 0 };
                    if total > usize::MAX - sep || total + sep > usize::MAX - k {
                        return None;
                    }
                    total = total + sep + k;
                    proof {
                        if self.size_known() && !self.json_fails() {
                            assert(!self@[i as int].json_fails());
                            assert(self@[i as int].size_known());
                            assert(k == items[i as int].len());
                        }
                    }
                },
            }
            i = i + 1;
        }
        assert(items.take(i as int) =~= items);
        Some(total)
    }
}

impl Serializer for Box<dyn Serializer> {
    open spec fn reports(&self, e: Error) -> bool {
        (**self).reports(e)
    }

    open spec fn may_pend(&self) -> bool {
        (**self).may_pend()
    }

    open spec fn inv(&self) -> bool {
        (**self).inv()
    }

    open spec fn remaining(&self) -> Seq<u8> {
        (**self).remaining()
    }

    open spec fn fails(&self) -> bool {
        (**self).fails()
    }

    fn poll(&mut self, cx: &mut Context<'_>) -> (r: Poll<Option<Result<bytes::Bytes, Error>>>) {
        (**self).poll(cx)
    }
}

/// Appends a member to an object's fields: calls `Vec::push` with the key and
/// the serializer in a `Box` (`Box::new`), which Rust turns into a
/// `Box<dyn Serializer>` whose methods are the value's own. So the new last
/// field holds the key and a serializer in the value's state, and the fields
/// before it are unchanged. (Verus does not carry the length and the items of
/// a `Vec` of `dyn` items across a push, so the push stands here, beside the
/// boxing.)
#[verifier::external_body]
pub(crate) fn push_field<S: Serializer + 'static>(
    fields: &mut Vec<(bytes::Bytes, Box<dyn Serializer>)>,
    key: bytes::Bytes,
    s: S,
)
    ensures
        final(fields)@.len() == old(fields)@.len() + 1,
        forall|j: int| 0 <= j < old(fields)@.len() ==> final(fields)@[j] == old(fields)@[j],
        final(fields)@.last().0 == key,
        final(fields)@.last().1.inv() == s.inv(),
        final(fields)@.last().1.remaining() == s.remaining(),
        final(fields)@.last().1.fails() == s.fails(),
        final(fields)@.last().1.may_pend() == s.may_pend(),
{
    fields.push((key, Box::new(s)));
}

/// Appends an element to an array's items: calls `Vec::push` with the
/// serializer in a `Box` (`Box::new`), which Rust turns into a
/// `Box<dyn Serializer>` whose methods are the value's own. So the new last
/// item is a serializer in the value's state, and the items before it are
/// unchanged. (The push stands here for the reason given at `push_field`.)
#[verifier::external_body]
pub(crate) fn push_item<S: Serializer + 'static>(items: &mut Vec<Box<dyn Serializer>>, s: S)
    ensures
        final(items)@.len() == old(items)@.len() + 1,
        forall|j: int| 0 <= j < old(items)@.len() ==> final(items)@[j] == old(items)@[j],
        final(items)@.last().inv() == s.inv(),
        final(items)@.last().remaining() == s.remaining(),
        final(items)@.last().fails() == s.fails(),
        final(items)@.last().may_pend() == s.may_pend(),
{
    items.push(Box::new(s));
}

enum DynArrayState {
    Start,
    EmitValue,
    EmitComma,
    Close,
    End,
}

/// Serializer for a JSON array of boxed serializers.
pub struct DynArraySerializer {
    items: Vec<Box<dyn Serializer>>,
    idx: usize,
    state: DynArrayState,
}

spec fn dyn_array_rank(st: DynArrayState) -> nat {
    match st {
        DynArrayState::EmitValue => 1,
        _ => 0,
    }
}

impl DynArraySerializer {
    /// Creates a new array serializer over the given serializers.
    pub fn new(items: Vec<Box<dyn Serializer>>) -> (s: Self)
        ensures
            (forall|j: int| 0 <= j < items@.len() ==> (#[trigger] items@[j]).inv()) ==> s.inv(),
            s.remaining() == array_json(remainings(items@)),
            s.fails() == (exists|j: int| 0 <= j < items@.len() && #[trigger] items@[j].fails()),
            s.may_pend() == (exists|j: int| 0 <= j < items@.len() && #[trigger] items@[j].may_pend()),
            s.is_fresh(),
            s.count() == items@.len(),
            s.element_rests() == remainings(items@),
    {
        let ghost v = items@;
        let s = DynArraySerializer { items, idx: 0, state: DynArrayState::Start };
        assert(s.fails() == (exists|j: int| 0 <= j < v.len() && #[trigger] v[j].fails())) by {
            if s.fails() {
                let j = choose|j: int| 0 <= j < v.len() && #[trigger] s.items@[j].fails();
                assert(v[j].fails());
            }
            if exists|j: int| 0 <= j < v.len() && #[trigger] v[j].fails() {
                let j = choose|j: int| 0 <= j < v.len() && #[trigger] v[j].fails();
                assert(s.items@[j].fails());
            }
        }
        s
    }

    /// Whether nothing has been emitted yet.
    pub closed spec fn is_fresh(&self) -> bool {
        self.state is Start
    }

    /// Whether the serializer has finished.
    pub closed spec fn is_done(&self) -> bool {
        self.state is End
    }

    /// How many values it serializes.
    pub closed spec fn count(&self) -> nat {
        self.items@.len()
    }

    /// What each element's serializer has still to emit.
    pub closed spec fn element_rests(&self) -> Seq<Seq<u8>> {
        remainings(self.items@)
    }

    /// Whether an element is being serialized.
    pub closed spec fn at_element(&self) -> bool {
        self.state is EmitValue
    }

    /// The element being serialized (when one is).
    pub closed spec fn current_index(&self) -> int {
        self.idx as int
    }

    spec fn rems(&self) -> Seq<Seq<u8>> {
        remainings(self.items@)
    }

    spec fn fails_from(&self, from: int) -> bool {
        exists|j: int| from <= j < self.items@.len() && #[trigger] self.items@[j].fails()
    }
}

impl Serializer for DynArraySerializer {
    closed spec fn reports(&self, e: Error) -> bool {
        self.state is EmitValue && self.items@[self.idx as int].reports(e)
    }

    closed spec fn may_pend(&self) -> bool {
        exists|j: int| 0 <= j < self.items@.len() && #[trigger] self.items@[j].may_pend()
    }

    closed spec fn inv(&self) -> bool {
        &&& forall|j: int| 0 <= j < self.items@.len() ==> (#[trigger] self.items@[j]).inv()
        &&& match self.state {
            DynArrayState::Start => self.idx == 0,
            DynArrayState::EmitValue => self.idx < self.items@.len(),
            DynArrayState::EmitComma => 0 < self.idx < self.items@.len(),
            _ => true,
        }
    }

    closed spec fn remaining(&self) -> Seq<u8> {
        match self.state {
            DynArrayState::Start => array_json(self.rems()),
            DynArrayState::EmitValue => self.rems()[self.idx as int] + comma_tail(
                self.rems(),
                self.idx + 1,
            ) + seq![93u8],
            DynArrayState::EmitComma => comma_tail(self.rems(), self.idx as int) + seq![93u8],
            DynArrayState::Close => seq![93u8],
            DynArrayState::End => Seq::empty(),
        }
    }

    closed spec fn fails(&self) -> bool {
        match self.state {
            DynArrayState::Start => self.fails_from(0),
            DynArrayState::EmitValue => self.fails_from(self.idx as int),
            DynArrayState::EmitComma => self.fails_from(self.idx as int),
            _ => false,
        }
    }

    /// The first poll hands out the opening bracket (both brackets when
    /// there is nothing inside). While an element is being serialized, each
    /// poll passes on its answer; once it has ended, the next poll hands out
    /// the comma before the next element, or the closing bracket after the
    /// last. After the end, `Ready(None)`.
    #[verifier::rlimit(60)]
    #[verifier::spinoff_prover]
    fn poll(&mut self, cx: &mut Context<'_>) -> (r: Poll<Option<Result<bytes::Bytes, Error>>>)
        ensures
            final(self).count() == old(self).count(),
            final(self).element_rests().len() == old(self).element_rests().len(),
            forall|j: int|
                0 <= j < old(self).count() && !(old(self).at_element() && old(self).current_index() == j)
                    ==> #[trigger] final(self).element_rests()[j] == old(self).element_rests()[j],
            old(self).is_fresh() && old(self).count() > 0 ==> final(self).at_element()
                && final(self).current_index() == 0,
            old(self).at_element() ==> {
                let i = old(self).current_index();
                let e = old(self).element_rests()[i];
                &&& e.len() > 0 && is_chunk(r) ==> chunk_of(r).len() <= e.len() && chunk_of(r) == e.take(
                    chunk_of(r).len() as int,
                )
                    && final(self).at_element() && final(self).current_index() == i
                    && final(self).element_rests()[i] == e.skip(chunk_of(r).len() as int)
                &&& e.len() == 0 && !old(self).fails() && r !is Pending ==> is_chunk(r) && (if i + 1
                    < old(self).count() {
                    chunk_of(r) == seq![44u8] && final(self).at_element() && final(self).current_index()
                        == i + 1
                } else {
                    chunk_of(r) == seq![93u8] && final(self).is_done()
                })
            },
            old(self).is_fresh() ==> (r matches Poll::Ready(Some(Ok(b))) && chunk_bytes(b) == (if old(
                self,
            ).count() == 0 {
                seq![91u8, 93u8]
            } else {
                seq![91u8]
            })),
            old(self).is_done() ==> r == Poll::<Option<Result<bytes::Bytes, Error>>>::Ready(None),
            r is Pending ==> old(self).at_element(),
            r == Poll::<Option<Result<bytes::Bytes, Error>>>::Ready(None) ==> final(self).is_done(),
    {
        let ghost n = self.items@.len();
        loop
            invariant
                self.inv(),
                self.items@.len() == n,
                n == old(self).items@.len(),
                self.remaining() == old(self).remaining(),
                self.fails() == old(self).fails(),
                self.may_pend() ==> old(self).may_pend(),
                old(self).is_done() ==> self.state is End,
                old(self).is_fresh() ==> self.state is Start,
                self.state is EmitValue ==> self.state == old(self).state && self.idx == old(self).idx
                    && self.items@ == old(self).items@,
                forall|j: int|
                    0 <= j < n && !(old(self).at_element() && old(self).current_index() == j)
                        ==> #[trigger] self.rems()[j] == old(self).rems()[j],
                old(self).at_element() ==> {
                    let i = old(self).current_index();
                    ||| self.at_element() && self.current_index() == i && self.rems() == old(self).rems()
                    ||| old(self).rems()[i].len() == 0 && i + 1 < n && self.state is EmitComma && self.idx == i + 1
                    ||| old(self).rems()[i].len() == 0 && i + 1 == n && self.state is Close
                },
            decreases dyn_array_rank(self.state),
        {
            match &self.state {
                DynArrayState::Start => {
                    if self.items.len() == 0 {
                        self.state = DynArrayState::End;
                        let out = vec![91u8, 93u8];
                        assert(out@ =~= seq![91u8, 93u8]);
                        proof {
                            assert(old(self).remaining() =~= out@ + self.remaining());
                        }
                        return Poll::Ready(Some(Ok(chunk_from_vec(out))));
                    }
                    self.state = DynArrayState::EmitValue;
                    let out = vec![91u8];
                    assert(out@ =~= seq![91u8]);
                    proof {
                        lemma_comma_join_first(self.rems());
                        assert(old(self).remaining() =~= out@ + self.remaining());
                    }
                    return Poll::Ready(Some(Ok(chunk_from_vec(out))));
                },
                DynArrayState::EmitValue => {
                    let idx = self.idx;
                    let len = self.items.len();
                    let ghost before = self.rems();
                    let ghost items_before = self.items@;
                    assert((exists|j: int| 0 <= j < n && #[trigger] items_before[j].may_pend()) ==> old(self).may_pend());
                    let r = Serializer::poll(&mut self.items[idx], cx);
                    proof {
                        assert(self.items@.len() == items_before.len());
                        assert(forall|j: int| 0 <= j < n && j != idx ==> self.items@[j] == items_before[j]);
                        assert(self.rems().subrange(idx + 1, n as int) =~= before.subrange(idx + 1, n as int));
                        assert(self.may_pend() ==> old(self).may_pend()) by {
                            if self.may_pend() {
                                let j = choose|j: int| 0 <= j < n && #[trigger] self.items@[j].may_pend();
                                if j != idx {
                                    assert(self.items@[j] == items_before[j]);
                                }
                                assert(items_before[j].may_pend());
                            }
                        }
                        assert(r is Pending ==> items_before[idx as int].may_pend());
                        assert(self.rems().len() == n);
                        assert forall|j: int| 0 <= j < n && j != idx implies #[trigger] self.rems()[j] == old(self).rems()[j] by {
                            assert(self.items@[j] == items_before[j]);
                        }
                        let e = before[idx as int];
                        if is_chunk(r) {
                            let c = chunk_of(r);
                            assert(e == c + self.rems()[idx as int]);
                            assert(e.take(c.len() as int) =~= c);
                            assert(e.skip(c.len() as int) =~= self.rems()[idx as int]);
                        }
                    }
                    match r {
                        Poll::Ready(Some(result)) => {
                            proof {
                                if result is Ok {
                                    assert(self.fails_from(idx as int) == old(self).fails()) by {
                                        if old(self).fails() {
                                            let j = choose|j: int| idx <= j < n && #[trigger] items_before[j].fails();
                                            assert(self.items@[j].fails());
                                        }
                                        if self.fails_from(idx as int) {
                                            let j = choose|j: int| idx <= j < n && #[trigger] self.items@[j].fails();
                                            assert(items_before[j].fails());
                                        }
                                    }
                                    let b = result->Ok_0;
                                    assert(old(self).remaining() =~= chunk_bytes(b) + self.remaining());
                                }
                            }
                            return Poll::Ready(Some(result));
                        },
                        Poll::Ready(None) => {
                            self.idx = idx + 1;
                            if self.idx >= len {
                                self.state = DynArrayState::Close;
                                proof {
                                    lemma_comma_tail_end(self.rems());
                                    assert(old(self).remaining() =~= self.remaining());
                                    assert(!old(self).fails()) by {
                                        if old(self).fails() {
                                            let j = choose|j: int| idx <= j < n && #[trigger] items_before[j].fails();
                                            assert(j == idx);
                                        }
                                    }
                                }
                            } else {
                                self.state = DynArrayState::EmitComma;
                                proof {
                                    assert(old(self).remaining() =~= self.remaining());
                                    assert(self.fails() == old(self).fails()) by {
                                        if old(self).fails() {
                                            let j = choose|j: int| idx <= j < n && #[trigger] items_before[j].fails();
                                            assert(j != idx);
                                            assert(self.items@[j].fails());
                                        }
                                        if self.fails() {
                                            let j = choose|j: int| idx + 1 <= j < n && #[trigger] self.items@[j].fails();
                                            assert(items_before[j].fails());
                                        }
                                    }
                                }
                            }
                        },
                        Poll::Pending => {
                            proof {
                                assert(old(self).remaining() =~= self.remaining());
                                assert(self.fails() == old(self).fails()) by {
                                    if old(self).fails() {
                                        let j = choose|j: int| idx <= j < n && #[trigger] items_before[j].fails();
                                        assert(self.items@[j].fails());
                                    }
                                    if self.fails() {
                                        let j = choose|j: int| idx <= j < n && #[trigger] self.items@[j].fails();
                                        assert(items_before[j].fails());
                                    }
                                }
                            }
                            return Poll::Pending;
                        },
                    }
                },
                DynArrayState::EmitComma => {
                    proof {
                        if old(self).at_element() {
                            let i = old(self).current_index();
                            assert(old(self).rems()[i].len() == 0);
                            assert(i + 1 == self.idx);
                        }
                    }
                    self.state = DynArrayState::EmitValue;
                    let out = vec![44u8];
                    assert(out@ =~= seq![44u8]);
                    proof {
                        lemma_comma_tail_step(self.rems(), self.idx as int);
                        assert(old(self).remaining() =~= out@ + self.remaining());
                    }
                    return Poll::Ready(Some(Ok(chunk_from_vec(out))));
                },
                DynArrayState::Close => {
                    self.state = DynArrayState::End;
                    let out = vec![93u8];
                    assert(out@ =~= seq![93u8]);
                    proof {
                        assert(old(self).remaining() =~= out@ + self.remaining());
                    }
                    return Poll::Ready(Some(Ok(chunk_from_vec(out))));
                },
                DynArrayState::End => {
                    return Poll::Ready(None);
                },
            }
        }
    }
}

enum DynObjectState {
    Start,
    EmitKey,
    EmitValue,
    EmitComma,
    Close,
    End,
}

/// The member texts of an object: each key's bytes followed by what its
/// value's serializer has still to emit.
pub open spec fn members(fields: Seq<(bytes::Bytes, Box<dyn Serializer>)>) -> Seq<Seq<u8>> {
    fields.map_values(|f: (bytes::Bytes, Box<dyn Serializer>)| chunk_bytes(f.0) + f.1.remaining())
}

/// What each member's value serializer has still to emit.
pub open spec fn field_rests(fields: Seq<(bytes::Bytes, Box<dyn Serializer>)>) -> Seq<Seq<u8>> {
    fields.map_values(|f: (bytes::Bytes, Box<dyn Serializer>)| f.1.remaining())
}

/// The key bytes of each member.
pub open spec fn field_keys(fields: Seq<(bytes::Bytes, Box<dyn Serializer>)>) -> Seq<Seq<u8>> {
    fields.map_values(|f: (bytes::Bytes, Box<dyn Serializer>)| chunk_bytes(f.0))
}

/// Serializer for a JSON object whose keys are given as ready-made bytes
/// (such as `"name":`) and whose values are boxed serializers.
pub struct DynObjectSerializer {
    fields: Vec<(bytes::Bytes, Box<dyn Serializer>)>,
    idx: usize,
    state: DynObjectState,
}

spec fn dyn_object_rank(st: DynObjectState) -> nat {
    match st {
        DynObjectState::EmitKey => 2,
        DynObjectState::EmitValue => 1,
        _ => 0,
    }
}

impl DynObjectSerializer {
    /// Creates a new object serializer over the given keys and values.
    pub fn new(fields: Vec<(bytes::Bytes, Box<dyn Serializer>)>) -> (s: Self)
        ensures
            (forall|j: int| 0 <= j < fields@.len() ==> (#[trigger] fields@[j]).1.inv()) ==> s.inv(),
            s.remaining() == object_json(members(fields@)),
            s.fails() == (exists|j: int| 0 <= j < fields@.len() && #[trigger] fields@[j].1.fails()),
            s.may_pend() == (exists|j: int| 0 <= j < fields@.len() && #[trigger] fields@[j].1.may_pend()),
            s.is_fresh(),
            s.count() == fields@.len(),
            s.element_rests() == field_rests(fields@),
            s.keys() == field_keys(fields@),
    {
        let ghost v = fields@;
        let s = DynObjectSerializer { fields, idx: 0, state: DynObjectState::Start };
        assert(s.fails() == (exists|j: int| 0 <= j < v.len() && #[trigger] v[j].1.fails())) by {
            if s.fails() {
                let j = choose|j: int| 0 <= j < v.len() && #[trigger] s.fields@[j].1.fails();
                assert(v[j].1.fails());
            }
            if exists|j: int| 0 <= j < v.len() && #[trigger] v[j].1.fails() {
                let j = choose|j: int| 0 <= j < v.len() && #[trigger] v[j].1.fails();
                assert(s.fields@[j].1.fails());
            }
        }
        s
    }

    /// Whether nothing has been emitted yet.
    pub closed spec fn is_fresh(&self) -> bool {
        self.state is Start
    }

    /// Whether the serializer has finished.
    pub closed spec fn is_done(&self) -> bool {
        self.state is End
    }

    /// How many values it serializes.
    pub closed spec fn count(&self) -> nat {
        self.fields@.len()
    }

    /// What each value's serializer has still to emit.
    pub closed spec fn element_rests(&self) -> Seq<Seq<u8>> {
        field_rests(self.fields@)
    }

    /// The key bytes of each member.
    pub closed spec fn keys(&self) -> Seq<Seq<u8>> {
        field_keys(self.fields@)
    }

    /// Whether a member's key is next.
    pub closed spec fn at_key(&self) -> bool {
        self.state is EmitKey
    }

    /// Whether a member's value is being serialized.
    pub closed spec fn at_element(&self) -> bool {
        self.state is EmitValue
    }

    /// The member whose key is next or whose value is being serialized.
    pub closed spec fn current_index(&self) -> int {
        self.idx as int
    }

    spec fn mems(&self) -> Seq<Seq<u8>> {
        members(self.fields@)
    }

    spec fn fails_from(&self, from: int) -> bool {
        exists|j: int| from <= j < self.fields@.len() && #[trigger] self.fields@[j].1.fails()
    }
}

impl Serializer for DynObjectSerializer {
    closed spec fn reports(&self, e: Error) -> bool {
        (self.state is EmitValue || self.state is EmitKey) && self.fields@[self.idx as int].1.reports(e)
    }

    closed spec fn may_pend(&self) -> bool {
        exists|j: int| 0 <= j < self.fields@.len() && #[trigger] self.fields@[j].1.may_pend()
    }

    closed spec fn inv(&self) -> bool {
        &&& forall|j: int| 0 <= j < self.fields@.len() ==> (#[trigger] self.fields@[j]).1.inv()
        &&& match self.state {
            DynObjectState::Start => self.idx == 0,
            DynObjectState::EmitKey => self.idx < self.fields@.len(),
            DynObjectState::EmitValue => self.idx < self.fields@.len(),
            DynObjectState::EmitComma => 0 < self.idx < self.fields@.len(),
            _ => true,
        }
    }

    closed spec fn remaining(&self) -> Seq<u8> {
        match self.state {
            DynObjectState::Start => object_json(self.mems()),
            DynObjectState::EmitKey => self.mems()[self.idx as int] + comma_tail(
                self.mems(),
                self.idx + 1,
            ) + seq![125u8],
            DynObjectState::EmitValue => self.fields@[self.idx as int].1.remaining() + comma_tail(
                self.mems(),
                self.idx + 1,
            ) + seq![125u8],
            DynObjectState::EmitComma => comma_tail(self.mems(), self.idx as int) + seq![125u8],
            DynObjectState::Close => seq![125u8],
            DynObjectState::End => Seq::empty(),
        }
    }

    closed spec fn fails(&self) -> bool {
        match self.state {
            DynObjectState::Start => self.fails_from(0),
            DynObjectState::EmitKey => self.fails_from(self.idx as int),
            DynObjectState::EmitValue => self.fails_from(self.idx as int),
            DynObjectState::EmitComma => self.fails_from(self.idx as int),
            _ => false,
        }
    }

    /// The first poll hands out the opening brace (both braces when there
    /// is nothing inside). Then for each member: its key (unless the key is
    /// empty), then each poll passes on its value's answer; once the value
    /// has ended, the next poll hands out the comma before the next member,
    /// or the closing brace after the last. After the end, `Ready(None)`.
    #[verifier::rlimit(100)]
    #[verifier::spinoff_prover]
    fn poll(&mut self, cx: &mut Context<'_>) -> (r: Poll<Option<Result<bytes::Bytes, Error>>>)
        ensures
            final(self).count() == old(self).count(),
            final(self).keys() == old(self).keys(),
            final(self).element_rests().len() == old(self).element_rests().len(),
            forall|j: int|
                0 <= j < old(self).count() && !((old(self).at_element() || old(self).at_key())
                    && old(self).current_index() == j) ==> #[trigger] final(self).element_rests()[j]
                    == old(self).element_rests()[j],
            old(self).is_fresh() && old(self).count() > 0 ==> final(self).at_key()
                && final(self).current_index() == 0,
            old(self).at_key() && old(self).keys()[old(self).current_index()].len() > 0 ==> is_chunk(r)
                && chunk_of(r) == old(self).keys()[old(self).current_index()] && final(self).at_element()
                && final(self).current_index() == old(self).current_index() && final(self).element_rests()
                == old(self).element_rests(),
            old(self).at_element() ==> {
                let i = old(self).current_index();
                let e = old(self).element_rests()[i];
                &&& e.len() > 0 && is_chunk(r) ==> chunk_of(r).len() <= e.len() && chunk_of(r) == e.take(
                    chunk_of(r).len() as int,
                )
                    && final(self).at_element() && final(self).current_index() == i
                    && final(self).element_rests()[i] == e.skip(chunk_of(r).len() as int)
                &&& e.len() == 0 && !old(self).fails() && r !is Pending ==> is_chunk(r) && (if i + 1
                    < old(self).count() {
                    chunk_of(r) == seq![44u8] && final(self).at_key() && final(self).current_index() == i + 1
                } else {
                    chunk_of(r) == seq![125u8] && final(self).is_done()
                })
            },
            old(self).is_fresh() ==> (r matches Poll::Ready(Some(Ok(b))) && chunk_bytes(b) == (if old(
                self,
            ).count() == 0 {
                seq![123u8, 125u8]
            } else {
                seq![123u8]
            })),
            old(self).is_done() ==> r == Poll::<Option<Result<bytes::Bytes, Error>>>::Ready(None),
            r is Pending ==> old(self).at_element() || old(self).at_key(),
            r == Poll::<Option<Result<bytes::Bytes, Error>>>::Ready(None) ==> final(self).is_done(),
    {
        let ghost n = self.fields@.len();
        loop
            invariant
                self.inv(),
                self.fields@.len() == n,
                n == old(self).fields@.len(),
                self.remaining() == old(self).remaining(),
                self.fails() == old(self).fails(),
                self.may_pend() ==> old(self).may_pend(),
                old(self).is_done() ==> self.state is End,
                old(self).is_fresh() ==> self.state is Start,
                self.keys() == old(self).keys(),
                self.state is Start || self.state is EmitKey ==> *self == *old(self),
                !(old(self).at_element() || old(self).at_key()) ==> self.fields@ == old(self).fields@,
                old(self).at_key() && !(self.state is EmitKey) ==> old(self).keys()[old(self).idx as int].len() == 0,
                self.state is EmitValue ==> self.idx == old(self).idx && self.fields@ == old(self).fields@
                    && (old(self).at_element() || (old(self).at_key() && old(self).keys()[old(self).idx as int].len() == 0)),
                forall|j: int|
                    0 <= j < n && !((old(self).at_element() || old(self).at_key()) && old(self).current_index() == j)
                        ==> #[trigger] self.element_rests()[j] == old(self).element_rests()[j],
                old(self).at_element() ==> {
                    let i = old(self).current_index();
                    ||| self.at_element() && self.current_index() == i && self.element_rests() == old(self).element_rests()
                    ||| old(self).element_rests()[i].len() == 0 && i + 1 < n && self.state is EmitComma && self.idx == i + 1
                    ||| old(self).element_rests()[i].len() == 0 && i + 1 == n && self.state is Close
                },
            decreases dyn_object_rank(self.state),
        {
            match &self.state {
                DynObjectState::Start => {
                    if self.fields.len() == 0 {
                        self.state = DynObjectState::End;
                        let out = vec![123u8, 125u8];
                        assert(out@ =~= seq![123u8, 125u8]);
                        proof {
                            assert(old(self).remaining() =~= out@ + self.remaining());
                        }
                        return Poll::Ready(Some(Ok(chunk_from_vec(out))));
                    }
                    self.state = DynObjectState::EmitKey;
                    let out = vec![123u8];
                    assert(out@ =~= seq![123u8]);
                    proof {
                        lemma_comma_join_first(self.mems());
                        assert(old(self).remaining() =~= out@ + self.remaining());
                    }
                    return Poll::Ready(Some(Ok(chunk_from_vec(out))));
                },
                DynObjectState::EmitKey => {
                    let key = chunk_clone(&self.fields[self.idx].0);
                    assert(chunk_bytes(key) == self.keys()[self.idx as int]);
                    self.state = DynObjectState::EmitValue;
                    if chunk_len(&key) > 0 {
                        proof {
                            assert(old(self).remaining() =~= chunk_bytes(key) + self.remaining());
                        }
                        return Poll::Ready(Some(Ok(key)));
                    }
                    proof {
                        assert(old(self).keys()[old(self).idx as int].len() == 0);
                        assert(chunk_bytes(key) =~= Seq::<u8>::empty());
                        assert(old(self).remaining() =~= self.remaining());
                    }
                },
                DynObjectState::EmitValue => {
                    let idx = self.idx;
                    let len = self.fields.len();
                    let ghost before = self.mems();
                    let ghost fields_before = self.fields@;
                    assert((exists|j: int| 0 <= j < n && #[trigger] fields_before[j].1.may_pend()) ==> old(self).may_pend());
                    let r = Serializer::poll(&mut self.fields[idx].1, cx);
                    proof {
                        assert(self.fields@.len() == fields_before.len());
                        assert(forall|j: int| 0 <= j < n && j != idx ==> self.fields@[j] == fields_before[j]);
                        assert(self.fields@[idx as int].0 == fields_before[idx as int].0);
                        assert(self.mems().subrange(idx + 1, n as int) =~= before.subrange(idx + 1, n as int));
                        assert(self.may_pend() ==> old(self).may_pend()) by {
                            if self.may_pend() {
                                let j = choose|j: int| 0 <= j < n && #[trigger] self.fields@[j].1.may_pend();
                                if j != idx {
                                    assert(self.fields@[j] == fields_before[j]);
                                }
                                assert(fields_before[j].1.may_pend());
                            }
                        }
                        assert(r is Pending ==> fields_before[idx as int].1.may_pend());
                        assert(self.element_rests().len() == n);
                        assert forall|j: int| 0 <= j < n && j != idx implies #[trigger] self.element_rests()[j] == old(self).element_rests()[j] by {
                            assert(self.fields@[j] == fields_before[j]);
                        }
                        assert(self.keys() =~= old(self).keys());
                        let e = old(self).element_rests()[idx as int];
                        assert(e == fields_before[idx as int].1.remaining());
                        if is_chunk(r) {
                            let c = chunk_of(r);
                            assert(e == c + self.element_rests()[idx as int]);
                            assert(e.take(c.len() as int) =~= c);
                            assert(e.skip(c.len() as int) =~= self.element_rests()[idx as int]);
                        }
                    }
                    match r {
                        Poll::Ready(Some(result)) => {
                            proof {
                                if result is Ok {
                                    assert(self.fails_from(idx as int) == old(self).fails()) by {
                                        if old(self).fails() {
                                            let j = choose|j: int| idx <= j < n && #[trigger] fields_before[j].1.fails();
                                            assert(self.fields@[j].1.fails());
                                        }
                                        if self.fails_from(idx as int) {
                                            let j = choose|j: int| idx <= j < n && #[trigger] self.fields@[j].1.fails();
                                            assert(fields_before[j].1.fails());
                                        }
                                    }
                                    let b = result->Ok_0;
                                    assert(old(self).remaining() =~= chunk_bytes(b) + self.remaining());
                                }
                            }
                            return Poll::Ready(Some(result));
                        },
                        Poll::Ready(None) => {
                            self.idx = idx + 1;
                            if self.idx >= len {
                                self.state = DynObjectState::Close;
                                proof {
                                    lemma_comma_tail_end(self.mems());
                                    assert(old(self).remaining() =~= self.remaining());
                                    assert(!old(self).fails()) by {
                                        if old(self).fails() {
                                            let j = choose|j: int| idx <= j < n && #[trigger] fields_before[j].1.fails();
                                            assert(j == idx);
                                        }
                                    }
                                }
                            } else {
                                self.state = DynObjectState::EmitComma;
                                proof {
                                    assert(old(self).remaining() =~= self.remaining());
                                    assert(self.fails() == old(self).fails()) by {
                                        if old(self).fails() {
                                            let j = choose|j: int| idx <= j < n && #[trigger] fields_before[j].1.fails();
                                            assert(j != idx);
                                            assert(self.fields@[j].1.fails());
                                        }
                                        if self.fails() {
                                            let j = choose|j: int| idx + 1 <= j < n && #[trigger] self.fields@[j].1.fails();
                                            assert(fields_before[j].1.fails());
                                        }
                                    }
                                }
                            }
                        },
                        Poll::Pending => {
                            proof {
                                assert(old(self).remaining() =~= self.remaining());
                                assert(self.fails() == old(self).fails()) by {
                                    if old(self).fails() {
                                        let j = choose|j: int| idx <= j < n && #[trigger] fields_before[j].1.fails();
                                        assert(self.fields@[j].1.fails());
                                    }
                                    if self.fails() {
                                        let j = choose|j: int| idx <= j < n && #[trigger] self.fields@[j].1.fails();
                                        assert(fields_before[j].1.fails());
                                    }
                                }
                            }
                            return Poll::Pending;
                        },
                    }
                },
                DynObjectState::EmitComma => {
                    let ghost head_fields = self.fields@;
                    assert(self.element_rests() == field_rests(head_fields));
                    assert(forall|j: int| 0 <= j < n && !((old(self).at_element() || old(self).at_key()) && old(self).current_index() == j)
                        ==> #[trigger] self.element_rests()[j] == old(self).element_rests()[j]);
                    proof {
                        if old(self).at_element() {
                            let i = old(self).current_index();
                            assert(old(self).element_rests()[i].len() == 0);
                            assert(i + 1 == self.idx);
                        }
                    }
                    self.state = DynObjectState::EmitKey;
                    let out = vec![44u8];
                    assert(out@ =~= seq![44u8]);
                    assert(self.fields@ == head_fields);
                    assert(self.element_rests() == field_rests(head_fields));
                    proof {
                        lemma_comma_tail_step(self.mems(), self.idx as int);
                        assert(old(self).remaining() =~= out@ + self.remaining());
                    }
                    return Poll::Ready(Some(Ok(chunk_from_vec(out))));
                },
                DynObjectState::Close => {
                    let ghost head_fields = self.fields@;
                    assert(self.element_rests() == field_rests(head_fields));
                    assert(forall|j: int| 0 <= j < n && !((old(self).at_element() || old(self).at_key()) && old(self).current_index() == j)
                        ==> #[trigger] self.element_rests()[j] == old(self).element_rests()[j]);
                    self.state = DynObjectState::End;
                    let out = vec![125u8];
                    assert(out@ =~= seq![125u8]);
                    assert(self.fields@ == head_fields);
                    assert(self.element_rests() == field_rests(head_fields));
                    proof {
                        assert(old(self).remaining() =~= out@ + self.remaining());
                    }
                    return Poll::Ready(Some(Ok(chunk_from_vec(out))));
                },
                DynObjectState::End => {
                    return Poll::Ready(None);
                },
            }
        }
    }
}

} // verus!

//! Raw bytes serialized as a JSON string, decoding them as UTF-8 with
//! replacement of invalid sequences.
use std::task::Context;
use vstd::prelude::*;
use vstd::utf8::{decode_utf8, valid_utf8};

use crate::buffer::chunk_from_vec;
use crate::error::Error;
use crate::serde::{poll_step, reported_size, IntoSerializer, Poll, Serializer};
use crate::std_impl::{quoted_size, whole_chunk_step};
use crate::text::{json_string, quote_string};

verus! {

/// The text `String::from_utf8_lossy` makes of the bytes.
pub uninterp spec fn utf8_lossy(bytes: Seq<u8>) -> Seq<char>;

/// Calls `String::from_utf8_lossy` and takes the text it returns: the bytes
/// decoded as UTF-8, each invalid sequence replaced by U+FFFD. Stated here:
/// the result is that function's, and bytes that are valid UTF-8 decode to
/// exactly their characters; what a replacement covers is left unsaid.
#[verifier::external_body]
fn decode_lossy(bytes: &[u8]) -> (s: String)
    ensures
        s@ == utf8_lossy(bytes@),
        valid_utf8(bytes@) ==> s@ == decode_utf8(bytes@),
{
    String::from_utf8_lossy(bytes).into_owned()
}

/// Bytes to be written as a JSON string.
pub struct PlainText {
    value: Vec<u8>,
}

impl PlainText {
    /// Wraps the bytes.
    pub fn new(value: Vec<u8>) -> (p: Self)
        ensures
            p.bytes() == value@,
    {
        PlainText { value }
    }

    /// The wrapped bytes.
    pub closed spec fn bytes(&self) -> Seq<u8> {
        self.value@
    }
}

/// Serializer that emits a string, quoted and escaped, as one chunk.
pub struct PlainTextSerializer {
    data: String,
    emitted: bool,
}

impl PlainTextSerializer {
    /// Creates a new plain-text serializer.
    pub fn new(data: String) -> (s: Self)
        ensures
            s.inv(),
            s.remaining() == json_string(data@),
            !s.fails(),
    {
        PlainTextSerializer { data, emitted: false }
    }
}

impl Serializer for PlainTextSerializer {
    open spec fn reports(&self, e: Error) -> bool {
        false
    }

    open spec fn may_pend(&self) -> bool {
        false
    }

    closed spec fn inv(&self) -> bool {
        true
    }

    closed spec fn remaining(&self) -> Seq<u8> {
        if self.emitted {
            Seq::empty()
        } else {
            json_string(self.data@)
        }
    }

    closed spec fn fails(&self) -> bool {
        false
    }

    fn poll(&mut self, cx: &mut Context<'_>) -> (r: Poll<Option<Result<bytes::Bytes, Error>>>)
        ensures
            whole_chunk_step(old(self).remaining(), r),
    {
        if self.emitted {
            Poll::Ready(None)
        } else {
            self.emitted = true;
            let out = quote_string(self.data.as_str());
            Poll::Ready(Some(Ok(chunk_from_vec(out))))
        }
    }
}

impl IntoSerializer for PlainText {
    type S = PlainTextSerializer;

    open spec fn size_unknown(&self) -> bool {
        false
    }

    open spec fn json_may_pend(&self) -> bool {
        false
    }

    open spec fn json(&self) -> Seq<u8> {
        json_string(utf8_lossy(self.bytes()))
    }

    open spec fn json_fails(&self) -> bool {
        false
    }

    open spec fn size_known(&self) -> bool {
        true
    }

    fn into_serializer(self) -> (s: Self::S) {
        let text = decode_lossy(self.value.as_slice());
        PlainTextSerializer::new(text)
    }

    fn size(&self) -> (r: Option<usize>) {
        let text = decode_lossy(self.value.as_slice());
        quoted_size(text.as_str())
    }
}

} // verus!

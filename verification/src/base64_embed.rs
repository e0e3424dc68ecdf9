//! Binary data embedded in JSON as a base64 string, either bare or as a
//! `data:` URL.
use base64::Engine;
use std::task::Context;
use vstd::prelude::*;
use vstd::string::StringExecFns;
use vstd::utf8::encode_utf8;

use crate::buffer::{chunk_bytes, chunk_from_vec};
use crate::error::Error;
use crate::serde::{next_piece, poll_step, reported_size, IntoSerializer, Poll, Serializer};
use crate::std_impl::push_range;
use crate::text::{ascii_chars, decimal, law_decimal_reads_back, string_from_ascii, u64_text};
use crate::CHUNK_SIZE;

verus! {

/// The character of the standard base64 alphabet for a six-bit value:
/// `A`-`Z`, `a`-`z`, `0`-`9`, `+`, `/`.
pub open spec fn base64_digit(v: nat) -> u8 {
    if v < 26 {
        (65 + v) as u8
    } else if v < 52 {
        (97 + v - 26) as u8
    } else if v < 62 {
        (48 + v - 52) as u8
    } else if v == 62 {
        43u8
    } else {
        47u8
    }
}

/// The standard (RFC 4648, padded) base64 encoding of the bytes: each group
/// of three bytes becomes four characters of six bits each; a last group of
/// one or two bytes is filled with zero bits and padded with `=`.
pub open spec fn base64_standard(data: Seq<u8>) -> Seq<u8>
    decreases data.len(),
{
    if data.len() == 0 {
        Seq::empty()
    } else if data.len() == 1 {
        let a = data[0] as nat;
        seq![base64_digit(a / 4), base64_digit((a % 4) * 16), 61u8, 61u8]
    } else if data.len() == 2 {
        let a = data[0] as nat;
        let b = data[1] as nat;
        seq![base64_digit(a / 4), base64_digit((a % 4) * 16 + b / 16), base64_digit((b % 16) * 4), 61u8]
    } else {
        let a = data[0] as nat;
        let b = data[1] as nat;
        let c = data[2] as nat;
        seq![
            base64_digit(a / 4),
            base64_digit((a % 4) * 16 + b / 16),
            base64_digit((b % 16) * 4 + c / 64),
            base64_digit(c % 64),
        ] + base64_standard(data.skip(3))
    }
}

/// The six-bit value a character of the standard base64 alphabet stands for:
/// `A`-`Z` 0-25, `a`-`z` 26-51, `0`-`9` 52-61, `+` 62, `/` 63.
pub open spec fn base64_value(b: u8) -> Option<nat> {
    if 65 <= b <= 90 {
        Some((b - 65) as nat)
    } else if 97 <= b <= 122 {
        Some((b - 71) as nat)
    } else if 48 <= b <= 57 {
        Some((b + 4) as nat)
    } else if b == 43 {
        Some(62nat)
    } else if b == 47 {
        Some(63nat)
    } else {
        None
    }
}

/// Law: each six-bit value is written as the standard alphabet's character
/// for it, which reads back as the value and is never the padding `=`.
pub proof fn law_base64_digit_reads_back(v: nat)
    requires
        v < 64,
    ensures
        base64_value(base64_digit(v)) == Some(v),
        base64_digit(v) != 61u8,
{
}

/// Law: the base64 text of three or more bytes starts with four alphabet
/// characters whose six-bit values, taken together, are the first three
/// bytes; the rest is the text of the remaining bytes. One or two bytes
/// become two or three characters and `=` padding up to four.
pub proof fn law_base64_groups_read_back(data: Seq<u8>)
    ensures
        data.len() >= 3 ==> {
            let t = base64_standard(data);
            let a = data[0] as nat;
            let b = data[1] as nat;
            let c = data[2] as nat;
            &&& t.len() >= 4
            &&& base64_value(t[0]) is Some && base64_value(t[1]) is Some
            &&& base64_value(t[2]) is Some && base64_value(t[3]) is Some
            &&& base64_value(t[0])->0 * 262144 + base64_value(t[1])->0 * 4096 + base64_value(t[2])->0
                * 64 + base64_value(t[3])->0 == a * 65536 + b * 256 + c
            &&& t.skip(4) == base64_standard(data.skip(3))
        },
        data.len() == 2 ==> {
            let t = base64_standard(data);
            &&& t.len() == 4 && t[3] == 61u8
            &&& base64_value(t[0]) is Some && base64_value(t[1]) is Some && base64_value(t[2]) is Some
            &&& base64_value(t[0])->0 * 4096 + base64_value(t[1])->0 * 64 + base64_value(t[2])->0
                == (data[0] as nat * 256 + data[1] as nat) * 4
        },
        data.len() == 1 ==> {
            let t = base64_standard(data);
            &&& t.len() == 4 && t[2] == 61u8 && t[3] == 61u8
            &&& base64_value(t[0]) is Some && base64_value(t[1]) is Some
            &&& base64_value(t[0])->0 * 64 + base64_value(t[1])->0 == data[0] as nat * 16
        },
{
    if data.len() >= 3 {
        let a = data[0] as nat;
        let b = data[1] as nat;
        let c = data[2] as nat;
        law_base64_digit_reads_back(a / 4);
        law_base64_digit_reads_back((a % 4) * 16 + b / 16);
        law_base64_digit_reads_back((b % 16) * 4 + c / 64);
        law_base64_digit_reads_back(c % 64);
        let t = base64_standard(data);
        assert(t.skip(4) =~= base64_standard(data.skip(3)));
        assert((a / 4) * 262144 + ((a % 4) * 16 + b / 16) * 4096 + ((b % 16) * 4 + c / 64) * 64 + c % 64
            == a * 65536 + b * 256 + c) by (nonlinear_arith)
            requires
                a < 256,
                b < 256,
                c < 256,
        ;
    } else if data.len() == 2 {
        let a = data[0] as nat;
        let b = data[1] as nat;
        law_base64_digit_reads_back(a / 4);
        law_base64_digit_reads_back((a % 4) * 16 + b / 16);
        law_base64_digit_reads_back((b % 16) * 4);
        assert((a / 4) * 4096 + ((a % 4) * 16 + b / 16) * 64 + (b % 16) * 4 == (a * 256 + b) * 4)
            by (nonlinear_arith)
            requires
                a < 256,
                b < 256,
        ;
    } else if data.len() == 1 {
        let a = data[0] as nat;
        law_base64_digit_reads_back(a / 4);
        law_base64_digit_reads_back((a % 4) * 16);
        assert((a / 4) * 64 + (a % 4) * 16 == a * 16) by (nonlinear_arith)
            requires
                a < 256,
        ;
    }
}

/// The encoding has four characters for every started group of three bytes.
pub proof fn lemma_base64_standard_len(data: Seq<u8>)
    ensures
        base64_standard(data).len() == encoded_len(data.len()),
    decreases data.len(),
{
    if data.len() >= 3 {
        lemma_base64_standard_len(data.skip(3));
    }
}

/// The length of the padded base64 encoding of `n` bytes.
pub open spec fn encoded_len(n: nat) -> nat {
    ((n + 2) / 3) * 4
}

/// Calls `base64::engine::general_purpose::STANDARD.encode` (the standard
/// alphabet, with padding) and takes the bytes of the string it returns.
/// Stated: the result is that encoding. The crate panics where the encoded
/// length overflows a `usize`; `requires` leaves those inputs out.
#[verifier::external_body]
fn base64_encode(data: &[u8]) -> (r: Vec<u8>)
    requires
        encoded_len(data@.len()) <= usize::MAX,
    ensures
        r@ == base64_standard(data@),
{
    base64::engine::general_purpose::STANDARD.encode(data).into_bytes()
}

/// The padded base64 length of `size` bytes: four for every started group of
/// three.
pub fn base64_len(size: usize) -> (r: usize)
    requires
        encoded_len(size as nat) <= usize::MAX,
    ensures
        r == encoded_len(size as nat),
{
    let groups = size / 3 + if size % 3 > 0 { 1 } else { 0 };
    assert(groups == (size + 2) / 3);
    groups * 4
}

/// The padded base64 length of `size` bytes, or `None` where it does not
/// fit in a `usize`.
fn checked_base64_len(size: usize) -> (r: Option<usize>)
    ensures
        r == (if encoded_len(size as nat) <= usize::MAX {
            Some(encoded_len(size as nat) as usize)
        } else {
            None::<usize>
        }),
{
    let groups = size / 3 + if size % 3 > 0 { 1 } else { 0 };
    assert(groups == (size + 2) / 3);
    if groups > usize::MAX / 4 {
        assert(groups * 4 > usize::MAX) by (nonlinear_arith)
            requires
                groups > usize::MAX / 4,
        ;
        None
    } else {
        assert(groups * 4 <= usize::MAX) by (nonlinear_arith)
            requires
                groups <= usize::MAX / 4,
        ;
        Some(groups * 4)
    }
}

/// The message of a size mismatch.
pub open spec fn size_mismatch_message(expected: nat, actual: nat) -> Seq<char> {
    "base64 embed size mismatch: expected "@ + ascii_chars(decimal(expected)) + ", got "@
        + ascii_chars(decimal(actual))
}

/// The error for data shorter than announced.
pub fn size_mismatch(expected: usize, actual: usize) -> (e: Error)
    ensures
        e matches Error::Serialization(m) && m@ == size_mismatch_message(
            expected as nat,
            actual as nat,
        ),
{
    let mut m = String::from_str("base64 embed size mismatch: expected ");
    let digits = u64_text(expected as u64);
    proof {
        law_decimal_reads_back(expected as nat);
    }
    let digits = string_from_ascii(digits);
    m.append(digits.as_str());
    m.append(", got ");
    let digits = u64_text(actual as u64);
    proof {
        law_decimal_reads_back(actual as nat);
    }
    let digits = string_from_ascii(digits);
    m.append(digits.as_str());
    Error::Serialization(m)
}

/// The bytes `data` holds up to the announced size.
pub open spec fn embedded_part(data: Seq<u8>, expected: nat) -> Seq<u8> {
    if data.len() < expected {
        data
    } else {
        data.take(expected as int)
    }
}

/// The next piece of encoded text from `start`: at most `CHUNK_SIZE` bytes.
fn encoded_piece(encoded: &Vec<u8>, start: usize) -> (r: (Vec<u8>, usize))
    requires
        start < encoded@.len(),
    ensures
        r.1 == (if encoded@.len() - start <= CHUNK_SIZE {
            encoded@.len() as int
        } else {
            start + CHUNK_SIZE
        }),
        r.0@ == encoded@.subrange(start as int, r.1 as int),
{
    let len = encoded.len();
    let end = if len - start <= CHUNK_SIZE {
        len
    } else {
        start + CHUNK_SIZE
    };
    let mut out: Vec<u8> = Vec::new();
    push_range(&mut out, encoded, start, end);
    (out, end)
}

enum EmbedState {
    EmitStart,
    EmitData { chunk_start: usize },
    Done,
}

/// The base64 text of the first `expected` bytes of the data, or nothing
/// where the data is shorter.
fn encode_prefix(data: &Vec<u8>, expected: usize) -> (r: Vec<u8>)
    requires
        data@.len() >= expected ==> encoded_len(expected as nat) <= usize::MAX,
    ensures
        data@.len() >= expected ==> r@ == base64_standard(embedded_part(data@, expected as nat))
            && r@.len() == encoded_len(expected as nat),
{
    if data.len() < expected {
        return Vec::new();
    }
    let part = &data.as_slice()[0..expected];
    assert(part@ =~= embedded_part(data@, expected as nat));
    proof {
        lemma_base64_standard_len(part@);
    }
    base64_encode(part)
}

/// The text of an embedded file: the base64 text alone.
pub open spec fn file_json(data: Seq<u8>, expected: nat) -> Seq<u8> {
    base64_standard(embedded_part(data, expected))
}

/// Binary data written as its bare base64 text, for a caller to place inside
/// a JSON string. The first `expected_size` bytes of the data are encoded;
/// data shorter than that is an error.
pub struct Base64EmbedFile {
    state: EmbedState,
    data: Vec<u8>,
    encoded: Vec<u8>,
    expected_size: usize,
}

impl Base64EmbedFile {
    #[verifier::type_invariant]
    spec fn wf(&self) -> bool {
        &&& self.data@.len() >= self.expected_size ==> {
            &&& encoded_len(self.expected_size as nat) <= usize::MAX
            &&& self.encoded@ == base64_standard(embedded_part(self.data@, self.expected_size as nat))
            &&& self.encoded@.len() == encoded_len(self.expected_size as nat)
        }
        &&& self.state is EmitData ==> self.data@.len() >= self.expected_size
    }

    /// Whether the embed has finished (after its text, or after its error).
    pub closed spec fn is_done(&self) -> bool {
        self.state is Done
    }

    /// The data to embed.
    pub closed spec fn data(&self) -> Seq<u8> {
        self.data@
    }

    /// The announced size of the data.
    pub closed spec fn expected_size(&self) -> nat {
        self.expected_size as nat
    }

    /// Whether nothing has been emitted yet.
    pub closed spec fn is_fresh(&self) -> bool {
        self.state is EmitStart
    }

    /// Creates the embed. Where the data holds the announced size, the
    /// encoded text must be small enough to be counted in a `usize`.
    pub fn new(data: Vec<u8>, expected_size: usize) -> (r: Result<Self, Error>)
        requires
            data@.len() >= expected_size ==> encoded_len(expected_size as nat) <= usize::MAX,
        ensures
            r matches Ok(e) && e.is_fresh() && e.data() == data@ && e.expected_size()
                == expected_size && Serializer::remaining(&e) == file_json(data@, expected_size as nat)
                && Serializer::fails(&e) == (data@.len() < expected_size) && Serializer::inv(&e),
    {
        let encoded = encode_prefix(&data, expected_size);
        Ok(Base64EmbedFile { state: EmbedState::EmitStart, data, encoded, expected_size })
    }

    /// The size of the output: the encoded length of the announced size,
    /// or `None` where that does not fit in a `usize`.
    pub fn size(&self) -> (r: Option<usize>)
        ensures
            r == (if encoded_len(self.expected_size()) <= usize::MAX {
                Some(encoded_len(self.expected_size()) as usize)
            } else {
                None::<usize>
            }),
    {
        checked_base64_len(self.expected_size)
    }
}

impl Serializer for Base64EmbedFile {
    closed spec fn reports(&self, e: Error) -> bool {
        &&& self.state is EmitStart
        &&& e matches Error::Serialization(m) && m@ == size_mismatch_message(
            self.expected_size as nat,
            self.data@.len(),
        )
    }

    open spec fn may_pend(&self) -> bool {
        false
    }

    closed spec fn inv(&self) -> bool {
        true
    }

    closed spec fn remaining(&self) -> Seq<u8> {
        match self.state {
            EmbedState::EmitStart => file_json(self.data@, self.expected_size as nat),
            EmbedState::EmitData { chunk_start } => if chunk_start >= self.encoded@.len() {
                Seq::empty()
            } else {
                self.encoded@.skip(chunk_start as int)
            },
            EmbedState::Done => Seq::empty(),
        }
    }

    closed spec fn fails(&self) -> bool {
        self.state is EmitStart && self.data@.len() < self.expected_size
    }

    /// Data shorter than announced gives the size-mismatch error at the first
    /// poll, and the embed ends. Otherwise each poll hands out the next piece
    /// of at most `CHUNK_SIZE` bytes of the base64 text, then `Ready(None)`.
    fn poll(&mut self, cx: &mut Context<'_>) -> (r: Poll<Option<Result<bytes::Bytes, Error>>>)
        ensures
            old(self).is_fresh() && old(self).data().len() < old(self).expected_size() ==> (r matches Poll::Ready(Some(Err(Error::Serialization(m))))
                && m@ == size_mismatch_message(old(self).expected_size(), old(self).data().len())
                && final(self).is_done()),
            !(old(self).is_fresh() && old(self).data().len() < old(self).expected_size()) ==> {
                &&& old(self).remaining().len() == 0 ==> r == Poll::<Option<Result<bytes::Bytes, Error>>>::Ready(None)
                    && final(self).is_done()
                &&& old(self).remaining().len() > 0 ==> (r matches Poll::Ready(Some(Ok(b))) && chunk_bytes(b)
                    == next_piece(old(self).remaining(), CHUNK_SIZE as nat))
            },
            old(self).is_done() ==> r == Poll::<Option<Result<bytes::Bytes, Error>>>::Ready(None),
            r !is Pending,
            !final(self).is_fresh(),
    {
        proof {
            use_type_invariant(&*self);
        }
        let chunk_start = match &self.state {
            EmbedState::EmitStart => {
                if self.data.len() < self.expected_size {
                    self.state = EmbedState::Done;
                    return Poll::Ready(Some(Err(size_mismatch(self.expected_size, self.data.len()))));
                }
                assert(self.encoded@.skip(0) =~= self.encoded@);
                0
            },
            EmbedState::EmitData { chunk_start } => *chunk_start,
            EmbedState::Done => {
                return Poll::Ready(None);
            },
        };
        if chunk_start >= self.encoded.len() {
            self.state = EmbedState::Done;
            return Poll::Ready(None);
        }
        let (out, end) = encoded_piece(&self.encoded, chunk_start);
        self.state = EmbedState::EmitData { chunk_start: end };
        proof {
            assert(old(self).remaining() =~= out@ + self.remaining());
            assert(out@ =~= next_piece(old(self).remaining(), CHUNK_SIZE as nat));
        }
        Poll::Ready(Some(Ok(chunk_from_vec(out))))
    }
}

impl IntoSerializer for Base64EmbedFile {
    type S = Base64EmbedFile;

    open spec fn size_unknown(&self) -> bool {
        false
    }

    open spec fn json_may_pend(&self) -> bool {
        false
    }

    open spec fn json(&self) -> Seq<u8> {
        Serializer::remaining(self)
    }

    open spec fn json_fails(&self) -> bool {
        Serializer::fails(self)
    }

    /// The size is that of the whole text, so it is the length of what is
    /// left only before the first poll.
    open spec fn size_known(&self) -> bool {
        self.is_fresh()
    }

    fn into_serializer(self) -> (s: Self::S) {
        self
    }

    fn size(&self) -> (r: Option<usize>) {
        proof {
            use_type_invariant(self);
        }
        Base64EmbedFile::size(self)
    }
}

/// The bytes `"data:` that open a data URL string.
pub open spec fn url_open() -> Seq<u8> {
    seq![34u8, 100u8, 97u8, 116u8, 97u8, 58u8]
}

/// The bytes `;base64,` that end a data URL's header.
pub open spec fn url_base64_marker() -> Seq<u8> {
    seq![59u8, 98u8, 97u8, 115u8, 101u8, 54u8, 52u8, 44u8]
}

/// The first chunk of a data URL: `"data:`, the MIME type, `;base64,`.
pub open spec fn url_header(mime: Seq<char>) -> Seq<u8> {
    url_open() + encode_utf8(mime) + url_base64_marker()
}

/// The JSON text of an embedded data URL: the header, the base64 text, `"`.
pub open spec fn url_json(mime: Seq<char>, data: Seq<u8>, expected: nat) -> Seq<u8> {
    url_header(mime) + base64_standard(embedded_part(data, expected)) + seq![34u8]
}

/// Binary data written as a quoted `data:<mime>;base64,` URL. The first
/// `expected_size` bytes of the data are encoded; data shorter than that is an
/// error.
pub struct Base64EmbedURL {
    state: EmbedState,
    data: Vec<u8>,
    encoded: Vec<u8>,
    mime_type: String,
    expected_size: usize,
}

impl Base64EmbedURL {
    #[verifier::type_invariant]
    spec fn wf(&self) -> bool {
        &&& self.data@.len() >= self.expected_size ==> {
            &&& url_header(self.mime_type@).len() + encoded_len(self.expected_size as nat) + 1 <= usize::MAX
            &&& self.encoded@ == base64_standard(embedded_part(self.data@, self.expected_size as nat))
            &&& self.encoded@.len() == encoded_len(self.expected_size as nat)
        }
        &&& self.state is EmitData ==> self.data@.len() >= self.expected_size
    }

    /// Whether the embed has finished (after its text, or after its error).
    pub closed spec fn is_done(&self) -> bool {
        self.state is Done
    }

    /// The data to embed.
    pub closed spec fn data(&self) -> Seq<u8> {
        self.data@
    }

    /// The announced size of the data.
    pub closed spec fn expected_size(&self) -> nat {
        self.expected_size as nat
    }

    /// The MIME type written in the URL.
    pub closed spec fn mime_type(&self) -> Seq<char> {
        self.mime_type@
    }

    /// Whether nothing has been emitted yet.
    pub closed spec fn is_fresh(&self) -> bool {
        self.state is EmitStart
    }

    /// Creates the embed. Where the data holds the announced size, the whole
    /// output must be small enough to be counted in a `usize`.
    pub fn new(data: Vec<u8>, expected_size: usize, mime_type: String) -> (r: Result<Self, Error>)
        requires
            data@.len() >= expected_size ==> url_header(mime_type@).len() + encoded_len(
                expected_size as nat,
            ) + 1 <= usize::MAX,
        ensures
            r matches Ok(e) && e.is_fresh() && e.data() == data@ && e.expected_size()
                == expected_size && e.mime_type() == mime_type@ && Serializer::remaining(&e)
                == url_json(mime_type@, data@, expected_size as nat) && Serializer::fails(&e) == (
            data@.len() < expected_size) && Serializer::inv(&e),
    {
        let encoded = encode_prefix(&data, expected_size);
        Ok(Base64EmbedURL { state: EmbedState::EmitStart, data, encoded, mime_type, expected_size })
    }

    /// The header bytes `"data:<mime>;base64,`.
    fn header(&self) -> (v: Vec<u8>)
        ensures
            v@ == url_header(self.mime_type@),
    {
        let mut v: Vec<u8> = vec![34u8, 100u8, 97u8, 116u8, 97u8, 58u8];
        let mime = self.mime_type.as_str().as_bytes();
        let mut i: usize = 0;
        while i < mime.len()
            invariant
                i <= mime@.len(),
                mime@ == encode_utf8(self.mime_type@),
                v@ == url_open() + mime@.take(i as int),
            decreases mime@.len() - i,
        {
            v.push(mime[i]);
            i = i + 1;
            assert(v@ =~= url_open() + mime@.take(i as int));
        }
        assert(mime@.take(i as int) =~= mime@);
        v.push(59u8);
        v.push(98u8);
        v.push(97u8);
        v.push(115u8);
        v.push(101u8);
        v.push(54u8);
        v.push(52u8);
        v.push(44u8);
        assert(v@ =~= url_header(self.mime_type@));
        v
    }

    /// The size of the output: `data:<mime>;base64,`, the encoded length of
    /// the announced size, and the two quotes; `None` where that does not fit
    /// in a `usize`.
    pub fn size(&self) -> (r: Option<usize>)
        ensures
            r == (if url_header(self.mime_type()).len() + encoded_len(self.expected_size()) + 1
                <= usize::MAX {
                Some((url_header(self.mime_type()).len() + encoded_len(self.expected_size()) + 1) as usize)
            } else {
                None::<usize>
            }),
    {
        let header_len = self.header().len();
        match checked_base64_len(self.expected_size) {
            None => None,
            Some(k) => {
                if k > usize::MAX - header_len || header_len + k > usize::MAX - 1 {
                    None
                } else {
                    Some(header_len + k + 1)
                }
            },
        }
    }
}

impl Serializer for Base64EmbedURL {
    closed spec fn reports(&self, e: Error) -> bool {
        &&& self.state is EmitStart
        &&& e matches Error::Serialization(m) && m@ == size_mismatch_message(
            self.expected_size as nat,
            self.data@.len(),
        )
    }

    open spec fn may_pend(&self) -> bool {
        false
    }

    closed spec fn inv(&self) -> bool {
        true
    }

    closed spec fn remaining(&self) -> Seq<u8> {
        match self.state {
            EmbedState::EmitStart => url_json(self.mime_type@, self.data@, self.expected_size as nat),
            EmbedState::EmitData { chunk_start } => if chunk_start >= self.encoded@.len() {
                seq![34u8]
            } else {
                self.encoded@.skip(chunk_start as int) + seq![34u8]
            },
            EmbedState::Done => Seq::empty(),
        }
    }

    closed spec fn fails(&self) -> bool {
        self.state is EmitStart && self.data@.len() < self.expected_size
    }

    /// Data shorter than announced gives the size-mismatch error at the first
    /// poll, and the embed ends. Otherwise the first poll hands out the
    /// header, each later one the next piece of at most `CHUNK_SIZE` bytes of
    /// the base64 text, then the closing quote, then `Ready(None)`.
    fn poll(&mut self, cx: &mut Context<'_>) -> (r: Poll<Option<Result<bytes::Bytes, Error>>>)
        ensures
            old(self).is_fresh() && old(self).data().len() < old(self).expected_size() ==> (r matches Poll::Ready(Some(Err(Error::Serialization(m))))
                && m@ == size_mismatch_message(old(self).expected_size(), old(self).data().len())
                && final(self).is_done()),
            old(self).is_fresh() && old(self).data().len() >= old(self).expected_size() ==> (r matches Poll::Ready(Some(Ok(b)))
                && chunk_bytes(b) == url_header(old(self).mime_type())),
            !old(self).is_fresh() ==> {
                let rest = old(self).remaining();
                &&& rest.len() == 0 ==> r == Poll::<Option<Result<bytes::Bytes, Error>>>::Ready(None)
                &&& rest.len() == 1 ==> (r matches Poll::Ready(Some(Ok(b))) && chunk_bytes(b) == rest)
                &&& rest.len() > 1 ==> (r matches Poll::Ready(Some(Ok(b))) && chunk_bytes(b) == next_piece(
                    rest.drop_last(),
                    CHUNK_SIZE as nat,
                ))
            },
            old(self).is_done() ==> r == Poll::<Option<Result<bytes::Bytes, Error>>>::Ready(None),
            r !is Pending,
            !final(self).is_fresh(),
    {
        proof {
            use_type_invariant(&*self);
        }
        let chunk_start = match &self.state {
            EmbedState::EmitStart => {
                if self.data.len() < self.expected_size {
                    self.state = EmbedState::Done;
                    return Poll::Ready(Some(Err(size_mismatch(self.expected_size, self.data.len()))));
                }
                let out = self.header();
                self.state = EmbedState::EmitData { chunk_start: 0 };
                proof {
                    assert(old(self).remaining() =~= out@ + self.remaining());
                }
                return Poll::Ready(Some(Ok(chunk_from_vec(out))));
            },
            EmbedState::EmitData { chunk_start } => *chunk_start,
            EmbedState::Done => {
                return Poll::Ready(None);
            },
        };
        if chunk_start >= self.encoded.len() {
            self.state = EmbedState::Done;
            let out = vec![34u8];
            proof {
                assert(old(self).remaining() =~= out@ + self.remaining());
            }
            return Poll::Ready(Some(Ok(chunk_from_vec(out))));
        }
        let (out, end) = encoded_piece(&self.encoded, chunk_start);
        self.state = EmbedState::EmitData { chunk_start: end };
        proof {
            assert(old(self).remaining() =~= out@ + self.remaining());
            assert(old(self).remaining().drop_last() =~= self.encoded@.skip(chunk_start as int));
            assert(out@ =~= next_piece(old(self).remaining().drop_last(), CHUNK_SIZE as nat));
        }
        Poll::Ready(Some(Ok(chunk_from_vec(out))))
    }
}

impl IntoSerializer for Base64EmbedURL {
    type S = Base64EmbedURL;

    open spec fn size_unknown(&self) -> bool {
        false
    }

    open spec fn json_may_pend(&self) -> bool {
        false
    }

    open spec fn json(&self) -> Seq<u8> {
        Serializer::remaining(self)
    }

    open spec fn json_fails(&self) -> bool {
        Serializer::fails(self)
    }

    /// The size is that of the whole text, so it is the length of what is
    /// left only before the first poll.
    open spec fn size_known(&self) -> bool {
        self.is_fresh()
    }

    fn into_serializer(self) -> (s: Self::S) {
        self
    }

    fn size(&self) -> (r: Option<usize>) {
        proof {
            use_type_invariant(self);
        }
        Base64EmbedURL::size(self)
    }
}

} // verus!

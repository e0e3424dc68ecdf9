//! The serializer traits, the token serializer and the pieces of JSON text
//! that every serializer is described by.
use std::task::Context;
use vstd::prelude::*;

use vstd::string::StrSliceExecFns;

use crate::buffer::{chunk_bytes, chunk_from_vec};
use crate::error::Error;
use crate::text::{
    decimal, escape, i64_text, json_string, push_escaped, signed_decimal, u64_text, escaped_string_size,
};

verus! {

/// `std::task::Context`, the task context handed to each poll so that a
/// serializer that is not ready can arrange to be woken; it is carried through
/// as an opaque value.
#[verifier::external_type_specification]
#[verifier::external_body]
pub struct ExContext<'a>(std::task::Context<'a>);

/// Whether a value is ready (the same shape as `std::task::Poll`).
#[derive(Debug)]
pub enum Poll<T> {
    /// The value is ready.
    Ready(T),
    /// Not yet; poll again.
    Pending,
}

/// How one call of `poll` relates what a serializer had still to emit before
/// (`rest`, `fails`) to what it has still to emit after (`next_rest`,
/// `next_fails`):
/// - a chunk is a non-empty front of the output, and the rest follows it;
/// - an error comes only from a serializer that was going to fail;
/// - the end comes only when nothing is left and no error is due;
/// - `Pending` changes nothing.
pub open spec fn poll_step(
    rest: Seq<u8>,
    fails: bool,
    next_rest: Seq<u8>,
    next_fails: bool,
    r: Poll<Option<Result<bytes::Bytes, Error>>>,
) -> bool {
    match r {
        Poll::Ready(Some(Ok(b))) => chunk_bytes(b).len() > 0 && rest == chunk_bytes(b) + next_rest
            && next_fails == fails,
        Poll::Ready(Some(Err(_))) => fails,
        Poll::Ready(None) => rest.len() == 0 && !fails && next_rest.len() == 0 && !next_fails,
        Poll::Pending => next_rest == rest && next_fails == fails,
    }
}

/// A source of JSON bytes, handed out chunk by chunk.
///
/// `remaining` is the text the serializer has still to emit; `fails` says
/// whether it will report an error before that text is complete.
pub trait Serializer {
    /// The serializer's internal consistency. (The default bodies of the
    /// three spec functions describe a serializer with nothing to emit; every
    /// serializer of this library gives its own.)
    open spec fn inv(&self) -> bool {
        true
    }

    /// The bytes still to be emitted.
    open spec fn remaining(&self) -> Seq<u8> {
        Seq::empty()
    }

    /// Whether an error will be reported before the output is complete.
    open spec fn fails(&self) -> bool {
        false
    }

    /// Whether `poll` may answer `Pending`: only a serializer that waits on
    /// something, or holds one that does, may. (By default it may; every
    /// serializer of this library says whether it does.)
    open spec fn may_pend(&self) -> bool {
        true
    }

    /// Whether `e` is an error this serializer may report: one that is due
    /// from the part of it that the next poll works on. (By default any
    /// error; every serializer of this library says which.)
    open spec fn reports(&self, e: Error) -> bool {
        true
    }

    /// Produces the next chunk: `Ready(Some(Ok(bytes)))` while output is
    /// left, `Ready(Some(Err(e)))` on failure, `Ready(None)` once done, and
    /// `Pending` when the next chunk is not available yet (a serializer that
    /// waits arranges through `cx` to be woken; the serializers that hold
    /// others hand `cx` on to them).
    fn poll(&mut self, cx: &mut Context<'_>) -> (r: Poll<Option<Result<bytes::Bytes, Error>>>)
        requires
            old(self).inv(),
        ensures
            final(self).inv(),
            poll_step(
                old(self).remaining(),
                old(self).fails(),
                final(self).remaining(),
                final(self).fails(),
                r,
            ),
            r is Pending ==> old(self).may_pend(),
            final(self).may_pend() ==> old(self).may_pend(),
            r matches Poll::Ready(Some(Err(e))) ==> old(self).reports(e),
    ;
}

/// The next piece of a text handed out in pieces of at most `limit` bytes:
/// the whole rest when it fits, else its first `limit` bytes.
pub open spec fn next_piece(rest: Seq<u8>, limit: nat) -> Seq<u8> {
    if rest.len() <= limit {
        rest
    } else {
        rest.take(limit as int)
    }
}

/// Whether a poll handed out a chunk.
pub open spec fn is_chunk(r: Poll<Option<Result<bytes::Bytes, Error>>>) -> bool {
    r matches Poll::Ready(Some(Ok(_)))
}

/// The chunk a poll handed out (nothing for any other answer).
pub open spec fn chunk_of(r: Poll<Option<Result<bytes::Bytes, Error>>>) -> Seq<u8> {
    match r {
        Poll::Ready(Some(Ok(b))) => chunk_bytes(b),
        _ => Seq::empty(),
    }
}

/// The bytes handed out over a run of polls: each chunk, in order.
pub open spec fn emitted(results: Seq<Poll<Option<Result<bytes::Bytes, Error>>>>) -> Seq<u8>
    decreases results.len(),
{
    if results.len() == 0 {
        Seq::empty()
    } else {
        emitted(results.drop_last()) + match results.last() {
            Poll::Ready(Some(Ok(b))) => chunk_bytes(b),
            _ => Seq::empty(),
        }
    }
}

/// Whether a poll reported an error.
pub open spec fn is_error(r: Poll<Option<Result<bytes::Bytes, Error>>>) -> bool {
    r matches Poll::Ready(Some(Err(_)))
}

/// A run of polls of one serializer: `results[i]` is what poll `i` returned,
/// and `rests[i]`, `fails[i]` describe the serializer before that poll.
pub open spec fn is_poll_run(
    rests: Seq<Seq<u8>>,
    fails: Seq<bool>,
    results: Seq<Poll<Option<Result<bytes::Bytes, Error>>>>,
) -> bool {
    &&& rests.len() == results.len() + 1
    &&& fails.len() == results.len() + 1
    &&& forall|i: int|
        0 <= i < results.len() ==> #[trigger] poll_step(
            rests[i],
            fails[i],
            rests[i + 1],
            fails[i + 1],
            results[i],
        )
}

/// Law of every serializer: over any run of polls, a serializer that is not
/// going to fail reports no error, and the chunks it has handed out followed
/// by what it has still to emit are exactly what it had to emit at the start.
/// Once it reports the end, the chunks handed out are its whole text.
pub proof fn law_poll_run_emits_text(
    rests: Seq<Seq<u8>>,
    fails: Seq<bool>,
    results: Seq<Poll<Option<Result<bytes::Bytes, Error>>>>,
)
    requires
        is_poll_run(rests, fails, results),
        !fails[0],
    ensures
        forall|i: int| 0 <= i < results.len() ==> !is_error(#[trigger] results[i]),
        forall|i: int| 0 <= i <= results.len() ==> !#[trigger] fails[i],
        rests[0] == emitted(results) + rests[results.len() as int],
        results.len() > 0 && results.last() is Ready && results.last()->0 is None ==> emitted(results)
            == rests[0],
    decreases results.len(),
{
    let n = results.len() as int;
    if n == 0 {
        assert(rests[0] =~= emitted(results) + rests[0]);
    } else {
        let rs = rests.drop_last();
        let fs = fails.drop_last();
        let prefix = results.drop_last();
        assert(is_poll_run(rs, fs, prefix)) by {
            assert forall|i: int| 0 <= i < prefix.len() implies #[trigger] poll_step(
                rs[i],
                fs[i],
                rs[i + 1],
                fs[i + 1],
                prefix[i],
            ) by {
                assert(poll_step(rests[i], fails[i], rests[i + 1], fails[i + 1], results[i]));
            }
        }
        law_poll_run_emits_text(rs, fs, prefix);
        assert(rs[n - 1] == rests[n - 1]);
        assert(poll_step(rests[n - 1], fails[n - 1], rests[n], fails[n], results[n - 1]));
        assert(!fails[n - 1]) by {
            assert(!fs[n - 1]);
        }
        assert forall|i: int| 0 <= i <= results.len() implies !#[trigger] fails[i] by {
            if i < n {
                assert(!fs[i]);
            }
        }
        assert forall|i: int| 0 <= i < results.len() implies !is_error(#[trigger] results[i]) by {
            if i < n - 1 {
                assert(results[i] == prefix[i]);
            }
        }
        match results[n - 1] {
            Poll::Ready(Some(Ok(b))) => {
                assert(emitted(results) == emitted(prefix) + chunk_bytes(b));
                assert(rests[0] =~= emitted(results) + rests[n]);
            },
            _ => {
                assert(emitted(results) == emitted(prefix) + Seq::<u8>::empty());
                assert(rests[0] =~= emitted(results) + rests[n]);
            },
        }
    }
}

proof fn lemma_chunks_shrink_rest(
    rests: Seq<Seq<u8>>,
    fails: Seq<bool>,
    results: Seq<Poll<Option<Result<bytes::Bytes, Error>>>>,
    m: int,
)
    requires
        is_poll_run(rests, fails, results),
        0 <= m <= results.len(),
        forall|i: int| 0 <= i < m ==> (#[trigger] results[i]) matches Poll::Ready(Some(Ok(_))),
    ensures
        rests[m].len() + m <= rests[0].len(),
    decreases m,
{
    if m > 0 {
        let k = m - 1;
        lemma_chunks_shrink_rest(rests, fails, results, k);
        assert(poll_step(rests[k], fails[k], rests[k + 1], fails[k + 1], results[k]));
    }
}

proof fn lemma_find_end(
    rests: Seq<Seq<u8>>,
    fails: Seq<bool>,
    results: Seq<Poll<Option<Result<bytes::Bytes, Error>>>>,
    m: int,
) -> (i: int)
    requires
        is_poll_run(rests, fails, results),
        forall|i: int| 0 <= i < results.len() ==> !is_error(#[trigger] results[i]),
        forall|i: int| 0 <= i < results.len() ==> !(#[trigger] results[i] is Pending),
        results.len() > rests[0].len(),
        0 <= m <= rests[0].len(),
        forall|j: int| 0 <= j < m ==> (#[trigger] results[j]) matches Poll::Ready(Some(Ok(_))),
    ensures
        m <= i <= rests[0].len(),
        results[i] == Poll::<Option<Result<bytes::Bytes, Error>>>::Ready(None),
    decreases rests[0].len() + 1 - m,
{
    let r = results[m];
    assert(!is_error(r) && !(r is Pending));
    if r == Poll::<Option<Result<bytes::Bytes, Error>>>::Ready(None) {
        m
    } else {
        assert(r matches Poll::Ready(Some(Ok(_))));
        lemma_chunks_shrink_rest(rests, fails, results, m + 1);
        lemma_find_end(rests, fails, results, m + 1)
    }
}

/// Law of every serializer: streaming finishes. Over a run of polls of a
/// serializer that is not going to fail, where no poll answers `Pending`, the
/// end (`Ready(None)`) comes by the poll after the text's last byte at the
/// latest, as every chunk is a non-empty piece of the text; and the chunks
/// handed out up to the end are the whole text.
pub proof fn law_poll_run_finishes(
    rests: Seq<Seq<u8>>,
    fails: Seq<bool>,
    results: Seq<Poll<Option<Result<bytes::Bytes, Error>>>>,
)
    requires
        is_poll_run(rests, fails, results),
        !fails[0],
        forall|i: int| 0 <= i < results.len() ==> !(#[trigger] results[i] is Pending),
        results.len() > rests[0].len(),
    ensures
        exists|i: int|
            0 <= i <= rests[0].len() && #[trigger] results[i] == Poll::<
                Option<Result<bytes::Bytes, Error>>,
            >::Ready(None) && emitted(results.take(i + 1)) == rests[0],
{
    law_poll_run_emits_text(rests, fails, results);
    let i = lemma_find_end(rests, fails, results, 0);
    let rs = rests.take(i + 2);
    let fs = fails.take(i + 2);
    let pre = results.take(i + 1);
    assert(is_poll_run(rs, fs, pre)) by {
        assert forall|j: int| 0 <= j < pre.len() implies #[trigger] poll_step(
            rs[j],
            fs[j],
            rs[j + 1],
            fs[j + 1],
            pre[j],
        ) by {
            assert(poll_step(rests[j], fails[j], rests[j + 1], fails[j + 1], results[j]));
        }
    }
    law_poll_run_emits_text(rs, fs, pre);
    assert(pre.last() == results[i]);
}

/// The exact size of a JSON text: its length when that fits in a `usize`.
pub open spec fn reported_size(json: Seq<u8>) -> Option<usize> {
    if json.len() <= usize::MAX {
        Some(json.len() as usize)
    } else {
        None
    }
}

/// A value that can be turned into a [`Serializer`].
pub trait IntoSerializer: Sized {
    /// The serializer this value becomes.
    type S: Serializer;

    /// The complete JSON text of the value. (The default bodies of the three
    /// spec functions describe a value with no text whose size is not known;
    /// every value type of this library gives its own.)
    open spec fn json(&self) -> Seq<u8> {
        Seq::empty()
    }

    /// Whether serializing the value reports an error.
    open spec fn json_fails(&self) -> bool {
        false
    }

    /// Whether `size` can tell the length ahead of time.
    open spec fn size_known(&self) -> bool {
        false
    }

    /// Whether the value's serializer may answer `Pending`. (By default it
    /// may; every value type of this library says whether it does.)
    open spec fn json_may_pend(&self) -> bool {
        true
    }

    /// Whether the value's size cannot be told ahead of time, so that `size`
    /// answers `None`: a container's is unknown when one of its values' is.
    /// (By default it is unknown; every value type of this library says
    /// whether it is.)
    open spec fn size_unknown(&self) -> bool {
        true
    }

    /// Converts this value into a serializer that emits exactly `json`.
    fn into_serializer(self) -> (s: Self::S)
        ensures
            s.inv(),
            s.remaining() == self.json(),
            s.fails() == self.json_fails(),
            s.may_pend() ==> self.json_may_pend(),
    ;

    /// The exact number of bytes the value serializes to, when known.
    fn size(&self) -> (r: Option<usize>)
        ensures
            self.size_known() && !self.json_fails() ==> r == reported_size(self.json()),
            self.size_unknown() ==> r is None,
    ;

    /// Converts this value into a stream of chunks.
    fn into_stream(self) -> (st: IntoStreamSerializer<Self::S>)
        ensures
            st.inv(),
            st.remaining() == self.json(),
            st.fails() == self.json_fails(),
    {
        IntoStreamSerializer::new(self.into_serializer())
    }
}

/// Law: the size a value reports ahead of time is the number of bytes its
/// serializer hands out before it reports the end.
pub proof fn law_size_matches_output<T: IntoSerializer>(
    value: T,
    rests: Seq<Seq<u8>>,
    fails: Seq<bool>,
    results: Seq<Poll<Option<Result<bytes::Bytes, Error>>>>,
)
    requires
        is_poll_run(rests, fails, results),
        rests[0] == value.json(),
        fails[0] == value.json_fails(),
        !value.json_fails(),
        results.len() > 0,
        results.last() is Ready,
        results.last()->0 is None,
    ensures
        value.size_known() ==> (reported_size(value.json()) matches Some(n) ==> n == emitted(
            results,
        ).len()),
{
    law_poll_run_emits_text(rests, fails, results);
}

/// A stream over a serializer: it stops polling the serializer once that has
/// finished.
#[derive(Debug)]
pub struct IntoStreamSerializer<S: Serializer> {
    serializer: S,
    done: bool,
}

impl<S: Serializer> IntoStreamSerializer<S> {
    /// Whether the stream has ended.
    pub closed spec fn is_done(&self) -> bool {
        self.done
    }

    /// The stream's consistency.
    pub closed spec fn inv(&self) -> bool {
        !self.done ==> self.serializer.inv()
    }

    /// The bytes the stream has still to yield.
    pub closed spec fn remaining(&self) -> Seq<u8> {
        if self.done {
            Seq::empty()
        } else {
            self.serializer.remaining()
        }
    }

    /// Whether the stream will yield an error.
    pub closed spec fn fails(&self) -> bool {
        !self.done && self.serializer.fails()
    }

    /// The serializer the stream polls.
    pub closed spec fn serializer(&self) -> S {
        self.serializer
    }

    /// Whether the stream may answer `Pending`: only while its serializer may.
    pub closed spec fn may_pend(&self) -> bool {
        !self.done && self.serializer.may_pend()
    }

    /// Creates a new stream from a serializer.
    pub fn new(serializer: S) -> (st: Self)
        ensures
            !st.is_done(),
            st.serializer() == serializer,
            serializer.inv() ==> st.inv(),
            st.remaining() == serializer.remaining(),
            st.fails() == serializer.fails(),
            st.may_pend() == serializer.may_pend(),
    {
        IntoStreamSerializer { serializer, done: false }
    }

    /// The next item of the stream. Once the serializer has finished, the
    /// stream stays finished.
    pub fn poll_next(&mut self, cx: &mut Context<'_>) -> (r: Poll<Option<Result<bytes::Bytes, Error>>>)
        requires
            old(self).inv(),
        ensures
            final(self).inv(),
            poll_step(
                old(self).remaining(),
                old(self).fails(),
                final(self).remaining(),
                final(self).fails(),
                r,
            ),
            old(self).is_done() ==> r == Poll::<Option<Result<bytes::Bytes, Error>>>::Ready(None) && *final(self) == *old(self),
            r == Poll::<Option<Result<bytes::Bytes, Error>>>::Ready(None) ==> final(self).is_done(),
            r is Pending ==> old(self).may_pend(),
            r matches Poll::Ready(Some(Err(e))) ==> old(self).serializer().reports(e),
            r != Poll::<Option<Result<bytes::Bytes, Error>>>::Ready(None) ==> final(self).is_done()
                == old(self).is_done(),
    {
        if self.done {
            return Poll::Ready(None);
        }
        match self.serializer.poll(cx) {
            Poll::Ready(Some(result)) => Poll::Ready(Some(result)),
            Poll::Ready(None) => {
                self.done = true;
                Poll::Ready(None)
            },
            Poll::Pending => Poll::Pending,
        }
    }
}

/// JSON tokens for building a document piece by piece.
///
/// A floating-point number is carried as the text it is written as.
#[derive(Debug, Clone, Copy)]
pub enum Token<'a> {
    /// `null`.
    Null,
    /// `true` or `false`.
    Bool(bool),
    /// A signed integer.
    I64(i64),
    /// An unsigned integer.
    U64(u64),
    /// A floating-point number, as its decimal text (`null` for NaN and the
    /// infinities).
    F64(&'a str),
    /// A string value, written quoted and escaped.
    String(&'a str),
    /// `[`.
    StartArray,
    /// `]`.
    EndArray,
    /// `{`.
    StartObject,
    /// `}`.
    EndObject,
    /// An object key: the quoted, escaped key followed by `:`.
    Key(&'a str),
    /// `,`.
    Comma,
    /// `:`.
    Colon,
}

/// The text of one token.
pub open spec fn token_text(t: Token) -> Seq<u8> {
    match t {
        Token::Null => seq![110u8, 117u8, 108u8, 108u8],
        Token::Bool(b) => if b {
            seq![116u8, 114u8, 117u8, 101u8]
        } else {
            seq![102u8, 97u8, 108u8, 115u8, 101u8]
        },
        Token::I64(n) => signed_decimal(n as int),
        Token::U64(n) => decimal(n as nat),
        Token::F64(s) => vstd::utf8::encode_utf8(s@),
        Token::String(s) => json_string(s@),
        Token::StartArray => seq![91u8],
        Token::EndArray => seq![93u8],
        Token::StartObject => seq![123u8],
        Token::EndObject => seq![125u8],
        Token::Key(k) => json_string(k@) + seq![58u8],
        Token::Comma => seq![44u8],
        Token::Colon => seq![58u8],
    }
}

/// The text of a sequence of tokens: each token's text, in order.
pub open spec fn tokens_json(ts: Seq<Token>) -> Seq<u8> {
    ts.map_values(|t: Token| token_text(t)).flatten()
}

/// The text of one token, as bytes.
pub fn token_bytes(t: &Token) -> (v: Vec<u8>)
    ensures
        v@ == token_text(*t),
{
    match t {
        Token::Null => vec![110u8, 117u8, 108u8, 108u8],
        Token::Bool(b) => if *b {
            vec![116u8, 114u8, 117u8, 101u8]
        } else {
            vec![102u8, 97u8, 108u8, 115u8, 101u8]
        },
        Token::I64(n) => i64_text(*n),
        Token::U64(n) => u64_text(*n),
        Token::F64(s) => s.as_bytes_vec(),
        Token::String(s) => {
            let mut v: Vec<u8> = Vec::new();
            v.push(34u8);
            push_escaped(&mut v, s);
            v.push(34u8);
            assert(v@ =~= json_string(s@));
            v
        },
        Token::StartArray => vec![91u8],
        Token::EndArray => vec![93u8],
        Token::StartObject => vec![123u8],
        Token::EndObject => vec![125u8],
        Token::Key(k) => {
            let mut v: Vec<u8> = Vec::new();
            v.push(34u8);
            push_escaped(&mut v, k);
            v.push(34u8);
            v.push(58u8);
            assert(v@ =~= json_string(k@) + seq![58u8]);
            v
        },
        Token::Comma => vec![44u8],
        Token::Colon => vec![58u8],
    }
}

/// The size of one token's text, or `None` where it does not fit in a `usize`.
pub fn token_size(t: &Token) -> (n: Option<usize>)
    ensures
        n == (if token_text(*t).len() <= usize::MAX {
            Some(token_text(*t).len() as usize)
        } else {
            None::<usize>
        }),
{
    match t {
        Token::String(s) => {
            assert(json_string(s@).len() == escape(s@).len() + 2);
            match escaped_string_size(s) {
                Some(k) => if k <= usize::MAX - 2 {
                    Some(k + 2)
                } else {
                    None
                },
                None => None,
            }
        },
        Token::Key(s) => {
            assert((json_string(s@) + seq![58u8]).len() == escape(s@).len() + 3);
            match escaped_string_size(s) {
                Some(k) => if k <= usize::MAX - 3 {
                    Some(k + 3)
                } else {
                    None
                },
                None => None,
            }
        },
        Token::F64(s) => Some(s.as_bytes().len()),
        _ => Some(token_bytes(t).len()),
    }
}

/// Emits one token per poll.
pub struct TokenSerializer<'a> {
    tokens: &'a [Token<'a>],
    pos: usize,
}

impl<'a> TokenSerializer<'a> {
    /// The tokens being serialized.
    pub closed spec fn token_list(&self) -> Seq<Token<'a>> {
        self.tokens@
    }

    /// How many tokens have been handed out (or passed over).
    pub closed spec fn position(&self) -> int {
        self.pos as int
    }

    /// Creates a new token serializer from a slice of tokens.
    pub fn new(tokens: &'a [Token<'a>]) -> (s: Self)
        ensures
            s.token_list() == tokens@,
            s.position() == 0,
            s.inv(),
            s.remaining() == tokens_json(tokens@),
            !s.fails(),
    {
        assert(tokens@.skip(0) =~= tokens@);
        TokenSerializer { tokens, pos: 0 }
    }
}

proof fn lemma_tokens_json_first(ts: Seq<Token>)
    requires
        ts.len() > 0,
    ensures
        tokens_json(ts) == token_text(ts[0]) + tokens_json(ts.drop_first()),
{
    assert(ts.map_values(|t: Token| token_text(t)).drop_first() =~= ts.drop_first().map_values(
        |t: Token| token_text(t),
    ));
}

/// Appending a token appends its text.
pub proof fn lemma_tokens_json_push(ts: Seq<Token>, t: Token)
    ensures
        tokens_json(ts.push(t)) == tokens_json(ts) + token_text(t),
{
    let parts = ts.map_values(|t: Token| token_text(t));
    assert(ts.push(t).map_values(|t: Token| token_text(t)) =~= parts.push(token_text(t)));
    parts.lemma_flatten_push(token_text(t));
}

impl<'a> Serializer for TokenSerializer<'a> {
    open spec fn reports(&self, e: Error) -> bool {
        false
    }

    open spec fn may_pend(&self) -> bool {
        false
    }

    closed spec fn inv(&self) -> bool {
        self.pos <= self.tokens@.len()
    }

    closed spec fn remaining(&self) -> Seq<u8> {
        tokens_json(self.tokens@.skip(self.pos as int))
    }

    closed spec fn fails(&self) -> bool {
        false
    }

    /// Each poll hands out the text of the next token (a token whose text
    /// is empty, such as `F64("")`, is passed over), and `Ready(None)` once
    /// all tokens are out.
    fn poll(&mut self, cx: &mut Context<'_>) -> (r: Poll<Option<Result<bytes::Bytes, Error>>>)
        ensures
            final(self).token_list() == old(self).token_list(),
            old(self).position() < old(self).token_list().len() && token_text(
                old(self).token_list()[old(self).position()],
            ).len() > 0 ==> (r matches Poll::Ready(Some(Ok(b))) && chunk_bytes(b) == token_text(
                old(self).token_list()[old(self).position()],
            ) && final(self).position() == old(self).position() + 1),
            old(self).position() >= old(self).token_list().len() ==> r == Poll::<
                Option<Result<bytes::Bytes, Error>>,
            >::Ready(None),
    {
        loop
            invariant
                self.pos <= self.tokens@.len(),
                self.tokens@ == old(self).tokens@,
                self.remaining() == old(self).remaining(),
                old(self).pos <= self.pos,
                self.pos == old(self).pos || (old(self).pos < old(self).tokens@.len() && token_text(
                    old(self).tokens@[old(self).pos as int],
                ).len() == 0),
            decreases self.tokens@.len() - self.pos,
        {
            if self.pos >= self.tokens.len() {
                assert(self.tokens@.skip(self.pos as int) =~= Seq::<Token>::empty());
                assert(tokens_json(Seq::<Token>::empty()) =~= Seq::<u8>::empty());
                return Poll::Ready(None);
            }
            let token = &self.tokens[self.pos];
            let ghost before = self.tokens@.skip(self.pos as int);
            self.pos = self.pos + 1;
            proof {
                lemma_tokens_json_first(before);
                assert(before.drop_first() =~= self.tokens@.skip(self.pos as int));
            }
            let output = token_bytes(token);
            if output.len() > 0 {
                return Poll::Ready(Some(Ok(chunk_from_vec(output))));
            }
            assert(old(self).remaining() =~= self.remaining());
        }
    }
}

impl<'a> IntoSerializer for &'a [Token<'a>] {
    type S = TokenSerializer<'a>;

    open spec fn size_unknown(&self) -> bool {
        false
    }

    open spec fn json_may_pend(&self) -> bool {
        false
    }

    open spec fn json(&self) -> Seq<u8> {
        tokens_json(self@)
    }

    open spec fn json_fails(&self) -> bool {
        false
    }

    open spec fn size_known(&self) -> bool {
        true
    }

    fn into_serializer(self) -> (s: Self::S) {
        TokenSerializer::new(self)
    }

    fn size(&self) -> (r: Option<usize>) {
        let mut total: usize = 0;
        let mut i: usize = 0;
        assert(self@.take(0) =~= Seq::<Token>::empty());
        assert(tokens_json(Seq::<Token>::empty()) =~= Seq::<u8>::empty());
        while i < self.len()
            invariant
                i <= self@.len(),
                total == tokens_json(self@.take(i as int)).len(),
            decreases self@.len() - i,
        {
            proof {
                assert(self@.take(i + 1) =~= self@.take(i as int).push(self@[i as int]));
                lemma_tokens_json_push(self@.take(i as int), self@[i as int]);
                lemma_tokens_json_prefix_len(self@, i + 1);
            }
            match token_size(&self[i]) {
                Some(k) => {
                    if total > usize::MAX - k {
                        return None;
                    }
                    total = total + k;
                },
                None => {
                    return None;
                },
            }
            i = i + 1;
        }
        assert(self@.take(i as int) =~= self@);
        Some(total)
    }
}

/// A prefix of the tokens has no longer a text than the whole.
pub proof fn lemma_tokens_json_prefix_len(ts: Seq<Token>, k: int)
    requires
        0 <= k <= ts.len(),
    ensures
        tokens_json(ts.take(k)).len() <= tokens_json(ts).len(),
        k < ts.len() ==> tokens_json(ts.take(k)).len() + token_text(ts[k]).len() <= tokens_json(ts).len(),
    decreases ts.len() - k,
{
    if k < ts.len() {
        lemma_tokens_json_prefix_len(ts, k + 1);
        assert(ts.take(k + 1) =~= ts.take(k).push(ts[k]));
        lemma_tokens_json_push(ts.take(k), ts[k]);
    } else {
        assert(ts.take(k) =~= ts);
    }
}

/// Each item preceded by a comma.
pub open spec fn with_commas(items: Seq<Seq<u8>>) -> Seq<Seq<u8>> {
    items.map_values(|x: Seq<u8>| seq![44u8] + x)
}

/// The items joined with commas between them.
pub open spec fn comma_join(items: Seq<Seq<u8>>) -> Seq<u8> {
    if items.len() == 0 {
        Seq::empty()
    } else {
        items[0] + with_commas(items.drop_first()).flatten()
    }
}

/// A JSON array of the given element texts: `[`, the elements separated by
/// commas, `]`.
pub open spec fn array_json(items: Seq<Seq<u8>>) -> Seq<u8> {
    seq![91u8] + comma_join(items) + seq![93u8]
}

/// A JSON object of the given member texts (each a key with its value):
/// `{`, the members separated by commas, `}`.
pub open spec fn object_json(members: Seq<Seq<u8>>) -> Seq<u8> {
    seq![123u8] + comma_join(members) + seq![125u8]
}

/// The commas-and-items text from position `from` to the end.
pub open spec fn comma_tail(items: Seq<Seq<u8>>, from: int) -> Seq<u8> {
    with_commas(items.subrange(from, items.len() as int)).flatten()
}

/// The comma tail starting at an item is a comma, that item, and the tail after it.
pub proof fn lemma_comma_tail_step(items: Seq<Seq<u8>>, from: int)
    requires
        0 <= from < items.len(),
    ensures
        comma_tail(items, from) == seq![44u8] + items[from] + comma_tail(items, from + 1),
{
    let sub = items.subrange(from, items.len() as int);
    assert(with_commas(sub).drop_first() =~= with_commas(items.subrange(from + 1, items.len() as int)));
    assert(with_commas(sub)[0] == seq![44u8] + items[from]);
}

/// Nothing follows the last item.
pub proof fn lemma_comma_tail_end(items: Seq<Seq<u8>>)
    ensures
        comma_tail(items, items.len() as int) == Seq::<u8>::empty(),
{
    assert(items.subrange(items.len() as int, items.len() as int) =~= Seq::<Seq<u8>>::empty());
    assert(with_commas(Seq::<Seq<u8>>::empty()) =~= Seq::<Seq<u8>>::empty());
}

/// A joined list starts with its first item and continues with the tail.
pub proof fn lemma_comma_join_first(items: Seq<Seq<u8>>)
    requires
        items.len() > 0,
    ensures
        comma_join(items) == items[0] + comma_tail(items, 1),
{
    assert(items.drop_first() =~= items.subrange(1, items.len() as int));
}

/// Joining one more item appends a comma (unless it is the first) and the item.
pub proof fn lemma_comma_join_push(items: Seq<Seq<u8>>, x: Seq<u8>)
    ensures
        comma_join(items.push(x)) == comma_join(items) + (if items.len() == 0 {
            x
        } else {
            seq![44u8] + x
        }),
{
    if items.len() == 0 {
        assert(items.push(x).drop_first() =~= Seq::<Seq<u8>>::empty());
        assert(with_commas(Seq::<Seq<u8>>::empty()) =~= Seq::<Seq<u8>>::empty());
        assert(comma_join(items.push(x)) =~= x);
    } else {
        let w = with_commas(items.drop_first());
        assert(items.push(x).drop_first() =~= items.drop_first().push(x));
        assert(with_commas(items.drop_first().push(x)) =~= w.push(seq![44u8] + x));
        w.lemma_flatten_push(seq![44u8] + x);
        assert(comma_join(items.push(x)) =~= comma_join(items) + (seq![44u8] + x));
    }
}

/// Joining a prefix gives no more text than joining everything.
pub proof fn lemma_comma_join_prefix_len(items: Seq<Seq<u8>>, k: int)
    requires
        0 <= k <= items.len(),
    ensures
        comma_join(items.take(k)).len() <= comma_join(items).len(),
        k < items.len() ==> comma_join(items.take(k)).len() + items[k].len() <= comma_join(items).len(),
    decreases items.len() - k,
{
    if k < items.len() {
        lemma_comma_join_prefix_len(items, k + 1);
        assert(items.take(k + 1) =~= items.take(k).push(items[k]));
        lemma_comma_join_push(items.take(k), items[k]);
    } else {
        assert(items.take(k) =~= items);
    }
}

/// The state of one field of a derived struct while it is serialized: its
/// value waiting (with whether the field is to be skipped), its serializer at
/// work, skipped, or finished (its serializer dropped).
pub enum FieldState<F: IntoSerializer> {
    /// The value, not converted yet, and whether the skip predicate holds of it.
    Waiting { value: Option<F>, skip: bool },
    /// The value's serializer.
    Active(F::S),
    /// The field is left out.
    Skipped,
    /// The field's serializer has finished and been dropped.
    Dropped,
}

impl<F: IntoSerializer> FieldState<F> {
    /// Whether the field has nothing (more) to serialize: it is left out (no
    /// value, or its skip condition holds), or finished.
    pub open spec fn is_over(&self) -> bool {
        match self {
            FieldState::Waiting { value, skip } => value is None || *skip,
            FieldState::Skipped => true,
            FieldState::Dropped => true,
            FieldState::Active(_) => false,
        }
    }

    /// A field about to be serialized.
    pub fn new(value: F, skip: bool) -> (s: Self)
        ensures
            s == (FieldState::Waiting { value: Some(value), skip }),
    {
        FieldState::Waiting { value: Some(value), skip }
    }

    /// Converts a waiting value into its serializer, unless there is no value
    /// or it is to be skipped. Returns whether the field has a serializer at
    /// work.
    pub fn prepare(&mut self) -> (active: bool)
        requires
            old(self).inv(),
        ensures
            final(self).inv(),
            final(self).remaining() == old(self).remaining(),
            final(self).fails() == old(self).fails(),
            active == (*final(self) is Active),
            !active ==> final(self).remaining().len() == 0 && !final(self).fails(),
            *old(self) is Active ==> *final(self) == *old(self),
            final(self).may_pend() ==> old(self).may_pend(),
            old(self).is_over() ==> *final(self) == (if *old(self) is Dropped {
                FieldState::<F>::Dropped
            } else {
                FieldState::<F>::Skipped
            }),
            !old(self).is_over() ==> *final(self) is Active,
    {
        let mut taken = FieldState::Dropped;
        std::mem::swap(self, &mut taken);
        match taken {
            FieldState::Waiting { value, skip } => match value {
                None => {
                    *self = FieldState::Skipped;
                    false
                },
                Some(v) => {
                    if skip {
                        *self = FieldState::Skipped;
                        false
                    } else {
                        *self = FieldState::Active(v.into_serializer());
                        true
                    }
                },
            },
            FieldState::Active(s) => {
                *self = FieldState::Active(s);
                true
            },
            FieldState::Skipped => {
                *self = FieldState::Skipped;
                false
            },
            FieldState::Dropped => {
                *self = FieldState::Dropped;
                false
            },
        }
    }
}

impl<F: IntoSerializer> Serializer for FieldState<F> {
    open spec fn reports(&self, e: Error) -> bool {
        match self {
            FieldState::Waiting { value, skip } => match value {
                Some(v) => !*skip && v.json_fails(),
                None => false,
            },
            FieldState::Active(s) => s.reports(e),
            _ => false,
        }
    }

    open spec fn may_pend(&self) -> bool {
        match self {
            FieldState::Waiting { value, skip } => match value {
                Some(v) => !*skip && v.json_may_pend(),
                None => false,
            },
            FieldState::Active(s) => s.may_pend(),
            _ => false,
        }
    }

    open spec fn inv(&self) -> bool {
        self matches FieldState::Active(s) ==> s.inv()
    }

    open spec fn remaining(&self) -> Seq<u8> {
        match self {
            FieldState::Waiting { value, skip } => match value {
                Some(v) => if *skip {
                    Seq::empty()
                } else {
                    v.json()
                },
                None => Seq::empty(),
            },
            FieldState::Active(s) => s.remaining(),
            _ => Seq::empty(),
        }
    }

    open spec fn fails(&self) -> bool {
        match self {
            FieldState::Waiting { value, skip } => match value {
                Some(v) => !*skip && v.json_fails(),
                None => false,
            },
            FieldState::Active(s) => s.fails(),
            _ => false,
        }
    }

    /// A field left out (or finished) answers `Ready(None)` and stays so.
    /// Otherwise the value's serializer (made at the first poll) is polled
    /// and its answer passed on; once it reports its end, the field drops it
    /// and becomes `Dropped`.
    fn poll(&mut self, cx: &mut Context<'_>) -> (r: Poll<Option<Result<bytes::Bytes, Error>>>)
        ensures
            old(self).is_over() ==> r == Poll::<Option<Result<bytes::Bytes, Error>>>::Ready(None)
                && *final(self) == (if *old(self) is Dropped {
                FieldState::<F>::Dropped
            } else {
                FieldState::<F>::Skipped
            }),
            !old(self).is_over() && r == Poll::<Option<Result<bytes::Bytes, Error>>>::Ready(None)
                ==> *final(self) is Dropped,
            r != Poll::<Option<Result<bytes::Bytes, Error>>>::Ready(None) ==> *final(self) is Active,
    {
        if !self.prepare() {
            return Poll::Ready(None);
        }
        let mut taken = FieldState::Dropped;
        std::mem::swap(self, &mut taken);
        match taken {
            FieldState::Active(mut s) => {
                let r = s.poll(cx);
                let finished = match &r {
                    Poll::Ready(None) => true,
                    _ => false,
                };
                if finished {
                    *self = FieldState::Dropped;
                } else {
                    *self = FieldState::Active(s);
                }
                r
            },
            other => {
                *self = other;
                Poll::Ready(None)
            },
        }
    }
}

} // verus!

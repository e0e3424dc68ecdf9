//! Text rendering used by every serializer: decimal numbers, UTF-8 and JSON
//! string escaping.
use vstd::prelude::*;
use vstd::std_specs::iter::IteratorSpec;
use vstd::utf8::{
    decode_first_scalar, encode_scalar, encode_utf8, encode_utf8_first_scalar, is_leading_byte_width_1,
    length_of_first_scalar,
};

verus! {

/// The ASCII decimal digits of `n`, most significant first, without leading
/// zeros (`0` is the single digit `0`).
pub open spec fn decimal(n: nat) -> Seq<u8>
    decreases n,
{
    if n < 10 {
        seq![(48 + n) as u8]
    } else {
        decimal(n / 10).push((48 + n % 10) as u8)
    }
}

/// The decimal text of an integer: a `-` before the digits when it is negative.
pub open spec fn signed_decimal(n: int) -> Seq<u8> {
    if n < 0 {
        seq![45u8] + decimal((-n) as nat)
    } else {
        decimal(n as nat)
    }
}

/// Appends the decimal digits of `n`.
pub fn push_decimal(out: &mut Vec<u8>, n: u64)
    ensures
        final(out)@ == old(out)@ + decimal(n as nat),
    decreases n,
{
    if n >= 10 {
        push_decimal(out, n / 10);
    }
    let ghost before = out@;
    out.push((48 + n % 10) as u8);
    proof {
        if n >= 10 {
            assert(out@ =~= old(out)@ + decimal(n as nat));
        } else {
            assert(out@ =~= old(out)@ + decimal(n as nat));
        }
    }
}

/// The decimal text of an unsigned integer.
pub fn u64_text(n: u64) -> (v: Vec<u8>)
    ensures
        v@ == decimal(n as nat),
{
    let mut v: Vec<u8> = Vec::new();
    push_decimal(&mut v, n);
    assert(v@ =~= decimal(n as nat));
    v
}

/// The decimal text of a signed integer.
pub fn i64_text(n: i64) -> (v: Vec<u8>)
    ensures
        v@ == signed_decimal(n as int),
{
    let mut v: Vec<u8> = Vec::new();
    if n < 0 {
        v.push(45u8);
        let magnitude: u64 = (0i128 - (n as i128)) as u64;
        push_decimal(&mut v, magnitude);
    } else {
        push_decimal(&mut v, n as u64);
    }
    assert(v@ =~= signed_decimal(n as int));
    v
}

/// The general category Cc ("control"): U+0000..=U+001F and U+007F..=U+009F.
pub open spec fn is_control(c: char) -> bool {
    (c as u32) <= 0x1f || (0x7f <= (c as u32) && (c as u32) <= 0x9f)
}

/// Whether `c` is a control character (general category Cc).
pub fn is_control_char(c: char) -> (b: bool)
    ensures
        b == is_control(c),
{
    let v = c as u32;
    v <= 0x1f || (0x7f <= v && v <= 0x9f)
}

/// A lowercase hexadecimal digit.
pub open spec fn hex_digit(d: nat) -> u8 {
    if d < 10 {
        (48 + d) as u8
    } else {
        (97 + d - 10) as u8
    }
}

/// The bytes that stand for one character inside a JSON string: the two-byte
/// escapes for `"`, `\`, newline, carriage return and tab, a `\u00XX` escape
/// (lowercase hex) for the other control characters, and the character's
/// UTF-8 encoding otherwise.
pub open spec fn escape_char(c: char) -> Seq<u8> {
    if c == '"' {
        seq![92u8, 34u8]
    } else if c == '\\' {
        seq![92u8, 92u8]
    } else if c == '\n' {
        seq![92u8, 110u8]
    } else if c == '\r' {
        seq![92u8, 114u8]
    } else if c == '\t' {
        seq![92u8, 116u8]
    } else if is_control(c) {
        seq![92u8, 117u8, 48u8, 48u8, hex_digit(((c as u32) / 16) as nat), hex_digit(((c as u32) % 16) as nat)]
    } else {
        encode_scalar(c as u32)
    }
}

/// The escaped body of a JSON string (without the surrounding quotes).
pub open spec fn escape(s: Seq<char>) -> Seq<u8>
    decreases s.len(),
{
    if s.len() == 0 {
        Seq::empty()
    } else {
        escape(s.drop_last()) + escape_char(s.last())
    }
}

/// A complete JSON string: `"`, the escaped characters, `"`.
pub open spec fn json_string(s: Seq<char>) -> Seq<u8> {
    seq![34u8] + escape(s) + seq![34u8]
}

/// How many bytes a character takes once escaped.
pub open spec fn escaped_char_len(c: char) -> nat {
    if c == '"' || c == '\\' || c == '\n' || c == '\r' || c == '\t' {
        2
    } else if is_control(c) {
        6
    } else if (c as u32) <= 0x7f {
        1
    } else if (c as u32) <= 0x7ff {
        2
    } else if (c as u32) <= 0xffff {
        3
    } else {
        4
    }
}

proof fn lemma_escaped_char_len(c: char)
    ensures
        escape_char(c).len() == escaped_char_len(c),
{
    vstd::utf8::char_is_scalar(c);
}

/// Escaping one more character appends that character's escape.
pub proof fn lemma_escape_push(s: Seq<char>, c: char)
    ensures
        escape(s.push(c)) == escape(s) + escape_char(c),
{
    assert(s.push(c).drop_last() =~= s);
}

/// Appends the UTF-8 encoding of `c`.
fn push_utf8(out: &mut Vec<u8>, c: char)
    ensures
        final(out)@ == old(out)@ + encode_scalar(c as u32),
{
    proof {
        vstd::utf8::char_is_scalar(c);
    }
    let v = c as u32;
    if v <= 0x7f {
        out.push((v & 0x7f) as u8);
    } else if v <= 0x7ff {
        out.push(0xC0u8 | ((v >> 6) & 0x1F) as u8);
        out.push(0x80u8 | (v & 0x3F) as u8);
    } else if v <= 0xffff {
        out.push(0xE0u8 | ((v >> 12) & 0x0F) as u8);
        out.push(0x80u8 | ((v >> 6) & 0x3F) as u8);
        out.push(0x80u8 | (v & 0x3F) as u8);
    } else {
        out.push(0xF0u8 | ((v >> 18) & 0x7) as u8);
        out.push(0x80u8 | ((v >> 12) & 0x3F) as u8);
        out.push(0x80u8 | ((v >> 6) & 0x3F) as u8);
        out.push(0x80u8 | (v & 0x3F) as u8);
    }
    assert(out@ =~= old(out)@ + encode_scalar(c as u32));
}

fn hex_digit_byte(d: u32) -> (b: u8)
    requires
        d < 16,
    ensures
        b == hex_digit(d as nat),
{
    if d < 10 {
        (48 + d) as u8
    } else {
        (97 + d - 10) as u8
    }
}

/// Appends the escape of one character.
fn push_escaped_char(out: &mut Vec<u8>, c: char)
    ensures
        final(out)@ == old(out)@ + escape_char(c),
{
    if c == '"' {
        out.push(92u8);
        out.push(34u8);
    } else if c == '\\' {
        out.push(92u8);
        out.push(92u8);
    } else if c == '\n' {
        out.push(92u8);
        out.push(110u8);
    } else if c == '\r' {
        out.push(92u8);
        out.push(114u8);
    } else if c == '\t' {
        out.push(92u8);
        out.push(116u8);
    } else if is_control_char(c) {
        let v = c as u32;
        out.push(92u8);
        out.push(117u8);
        out.push(48u8);
        out.push(48u8);
        out.push(hex_digit_byte(v / 16));
        out.push(hex_digit_byte(v % 16));
    } else {
        push_utf8(out, c);
    }
    assert(out@ =~= old(out)@ + escape_char(c));
}

/// Appends the escaped body of `s` (no quotes).
pub fn push_escaped(out: &mut Vec<u8>, s: &str)
    ensures
        final(out)@ == old(out)@ + escape(s@),
{
    broadcast use vstd::string::axiom_spec_iter, vstd::string::next_postcondition;

    let mut it = s.chars();
    let ghost mut i: int = 0;
    assert(s@.take(0) =~= Seq::<char>::empty());
    assert(old(out)@ + escape(s@.take(0)) =~= old(out)@);
    loop
        invariant
            0 <= i <= s@.len(),
            it.obeys_prophetic_iter_laws(),
            it.remaining() == s@.skip(i),
            out@ == old(out)@ + escape(s@.take(i)),
        ensures
            out@ == old(out)@ + escape(s@),
        decreases s@.len() - i,
    {
        match it.next() {
            Some(c) => {
                proof {
                    assert(s@.skip(i)[0] == s@[i]);
                    assert(s@.skip(i + 1) =~= s@.skip(i).drop_first());
                    assert(s@.take(i + 1) =~= s@.take(i).push(c));
                    lemma_escape_push(s@.take(i), c);
                }
                push_escaped_char(out, c);
                proof {
                    assert(out@ =~= old(out)@ + escape(s@.take(i + 1)));
                    i = i + 1;
                }
            },
            None => {
                assert(s@.skip(i).len() == 0);
                assert(s@.take(i) =~= s@);
                break;
            },
        }
    }
}

/// The escaped body of `s`, as bytes.
pub fn escape_string(s: &str) -> (v: Vec<u8>)
    ensures
        v@ == escape(s@),
{
    let mut v: Vec<u8> = Vec::new();
    push_escaped(&mut v, s);
    assert(v@ =~= escape(s@));
    v
}

/// `"`, the escaped body of `s`, `"`.
pub fn quote_string(s: &str) -> (v: Vec<u8>)
    ensures
        v@ == json_string(s@),
{
    let mut v: Vec<u8> = Vec::new();
    v.push(34u8);
    push_escaped(&mut v, s);
    v.push(34u8);
    assert(v@ =~= json_string(s@));
    v
}

fn escaped_char_size(c: char) -> (n: usize)
    ensures
        n == escape_char(c).len(),
{
    proof {
        lemma_escaped_char_len(c);
    }
    if c == '"' || c == '\\' || c == '\n' || c == '\r' || c == '\t' {
        2
    } else if is_control_char(c) {
        6
    } else {
        let v = c as u32;
        if v <= 0x7f {
            1
        } else if v <= 0x7ff {
            2
        } else if v <= 0xffff {
            3
        } else {
            4
        }
    }
}

/// The number of bytes that escaping `s` produces, or `None` where that number
/// does not fit in a `usize`.
pub fn escaped_string_size(s: &str) -> (n: Option<usize>)
    ensures
        n == (if escape(s@).len() <= usize::MAX {
            Some(escape(s@).len() as usize)
        } else {
            None::<usize>
        }),
{
    broadcast use vstd::string::axiom_spec_iter, vstd::string::next_postcondition;

    let mut it = s.chars();
    let ghost mut i: int = 0;
    let mut total: usize = 0;
    assert(s@.take(0) =~= Seq::<char>::empty());
    loop
        invariant
            0 <= i <= s@.len(),
            it.obeys_prophetic_iter_laws(),
            it.remaining() == s@.skip(i),
            total == escape(s@.take(i)).len(),
        ensures
            total == escape(s@).len(),
        decreases s@.len() - i,
    {
        match it.next() {
            Some(c) => {
                proof {
                    assert(s@.skip(i)[0] == s@[i]);
                    assert(s@.skip(i + 1) =~= s@.skip(i).drop_first());
                    assert(s@.take(i + 1) =~= s@.take(i).push(c));
                    lemma_escape_push(s@.take(i), c);
                    lemma_escape_prefix_len(s@, i + 1);
                }
                let k = escaped_char_size(c);
                if total > usize::MAX - k {
                    return None;
                }
                total = total + k;
                proof {
                    i = i + 1;
                }
            },
            None => {
                assert(s@.skip(i).len() == 0);
                assert(s@.take(i) =~= s@);
                break;
            },
        }
    }
    Some(total)
}

/// Law: escaping works character by character, so the escape of two pieces
/// joined is the two escapes joined.
pub proof fn law_escape_concat(a: Seq<char>, b: Seq<char>)
    ensures
        escape(a + b) == escape(a) + escape(b),
    decreases b.len(),
{
    if b.len() == 0 {
        assert(a + b =~= a);
        assert(escape(a) + escape(b) =~= escape(a));
    } else {
        let c = b.last();
        law_escape_concat(a, b.drop_last());
        assert((a + b).drop_last() =~= a + b.drop_last());
        assert((a + b).last() == c);
        assert(escape(a + b) =~= escape(a) + escape(b));
    }
}

/// The first scalar of a UTF-8 encoding followed by any bytes is the encoded
/// character, and it takes the encoding's length.
proof fn lemma_first_scalar_of_prefix(c: char, rest: Seq<u8>)
    ensures
        decode_first_scalar(encode_scalar(c as u32) + rest) == c as u32,
        length_of_first_scalar(encode_scalar(c as u32) + rest) == encode_scalar(c as u32).len(),
        encode_scalar(c as u32).len() >= 1,
{
    let cs = seq![c];
    encode_utf8_first_scalar(cs);
    assert(encode_utf8(cs.drop_first()) =~= Seq::<u8>::empty());
    assert(encode_utf8(cs) =~= encode_scalar(c as u32));
    let e = encode_scalar(c as u32);
    let x = e + rest;
    assert(e.len() >= 1);
    assert(forall|i: int| 0 <= i < e.len() ==> x[i] == e[i]);
}

/// A character's escaped form starts with a backslash exactly when the
/// character is escaped with one.
proof fn lemma_escape_char_first_byte(c: char)
    ensures
        escape_char(c).len() >= 1,
        (escape_char(c)[0] == 92u8) == (c == '"' || c == '\\' || c == '\n' || c == '\r' || c == '\t'
            || is_control(c)),
{
    if !(c == '"' || c == '\\' || c == '\n' || c == '\r' || c == '\t' || is_control(c)) {
        vstd::utf8::char_is_scalar(c);
        lemma_first_scalar_of_prefix(c, Seq::empty());
        let e = encode_scalar(c as u32);
        assert(e + Seq::<u8>::empty() =~= e);
        if (c as u32) <= 0x7f {
            let u = c as u32;
            assert(vstd::utf8::has_width_1_encoding(u));
            assert(u <= 0x7f ==> ((u & 0x7f) as u8) as u32 == u) by (bit_vector);
            assert(e[0] as u32 == u);
            assert((c as u32) != 92) by {
                if (c as u32) == 92 {
                    vstd::utf8::char_u32_cast(c, 92u32);
                }
            }
        } else {
            assert(length_of_first_scalar(e) >= 2);
            assert(!is_leading_byte_width_1(e[0]));
        }
    }
}

/// No character's escaped form is the front of another's followed by more:
/// the escaped forms are read off unambiguously from the left.
proof fn lemma_escape_char_prefix_free(c: char, d: char, r1: Seq<u8>, r2: Seq<u8>)
    requires
        escape_char(c) + r1 == escape_char(d) + r2,
    ensures
        c == d,
        r1 == r2,
{
    let x = escape_char(c) + r1;
    lemma_escape_char_first_byte(c);
    lemma_escape_char_first_byte(d);
    assert(x[0] == escape_char(c)[0]);
    assert(x[0] == escape_char(d)[0]);
    vstd::utf8::char_is_scalar(c);
    vstd::utf8::char_is_scalar(d);
    if escape_char(c)[0] == 92u8 {
        assert(x[1] == escape_char(c)[1]);
        assert(x[1] == escape_char(d)[1]);
        if is_control(c) && !(c == '\n' || c == '\r' || c == '\t') && !(c == '"' || c == '\\') {
            assert(is_control(d) && !(d == '\n' || d == '\r' || d == '\t' || d == '"' || d == '\\'));
            let cu = c as u32;
            let du = d as u32;
            assert(x[4] == escape_char(c)[4] && x[4] == escape_char(d)[4]);
            assert(x[5] == escape_char(c)[5] && x[5] == escape_char(d)[5]);
            assert(cu / 16 == du / 16);
            assert(cu % 16 == du % 16);
            assert(cu == du);
            vstd::utf8::char_u32_cast(c, cu);
            vstd::utf8::char_u32_cast(d, du);
        } else {
            assert(c == d) by {
                if c == '"' || c == '\\' || c == '\n' || c == '\r' || c == '\t' {
                    assert(d == '"' || d == '\\' || d == '\n' || d == '\r' || d == '\t');
                }
            }
        }
    } else {
        lemma_first_scalar_of_prefix(c, r1);
        lemma_first_scalar_of_prefix(d, r2);
        assert(c as u32 == d as u32);
        vstd::utf8::char_u32_cast(c, c as u32);
        vstd::utf8::char_u32_cast(d, c as u32);
    }
    assert(r1 =~= x.skip(escape_char(c).len() as int));
    assert(r2 =~= x.skip(escape_char(d).len() as int));
}

/// Law: escaping loses nothing; two strings with the same escaped text are
/// the same string.
pub proof fn law_escape_injective(a: Seq<char>, b: Seq<char>)
    requires
        escape(a) == escape(b),
    ensures
        a == b,
    decreases a.len(),
{
    if a.len() == 0 || b.len() == 0 {
        if a.len() > 0 {
            lemma_escape_char_first_byte(a.last());
            assert(escape(a).len() > 0);
        }
        if b.len() > 0 {
            lemma_escape_char_first_byte(b.last());
            assert(escape(b).len() > 0);
        }
        assert(a =~= b);
    } else {
        lemma_escape_first(a);
        lemma_escape_first(b);
        lemma_escape_char_prefix_free(a[0], b[0], escape(a.skip(1)), escape(b.skip(1)));
        law_escape_injective(a.skip(1), b.skip(1));
        assert(a =~= seq![a[0]] + a.skip(1));
        assert(b =~= seq![b[0]] + b.skip(1));
    }
}

/// Law: quoting keeps distinct strings distinct; two strings with the same
/// JSON string text are the same string.
pub proof fn law_json_string_injective(a: Seq<char>, b: Seq<char>)
    requires
        json_string(a) == json_string(b),
    ensures
        a == b,
{
    let ja = json_string(a);
    assert(ja.subrange(1, ja.len() - 1) =~= escape(a));
    assert(json_string(b).subrange(1, json_string(b).len() - 1) =~= escape(b));
    law_escape_injective(a, b);
}

/// Escaping reads a string from its first character.
proof fn lemma_escape_first(s: Seq<char>)
    requires
        s.len() > 0,
    ensures
        escape(s) == escape_char(s[0]) + escape(s.skip(1)),
{
    let one = seq![s[0]];
    law_escape_concat(one, s.skip(1));
    assert(one + s.skip(1) =~= s);
    assert(one.drop_last() =~= Seq::<char>::empty());
    assert(one.last() == s[0]);
    assert(escape(one) =~= escape_char(s[0])) by {
        reveal_with_fuel(escape, 2);
    }
}

proof fn lemma_escape_char_printable(c: char)
    ensures
        forall|i: int| 0 <= i < escape_char(c).len() ==> #[trigger] escape_char(c)[i] >= 0x20,
{
    vstd::utf8::char_is_scalar(c);
    let u = c as u32;
    if c == '"' || c == '\\' || c == '\n' || c == '\r' || c == '\t' {
    } else if is_control(c) {
        assert(hex_digit((u / 16) as nat) >= 0x30);
        assert(hex_digit((u % 16) as nat) >= 0x30);
    } else if vstd::utf8::has_width_1_encoding(u) {
        assert(u >= 0x20);
        assert((u & 0x7F) as u8 == u) by (bit_vector)
            requires
                u <= 0x7F,
        ;
    } else {
        assert(0x80 <= (0x80u8 | ((u >> 6) & 0x3F) as u8)) by (bit_vector);
        assert(0x80 <= (0x80u8 | ((u >> 12) & 0x3F) as u8)) by (bit_vector);
        assert(0x80 <= (0x80u8 | (u & 0x3F) as u8)) by (bit_vector);
        assert(0x80 <= (0xC0u8 | ((u >> 6) & 0x1F) as u8)) by (bit_vector);
        assert(0x80 <= (0xE0u8 | ((u >> 12) & 0x0F) as u8)) by (bit_vector);
        assert(0x80 <= (0xF0u8 | ((u >> 18) & 0x7) as u8)) by (bit_vector);
    }
}

/// Law: an escaped string holds no raw control byte (nothing below 0x20), as
/// the JSON grammar asks of string contents.
pub proof fn law_escape_has_no_control_bytes(s: Seq<char>)
    ensures
        forall|i: int| 0 <= i < escape(s).len() ==> #[trigger] escape(s)[i] >= 0x20,
    decreases s.len(),
{
    if s.len() > 0 {
        law_escape_has_no_control_bytes(s.drop_last());
        lemma_escape_char_printable(s.last());
        let front = escape(s.drop_last());
        let back = escape_char(s.last());
        assert forall|i: int| 0 <= i < escape(s).len() implies #[trigger] escape(s)[i] >= 0x20 by {
            if i < front.len() {
                assert(escape(s)[i] == front[i]);
            } else {
                assert(escape(s)[i] == back[i - front.len()]);
            }
        }
    }
}

/// The number that a run of ASCII decimal digits stands for.
pub open spec fn digits_value(digits: Seq<u8>) -> int
    decreases digits.len(),
{
    if digits.len() == 0 {
        0
    } else {
        digits_value(digits.drop_last()) * 10 + (digits.last() - 48)
    }
}

/// Law: the decimal text of a number reads back as that number, is made of
/// the digits `0`-`9` only, and starts with `0` only when it is `0`.
pub proof fn law_decimal_reads_back(n: nat)
    ensures
        digits_value(decimal(n)) == n,
        forall|i: int| 0 <= i < decimal(n).len() ==> 48 <= #[trigger] decimal(n)[i] <= 57,
        decimal(n).len() > 0,
        decimal(n)[0] == 48 ==> n == 0,
    decreases n,
{
    if n >= 10 {
        law_decimal_reads_back(n / 10);
        let d = decimal(n / 10);
        assert(decimal(n) == d.push((48 + n % 10) as u8));
        assert(decimal(n).drop_last() =~= d);
        assert(decimal(n).last() == 48 + n % 10);
        assert(digits_value(decimal(n)) == digits_value(d) * 10 + (n % 10));
        assert((n / 10) * 10 + n % 10 == n);
        assert forall|i: int| 0 <= i < decimal(n).len() implies 48 <= #[trigger] decimal(n)[i] <= 57 by {
            if i < d.len() {
                assert(decimal(n)[i] == d[i]);
            }
        }
        assert(decimal(n)[0] == d[0]);
    } else {
        assert(decimal(n).drop_last() =~= Seq::<u8>::empty());
        assert(digits_value(decimal(n)) == digits_value(Seq::<u8>::empty()) * 10 + (n as int));
    }
}

/// A prefix escapes to no more bytes than the whole.
pub proof fn lemma_escape_prefix_len(s: Seq<char>, k: int)
    requires
        0 <= k <= s.len(),
    ensures
        escape(s.take(k)).len() <= escape(s).len(),
    decreases s.len() - k,
{
    if k < s.len() {
        lemma_escape_prefix_len(s, k + 1);
        assert(s.take(k + 1) =~= s.take(k).push(s[k]));
        lemma_escape_push(s.take(k), s[k]);
    } else {
        assert(s.take(k) =~= s);
    }
}

/// The characters of ASCII bytes.
pub open spec fn ascii_chars(bytes: Seq<u8>) -> Seq<char> {
    bytes.map_values(|b: u8| b as char)
}

/// Calls `String::from_utf8` on bytes that are all ASCII, which are valid
/// UTF-8: each byte becomes the character with that code.
#[verifier::external_body]
pub(crate) fn string_from_ascii(bytes: Vec<u8>) -> (s: String)
    requires
        forall|i: int| 0 <= i < bytes@.len() ==> #[trigger] bytes@[i] < 128,
    ensures
        s@ == ascii_chars(bytes@),
{
    match String::from_utf8(bytes) {
        Ok(s) => s,
        Err(_) => String::new(),
    }
}

/// Law: the text of a signed number starts with `-` exactly when the number
/// is negative, and the digits that follow read back as its magnitude.
pub proof fn law_signed_decimal_reads_back(n: int)
    ensures
        signed_decimal(n).len() > 0,
        (signed_decimal(n)[0] == 45u8) == (n < 0),
        n < 0 ==> digits_value(signed_decimal(n).skip(1)) == -n,
        n >= 0 ==> digits_value(signed_decimal(n)) == n,
{
    if n < 0 {
        law_decimal_reads_back((-n) as nat);
        assert(signed_decimal(n).skip(1) =~= decimal((-n) as nat));
    } else {
        law_decimal_reads_back(n as nat);
    }
}

/// The value of a hexadecimal digit byte (`0`-`9`, `a`-`f`, `A`-`F`).
pub open spec fn hex_value(b: u8) -> Option<nat> {
    if 48 <= b <= 57 {
        Some((b - 48) as nat)
    } else if 97 <= b <= 102 {
        Some((b - 87) as nat)
    } else if 65 <= b <= 70 {
        Some((b - 55) as nat)
    } else {
        None
    }
}

/// How JSON reads one character of a string's body: a backslash with `"`,
/// `\`, `n`, `r` or `t`; a backslash, `u` and four hex digits giving the
/// character's code; or the UTF-8 encoding of one character that needs no
/// escape (not `"`, not `\`, not below 0x20). `None` where the bytes are not
/// exactly one such character.
pub open spec fn json_read_char(bytes: Seq<u8>) -> Option<char> {
    if bytes.len() >= 2 && bytes[0] == 92u8 {
        if bytes.len() == 2 && bytes[1] == 34u8 {
            Some('"')
        } else if bytes.len() == 2 && bytes[1] == 92u8 {
            Some('\\')
        } else if bytes.len() == 2 && bytes[1] == 110u8 {
            Some('\n')
        } else if bytes.len() == 2 && bytes[1] == 114u8 {
            Some('\r')
        } else if bytes.len() == 2 && bytes[1] == 116u8 {
            Some('\t')
        } else if bytes.len() == 6 && bytes[1] == 117u8 && hex_value(bytes[2]) is Some && hex_value(
            bytes[3],
        ) is Some && hex_value(bytes[4]) is Some && hex_value(bytes[5]) is Some {
            let v = hex_value(bytes[2])->0 * 4096 + hex_value(bytes[3])->0 * 256 + hex_value(bytes[4])->0
                * 16 + hex_value(bytes[5])->0;
            if vstd::utf8::is_scalar(v as u32) && v < 0x10000 {
                Some((v as u32) as char)
            } else {
                None
            }
        } else {
            None
        }
    } else if bytes.len() > 0 && vstd::utf8::valid_first_scalar(bytes) && length_of_first_scalar(bytes)
        == bytes.len() && decode_first_scalar(bytes) >= 0x20 && decode_first_scalar(bytes) != 34
        && decode_first_scalar(bytes) != 92 {
        Some((decode_first_scalar(bytes)) as char)
    } else {
        None
    }
}

proof fn lemma_hex_digit_value(d: nat)
    requires
        d < 16,
    ensures
        hex_value(hex_digit(d)) == Some(d),
{
}

/// Law: every character's escaped form reads back, under JSON's rules for
/// the body of a string, as that character.
pub proof fn law_escape_char_reads_back(c: char)
    ensures
        json_read_char(escape_char(c)) == Some(c),
{
    vstd::utf8::char_is_scalar(c);
    let u = c as u32;
    if c == '"' || c == '\\' || c == '\n' || c == '\r' || c == '\t' {
    } else if is_control(c) {
        let e = escape_char(c);
        lemma_hex_digit_value((u / 16) as nat);
        lemma_hex_digit_value((u % 16) as nat);
        assert(hex_value(e[2]) == Some(0nat));
        assert(hex_value(e[3]) == Some(0nat));
        let v = 0nat * 4096 + 0nat * 256 + ((u / 16) as nat) * 16 + (u % 16) as nat;
        assert(v == u);
        vstd::utf8::char_u32_cast(c, u);
    } else {
        let e = escape_char(c);
        lemma_first_scalar_of_prefix(c, Seq::empty());
        assert(e + Seq::<u8>::empty() =~= e);
        let cs = seq![c];
        encode_utf8_first_scalar(cs);
        assert(encode_utf8(cs.drop_first()) =~= Seq::<u8>::empty());
        assert(encode_utf8(cs) =~= e);
        lemma_escape_char_first_byte(c);
        assert(e[0] != 92u8);
        vstd::utf8::char_u32_cast(c, u);
    }
}

} // verus!

use stream_json::serializers::{I64Serializer, VecSerializer};
use stream_json::derived::basic::{Person, Point};
use stream_json::derived::edge_cases::WithSkipSerializeIf;
use stream_json::plaintext::PlainText;
use stream_json::serde::{IntoSerializer, IntoStreamSerializer, Token, TokenSerializer};
use stream_json::std_impl::{
    DynArraySerializer, DynObjectSerializer, OptionSerializer, StringSerializer, U64Serializer,
    quoted_size,
};
use stream_json::text::{escape_string, escaped_string_size, i64_text, quote_string, u64_text};
use stream_json::CHUNK_SIZE;
use bytes::Bytes;
use stream_json::error::Error;
use stream_json::serde::{Poll, Serializer};

/// A task context whose waker does nothing.
fn cx() -> std::task::Context<'static> {
    std::task::Context::from_waker(std::task::Waker::noop())
}

fn poll_next<S: Serializer>(ser: &mut S) -> Option<Result<Bytes, Error>> {
    match ser.poll(&mut cx()) {
        Poll::Ready(v) => v,
        Poll::Pending => panic!("poll returned Pending"),
    }
}

fn collect_bytes<S: Serializer>(mut ser: S) -> Vec<u8> {
    let mut result = Vec::new();
    while let Some(Ok(bytes)) = poll_next(&mut ser) {
        result.extend_from_slice(&bytes);
    }
    result
}

fn size_and_output<T: IntoSerializer>(value: T, copy: T) -> (Option<usize>, Vec<u8>) {
    (value.size(), collect_bytes(copy.into_serializer()))
}

#[test]
fn chunks_of_a_long_string_join_to_its_text() {
    let text: String = "ab\"c\n".repeat(CHUNK_SIZE / 2);
    let mut ser = StringSerializer::new(text.clone());
    let mut joined = Vec::new();
    let mut chunks = 0;
    while let Some(r) = poll_next(&mut ser) {
        let b = r.unwrap();
        assert!(b.len() <= CHUNK_SIZE + 2);
        joined.extend_from_slice(&b);
        chunks += 1;
    }
    assert!(chunks >= 2);
    assert_eq!(joined, quote_string(&text));
    assert!(poll_next(&mut ser).is_none());
}

#[test]
fn size_matches_output_for_many_values() {
    let (s, out) = size_and_output("h\u{e9}llo\u{1}".to_string(), "h\u{e9}llo\u{1}".to_string());
    assert_eq!(s, Some(out.len()));
    let (s, out) = size_and_output(vec![Some(1i64), None, Some(-3)], vec![Some(1i64), None, Some(-3)]);
    assert_eq!(s, Some(out.len()));
    assert_eq!(&out[..], b"[1,null,-3]");
    let p = || Person { name: "Zo\u{eb}".to_string(), age: -7 };
    let (s, out) = size_and_output(p(), p());
    assert_eq!(s, Some(out.len()));
    assert_eq!(out, "{\"name\":\"Zo\u{eb}\",\"age\":-7}".as_bytes());
    let (s, out) = size_and_output(Point(i32::MIN, i32::MAX), Point(i32::MIN, i32::MAX));
    assert_eq!(s, Some(out.len()));
    assert_eq!(&out[..], b"[-2147483648,2147483647]");
    let (s, out) = size_and_output(Box::new(u64::MAX), Box::new(u64::MAX));
    assert_eq!(s, Some(out.len()));
    assert_eq!(&out[..], b"18446744073709551615");
}

#[test]
fn stream_stays_finished() {
    let mut st = IntoStreamSerializer::new(U64Serializer::new(7));
    match st.poll_next(&mut cx()) {
        Poll::Ready(Some(Ok(b))) => assert_eq!(&b[..], b"7"),
        other => panic!("unexpected {:?}", other),
    }
    assert!(matches!(st.poll_next(&mut cx()), Poll::Ready(None)));
    assert!(matches!(st.poll_next(&mut cx()), Poll::Ready(None)));
    assert!(matches!(st.poll_next(&mut cx()), Poll::Ready(None)));
}

#[test]
fn into_stream_yields_the_text() {
    let mut st = true.into_stream();
    let mut out = Vec::new();
    while let Poll::Ready(Some(r)) = st.poll_next(&mut cx()) {
        out.extend_from_slice(&r.unwrap());
    }
    assert_eq!(&out[..], b"true");
}

#[test]
fn escaping_pieces_equals_escaping_the_whole() {
    let a = "tab\there \"q\"";
    let b = "\\ and \u{7f} and \u{65e5}\u{672c}";
    let mut joined = escape_string(a);
    joined.extend_from_slice(&escape_string(b));
    assert_eq!(joined, escape_string(&format!("{}{}", a, b)));
}

#[test]
fn escaped_text_has_no_control_bytes() {
    let all: String = (0u32..0xa0).filter_map(char::from_u32).collect();
    let escaped = escape_string(&all);
    assert!(escaped.iter().all(|b| *b >= 0x20));
    assert_eq!(escaped_string_size(&all), Some(escaped.len()));
}

#[test]
fn escape_exact_values() {
    assert_eq!(escape_string("\u{1}"), b"\\u0001".to_vec());
    assert_eq!(escape_string("\u{1f}"), b"\\u001f".to_vec());
    assert_eq!(escape_string("\u{7f}"), b"\\u007f".to_vec());
    assert_eq!(escape_string("\u{9f}"), b"\\u009f".to_vec());
    assert_eq!(escape_string("\"\\\n\r\t"), b"\\\"\\\\\\n\\r\\t".to_vec());
    assert_eq!(escape_string("/\u{e9}"), "/\u{e9}".as_bytes().to_vec());
    assert_eq!(quote_string("a"), b"\"a\"".to_vec());
    assert_eq!(quoted_size("\u{1}"), Some(8));
}

#[test]
fn decimal_text_reads_back() {
    for n in [0u64, 1, 9, 10, 99, 100, 12345, u64::MAX] {
        let t = u64_text(n);
        assert_eq!(String::from_utf8(t).unwrap().parse::<u64>().unwrap(), n);
    }
    for n in [0i64, -1, 42, i64::MIN, i64::MAX] {
        let t = i64_text(n);
        assert_eq!(String::from_utf8(t).unwrap().parse::<i64>().unwrap(), n);
    }
    assert_eq!(u64_text(0), b"0".to_vec());
    assert_eq!(i64_text(i64::MIN), b"-9223372036854775808".to_vec());
}

#[test]
fn token_sizes_match_output() {
    let tokens = [
        Token::StartObject,
        Token::Key("k\"ey"),
        Token::StartArray,
        Token::Null,
        Token::Comma,
        Token::Bool(false),
        Token::Comma,
        Token::U64(10),
        Token::Comma,
        Token::I64(-10),
        Token::Comma,
        Token::F64("1.5"),
        Token::Comma,
        Token::String("s\n"),
        Token::EndArray,
        Token::Colon,
        Token::EndObject,
    ];
    let size = (&tokens[..]).size();
    let out = collect_bytes(TokenSerializer::new(&tokens));
    assert_eq!(size, Some(out.len()));
    assert_eq!(&out[..], b"{\"k\\\"ey\":[null,false,10,-10,1.5,\"s\\n\"]:}");
}

#[test]
fn skipped_field_leaves_no_member() {
    let v = WithSkipSerializeIf { name: "a".to_string(), nickname: String::new(), age: 1 };
    assert_eq!(v.size(), Some(20));
    let v = WithSkipSerializeIf { name: "a".to_string(), nickname: String::new(), age: 1 };
    assert_eq!(&collect_bytes(v.into_serializer())[..], b"{\"name\":\"a\",\"age\":1}");
}

#[test]
fn option_serializer_none_is_null() {
    let s: OptionSerializer<i64> = OptionSerializer::new(None);
    assert_eq!(&collect_bytes(s)[..], b"null");
}

#[test]
fn dyn_array_and_object_serializers() {
    let items: Vec<Box<dyn Serializer>> = vec![Box::new(U64Serializer::new(1)), Box::new(StringSerializer::new("x".to_string()))];
    assert_eq!(&collect_bytes(DynArraySerializer::new(items))[..], b"[1,\"x\"]");
    assert_eq!(&collect_bytes(DynArraySerializer::new(Vec::new()))[..], b"[]");
    let fields: Vec<(Bytes, Box<dyn Serializer>)> = vec![
        (Bytes::from_static(b"\"a\":"), Box::new(U64Serializer::new(1))),
        (Bytes::from_static(b"\"b\":"), Box::new(U64Serializer::new(2))),
    ];
    assert_eq!(&collect_bytes(DynObjectSerializer::new(fields))[..], b"{\"a\":1,\"b\":2}");
    assert_eq!(&collect_bytes(DynObjectSerializer::new(Vec::new()))[..], b"{}");
}

#[test]
fn plaintext_replaces_invalid_bytes() {
    let pt = PlainText::new(b"a\xffb".to_vec());
    assert_eq!(pt.size(), Some(7));
    let pt = PlainText::new(b"a\xffb".to_vec());
    assert_eq!(collect_bytes(pt.into_serializer()), "\"a\u{fffd}b\"".as_bytes());
}

#[test]
fn error_messages() {
    let e = Error::Serialization("bad".to_string());
    assert_eq!(e.to_string(), "serialization error: bad");
    let e = Error::Io(std::io::Error::new(std::io::ErrorKind::Other, "disk"));
    assert_eq!(e.to_string(), "io error: disk");
}

#[test]
fn integer_widths_use_their_decimal_text() {
    assert_eq!(&collect_bytes((-128i8).into_serializer())[..], b"-128");
    assert_eq!(&collect_bytes(65535u16.into_serializer())[..], b"65535");
    assert_eq!((-128i8).size(), Some(4));
    assert_eq!(255u8.size(), Some(3));
    assert_eq!(u32::MAX.size(), Some(10));
    assert_eq!(i32::MIN.size(), Some(11));
}

#[test]
fn quick_start_examples() {
    let _s: I64Serializer = 42i64.into_serializer();
    let _s: StringSerializer = "hello".to_string().into_serializer();
    let _s: VecSerializer<i32> = vec![1, 2, 3].into_serializer();
    assert_eq!("hello".size(), Some(7));
    assert_eq!((42i64).size(), Some(2));
    let mut st: stream_json::StreamSerializer<I64Serializer> =
        stream_json::StreamSerializer::new(42i64.into_serializer());
    assert!(matches!(st.poll_next(&mut cx()), Poll::Ready(Some(Ok(_)))));
    assert!(matches!(st.poll_next(&mut cx()), Poll::Ready(None)));
}

#[test]
fn vec_hands_out_brackets_items_and_commas_in_turn() {
    let mut ser = vec![1i64, 2, 3].into_serializer();
    let mut chunks: Vec<Vec<u8>> = Vec::new();
    while let Some(r) = poll_next(&mut ser) {
        chunks.push(r.unwrap().to_vec());
    }
    let expected: Vec<&[u8]> = vec![b"[", b"1", b",", b"2", b",", b"3", b"]"];
    assert_eq!(chunks, expected);
    assert!(poll_next(&mut ser).is_none());
}

#[test]
fn token_poll_hands_out_one_token_at_a_time_and_passes_over_empty_text() {
    let tokens = [Token::StartArray, Token::F64(""), Token::U64(5), Token::EndArray];
    let mut ser = TokenSerializer::new(&tokens);
    let mut chunks: Vec<Vec<u8>> = Vec::new();
    while let Some(r) = poll_next(&mut ser) {
        chunks.push(r.unwrap().to_vec());
    }
    let expected: Vec<&[u8]> = vec![b"[", b"5", b"]"];
    assert_eq!(chunks, expected);
}

#[test]
fn object_passes_over_an_empty_key_chunk() {
    let fields: Vec<(Bytes, Box<dyn Serializer>)> = vec![
        (Bytes::new(), Box::new(U64Serializer::new(1))),
    ];
    let mut ser = DynObjectSerializer::new(fields);
    let mut chunks: Vec<Vec<u8>> = Vec::new();
    while let Some(r) = poll_next(&mut ser) {
        let c = r.unwrap().to_vec();
        assert!(!c.is_empty());
        chunks.push(c);
    }
    let expected: Vec<&[u8]> = vec![b"{", b"1", b"}"];
    assert_eq!(chunks, expected);
}

#[test]
fn option_after_inner_end_stays_finished() {
    let mut ser = Some(3i64).into_serializer();
    assert_eq!(&poll_next(&mut ser).unwrap().unwrap()[..], b"3");
    assert!(poll_next(&mut ser).is_none());
    assert!(poll_next(&mut ser).is_none());
}

#[test]
fn escaping_keeps_distinct_strings_distinct() {
    let samples = [
        "", "a", "\\", "\"", "\n", "\\n", "n", "\u{1}", "\\u0001", "\u{7f}", "é", "\u{e9}x",
        "a\"b", "a\\b", "\t\t", "\\t",
    ];
    for (i, a) in samples.iter().enumerate() {
        for (j, b) in samples.iter().enumerate() {
            if i != j {
                assert_ne!(escape_string(a), escape_string(b), "{:?} and {:?}", a, b);
            }
        }
    }
}

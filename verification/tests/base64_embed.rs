use stream_json::base64_embed::{base64_len, size_mismatch, Base64EmbedFile, Base64EmbedURL};
use stream_json::derived::members::{object, push_member};
use base64::Engine;
use stream_json::serde::IntoSerializer;
use bytes::Bytes;
use stream_json::error::Error;
use stream_json::serde::{Poll, Serializer};

/// A task context whose waker does nothing.
fn cx() -> std::task::Context<'static> {
    std::task::Context::from_waker(std::task::Waker::noop())
}

fn poll_next<S: Serializer>(ser: &mut S) -> Option<Result<Bytes, Error>> {
    match ser.poll(&mut cx()) {
        Poll::Ready(v) => v,
        Poll::Pending => panic!("poll returned Pending"),
    }
}

fn collect_bytes<S: Serializer>(mut ser: S) -> Vec<u8> {
    let mut result = Vec::new();
    while let Some(Ok(bytes)) = poll_next(&mut ser) {
        result.extend_from_slice(&bytes);
    }
    result
}

fn collect_bytes_with_errors<S: Serializer>(ser: &mut S) -> (Vec<u8>, Option<Error>) {
    let mut result = Vec::new();
    let mut err = None;
    while let Some(r) = poll_next(ser) {
        match r {
            Ok(bytes) => result.extend_from_slice(&bytes),
            Err(e) => {
                err = Some(e);
                break;
            }
        }
    }
    (result, err)
}

fn png_header() -> Vec<u8> {
    vec![
        0x89, 0x50, 0x4E, 0x47, 0x0D, 0x0A, 0x1A, 0x0A, 0x00, 0x00, 0x00, 0x0D, 0x49, 0x48, 0x44,
        0x52,
    ]
}

#[test]
fn test_openai_vision_request_with_base64_image() {
    let image_data = Base64EmbedURL::new(png_header(), 16, "image/png".to_string()).unwrap();
    let mut fields = Vec::new();
    push_member(&mut fields, "model", "gpt-4o".to_string());
    push_member(&mut fields, "image_data", image_data);
    let bytes = collect_bytes(object(fields));
    let output_str = String::from_utf8(bytes).unwrap();

    assert!(output_str.starts_with(r#"{"model":"gpt-4o","image_data":"#));
    assert!(output_str.contains(r#""data:image/png;base64,"#));
    assert!(output_str.ends_with(r#""}"#));
}

#[test]
fn test_base64_embed_url_size_matches_actual() {
    let data = png_header();
    let actual_size = data.len();
    let embed = Base64EmbedURL::new(data, actual_size, "image/png".to_string()).unwrap();
    let size = embed.size();

    let ser = embed.into_serializer();
    let bytes = collect_bytes(ser);
    let streamed_size = bytes.len();

    assert_eq!(
        size,
        Some(streamed_size),
        "size() should match actual streamed bytes for Base64EmbedURL"
    );
}

#[test]
fn test_base64_embed_url_serializes_as_quoted_json_string() {
    let embed = Base64EmbedURL::new(png_header(), 16, "image/png".to_string()).unwrap();
    let bytes = collect_bytes(embed.into_serializer());
    let output_str = String::from_utf8(bytes).unwrap();

    assert!(output_str.starts_with('"'));
    assert!(output_str.ends_with('"'));
    assert!(output_str.contains("data:image/png;base64,"));
}

#[test]
fn test_base64_early_eof_error_detected() {
    let data = vec![0x89, 0x50, 0x4E, 0x47];
    let mut ser = Base64EmbedURL::new(data, 16, "image/png".to_string()).unwrap();

    let (_result, err) = collect_bytes_with_errors(&mut ser);

    assert!(err.is_some(), "Expected error for early EOF but got none");
    let err_msg = err.unwrap().to_string();
    assert!(err_msg.contains("size mismatch"));
    assert!(err_msg.contains("expected 16"));
}

#[test]
fn test_base64_file_early_eof_error_detected() {
    let data = vec![0x89, 0x50, 0x4E, 0x47];
    let mut ser = Base64EmbedFile::new(data, 16).unwrap();

    let (_result, err) = collect_bytes_with_errors(&mut ser);

    assert!(err.is_some(), "Expected error for early EOF but got none");
    let err_msg = err.unwrap().to_string();
    assert!(err_msg.contains("size mismatch"));
}

#[test]
fn base64_embed_file_exact_output() {
    let embed = Base64EmbedFile::new(b"hello".to_vec(), 5).unwrap();
    assert_eq!(embed.size(), Some(8));
    let bytes = collect_bytes(embed.into_serializer());
    assert_eq!(&bytes[..], b"aGVsbG8=");
}

#[test]
fn base64_embed_url_exact_output() {
    let embed = Base64EmbedURL::new(b"hi".to_vec(), 2, "text/plain".to_string()).unwrap();
    assert_eq!(embed.size(), Some(29));
    let bytes = collect_bytes(embed.into_serializer());
    assert_eq!(&bytes[..], b"\"data:text/plain;base64,aGk=\"");
}

#[test]
fn base64_embed_empty_data() {
    let embed = Base64EmbedFile::new(Vec::new(), 0).unwrap();
    assert_eq!(embed.size(), Some(0));
    let bytes = collect_bytes(embed.into_serializer());
    assert_eq!(&bytes[..], b"");
}

#[test]
fn base64_embed_longer_data_is_truncated_to_announced_size() {
    let embed = Base64EmbedFile::new(b"hello world".to_vec(), 5).unwrap();
    assert_eq!(embed.size(), Some(8));
    let bytes = collect_bytes(embed.into_serializer());
    assert_eq!(&bytes[..], b"aGVsbG8=");
}

#[test]
fn base64_embed_large_data_comes_in_several_chunks() {
    let data = vec![0u8; 200_000];
    let mut embed = Base64EmbedFile::new(data, 200_000).unwrap();
    let expected = embed.size().unwrap();
    let mut chunks = 0;
    let mut total = 0;
    while let Some(r) = poll_next(&mut embed) {
        let b = r.unwrap();
        assert!(b.len() <= stream_json::CHUNK_SIZE);
        total += b.len();
        chunks += 1;
    }
    assert!(chunks > 2);
    assert_eq!(total, expected);
}

#[test]
fn base64_len_values() {
    assert_eq!(base64_len(0), 0);
    assert_eq!(base64_len(1), 4);
    assert_eq!(base64_len(3), 4);
    assert_eq!(base64_len(4), 8);
    assert_eq!(base64_len(16), 24);
}

#[test]
fn size_mismatch_message_text() {
    let e = size_mismatch(16, 4);
    assert_eq!(
        e.to_string(),
        "serialization error: base64 embed size mismatch: expected 16, got 4"
    );
}

#[test]
fn base64_embed_size_is_that_of_the_whole_text_after_polling() {
    let mut embed = Base64EmbedFile::new(b"hello".to_vec(), 5).unwrap();
    let before = IntoSerializer::size(&embed);
    assert_eq!(before, Some(8));
    let first = poll_next(&mut embed).unwrap().unwrap();
    assert_eq!(&first[..], b"aGVsbG8=");
    assert_eq!(IntoSerializer::size(&embed), Some(8));
    assert!(poll_next(&mut embed).is_none());
}

#[test]
fn base64_embed_correct_size() {
    let data = vec![0x89, 0x50, 0x4E, 0x47, 0x0D, 0x0A, 0x1A, 0x0A];
    let ser = Base64EmbedURL::new(data.clone(), 8, "image/png".to_string()).unwrap();

    let output = collect_bytes(ser);
    let output_str = String::from_utf8(output).unwrap();

    let expected_base64 = base64::engine::general_purpose::STANDARD.encode(&data);
    assert!(output_str.contains(&expected_base64));
}

#[test]
fn base64_embed_early_eof_error() {
    let data = vec![0x89, 0x50, 0x4E, 0x47];
    let mut ser = Base64EmbedURL::new(data, 16, "image/png".to_string()).unwrap();

    let mut result = Vec::new();
    let mut err = None;
    while let Some(r) = poll_next(&mut ser) {
        match r {
            Ok(bytes) => result.extend_from_slice(&bytes),
            Err(e) => {
                err = Some(e);
                break;
            }
        }
    }

    assert!(err.is_some());
    let err = err.unwrap();
    assert!(err.to_string().contains("size mismatch"));
    assert!(err.to_string().contains("expected 16"));
    assert!(result.is_empty());
    assert!(poll_next(&mut ser).is_none());
}

#[test]
fn base64_embed_late_eof_truncates() {
    let data = vec![
        0x89, 0x50, 0x4E, 0x47, 0x0D, 0x0A, 0x1A, 0x0A, 0x00, 0x00, 0x00, 0x0D, 0x49, 0x48, 0x44,
        0x52, 0xFF, 0xFE,
    ];
    let ser = Base64EmbedURL::new(data.clone(), 16, "image/png".to_string()).unwrap();

    let output = collect_bytes(ser);
    let output_str = String::from_utf8(output).unwrap();

    let expected_base64 = base64::engine::general_purpose::STANDARD.encode(&data[..16]);
    assert!(output_str.contains(&expected_base64));
    assert!(!output_str.contains(&base64::engine::general_purpose::STANDARD.encode(&data[16..])));
    assert_eq!(output_str, "\"data:image/png;base64,iVBORw0KGgoAAAANSUhEUg==\"");
}

#[test]
fn base64_embed_file_basic() {
    let png_header = png_header();
    let ser = Base64EmbedFile::new(png_header.clone(), 16).unwrap();
    assert_eq!(ser.size(), Some(24));

    let output = collect_bytes(ser);
    let output_str = String::from_utf8(output).unwrap();

    let expected_base64 = base64::engine::general_purpose::STANDARD.encode(&png_header);
    assert_eq!(output_str, expected_base64);
}

#[test]
fn base64_embed_file_empty_data() {
    let ser = Base64EmbedFile::new(Vec::new(), 0).unwrap();
    assert_eq!(ser.size(), Some(0));

    let output = collect_bytes(ser);
    let output_str = String::from_utf8(output).unwrap();

    assert_eq!(output_str, "");
}

#[test]
fn base64_embed_file_correct_size() {
    let data = vec![0x89, 0x50, 0x4E, 0x47, 0x0D, 0x0A, 0x1A, 0x0A];
    let ser = Base64EmbedFile::new(data.clone(), 8).unwrap();

    let output = collect_bytes(ser);
    let output_str = String::from_utf8(output).unwrap();

    let expected_base64 = base64::engine::general_purpose::STANDARD.encode(&data);
    assert_eq!(output_str, expected_base64);
}

#[test]
fn base64_embed_file_early_eof_error() {
    let data = vec![0x89, 0x50, 0x4E, 0x47];
    let mut ser = Base64EmbedFile::new(data, 16).unwrap();

    let mut result = Vec::new();
    let mut err = None;
    while let Some(r) = poll_next(&mut ser) {
        match r {
            Ok(bytes) => result.extend_from_slice(&bytes),
            Err(e) => {
                err = Some(e);
                break;
            }
        }
    }

    assert!(err.is_some());
    let err = err.unwrap();
    assert!(err.to_string().contains("size mismatch"));
    assert!(err.to_string().contains("expected 16"));
    assert!(result.is_empty());
    assert!(poll_next(&mut ser).is_none());
}

#[test]
fn base64_embed_file_late_eof_truncates() {
    let data = vec![
        0x89, 0x50, 0x4E, 0x47, 0x0D, 0x0A, 0x1A, 0x0A, 0x00, 0x00, 0x00, 0x0D, 0x49, 0x48, 0x44,
        0x52, 0xFF, 0xFE,
    ];
    let ser = Base64EmbedFile::new(data.clone(), 16).unwrap();

    let output = collect_bytes(ser);
    let output_str = String::from_utf8(output).unwrap();

    let expected_base64 = base64::engine::general_purpose::STANDARD.encode(&data[..16]);
    assert_eq!(output_str, expected_base64);
}

#[test]
fn base64_embed_file_with_into_serializer() {
    let png_header = png_header();
    let embed = Base64EmbedFile::new(png_header.clone(), 16).unwrap();
    let ser = embed.into_serializer();

    let output = collect_bytes(ser);
    let output_str = String::from_utf8(output).unwrap();

    let expected_base64 = base64::engine::general_purpose::STANDARD.encode(&png_header);
    assert_eq!(output_str, expected_base64);
}

// The original's `basic_base64_embed_png_magic_bytes`,
// `basic_base64_embed_with_into_serializer` and `basic_base64_embed_empty_data`
// expect the data URL without its quotes (a size without the two quote bytes,
// output starting with `data:`). The URL embed writes a quoted JSON string, as
// `test_base64_embed_url_serializes_as_quoted_json_string` and
// `test_base64_embed_url_size_matches_actual` require, so those three are not
// carried over.

#[test]
fn base64_embed_file_huge_announced_size_has_no_size_and_fails_at_first_poll() {
    let mut ser = Base64EmbedFile::new(vec![1u8, 2, 3], usize::MAX).unwrap();
    assert_eq!(ser.size(), None);
    let (bytes, err) = collect_bytes_with_errors(&mut ser);
    assert!(bytes.is_empty());
    let msg = err.expect("size mismatch expected").to_string();
    assert!(msg.contains("size mismatch"));
    assert!(msg.contains("got 3"));
    assert!(poll_next(&mut ser).is_none());
}

#[test]
fn base64_embed_url_huge_announced_size_has_no_size_and_fails_at_first_poll() {
    let mut ser = Base64EmbedURL::new(vec![1u8, 2, 3], usize::MAX, "image/png".to_string()).unwrap();
    assert_eq!(ser.size(), None);
    let (bytes, err) = collect_bytes_with_errors(&mut ser);
    assert!(bytes.is_empty());
    assert!(err.expect("size mismatch expected").to_string().contains("size mismatch"));
    assert!(poll_next(&mut ser).is_none());
}

#[test]
fn option_passes_on_the_embed_error_then_ends() {
    let embed = Base64EmbedFile::new(vec![1u8, 2, 3, 4], 16).unwrap();
    let mut ser = Some(embed).into_serializer();
    match poll_next(&mut ser) {
        Some(Err(e)) => {
            let msg = e.to_string();
            assert!(msg.contains("expected 16"));
            assert!(msg.contains("got 4"));
        }
        _ => panic!("expected the embed's error"),
    }
    assert!(poll_next(&mut ser).is_none());
}

#[test]
fn vec_passes_on_the_embed_error_then_ends() {
    let embed = Base64EmbedFile::new(vec![1u8, 2], 5).unwrap();
    let mut ser = vec![embed].into_serializer();
    assert_eq!(&poll_next(&mut ser).unwrap().unwrap()[..], b"[");
    match poll_next(&mut ser) {
        Some(Err(e)) => assert!(e.to_string().contains("expected 5, got 2")),
        _ => panic!("expected the embed's error"),
    }
}

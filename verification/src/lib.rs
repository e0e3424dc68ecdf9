//! Streaming JSON serialization: values become serializers that hand out the
//! JSON text chunk by chunk, and report its exact size ahead of time.
use vstd::prelude::*;

pub mod base64_embed;
pub mod buffer;
pub mod derived;
pub mod error;
pub mod plaintext;
pub mod serde;
pub mod serializers;
pub mod std_impl;
pub mod text;

pub use base64_embed::{Base64EmbedFile, Base64EmbedURL};
pub use error::Error;
pub use serde::{
    IntoSerializer, IntoStreamSerializer, IntoStreamSerializer as StreamSerializer, Serializer,
    Token, TokenSerializer,
};

verus! {

/// Largest piece of string content handed out in one chunk (128 KiB).
pub const CHUNK_SIZE: usize = 131072;

} // verus!

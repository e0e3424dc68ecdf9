//! The built-in serializers for primitive and standard-library types, in one
//! place.
pub use crate::base64_embed::{Base64EmbedFile, Base64EmbedURL};
pub use crate::plaintext::{PlainText, PlainTextSerializer};
pub use crate::std_impl::{
    BoolSerializerState, BoxSerializer, DynArraySerializer, DynObjectSerializer, I64Serializer,
    OptionSerializer, StringSerializer, U64Serializer, UnitSerializer, VecSerializer,
};

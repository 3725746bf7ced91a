//! Build struct converters at the call site: a builder names fields in a
//! fixed order, binds each to a type tag (deserialization) or an accessor
//! (serialization), and drives a conversion engine over a key-value
//! stream. The engines' behaviour — field matching, duplicate and
//! missing-field detection, kind checking, assembly and validation — is
//! stated in their contracts and proved.

pub mod value;
pub mod error;
pub mod de;
pub mod ser;
pub mod laws;

pub use de::StructDeserializer;
pub use ser::StructSerializer;
pub use error::Error;

//! Fixed-layout record codecs: a record declaration is planned into per-field
//! access steps, and the resulting procedures convert between records and
//! flat byte buffers under an explicit byte order.

pub mod access;
pub mod codec;
pub mod decoder;
pub mod encoder;
pub mod failure;
pub mod generate;
pub mod laws;
pub mod layout;
pub mod primitive;
pub mod scalar;
pub mod schema;
pub mod sizer;
pub mod unchecked;
pub mod value;
pub mod word;

//! A binary codec for a type-language wire format, and a compiler from a
//! schema of constructors to type declarations.
pub mod endian;
pub mod wire;
pub mod error;
pub mod ser;
pub mod de;
pub mod schema;
pub mod translate;
pub mod aggregate;
pub mod emit;

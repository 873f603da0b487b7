//! Decoder for XNB asset containers and the tilemaps they carry.
//!
//! A container is decoded from a byte buffer into the asset that the caller
//! expects: [`XNB::from_buffer`] checks the header, reads the table of reader
//! identities and decodes the primary asset through it. Every decoder states
//! what it reads as a function of the input bytes.

pub mod assets;
pub mod bytes;
pub mod container;
pub mod dictionary;
pub mod error;
pub mod lzx;
pub mod names;
pub mod parse;
pub mod sequence;
pub mod tide;
pub mod varint;

pub use crate::assets::{Rectangle, SpriteFont, SurfaceFormat, Texture2d, Vector3};
pub use crate::bytes::{Float32, Reader};
pub use crate::container::{read_header, Header, XNB};
pub use crate::dictionary::{Array, Dictionary, DictionaryKey, Key};
pub use crate::error::Error;
pub use crate::names::{bare_reader_name, generic_types_from_reader, reader_from_type};
pub use crate::parse::{
    read_dictionary_member, read_nullable, read_object, read_optional_object,
    read_reference_table, read_with_reader, Parse, TypeReader,
};
pub use crate::varint::{
    read_7bit_encoded_int, read_string, read_string_with_length, write_7bit_encoded_int,
};

//! The reference table and the decoding of objects through it.
//!
//! A container lists the identities of the readers it uses. An object is
//! written as a 1-based index into that list, followed by the object in the
//! form of that reader. The caller says which type it expects; an object
//! written by another reader is refused.

use vstd::prelude::*;

use crate::bytes::{spec_read_i32, spec_read_u32, spec_read_u8, Reader};
use crate::error::{decodes_as, Decoded, Error, ErrorView};
use crate::names::{
    bare_name, bare_reader_name, generic_args, generic_types_from_reader, primitive_reader,
    reader_from_type,
};
use crate::sequence::{lemma_deep_view_push, repeat_onto, repeated};
use crate::varint::{
    read_7bit_encoded_int, read_string, spec_read_string, spec_read_varuint, str_eq,
};

verus! {

/// One entry of the reference table: the identity of a reader and its
/// version.
#[derive(Debug, PartialEq, Eq)]
pub struct TypeReader {
    pub name: String,
    pub version: i32,
}

/// The mathematical value of a [`TypeReader`].
pub struct TypeReaderView {
    pub name: Seq<char>,
    pub version: i32,
}

impl DeepView for TypeReader {
    type V = TypeReaderView;

    open spec fn deep_view(&self) -> TypeReaderView {
        TypeReaderView { name: self.name@, version: self.version }
    }
}

/// A type that a reader of the container decodes.
pub trait Parse: Sized + DeepView {
    /// The bare name of the reader that decodes this type.
    spec fn reader_name() -> Seq<char>;

    /// What decoding a value of this type at `pos` yields, given the
    /// reference table and the generic arguments of the reader's identity.
    spec fn decoded(
        input: Seq<u8>,
        pos: int,
        readers: Seq<TypeReaderView>,
        args: Seq<Seq<char>>,
    ) -> Decoded<Self::V>;

    /// The bare name of the reader that decodes this type.
    fn reader() -> (name: &'static str)
        ensures
            name@ == Self::reader_name(),
    ;

    /// Decodes a value in the form of this type's reader.
    fn try_parse(rdr: &mut Reader, readers: &[TypeReader], args: Vec<String>) -> (r: Result<
        Self,
        Error,
    >)
        ensures
            final(rdr).input() == old(rdr).input(),
            decodes_as(
                r,
                final(rdr).position(),
                Self::decoded(
                    old(rdr).input(),
                    old(rdr).position(),
                    readers.deep_view(),
                    args.deep_view(),
                ),
            ),
    ;

    /// Decodes a value written by the reader `name`: refused with
    /// `ReaderMismatch` unless `name` is this type's reader.
    fn parse(name: &str, rdr: &mut Reader, readers: &[TypeReader], args: Vec<String>) -> (r: Result<
        Self,
        Error,
    >)
        ensures
            final(rdr).input() == old(rdr).input(),
            decodes_as(
                r,
                final(rdr).position(),
                if name@ == Self::reader_name() {
                    Self::decoded(
                        old(rdr).input(),
                        old(rdr).position(),
                        readers.deep_view(),
                        args.deep_view(),
                    )
                } else {
                    Err(ErrorView::ReaderMismatch(name@, Self::reader_name()))
                },
            ),
    {
        let expected = Self::reader();
        if !str_eq(name, expected) {
            return Err(Error::ReaderMismatch(name.to_owned(), expected.to_owned()));
        }
        Self::try_parse(rdr, readers, args)
    }
}

/// Decoding a value written by the reader of identity `name`: the generic
/// arguments of the identity are resolved first, then its bare name is held
/// against the reader of the expected type.
pub open spec fn spec_with_reader<T: Parse>(
    name: Seq<char>,
    input: Seq<u8>,
    pos: int,
    readers: Seq<TypeReaderView>,
) -> Decoded<T::V> {
    match generic_args(name) {
        Ok(args) => if bare_name(name) == T::reader_name() {
            T::decoded(input, pos, readers, args)
        } else {
            Err(ErrorView::ReaderMismatch(bare_name(name), T::reader_name()))
        },
        Err(e) => Err(e),
    }
}

/// Decoding the object behind reference `index`: the entry `index - 1` of
/// the table names its reader. Index zero and an index past the table are
/// malformed.
pub open spec fn spec_reference<T: Parse>(
    index: u32,
    input: Seq<u8>,
    pos: int,
    readers: Seq<TypeReaderView>,
) -> Decoded<T::V> {
    if index == 0 || index > readers.len() {
        Err(ErrorView::Malformed)
    } else {
        spec_with_reader::<T>(readers[index - 1].name, input, pos, readers)
    }
}

/// Decoding an object that must be there: a reference index as a
/// variable-length integer, then the object.
pub open spec fn spec_read_object<T: Parse>(
    input: Seq<u8>,
    pos: int,
    readers: Seq<TypeReaderView>,
) -> Decoded<T::V> {
    match spec_read_varuint(input, pos) {
        Ok((index, start)) => spec_reference::<T>(index, input, start, readers),
        Err(e) => Err(e),
    }
}

/// Decoding an object that may be absent: index zero stands for no object.
pub open spec fn spec_read_optional_object<T: Parse>(
    input: Seq<u8>,
    pos: int,
    readers: Seq<TypeReaderView>,
) -> Decoded<Option<T::V>> {
    match spec_read_varuint(input, pos) {
        Ok((index, start)) => if index == 0 {
            Ok((None, start))
        } else {
            match spec_reference::<T>(index, input, start, readers) {
                Ok((value, end)) => Ok((Some(value), end)),
                Err(e) => Err(e),
            }
        },
        Err(e) => Err(e),
    }
}

/// Decoding a member of an array or dictionary whose declared type is
/// `typename`: in place by the reader of a well-known primitive type, else
/// as an object behind a reference.
pub open spec fn spec_dictionary_member<T: Parse>(
    typename: Seq<char>,
    input: Seq<u8>,
    pos: int,
    readers: Seq<TypeReaderView>,
) -> Decoded<T::V> {
    match primitive_reader(typename) {
        Some(reader) => spec_with_reader::<T>(reader, input, pos, readers),
        None => spec_read_object::<T>(input, pos, readers),
    }
}

/// Decoding a value that a presence byte announces: byte one is followed by
/// the value in the form of its reader, any other byte by nothing.
pub open spec fn spec_nullable<T: Parse>(
    input: Seq<u8>,
    pos: int,
    readers: Seq<TypeReaderView>,
) -> Decoded<Option<T::V>> {
    match spec_read_u8(input, pos) {
        Ok((presence, start)) => if presence == 1 {
            match T::decoded(input, start, readers, Seq::empty()) {
                Ok((value, end)) => Ok((Some(value), end)),
                Err(e) => Err(e),
            }
        } else {
            Ok((None, start))
        },
        Err(e) => Err(e),
    }
}

/// Decodes a value written by the reader of identity `name`.
pub fn read_with_reader<T: Parse>(name: &str, rdr: &mut Reader, readers: &[TypeReader]) -> (r:
    Result<T, Error>)
    ensures
        final(rdr).input() == old(rdr).input(),
        decodes_as(
            r,
            final(rdr).position(),
            spec_with_reader::<T>(name@, old(rdr).input(), old(rdr).position(), readers.deep_view()),
        ),
{
    let main = bare_reader_name(name);
    let args = match generic_types_from_reader(name) {
        Ok(args) => args,
        Err(e) => {
            return Err(e);
        },
    };
    T::parse(main.as_str(), rdr, readers, args)
}

/// Decodes the object behind reference `index`.
fn read_reference<T: Parse>(index: u32, rdr: &mut Reader, readers: &[TypeReader]) -> (r: Result<
    T,
    Error,
>)
    ensures
        final(rdr).input() == old(rdr).input(),
        decodes_as(
            r,
            final(rdr).position(),
            spec_reference::<T>(index, old(rdr).input(), old(rdr).position(), readers.deep_view()),
        ),
{
    if index == 0 || index as usize > readers.len() {
        return Err(Error::Malformed);
    }
    let entry = &readers[index as usize - 1];
    read_with_reader::<T>(entry.name.as_str(), rdr, readers)
}

/// Decodes an object that must be there: its reference index, then the
/// object in the form of the reader that the table names for that index.
pub fn read_object<T: Parse>(rdr: &mut Reader, readers: &[TypeReader]) -> (r: Result<T, Error>)
    ensures
        final(rdr).input() == old(rdr).input(),
        decodes_as(
            r,
            final(rdr).position(),
            spec_read_object::<T>(old(rdr).input(), old(rdr).position(), readers.deep_view()),
        ),
{
    let index = match read_7bit_encoded_int(rdr) {
        Ok(index) => index,
        Err(e) => {
            return Err(e);
        },
    };
    read_reference::<T>(index, rdr, readers)
}

/// Decodes an object that may be absent: reference index zero yields `None`.
pub fn read_optional_object<T: Parse>(rdr: &mut Reader, readers: &[TypeReader]) -> (r: Result<
    Option<T>,
    Error,
>)
    ensures
        final(rdr).input() == old(rdr).input(),
        decodes_as(
            r,
            final(rdr).position(),
            spec_read_optional_object::<T>(
                old(rdr).input(),
                old(rdr).position(),
                readers.deep_view(),
            ),
        ),
{
    let index = match read_7bit_encoded_int(rdr) {
        Ok(index) => index,
        Err(e) => {
            return Err(e);
        },
    };
    if index == 0 {
        return Ok(None);
    }
    match read_reference::<T>(index, rdr, readers) {
        Ok(value) => Ok(Some(value)),
        Err(e) => Err(e),
    }
}

/// Decodes a member of an array or dictionary whose declared type is
/// `typename`.
pub fn read_dictionary_member<T: Parse>(
    typename: &str,
    rdr: &mut Reader,
    readers: &[TypeReader],
) -> (r: Result<T, Error>)
    ensures
        final(rdr).input() == old(rdr).input(),
        decodes_as(
            r,
            final(rdr).position(),
            spec_dictionary_member::<T>(
                typename@,
                old(rdr).input(),
                old(rdr).position(),
                readers.deep_view(),
            ),
        ),
{
    match reader_from_type(typename) {
        Some(reader) => read_with_reader::<T>(reader, rdr, readers),
        None => read_object::<T>(rdr, readers),
    }
}

/// Decodes a value that a presence byte announces.
pub fn read_nullable<T: Parse>(rdr: &mut Reader, readers: &[TypeReader]) -> (r: Result<
    Option<T>,
    Error,
>)
    ensures
        final(rdr).input() == old(rdr).input(),
        decodes_as(
            r,
            final(rdr).position(),
            spec_nullable::<T>(old(rdr).input(), old(rdr).position(), readers.deep_view()),
        ),
{
    let presence = match rdr.read_u8() {
        Ok(presence) => presence,
        Err(e) => {
            return Err(e);
        },
    };
    if presence != 1 {
        return Ok(None);
    }
    let args: Vec<String> = Vec::new();
    assert(args.deep_view() =~= Seq::empty());
    match T::try_parse(rdr, readers, args) {
        Ok(value) => Ok(Some(value)),
        Err(e) => Err(e),
    }
}

/// Reading one entry of the reference table: the identity as a string, then
/// the version as a little-endian `i32`.
pub open spec fn spec_type_reader(input: Seq<u8>, pos: int) -> Decoded<TypeReaderView> {
    match spec_read_string(input, pos) {
        Ok((name, start)) => match spec_read_i32(input, start) {
            Ok((version, end)) => Ok((TypeReaderView { name, version }, end)),
            Err(e) => Err(e),
        },
        Err(e) => Err(e),
    }
}

/// The decoder of one entry of the reference table of `input`, as a function
/// of the position.
pub open spec fn type_reader_at(input: Seq<u8>) -> spec_fn(int) -> Decoded<TypeReaderView> {
    |pos: int| spec_type_reader(input, pos)
}

/// Reading the reference table: a count as a variable-length integer, then
/// that many entries. Their order is the order of the reference indices.
pub open spec fn spec_reference_table(input: Seq<u8>, pos: int) -> Decoded<Seq<TypeReaderView>> {
    match spec_read_varuint(input, pos) {
        Ok((count, start)) => repeated(type_reader_at(input), start, count as nat),
        Err(e) => Err(e),
    }
}

/// Reads the reference table.
pub fn read_reference_table(rdr: &mut Reader) -> (r: Result<Vec<TypeReader>, Error>)
    ensures
        final(rdr).input() == old(rdr).input(),
        decodes_as(r, final(rdr).position(), spec_reference_table(old(rdr).input(), old(rdr).position())),
{
    let count = match read_7bit_encoded_int(rdr) {
        Ok(count) => count,
        Err(e) => {
            return Err(e);
        },
    };
    let ghost input = rdr.input();
    let mut readers: Vec<TypeReader> = Vec::new();
    let mut i: u32 = 0;
    assert(readers.deep_view() =~= Seq::empty());
    while i < count
        invariant
            rdr.input() == input,
            input == old(rdr).input(),
            i <= count,
            spec_reference_table(input, old(rdr).position()) == repeat_onto(
                type_reader_at(input),
                rdr.position(),
                (count - i) as nat,
                readers.deep_view(),
            ),
        decreases count - i,
    {
        let name = match read_string(rdr) {
            Ok(name) => name,
            Err(e) => {
                return Err(e);
            },
        };
        let version = match rdr.read_i32() {
            Ok(version) => version,
            Err(e) => {
                return Err(e);
            },
        };
        let entry = TypeReader { name, version };
        let ghost before = readers;
        let ghost pushed = entry;
        readers.push(entry);
        proof {
            lemma_deep_view_push(before, readers, pushed);
        }
        i = i + 1;
    }
    Ok(readers)
}

impl Parse for i32 {
    open spec fn reader_name() -> Seq<char> {
        "Microsoft.Xna.Framework.Content.Int32Reader"@
    }

    open spec fn decoded(
        input: Seq<u8>,
        pos: int,
        readers: Seq<TypeReaderView>,
        args: Seq<Seq<char>>,
    ) -> Decoded<i32> {
        spec_read_i32(input, pos)
    }

    fn reader() -> (name: &'static str) {
        "Microsoft.Xna.Framework.Content.Int32Reader"
    }

    fn try_parse(rdr: &mut Reader, readers: &[TypeReader], args: Vec<String>) -> (r: Result<
        Self,
        Error,
    >) {
        rdr.read_i32()
    }
}

/// Reading a character: one byte, widened to the character with its code
/// point.
pub open spec fn spec_read_char(input: Seq<u8>, pos: int) -> Decoded<char> {
    match spec_read_u8(input, pos) {
        Ok((b, end)) => Ok((b as char, end)),
        Err(e) => Err(e),
    }
}

impl Parse for char {
    open spec fn reader_name() -> Seq<char> {
        "Microsoft.Xna.Framework.Content.CharReader"@
    }

    open spec fn decoded(
        input: Seq<u8>,
        pos: int,
        readers: Seq<TypeReaderView>,
        args: Seq<Seq<char>>,
    ) -> Decoded<char> {
        spec_read_char(input, pos)
    }

    fn reader() -> (name: &'static str) {
        "Microsoft.Xna.Framework.Content.CharReader"
    }

    fn try_parse(rdr: &mut Reader, readers: &[TypeReader], args: Vec<String>) -> (r: Result<
        Self,
        Error,
    >) {
        match rdr.read_u8() {
            Ok(b) => Ok(b as char),
            Err(e) => Err(e),
        }
    }
}

impl Parse for String {
    open spec fn reader_name() -> Seq<char> {
        "Microsoft.Xna.Framework.Content.StringReader"@
    }

    open spec fn decoded(
        input: Seq<u8>,
        pos: int,
        readers: Seq<TypeReaderView>,
        args: Seq<Seq<char>>,
    ) -> Decoded<Seq<char>> {
        spec_read_string(input, pos)
    }

    fn reader() -> (name: &'static str) {
        "Microsoft.Xna.Framework.Content.StringReader"
    }

    fn try_parse(rdr: &mut Reader, readers: &[TypeReader], args: Vec<String>) -> (r: Result<
        Self,
        Error,
    >) {
        read_string(rdr)
    }
}

/// The decoder of one member of declared type `args[index]`, as a function
/// of the position. Where the identity of the container's reader carries no
/// such argument, no member can be decoded.
pub open spec fn member_at<T: Parse>(
    args: Seq<Seq<char>>,
    index: int,
    input: Seq<u8>,
    readers: Seq<TypeReaderView>,
) -> spec_fn(int) -> Decoded<T::V> {
    |pos: int|
        if 0 <= index < args.len() {
            spec_dictionary_member::<T>(args[index], input, pos, readers)
        } else {
            Err(ErrorView::MalformedGenericName)
        }
}

/// Reading an array: a little-endian `u32` count, then that many members of
/// the type that the first generic argument declares.
pub open spec fn spec_array<T: Parse>(
    input: Seq<u8>,
    pos: int,
    readers: Seq<TypeReaderView>,
    args: Seq<Seq<char>>,
) -> Decoded<Seq<T::V>> {
    match spec_read_u32(input, pos) {
        Ok((count, start)) => repeated(member_at::<T>(args, 0, input, readers), start, count as nat),
        Err(e) => Err(e),
    }
}

impl<T: Parse> Parse for Vec<T> {
    open spec fn reader_name() -> Seq<char> {
        "Microsoft.Xna.Framework.Content.ArrayReader"@
    }

    open spec fn decoded(
        input: Seq<u8>,
        pos: int,
        readers: Seq<TypeReaderView>,
        args: Seq<Seq<char>>,
    ) -> Decoded<Seq<T::V>> {
        spec_array::<T>(input, pos, readers, args)
    }

    fn reader() -> (name: &'static str) {
        "Microsoft.Xna.Framework.Content.ArrayReader"
    }

    fn try_parse(rdr: &mut Reader, readers: &[TypeReader], args: Vec<String>) -> (r: Result<
        Self,
        Error,
    >) {
        let count = match rdr.read_u32() {
            Ok(count) => count,
            Err(e) => {
                return Err(e);
            },
        };
        let ghost input = rdr.input();
        let ghost item = member_at::<T>(args.deep_view(), 0, input, readers.deep_view());
        let mut vec: Vec<T> = Vec::new();
        let mut i: u32 = 0;
        assert(vec.deep_view() =~= Seq::empty());
        while i < count
            invariant
                rdr.input() == input,
                input == old(rdr).input(),
                i <= count,
                item == member_at::<T>(args.deep_view(), 0, input, readers.deep_view()),
                spec_array::<T>(input, old(rdr).position(), readers.deep_view(), args.deep_view())
                    == repeat_onto(item, rdr.position(), (count - i) as nat, vec.deep_view()),
            decreases count - i,
        {
            if args.len() == 0 {
                return Err(Error::MalformedGenericName);
            }
            let val = match read_dictionary_member::<T>(args[0].as_str(), rdr, readers) {
                Ok(val) => val,
                Err(e) => {
                    return Err(e);
                },
            };
            let ghost before = vec;
            let ghost pushed = val;
            vec.push(val);
            proof {
                lemma_deep_view_push(before, vec, pushed);
            }
            i = i + 1;
        }
        Ok(vec)
    }
}

} // verus!

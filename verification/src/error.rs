//! The ways a decode can fail.

use vstd::prelude::*;

verus! {

/// Why a decode stopped. Every failure is final: nothing is retried and no
/// partial value is handed back.
#[derive(Debug, PartialEq, Eq)]
pub enum Error {
    /// The input ended before a field was complete.
    Io,
    /// A magic literal, platform code or format version did not match, or the
    /// structure of the input was otherwise impossible.
    Malformed,
    /// The payload is compressed and no decompressor is available.
    UnsupportedCompression,
    /// The reference table names an identity for which no decoder exists.
    UnknownReaderIdentity(String),
    /// The identity found for a reference (first) is not the identity of the
    /// type that was asked for (second).
    ReaderMismatch(String, String),
    /// A texture names a surface format code outside the known ones.
    UnrecognizedSurfaceFormat(u32),
    /// The container declares shared resources, which are not supported.
    UnsupportedSharedResources(u32),
    /// The brackets of a generic type name do not balance.
    MalformedGenericName,
    /// A tile stream holds a tag byte that is not one of `T`, `S`, `N`, `A`.
    MalformedTileTag(u8),
}

/// The mathematical value of an [`Error`]: strings become sequences of
/// characters.
pub enum ErrorView {
    Io,
    Malformed,
    UnsupportedCompression,
    UnknownReaderIdentity(Seq<char>),
    ReaderMismatch(Seq<char>, Seq<char>),
    UnrecognizedSurfaceFormat(u32),
    UnsupportedSharedResources(u32),
    MalformedGenericName,
    MalformedTileTag(u8),
}

impl DeepView for Error {
    type V = ErrorView;

    open spec fn deep_view(&self) -> ErrorView {
        match *self {
            Error::Io => ErrorView::Io,
            Error::Malformed => ErrorView::Malformed,
            Error::UnsupportedCompression => ErrorView::UnsupportedCompression,
            Error::UnknownReaderIdentity(name) => ErrorView::UnknownReaderIdentity(name@),
            Error::ReaderMismatch(found, expected) => ErrorView::ReaderMismatch(
                found@,
                expected@,
            ),
            Error::UnrecognizedSurfaceFormat(code) => ErrorView::UnrecognizedSurfaceFormat(code),
            Error::UnsupportedSharedResources(count) => ErrorView::UnsupportedSharedResources(
                count,
            ),
            Error::MalformedGenericName => ErrorView::MalformedGenericName,
            Error::MalformedTileTag(tag) => ErrorView::MalformedTileTag(tag),
        }
    }
}

/// What decoding at some position of an input yields: the decoded value and
/// the position just behind it, or the failure.
pub type Decoded<V> = Result<(V, int), ErrorView>;

/// An executable outcome `r`, reached with the reader at `end`, is the outcome
/// `expected` that the format prescribes.
pub open spec fn decodes_as<T: DeepView>(r: Result<T, Error>, end: int, expected: Decoded<T::V>) -> bool {
    match r {
        Ok(value) => expected == Ok::<(T::V, int), ErrorView>((value.deep_view(), end)),
        Err(e) => expected == Err::<(T::V, int), ErrorView>(e.deep_view()),
    }
}

} // verus!

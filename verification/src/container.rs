//! The envelope of a container: its header, and the payload that holds the
//! reference table and the primary asset.

use vstd::prelude::*;

use crate::bytes::{has_bytes, spec_read_u32, spec_read_u8, Reader};
use crate::error::{decodes_as, Decoded, Error, ErrorView};
use crate::parse::{
    read_object, read_reference_table, spec_read_object, spec_reference_table, Parse,
};
use crate::varint::{read_7bit_encoded_int, spec_read_varuint};

verus! {

/// The one format version that is supported.
pub const FORMAT_VERSION: u8 = 5;

/// The bit of the flags byte that marks a compressed payload.
pub const FLAG_COMPRESSED: u8 = 0x80;

/// The platform code of Windows.
pub const PLATFORM_WINDOWS: u8 = 0x77;

/// The platform code of Windows Phone.
pub const PLATFORM_PHONE: u8 = 0x6d;

/// The platform code of the Xbox 360.
pub const PLATFORM_XBOX: u8 = 0x78;

/// The size in bytes of the header of a compressed container. The
/// compressed size that the header declares counts the header in.
pub const COMPRESSED_HEADER_SIZE: u32 = 14;

/// The three bytes that open a container: `XNB`.
pub open spec fn container_magic() -> Seq<u8> {
    seq![0x58u8, 0x4eu8, 0x42u8]
}

/// `code` is the code of a known platform.
pub open spec fn is_platform(code: u8) -> bool {
    code == PLATFORM_WINDOWS || code == PLATFORM_PHONE || code == PLATFORM_XBOX
}

/// What the header of a container says.
#[derive(Debug, Clone, Copy, PartialEq, Eq)]
pub struct Header {
    /// The code of the platform that the container was built for.
    pub target: u8,
    /// Whether the payload is compressed.
    pub compressed: bool,
    /// The size of the whole container as it is stored.
    pub compressed_size: u32,
    /// The size of the payload once decompressed, where it is compressed.
    pub decompressed_size: Option<u32>,
}

impl DeepView for Header {
    type V = Header;

    open spec fn deep_view(&self) -> Header {
        *self
    }
}

/// Reading what follows the flags byte: the compressed size and, in a
/// compressed container, the decompressed size.
pub open spec fn spec_sizes(input: Seq<u8>, pos: int, target: u8, flags: u8) -> Decoded<Header> {
    match spec_read_u32(input, pos) {
        Ok((compressed_size, after_size)) => if flags >= FLAG_COMPRESSED {
            match spec_read_u32(input, after_size) {
                Ok((decompressed_size, end)) => Ok(
                    (
                        Header {
                            target,
                            compressed: true,
                            compressed_size,
                            decompressed_size: Some(decompressed_size),
                        },
                        end,
                    ),
                ),
                Err(e) => Err(e),
            }
        } else {
            Ok(
                (
                    Header { target, compressed: false, compressed_size, decompressed_size: None },
                    after_size,
                ),
            )
        },
        Err(e) => Err(e),
    }
}

/// Reading the header of a container, each field checked before the next is
/// read: the magic, the platform, which must be a known one, the format
/// version, which must be the supported one, the flags, then the sizes.
pub open spec fn spec_header(input: Seq<u8>, pos: int) -> Decoded<Header> {
    if !has_bytes(input, pos, 3) {
        Err(ErrorView::Io)
    } else if input.subrange(pos, pos + 3) != container_magic() {
        Err(ErrorView::Malformed)
    } else {
        match spec_read_u8(input, pos + 3) {
            Ok((target, after_target)) => if !is_platform(target) {
                Err(ErrorView::Malformed)
            } else {
                match spec_read_u8(input, after_target) {
                    Ok((version, after_version)) => if version != FORMAT_VERSION {
                        Err(ErrorView::Malformed)
                    } else {
                        match spec_read_u8(input, after_version) {
                            Ok((flags, after_flags)) => spec_sizes(
                                input,
                                after_flags,
                                target,
                                flags,
                            ),
                            Err(e) => Err(e),
                        }
                    },
                    Err(e) => Err(e),
                }
            },
            Err(e) => Err(e),
        }
    }
}

/// Reads the magic of a container and says whether it was found.
fn read_magic(rdr: &mut Reader) -> (r: Result<bool, Error>)
    ensures
        final(rdr).input() == old(rdr).input(),
        match r {
            Ok(found) => has_bytes(old(rdr).input(), old(rdr).position(), 3) && found == (old(
                rdr,
            ).input().subrange(old(rdr).position(), old(rdr).position() + 3) == container_magic())
                && final(rdr).position() == old(rdr).position() + 3,
            Err(e) => !has_bytes(old(rdr).input(), old(rdr).position(), 3) && e.deep_view()
                == ErrorView::Io,
        },
{
    let magic = match rdr.read_exact(3) {
        Ok(magic) => magic,
        Err(e) => {
            return Err(e);
        },
    };
    let found = magic[0] == 0x58 && magic[1] == 0x4e && magic[2] == 0x42;
    proof {
        if found {
            assert(magic@ =~= container_magic());
        } else {
            assert(container_magic()[0] == 0x58 && container_magic()[1] == 0x4e
                && container_magic()[2] == 0x42);
        }
    }
    Ok(found)
}

/// Reads the header of a container. Where the magic is wrong, nothing behind
/// it is read.
pub fn read_header(rdr: &mut Reader) -> (r: Result<Header, Error>)
    ensures
        final(rdr).input() == old(rdr).input(),
        decodes_as(r, final(rdr).position(), spec_header(old(rdr).input(), old(rdr).position())),
        has_bytes(old(rdr).input(), old(rdr).position(), 3) && old(rdr).input().subrange(
            old(rdr).position(),
            old(rdr).position() + 3,
        ) != container_magic() ==> final(rdr).position() == old(rdr).position() + 3,
{
    match read_magic(rdr) {
        Ok(true) => {},
        Ok(false) => {
            return Err(Error::Malformed);
        },
        Err(e) => {
            return Err(e);
        },
    }
    let target = match rdr.read_u8() {
        Ok(target) => target,
        Err(e) => {
            return Err(e);
        },
    };
    if target != PLATFORM_WINDOWS && target != PLATFORM_PHONE && target != PLATFORM_XBOX {
        return Err(Error::Malformed);
    }
    let version = match rdr.read_u8() {
        Ok(version) => version,
        Err(e) => {
            return Err(e);
        },
    };
    if version != FORMAT_VERSION {
        return Err(Error::Malformed);
    }
    let flag = match rdr.read_u8() {
        Ok(flag) => flag,
        Err(e) => {
            return Err(e);
        },
    };
    let is_compressed = flag & FLAG_COMPRESSED != 0;
    assert(is_compressed == (flag >= FLAG_COMPRESSED)) by (bit_vector)
        requires
            is_compressed == (flag & 0x80 != 0),
    ;
    let compressed_size = match rdr.read_u32() {
        Ok(compressed_size) => compressed_size,
        Err(e) => {
            return Err(e);
        },
    };
    if is_compressed {
        let decompressed_size = match rdr.read_u32() {
            Ok(decompressed_size) => decompressed_size,
            Err(e) => {
                return Err(e);
            },
        };
        Ok(
            Header {
                target,
                compressed: true,
                compressed_size,
                decompressed_size: Some(decompressed_size),
            },
        )
    } else {
        Ok(Header { target, compressed: false, compressed_size, decompressed_size: None })
    }
}

/// A decoded container: its primary asset.
#[derive(Debug, PartialEq, Eq)]
pub struct XNB<T> {
    pub primary: T,
}

impl<T: DeepView> DeepView for XNB<T> {
    type V = T::V;

    open spec fn deep_view(&self) -> T::V {
        self.primary.deep_view()
    }
}

/// Reading the payload of a container: the reference table, the number of
/// shared resources, which must be zero, and the primary asset as an object
/// of the expected type.
pub open spec fn spec_payload<T: Parse>(input: Seq<u8>, pos: int) -> Decoded<T::V> {
    match spec_reference_table(input, pos) {
        Ok((readers, after_table)) => match spec_read_varuint(input, after_table) {
            Ok((shared, start)) => if shared != 0 {
                Err(ErrorView::UnsupportedSharedResources(shared))
            } else {
                spec_read_object::<T>(input, start, readers)
            },
            Err(e) => Err(e),
        },
        Err(e) => Err(e),
    }
}

/// Reading a container: its header, then its payload. A compressed payload
/// cannot be read and is refused as unsupported. The payload takes the rest
/// of the input, whatever it leaves unread of it.
pub open spec fn spec_container<T: Parse>(input: Seq<u8>, pos: int) -> Decoded<T::V> {
    match spec_header(input, pos) {
        Ok((header, start)) => if header.compressed {
            Err(ErrorView::UnsupportedCompression)
        } else {
            match spec_payload::<T>(input.subrange(start, input.len() as int), 0) {
                Ok((primary, _)) => Ok((primary, input.len() as int)),
                Err(e) => Err(e),
            }
        },
        Err(e) => Err(e),
    }
}

/// Reads the payload of a container.
pub fn read_payload<T: Parse>(rdr: &mut Reader) -> (r: Result<XNB<T>, Error>)
    ensures
        final(rdr).input() == old(rdr).input(),
        decodes_as(r, final(rdr).position(), spec_payload::<T>(old(rdr).input(), old(rdr).position())),
{
    let readers = match read_reference_table(rdr) {
        Ok(readers) => readers,
        Err(e) => {
            return Err(e);
        },
    };
    let num_shared = match read_7bit_encoded_int(rdr) {
        Ok(num_shared) => num_shared,
        Err(e) => {
            return Err(e);
        },
    };
    if num_shared != 0 {
        return Err(Error::UnsupportedSharedResources(num_shared));
    }
    let table = readers.as_slice();
    proof {
        assert(table.deep_view() =~= readers.deep_view());
    }
    match read_object::<T>(rdr, table) {
        Ok(asset) => Ok(XNB { primary: asset }),
        Err(e) => Err(e),
    }
}

impl<T: Parse> XNB<T> {
    /// Decodes the payload that `buffer` holds from its first byte on.
    pub fn new(buffer: &[u8]) -> (r: Result<XNB<T>, Error>)
        ensures
            match r {
                Ok(xnb) => spec_payload::<T>(buffer@, 0) is Ok && spec_payload::<T>(buffer@, 0)->Ok_0.0
                    == xnb.deep_view(),
                Err(e) => spec_payload::<T>(buffer@, 0) == Err::<(T::V, int), ErrorView>(
                    e.deep_view(),
                ),
            },
    {
        let mut rdr = Reader::new(buffer);
        read_payload::<T>(&mut rdr)
    }

    /// Stands where a decompressor would, with the reader at the compressed
    /// payload and the two sizes that the header declares: no compressed
    /// payload can be read, so this fails with `UnsupportedCompression`
    /// whatever it is given.
    pub fn decompress(rdr: &Reader, compressed_size: u32, decompressed_size: u32) -> (r: Result<
        Vec<u8>,
        Error,
    >)
        ensures
            r matches Err(e) && e.deep_view() == ErrorView::UnsupportedCompression,
    {
        Err(Error::UnsupportedCompression)
    }

    /// Decodes the payload that takes the rest of the input.
    pub fn from_uncompressed_buffer(rdr: &mut Reader) -> (r: Result<XNB<T>, Error>)
        ensures
            final(rdr).input() == old(rdr).input(),
            final(rdr).position() == old(rdr).input().len(),
            match r {
                Ok(xnb) => spec_payload::<T>(
                    old(rdr).input().subrange(old(rdr).position(), old(rdr).input().len() as int),
                    0,
                ) is Ok && spec_payload::<T>(
                    old(rdr).input().subrange(old(rdr).position(), old(rdr).input().len() as int),
                    0,
                )->Ok_0.0 == xnb.deep_view(),
                Err(e) => spec_payload::<T>(
                    old(rdr).input().subrange(old(rdr).position(), old(rdr).input().len() as int),
                    0,
                ) == Err::<(T::V, int), ErrorView>(e.deep_view()),
            },
    {
        let buffer = rdr.read_to_end();
        XNB::new(buffer)
    }

    /// Decodes a container: checks its header, then decodes its payload into
    /// the primary asset, which must be of type `T`.
    pub fn from_buffer(rdr: &mut Reader) -> (r: Result<XNB<T>, Error>)
        ensures
            final(rdr).input() == old(rdr).input(),
            match r {
                Ok(xnb) => spec_container::<T>(old(rdr).input(), old(rdr).position()) == Ok::<
                    (T::V, int),
                    ErrorView,
                >((xnb.deep_view(), final(rdr).position())),
                Err(e) => spec_container::<T>(old(rdr).input(), old(rdr).position()) == Err::<
                    (T::V, int),
                    ErrorView,
                >(e.deep_view()),
            },
    {
        let header = match read_header(rdr) {
            Ok(header) => header,
            Err(e) => {
                return Err(e);
            },
        };
        match header.decompressed_size {
            Some(decompressed_size) => {
                let buffer = match Self::decompress(
                    rdr,
                    header.compressed_size,
                    decompressed_size,
                ) {
                    Ok(buffer) => buffer,
                    Err(e) => {
                        return Err(e);
                    },
                };
                let mut decompressed = Reader::new(buffer.as_slice());
                XNB::from_uncompressed_buffer(&mut decompressed)
            },
            None => XNB::from_uncompressed_buffer(rdr),
        }
    }
}

/// Decoding is a function of the input and the expected type: two decodings
/// of one input as one type agree, in the value they give or in the failure
/// they end with, and in where they stop.
pub proof fn lemma_decoding_is_deterministic<T: Parse>(
    input: Seq<u8>,
    pos: int,
    first: Result<XNB<T>, Error>,
    first_end: int,
    second: Result<XNB<T>, Error>,
    second_end: int,
)
    requires
        decodes_as(first, first_end, spec_container::<T>(input, pos)),
        decodes_as(second, second_end, spec_container::<T>(input, pos)),
    ensures
        match (first, second) {
            (Ok(a), Ok(b)) => a.deep_view() == b.deep_view() && first_end == second_end,
            (Err(a), Err(b)) => a.deep_view() == b.deep_view(),
            _ => false,
        },
{
}

} // verus!

use xnb::{read_header, write_7bit_encoded_int, Error, Header, Reader, SurfaceFormat, Texture2d, XNB};

const TEXTURE: &str = "Microsoft.Xna.Framework.Content.Texture2DReader";

fn le(v: u32) -> Vec<u8> {
    v.to_le_bytes().to_vec()
}

fn text(s: &str) -> Vec<u8> {
    let mut out = write_7bit_encoded_int(s.len() as u32);
    out.extend_from_slice(s.as_bytes());
    out
}

fn header(platform: u8, version: u8, flags: u8, size: u32) -> Vec<u8> {
    let mut b = vec![b'X', b'N', b'B', platform, version, flags];
    b.extend(le(size));
    b
}

fn texture_payload(shared: u8) -> Vec<u8> {
    let mut b = vec![0x01];
    b.extend(text(TEXTURE));
    b.extend(le(0));
    b.push(shared);
    b.push(0x01);
    b.extend(le(0));
    b.extend(le(2));
    b.extend(le(1));
    b.extend(le(1));
    b.extend(le(8));
    b.extend([10u8, 20, 30, 40, 50, 60, 70, 80]);
    b
}

fn texture_container() -> Vec<u8> {
    let payload = texture_payload(0);
    let mut b = header(b'w', 5, 0, 10 + payload.len() as u32);
    b.extend(payload);
    b
}

fn decode_texture(bytes: &[u8]) -> Result<XNB<Texture2d>, Error> {
    XNB::<Texture2d>::from_buffer(&mut Reader::new(bytes))
}

#[test]
fn texture_end_to_end() {
    let bytes = texture_container();
    let mut rdr = Reader::new(&bytes);
    let xnb = XNB::<Texture2d>::from_buffer(&mut rdr).unwrap();
    assert_eq!(xnb.primary.format, SurfaceFormat::Color);
    assert_eq!(xnb.primary.width, 2);
    assert_eq!(xnb.primary.height, 1);
    assert_eq!(xnb.primary.mip_data.len(), 1);
    assert_eq!(xnb.primary.mip_data[0].len(), 8);
    assert_eq!(xnb.primary.mip_data[0], vec![10u8, 20, 30, 40, 50, 60, 70, 80]);
    assert_eq!(rdr.offset(), bytes.len());
}

#[test]
fn decoding_twice_gives_equal_values() {
    let bytes = texture_container();
    let first = decode_texture(&bytes);
    let second = decode_texture(&bytes);
    assert!(first.is_ok());
    assert_eq!(first, second);
    let broken = &bytes[..bytes.len() - 1];
    assert_eq!(decode_texture(broken), decode_texture(broken));
    assert_eq!(decode_texture(broken), Err(Error::Io));
}

#[test]
fn wrong_magic_is_malformed_before_anything_else_is_read() {
    assert_eq!(decode_texture(b"XNA"), Err(Error::Malformed));
    assert_eq!(decode_texture(b"abc"), Err(Error::Malformed));
    let mut bytes = texture_container();
    bytes[0] = b'Y';
    let mut rdr = Reader::new(&bytes);
    assert_eq!(read_header(&mut rdr), Err(Error::Malformed));
    assert_eq!(rdr.offset(), 3);
}

#[test]
fn short_magic_is_io() {
    assert_eq!(decode_texture(b""), Err(Error::Io));
    assert_eq!(decode_texture(b"XN"), Err(Error::Io));
    assert_eq!(decode_texture(b"XNB"), Err(Error::Io));
}

#[test]
fn unknown_platform_is_malformed() {
    let mut bytes = texture_container();
    bytes[3] = b'q';
    assert_eq!(decode_texture(&bytes), Err(Error::Malformed));
    for platform in [b'w', b'm', b'x'] {
        bytes[3] = platform;
        assert!(decode_texture(&bytes).is_ok());
    }
}

#[test]
fn unsupported_version_is_malformed() {
    let mut bytes = texture_container();
    bytes[4] = 4;
    assert_eq!(decode_texture(&bytes), Err(Error::Malformed));
    bytes[4] = 6;
    assert_eq!(decode_texture(&bytes), Err(Error::Malformed));
}

#[test]
fn compressed_container_is_unsupported() {
    let mut bytes = header(b'w', 5, 0x80, 100);
    bytes.extend(le(500));
    bytes.extend([0u8; 20]);
    assert_eq!(decode_texture(&bytes), Err(Error::UnsupportedCompression));
    let mut flagged = header(b'x', 5, 0x81, 14);
    flagged.extend(le(0));
    assert_eq!(decode_texture(&flagged), Err(Error::UnsupportedCompression));
}

#[test]
fn compressed_container_is_unsupported_whatever_its_sizes() {
    let mut bytes = header(b'w', 5, 0x80, 0);
    bytes.extend(le(0));
    assert_eq!(decode_texture(&bytes), Err(Error::UnsupportedCompression));
    let mut bytes = header(b'w', 5, 0xff, u32::MAX);
    bytes.extend(le(u32::MAX));
    assert_eq!(decode_texture(&bytes), Err(Error::UnsupportedCompression));
}

#[test]
fn compressed_container_without_decompressed_size_is_io() {
    let bytes = header(b'w', 5, 0x80, 100);
    assert_eq!(decode_texture(&bytes), Err(Error::Io));
}

#[test]
fn decompress_is_never_available() {
    let bytes = [0u8; 4];
    let rdr = Reader::new(&bytes);
    assert_eq!(XNB::<Texture2d>::decompress(&rdr, 4, 16), Err(Error::UnsupportedCompression));
}

#[test]
fn header_of_an_uncompressed_container() {
    let bytes = texture_container();
    let mut rdr = Reader::new(&bytes);
    assert_eq!(
        read_header(&mut rdr),
        Ok(Header {
            target: b'w',
            compressed: false,
            compressed_size: bytes.len() as u32,
            decompressed_size: None
        })
    );
    assert_eq!(rdr.offset(), 10);
}

#[test]
fn header_of_a_compressed_container() {
    let mut bytes = header(b'm', 5, 0x80, 77);
    bytes.extend(le(1234));
    let mut rdr = Reader::new(&bytes);
    assert_eq!(
        read_header(&mut rdr),
        Ok(Header {
            target: b'm',
            compressed: true,
            compressed_size: 77,
            decompressed_size: Some(1234)
        })
    );
    assert_eq!(rdr.offset(), 14);
}

#[test]
fn low_flag_bits_do_not_mark_compression() {
    let payload = texture_payload(0);
    let mut bytes = header(b'w', 5, 0x7f, 0);
    bytes.extend(payload);
    assert!(decode_texture(&bytes).is_ok());
}

#[test]
fn shared_resources_are_unsupported() {
    let payload = texture_payload(1);
    let mut bytes = header(b'w', 5, 0, 0);
    bytes.extend(payload);
    assert_eq!(decode_texture(&bytes), Err(Error::UnsupportedSharedResources(1)));
    assert_eq!(
        XNB::<Texture2d>::new(&texture_payload(3)),
        Err(Error::UnsupportedSharedResources(3))
    );
}

#[test]
fn primary_asset_of_another_type_is_a_mismatch() {
    let bytes = texture_container();
    assert_eq!(
        XNB::<i32>::from_buffer(&mut Reader::new(&bytes)),
        Err(Error::ReaderMismatch(
            TEXTURE.to_string(),
            "Microsoft.Xna.Framework.Content.Int32Reader".to_string()
        ))
    );
}

#[test]
fn payload_alone_decodes_from_its_first_byte() {
    let payload = texture_payload(0);
    let xnb = XNB::<Texture2d>::new(&payload).unwrap();
    assert_eq!(xnb.primary.mip_data[0].len(), 8);
    let mut rdr = Reader::new(&payload);
    let again = XNB::<Texture2d>::from_uncompressed_buffer(&mut rdr).unwrap();
    assert_eq!(xnb, again);
    assert_eq!(rdr.offset(), payload.len());
}

#[test]
fn bytes_behind_the_primary_asset_are_ignored() {
    let mut bytes = texture_container();
    bytes.extend([1u8, 2, 3]);
    let mut rdr = Reader::new(&bytes);
    assert!(XNB::<Texture2d>::from_buffer(&mut rdr).is_ok());
    assert_eq!(rdr.offset(), bytes.len());
}

#[test]
fn empty_reference_table_leaves_no_object_to_find() {
    let mut bytes = header(b'w', 5, 0, 0);
    bytes.extend([0x00, 0x00, 0x01]);
    assert_eq!(decode_texture(&bytes), Err(Error::Malformed));
}

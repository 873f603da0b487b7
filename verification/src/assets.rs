//! The assets that a container can hold: textures, sprite fonts and the
//! plain values they are made of.

use vstd::prelude::*;
use vstd::slice::slice_to_vec;

use crate::bytes::{
    spec_read_exact, spec_read_float, spec_read_i32, spec_read_u32, Float32, Reader,
};
use crate::error::{decodes_as, Decoded, Error, ErrorView};
use crate::parse::{
    read_nullable, read_object, spec_nullable, spec_read_object, Parse, TypeReader, TypeReaderView,
};
use crate::sequence::{lemma_deep_view_push, repeat_onto, repeated};

verus! {

/// How the pixels of a texture are laid out.
#[derive(Debug, Clone, Copy, PartialEq, Eq)]
pub enum SurfaceFormat {
    Color,
    Bgr565,
    Bgra5551,
    Bgra4444,
    Dxt1,
    Dxt3,
    Dxt5,
    NormalizedByte2,
    NormalizedByte4,
    Rgba1010102,
    Rg32,
    Rgba64,
    Alpha8,
    Single,
    Vector2,
    Vector4,
    HalfSingle,
    HalfVector2,
    HalfVector4,
    HdrBlendable,
}

/// The number of known surface formats; their codes are the numbers below
/// it.
pub const SURFACE_FORMATS: u32 = 20;

impl SurfaceFormat {
    /// The code that stands for the format in a container.
    pub open spec fn code(self) -> u32 {
        match self {
            SurfaceFormat::Color => 0,
            SurfaceFormat::Bgr565 => 1,
            SurfaceFormat::Bgra5551 => 2,
            SurfaceFormat::Bgra4444 => 3,
            SurfaceFormat::Dxt1 => 4,
            SurfaceFormat::Dxt3 => 5,
            SurfaceFormat::Dxt5 => 6,
            SurfaceFormat::NormalizedByte2 => 7,
            SurfaceFormat::NormalizedByte4 => 8,
            SurfaceFormat::Rgba1010102 => 9,
            SurfaceFormat::Rg32 => 10,
            SurfaceFormat::Rgba64 => 11,
            SurfaceFormat::Alpha8 => 12,
            SurfaceFormat::Single => 13,
            SurfaceFormat::Vector2 => 14,
            SurfaceFormat::Vector4 => 15,
            SurfaceFormat::HalfSingle => 16,
            SurfaceFormat::HalfVector2 => 17,
            SurfaceFormat::HalfVector4 => 18,
            SurfaceFormat::HdrBlendable => 19,
        }
    }

    /// The format that `code` stands for, where it stands for one.
    pub open spec fn with_code(code: u32) -> SurfaceFormat {
        choose|format: SurfaceFormat| format.code() == code
    }

    /// The format that `val` stands for; `UnrecognizedSurfaceFormat` where it
    /// stands for none.
    pub fn from(val: u32) -> (r: Result<SurfaceFormat, Error>)
        ensures
            match r {
                Ok(format) => val < SURFACE_FORMATS && format.code() == val && format
                    == SurfaceFormat::with_code(val),
                Err(e) => val >= SURFACE_FORMATS && e.deep_view()
                    == ErrorView::UnrecognizedSurfaceFormat(val),
            },
    {
        let format = match val {
                0 => SurfaceFormat::Color,
                1 => SurfaceFormat::Bgr565,
                2 => SurfaceFormat::Bgra5551,
                3 => SurfaceFormat::Bgra4444,
                4 => SurfaceFormat::Dxt1,
                5 => SurfaceFormat::Dxt3,
                6 => SurfaceFormat::Dxt5,
                7 => SurfaceFormat::NormalizedByte2,
                8 => SurfaceFormat::NormalizedByte4,
                9 => SurfaceFormat::Rgba1010102,
                10 => SurfaceFormat::Rg32,
                11 => SurfaceFormat::Rgba64,
                12 => SurfaceFormat::Alpha8,
                13 => SurfaceFormat::Single,
                14 => SurfaceFormat::Vector2,
                15 => SurfaceFormat::Vector4,
                16 => SurfaceFormat::HalfSingle,
                17 => SurfaceFormat::HalfVector2,
                18 => SurfaceFormat::HalfVector4,
                19 => SurfaceFormat::HdrBlendable,
                f => {
                    return Err(Error::UnrecognizedSurfaceFormat(f));
                },
            };
        proof {
            lemma_code_names_format(format, SurfaceFormat::with_code(val));
        }
        Ok(format)
    }
}

/// A texture: its format, its size in pixels, and the raw bytes of each of
/// its mip levels.
#[derive(Debug, PartialEq, Eq)]
pub struct Texture2d {
    pub format: SurfaceFormat,
    pub width: usize,
    pub height: usize,
    pub mip_data: Vec<Vec<u8>>,
}

/// The mathematical value of a [`Texture2d`].
pub struct Texture2dView {
    pub format: SurfaceFormat,
    pub width: usize,
    pub height: usize,
    pub mip_data: Seq<Seq<u8>>,
}

impl DeepView for Texture2d {
    type V = Texture2dView;

    open spec fn deep_view(&self) -> Texture2dView {
        Texture2dView {
            format: self.format,
            width: self.width,
            height: self.height,
            mip_data: self.mip_data.deep_view(),
        }
    }
}

/// Reading one mip level: a little-endian `u32` size, then that many bytes.
pub open spec fn spec_mip_level(input: Seq<u8>, pos: int) -> Decoded<Seq<u8>> {
    match spec_read_u32(input, pos) {
        Ok((size, start)) => spec_read_exact(input, start, size as int),
        Err(e) => Err(e),
    }
}

/// The decoder of one mip level of `input`, as a function of the position.
pub open spec fn mip_level_at(input: Seq<u8>) -> spec_fn(int) -> Decoded<Seq<u8>> {
    |pos: int| spec_mip_level(input, pos)
}

/// Reading a texture: the code of its format, which must be a known one,
/// its width, its height, the number of its mip levels, then the levels.
pub open spec fn spec_texture(input: Seq<u8>, pos: int) -> Decoded<Texture2dView> {
    match spec_read_u32(input, pos) {
        Ok((code, p1)) => if code >= SURFACE_FORMATS {
            Err(ErrorView::UnrecognizedSurfaceFormat(code))
        } else {
            match spec_read_u32(input, p1) {
                Ok((width, p2)) => match spec_read_u32(input, p2) {
                    Ok((height, p3)) => match spec_read_u32(input, p3) {
                        Ok((mip_count, p4)) => match repeated(
                            mip_level_at(input),
                            p4,
                            mip_count as nat,
                        ) {
                            Ok((mip_data, end)) => Ok(
                                (
                                    Texture2dView {
                                        format: SurfaceFormat::with_code(code),
                                        width: width as usize,
                                        height: height as usize,
                                        mip_data,
                                    },
                                    end,
                                ),
                            ),
                            Err(e) => Err(e),
                        },
                        Err(e) => Err(e),
                    },
                    Err(e) => Err(e),
                },
                Err(e) => Err(e),
            }
        },
        Err(e) => Err(e),
    }
}

/// Two formats with the same code are the same format.
pub proof fn lemma_code_names_format(a: SurfaceFormat, b: SurfaceFormat)
    requires
        a.code() == b.code(),
    ensures
        a == b,
{
}

/// Reads `count` mip levels.
pub fn read_mip_levels(rdr: &mut Reader, count: u32) -> (r: Result<Vec<Vec<u8>>, Error>)
    ensures
        final(rdr).input() == old(rdr).input(),
        decodes_as(
            r,
            final(rdr).position(),
            repeated(mip_level_at(old(rdr).input()), old(rdr).position(), count as nat),
        ),
{
    let ghost input = rdr.input();
    let mut mip_data: Vec<Vec<u8>> = Vec::new();
    let mut i: u32 = 0;
    assert(mip_data.deep_view() =~= Seq::empty());
    while i < count
        invariant
            rdr.input() == input,
            input == old(rdr).input(),
            i <= count,
            repeated(mip_level_at(input), old(rdr).position(), count as nat) == repeat_onto(
                mip_level_at(input),
                rdr.position(),
                (count - i) as nat,
                mip_data.deep_view(),
            ),
        decreases count - i,
    {
        let data_size = match rdr.read_u32() {
            Ok(data_size) => data_size as usize,
            Err(e) => {
                return Err(e);
            },
        };
        let data = match rdr.read_exact(data_size) {
            Ok(bytes) => slice_to_vec(bytes),
            Err(e) => {
                return Err(e);
            },
        };
        assert(data.deep_view() =~= data@);
        let ghost before = mip_data;
        let ghost pushed = data;
        mip_data.push(data);
        proof {
            lemma_deep_view_push(before, mip_data, pushed);
        }
        i = i + 1;
    }
    Ok(mip_data)
}

impl Texture2d {
    /// Reads a texture.
    pub fn new(rdr: &mut Reader) -> (r: Result<Texture2d, Error>)
        ensures
            final(rdr).input() == old(rdr).input(),
            decodes_as(r, final(rdr).position(), spec_texture(old(rdr).input(), old(rdr).position())),
    {
        let code = match rdr.read_u32() {
            Ok(code) => code,
            Err(e) => {
                return Err(e);
            },
        };
        let format = match SurfaceFormat::from(code) {
            Ok(format) => format,
            Err(e) => {
                return Err(e);
            },
        };
        let w = match rdr.read_u32() {
            Ok(w) => w as usize,
            Err(e) => {
                return Err(e);
            },
        };
        let h = match rdr.read_u32() {
            Ok(h) => h as usize,
            Err(e) => {
                return Err(e);
            },
        };
        let mip_count = match rdr.read_u32() {
            Ok(mip_count) => mip_count,
            Err(e) => {
                return Err(e);
            },
        };
        let mip_data = match read_mip_levels(rdr, mip_count) {
            Ok(mip_data) => mip_data,
            Err(e) => {
                return Err(e);
            },
        };
        Ok(Texture2d { format, width: w, height: h, mip_data })
    }
}

impl Parse for Texture2d {
    open spec fn reader_name() -> Seq<char> {
        "Microsoft.Xna.Framework.Content.Texture2DReader"@
    }

    open spec fn decoded(
        input: Seq<u8>,
        pos: int,
        readers: Seq<TypeReaderView>,
        args: Seq<Seq<char>>,
    ) -> Decoded<Texture2dView> {
        spec_texture(input, pos)
    }

    fn reader() -> (name: &'static str) {
        "Microsoft.Xna.Framework.Content.Texture2DReader"
    }

    fn try_parse(rdr: &mut Reader, readers: &[TypeReader], args: Vec<String>) -> (r: Result<
        Self,
        Error,
    >) {
        Texture2d::new(rdr)
    }
}

/// A rectangle: its corner and its extent.
#[derive(Debug, Clone, Copy, PartialEq, Eq)]
pub struct Rectangle {
    pub x: i32,
    pub y: i32,
    pub w: i32,
    pub h: i32,
}

impl DeepView for Rectangle {
    type V = Rectangle;

    open spec fn deep_view(&self) -> Rectangle {
        *self
    }
}

/// Reading a rectangle: `x`, `y`, `w`, `h` as little-endian `i32`s.
pub open spec fn spec_rectangle(input: Seq<u8>, pos: int) -> Decoded<Rectangle> {
    match spec_read_i32(input, pos) {
        Ok((x, p1)) => match spec_read_i32(input, p1) {
            Ok((y, p2)) => match spec_read_i32(input, p2) {
                Ok((w, p3)) => match spec_read_i32(input, p3) {
                    Ok((h, end)) => Ok((Rectangle { x, y, w, h }, end)),
                    Err(e) => Err(e),
                },
                Err(e) => Err(e),
            },
            Err(e) => Err(e),
        },
        Err(e) => Err(e),
    }
}

impl Rectangle {
    /// Reads a rectangle.
    pub fn new(rdr: &mut Reader) -> (r: Result<Rectangle, Error>)
        ensures
            final(rdr).input() == old(rdr).input(),
            decodes_as(r, final(rdr).position(), spec_rectangle(old(rdr).input(), old(rdr).position())),
    {
        let x = match rdr.read_i32() {
            Ok(x) => x,
            Err(e) => {
                return Err(e);
            },
        };
        let y = match rdr.read_i32() {
            Ok(y) => y,
            Err(e) => {
                return Err(e);
            },
        };
        let w = match rdr.read_i32() {
            Ok(w) => w,
            Err(e) => {
                return Err(e);
            },
        };
        let h = match rdr.read_i32() {
            Ok(h) => h,
            Err(e) => {
                return Err(e);
            },
        };
        Ok(Rectangle { x, y, w, h })
    }
}

impl Parse for Rectangle {
    open spec fn reader_name() -> Seq<char> {
        "Microsoft.Xna.Framework.Content.RectangleReader"@
    }

    open spec fn decoded(
        input: Seq<u8>,
        pos: int,
        readers: Seq<TypeReaderView>,
        args: Seq<Seq<char>>,
    ) -> Decoded<Rectangle> {
        spec_rectangle(input, pos)
    }

    fn reader() -> (name: &'static str) {
        "Microsoft.Xna.Framework.Content.RectangleReader"
    }

    fn try_parse(rdr: &mut Reader, readers: &[TypeReader], args: Vec<String>) -> (r: Result<
        Self,
        Error,
    >) {
        Rectangle::new(rdr)
    }
}

/// A vector of three single-precision numbers.
#[derive(Debug, Clone, Copy, PartialEq, Eq)]
pub struct Vector3(pub Float32, pub Float32, pub Float32);

impl DeepView for Vector3 {
    type V = Vector3;

    open spec fn deep_view(&self) -> Vector3 {
        *self
    }
}

/// Reading a vector: three little-endian single-precision numbers.
pub open spec fn spec_vector3(input: Seq<u8>, pos: int) -> Decoded<Vector3> {
    match spec_read_float(input, pos) {
        Ok((x, p1)) => match spec_read_float(input, p1) {
            Ok((y, p2)) => match spec_read_float(input, p2) {
                Ok((z, end)) => Ok((Vector3(x, y, z), end)),
                Err(e) => Err(e),
            },
            Err(e) => Err(e),
        },
        Err(e) => Err(e),
    }
}

impl Parse for Vector3 {
    open spec fn reader_name() -> Seq<char> {
        "Microsoft.Xna.Framework.Content.Vector3Reader"@
    }

    open spec fn decoded(
        input: Seq<u8>,
        pos: int,
        readers: Seq<TypeReaderView>,
        args: Seq<Seq<char>>,
    ) -> Decoded<Vector3> {
        spec_vector3(input, pos)
    }

    fn reader() -> (name: &'static str) {
        "Microsoft.Xna.Framework.Content.Vector3Reader"
    }

    fn try_parse(rdr: &mut Reader, readers: &[TypeReader], args: Vec<String>) -> (r: Result<
        Self,
        Error,
    >) {
        let x = match rdr.read_float() {
            Ok(x) => x,
            Err(e) => {
                return Err(e);
            },
        };
        let y = match rdr.read_float() {
            Ok(y) => y,
            Err(e) => {
                return Err(e);
            },
        };
        let z = match rdr.read_float() {
            Ok(z) => z,
            Err(e) => {
                return Err(e);
            },
        };
        Ok(Vector3(x, y, z))
    }
}

/// A font drawn from a texture: where each glyph lies in the texture, how it
/// is cropped, which character it draws, and how glyphs are spaced.
#[derive(Debug, PartialEq, Eq)]
pub struct SpriteFont {
    pub texture: Texture2d,
    pub glyphs: Vec<Rectangle>,
    pub cropping: Vec<Rectangle>,
    pub char_map: Vec<char>,
    pub v_spacing: i32,
    pub h_spacing: Float32,
    pub kerning: Vec<Vector3>,
    pub default: Option<char>,
}

/// The mathematical value of a [`SpriteFont`].
pub struct SpriteFontView {
    pub texture: Texture2dView,
    pub glyphs: Seq<Rectangle>,
    pub cropping: Seq<Rectangle>,
    pub char_map: Seq<char>,
    pub v_spacing: i32,
    pub h_spacing: Float32,
    pub kerning: Seq<Vector3>,
    pub default: Option<char>,
}

impl DeepView for SpriteFont {
    type V = SpriteFontView;

    open spec fn deep_view(&self) -> SpriteFontView {
        SpriteFontView {
            texture: self.texture.deep_view(),
            glyphs: self.glyphs.deep_view(),
            cropping: self.cropping.deep_view(),
            char_map: self.char_map.deep_view(),
            v_spacing: self.v_spacing,
            h_spacing: self.h_spacing,
            kerning: self.kerning.deep_view(),
            default: self.default.deep_view(),
        }
    }
}

/// Reading a sprite font, field by field in this order: the texture, the
/// glyphs, the cropping and the character map as objects, the vertical
/// spacing, the horizontal spacing, the kerning as an object, and the
/// default character behind a presence byte.
pub open spec fn spec_sprite_font(input: Seq<u8>, pos: int, readers: Seq<TypeReaderView>) -> Decoded<
    SpriteFontView,
> {
    match spec_read_object::<Texture2d>(input, pos, readers) {
        Ok((texture, p1)) => match spec_read_object::<Vec<Rectangle>>(input, p1, readers) {
            Ok((glyphs, p2)) => match spec_read_object::<Vec<Rectangle>>(input, p2, readers) {
                Ok((cropping, p3)) => match spec_read_object::<Vec<char>>(input, p3, readers) {
                    Ok((char_map, p4)) => match spec_read_i32(input, p4) {
                        Ok((v_spacing, p5)) => match spec_read_float(input, p5) {
                            Ok((h_spacing, p6)) => match spec_read_object::<Vec<Vector3>>(
                                input,
                                p6,
                                readers,
                            ) {
                                Ok((kerning, p7)) => match spec_nullable::<char>(
                                    input,
                                    p7,
                                    readers,
                                ) {
                                    Ok((default, end)) => Ok(
                                        (
                                            SpriteFontView {
                                                texture,
                                                glyphs,
                                                cropping,
                                                char_map,
                                                v_spacing,
                                                h_spacing,
                                                kerning,
                                                default,
                                            },
                                            end,
                                        ),
                                    ),
                                    Err(e) => Err(e),
                                },
                                Err(e) => Err(e),
                            },
                            Err(e) => Err(e),
                        },
                        Err(e) => Err(e),
                    },
                    Err(e) => Err(e),
                },
                Err(e) => Err(e),
            },
            Err(e) => Err(e),
        },
        Err(e) => Err(e),
    }
}

impl SpriteFont {
    /// Reads a sprite font.
    pub fn new(rdr: &mut Reader, readers: &[TypeReader]) -> (r: Result<SpriteFont, Error>)
        ensures
            final(rdr).input() == old(rdr).input(),
            decodes_as(
                r,
                final(rdr).position(),
                spec_sprite_font(old(rdr).input(), old(rdr).position(), readers.deep_view()),
            ),
    {
        let texture = match read_object::<Texture2d>(rdr, readers) {
            Ok(texture) => texture,
            Err(e) => {
                return Err(e);
            },
        };
        let glyphs = match read_object::<Vec<Rectangle>>(rdr, readers) {
            Ok(glyphs) => glyphs,
            Err(e) => {
                return Err(e);
            },
        };
        let cropping = match read_object::<Vec<Rectangle>>(rdr, readers) {
            Ok(cropping) => cropping,
            Err(e) => {
                return Err(e);
            },
        };
        let char_map = match read_object::<Vec<char>>(rdr, readers) {
            Ok(char_map) => char_map,
            Err(e) => {
                return Err(e);
            },
        };
        let v_spacing = match rdr.read_i32() {
            Ok(v_spacing) => v_spacing,
            Err(e) => {
                return Err(e);
            },
        };
        let h_spacing = match rdr.read_float() {
            Ok(h_spacing) => h_spacing,
            Err(e) => {
                return Err(e);
            },
        };
        let kerning = match read_object::<Vec<Vector3>>(rdr, readers) {
            Ok(kerning) => kerning,
            Err(e) => {
                return Err(e);
            },
        };
        let default = match read_nullable::<char>(rdr, readers) {
            Ok(default) => default,
            Err(e) => {
                return Err(e);
            },
        };
        Ok(
            SpriteFont {
                texture,
                glyphs,
                cropping,
                char_map,
                v_spacing,
                h_spacing,
                kerning,
                default,
            },
        )
    }
}

impl Parse for SpriteFont {
    open spec fn reader_name() -> Seq<char> {
        "Microsoft.Xna.Framework.Content.SpriteFontReader"@
    }

    open spec fn decoded(
        input: Seq<u8>,
        pos: int,
        readers: Seq<TypeReaderView>,
        args: Seq<Seq<char>>,
    ) -> Decoded<SpriteFontView> {
        spec_sprite_font(input, pos, readers)
    }

    fn reader() -> (name: &'static str) {
        "Microsoft.Xna.Framework.Content.SpriteFontReader"
    }

    fn try_parse(rdr: &mut Reader, readers: &[TypeReader], args: Vec<String>) -> (r: Result<
        Self,
        Error,
    >) {
        SpriteFont::new(rdr, readers)
    }
}

} // verus!

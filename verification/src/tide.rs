//! The tilemap carried inside a container: a length-prefixed blob that holds
//! a map with its tilesheets, its layers and, for each layer, a stream of
//! tagged tiles.

use vstd::prelude::*;

use crate::bytes::{
    has_bytes, spec_read_exact, spec_read_float, spec_read_i32, spec_read_u32, spec_read_u8,
    Float32, Reader,
};
use crate::error::{decodes_as, Decoded, Error, ErrorView};
use crate::parse::{Parse, TypeReader, TypeReaderView};
use crate::sequence::{lemma_deep_view_push, lemma_repeat_advances, repeat_onto, repeated};
use crate::varint::{read_string_with_length, spec_read_chars, str_eq};

verus! {

/// The value of a property.
#[derive(Debug, PartialEq, Eq)]
pub enum PropertyValue {
    Bool(bool),
    Int(i32),
    Float(Float32),
    String(String),
}

/// The mathematical value of a [`PropertyValue`].
pub enum PropertyValueView {
    Bool(bool),
    Int(i32),
    Float(Float32),
    String(Seq<char>),
}

impl DeepView for PropertyValue {
    type V = PropertyValueView;

    open spec fn deep_view(&self) -> PropertyValueView {
        match *self {
            PropertyValue::Bool(b) => PropertyValueView::Bool(b),
            PropertyValue::Int(i) => PropertyValueView::Int(i),
            PropertyValue::Float(x) => PropertyValueView::Float(x),
            PropertyValue::String(s) => PropertyValueView::String(s@),
        }
    }
}

/// A list of named properties, in the order of the input.
pub type PropertyList = Seq<(Seq<char>, PropertyValueView)>;

/// How a consumer keeps the properties of a map, tilesheet, layer or tile:
/// the decoder reads each property list in full and hands it to `parse`.
pub trait PropertyParse: Sized + DeepView {
    /// What the representation holds for a given property list.
    spec fn converted(props: PropertyList) -> Self::V;

    /// Builds the representation from a property list.
    fn parse(props: Vec<(String, PropertyValue)>) -> (kept: Self)
        ensures
            kept.deep_view() == Self::converted(props.deep_view()),
    ;
}

/// Keeps every property, in order.
impl PropertyParse for Vec<(String, PropertyValue)> {
    open spec fn converted(props: PropertyList) -> PropertyList {
        props
    }

    fn parse(props: Vec<(String, PropertyValue)>) -> (kept: Self) {
        props
    }
}

/// Keeps nothing.
impl PropertyParse for () {
    open spec fn converted(props: PropertyList) -> () {
        ()
    }

    fn parse(props: Vec<(String, PropertyValue)>) -> (kept: Self) {
        ()
    }
}

/// The kind byte of a boolean property.
pub const PROPERTY_BOOL: u8 = 0;

/// The kind byte of an integer property.
pub const PROPERTY_INT: u8 = 1;

/// The kind byte of a floating-point property.
pub const PROPERTY_FLOAT: u8 = 2;

/// The kind byte of a string property.
pub const PROPERTY_STRING: u8 = 3;

/// Reading a string whose length in bytes is a little-endian `u32`.
pub open spec fn spec_tide_string(input: Seq<u8>, pos: int) -> Decoded<Seq<char>> {
    match spec_read_u32(input, pos) {
        Ok((len, start)) => spec_read_chars(input, start, len as int),
        Err(e) => Err(e),
    }
}

/// Reading a property value: a kind byte, then the value in the form of its
/// kind. An unknown kind is malformed.
pub open spec fn spec_property_value(input: Seq<u8>, pos: int) -> Decoded<PropertyValueView> {
    match spec_read_u8(input, pos) {
        Ok((kind, start)) => if kind == PROPERTY_BOOL {
            match spec_read_u8(input, start) {
                Ok((b, end)) => Ok((PropertyValueView::Bool(b != 0), end)),
                Err(e) => Err(e),
            }
        } else if kind == PROPERTY_INT {
            match spec_read_i32(input, start) {
                Ok((i, end)) => Ok((PropertyValueView::Int(i), end)),
                Err(e) => Err(e),
            }
        } else if kind == PROPERTY_FLOAT {
            match spec_read_float(input, start) {
                Ok((x, end)) => Ok((PropertyValueView::Float(x), end)),
                Err(e) => Err(e),
            }
        } else if kind == PROPERTY_STRING {
            match spec_tide_string(input, start) {
                Ok((s, end)) => Ok((PropertyValueView::String(s), end)),
                Err(e) => Err(e),
            }
        } else {
            Err(ErrorView::Malformed)
        },
        Err(e) => Err(e),
    }
}

/// Reading one property: its name, then its value.
pub open spec fn spec_property(input: Seq<u8>, pos: int) -> Decoded<(Seq<char>, PropertyValueView)> {
    match spec_tide_string(input, pos) {
        Ok((name, start)) => match spec_property_value(input, start) {
            Ok((value, end)) => Ok(((name, value), end)),
            Err(e) => Err(e),
        },
        Err(e) => Err(e),
    }
}

/// The decoder of one property of `input`, as a function of the position.
pub open spec fn property_at(input: Seq<u8>) -> spec_fn(int) -> Decoded<(Seq<char>, PropertyValueView)> {
    |pos: int| spec_property(input, pos)
}

/// Reading a property list: a little-endian `u32` count, then that many
/// properties.
pub open spec fn spec_properties(input: Seq<u8>, pos: int) -> Decoded<PropertyList> {
    match spec_read_u32(input, pos) {
        Ok((count, start)) => repeated(property_at(input), start, count as nat),
        Err(e) => Err(e),
    }
}

/// Reads a string whose length in bytes is a little-endian `u32`.
pub fn read_tide_string(rdr: &mut Reader) -> (r: Result<String, Error>)
    ensures
        final(rdr).input() == old(rdr).input(),
        decodes_as(r, final(rdr).position(), spec_tide_string(old(rdr).input(), old(rdr).position())),
{
    let len = match rdr.read_u32() {
        Ok(len) => len,
        Err(e) => {
            return Err(e);
        },
    };
    read_string_with_length(rdr, len)
}

/// Reads a property value.
pub fn read_property_value(rdr: &mut Reader) -> (r: Result<PropertyValue, Error>)
    ensures
        final(rdr).input() == old(rdr).input(),
        decodes_as(r, final(rdr).position(), spec_property_value(old(rdr).input(), old(rdr).position())),
{
    let kind = match rdr.read_u8() {
        Ok(kind) => kind,
        Err(e) => {
            return Err(e);
        },
    };
    if kind == PROPERTY_BOOL {
        match rdr.read_u8() {
            Ok(b) => Ok(PropertyValue::Bool(b != 0)),
            Err(e) => Err(e),
        }
    } else if kind == PROPERTY_INT {
        match rdr.read_i32() {
            Ok(i) => Ok(PropertyValue::Int(i)),
            Err(e) => Err(e),
        }
    } else if kind == PROPERTY_FLOAT {
        match rdr.read_float() {
            Ok(x) => Ok(PropertyValue::Float(x)),
            Err(e) => Err(e),
        }
    } else if kind == PROPERTY_STRING {
        match read_tide_string(rdr) {
            Ok(s) => Ok(PropertyValue::String(s)),
            Err(e) => Err(e),
        }
    } else {
        Err(Error::Malformed)
    }
}

/// Reads a property list.
pub fn read_tide_properties(rdr: &mut Reader) -> (r: Result<Vec<(String, PropertyValue)>, Error>)
    ensures
        final(rdr).input() == old(rdr).input(),
        decodes_as(r, final(rdr).position(), spec_properties(old(rdr).input(), old(rdr).position())),
{
    let count = match rdr.read_u32() {
        Ok(count) => count,
        Err(e) => {
            return Err(e);
        },
    };
    let ghost input = rdr.input();
    let mut props: Vec<(String, PropertyValue)> = Vec::new();
    let mut i: u32 = 0;
    assert(props.deep_view() =~= Seq::empty());
    while i < count
        invariant
            rdr.input() == input,
            input == old(rdr).input(),
            i <= count,
            spec_properties(input, old(rdr).position()) == repeat_onto(
                property_at(input),
                rdr.position(),
                (count - i) as nat,
                props.deep_view(),
            ),
        decreases count - i,
    {
        let name = match read_tide_string(rdr) {
            Ok(name) => name,
            Err(e) => {
                return Err(e);
            },
        };
        let value = match read_property_value(rdr) {
            Ok(value) => value,
            Err(e) => {
                return Err(e);
            },
        };
        let ghost before = props;
        let ghost entry = (name, value);
        props.push((name, value));
        proof {
            lemma_deep_view_push(before, props, entry);
        }
        i = i + 1;
    }
    Ok(props)
}

/// Every property list ends at or behind its start, within the input.
proof fn lemma_properties_advance(input: Seq<u8>, pos: int)
    ensures
        spec_properties(input, pos) is Ok ==> pos <= spec_properties(input, pos)->Ok_0.1
            <= input.len(),
{
    if let Ok((count, start)) = spec_read_u32(input, pos) {
        lemma_repeat_advances(property_at(input), start, count as nat, Seq::empty(), input.len() as int);
    }
}

/// A tile that shows one image of a tilesheet.
#[derive(Debug, PartialEq, Eq)]
pub struct StaticTile<T> {
    pub tilesheet: String,
    pub idx: u32,
    pub pos: (u32, u32),
    pub blend_mode: u8,
    pub properties: T,
}

/// The mathematical value of a [`StaticTile`].
pub struct StaticTileView<T> {
    pub tilesheet: Seq<char>,
    pub idx: u32,
    pub pos: (u32, u32),
    pub blend_mode: u8,
    pub properties: T,
}

impl<T: DeepView> DeepView for StaticTile<T> {
    type V = StaticTileView<T::V>;

    open spec fn deep_view(&self) -> StaticTileView<T::V> {
        StaticTileView {
            tilesheet: self.tilesheet@,
            idx: self.idx,
            pos: self.pos,
            blend_mode: self.blend_mode,
            properties: self.properties.deep_view(),
        }
    }
}

/// A tile that cycles through frames, each shown for `interval` ticks.
#[derive(Debug, PartialEq, Eq)]
pub struct AnimatedTile<T> {
    pub interval: u32,
    pub pos: (u32, u32),
    pub frames: Vec<StaticTile<T>>,
    pub properties: T,
}

/// The mathematical value of an [`AnimatedTile`].
pub struct AnimatedTileView<T> {
    pub interval: u32,
    pub pos: (u32, u32),
    pub frames: Seq<StaticTileView<T>>,
    pub properties: T,
}

impl<T: DeepView> DeepView for AnimatedTile<T> {
    type V = AnimatedTileView<T::V>;

    open spec fn deep_view(&self) -> AnimatedTileView<T::V> {
        AnimatedTileView {
            interval: self.interval,
            pos: self.pos,
            frames: self.frames.deep_view(),
            properties: self.properties.deep_view(),
        }
    }
}

/// A tile of a layer.
#[derive(Debug, PartialEq, Eq)]
pub enum Tile<T> {
    Static(StaticTile<T>),
    Animated(AnimatedTile<T>),
}

/// The mathematical value of a [`Tile`].
pub enum TileView<T> {
    Static(StaticTileView<T>),
    Animated(AnimatedTileView<T>),
}

impl<T: DeepView> DeepView for Tile<T> {
    type V = TileView<T::V>;

    open spec fn deep_view(&self) -> TileView<T::V> {
        match *self {
            Tile::Static(tile) => TileView::Static(tile.deep_view()),
            Tile::Animated(tile) => TileView::Animated(tile.deep_view()),
        }
    }
}

impl<T> Tile<T> {
    /// The tile shows something at every tick: an animated tile has frames
    /// and a positive interval.
    pub open spec fn is_drawable(&self) -> bool {
        match *self {
            Tile::Static(_) => true,
            Tile::Animated(tile) => tile.interval > 0 && tile.frames@.len() > 0,
        }
    }

    /// The tile has a first image: an animated tile has a frame.
    pub open spec fn has_frame(&self) -> bool {
        match *self {
            Tile::Static(_) => true,
            Tile::Animated(tile) => tile.frames@.len() > 0,
        }
    }

    /// The image index that the tile shows at `tick`: its own for a static
    /// tile, that of the frame whose turn it is for an animated one.
    pub fn get_index(&self, tick: u32) -> (idx: u32)
        requires
            self.is_drawable(),
        ensures
            idx == match *self {
                Tile::Static(tile) => tile.idx,
                Tile::Animated(tile) => tile.frames@[(tick / tile.interval) as int
                    % tile.frames@.len() as int].idx,
            },
    {
        match self {
            Tile::Static(tile) => tile.idx,
            Tile::Animated(tile) => {
                let turn = (tick / tile.interval) as usize % tile.frames.len();
                tile.frames[turn].idx
            },
        }
    }

    /// The tilesheet of the tile, for an animated tile that of its first
    /// frame.
    pub fn get_tilesheet(&self) -> (name: &str)
        requires
            self.has_frame(),
        ensures
            name@ == match *self {
                Tile::Static(tile) => tile.tilesheet@,
                Tile::Animated(tile) => tile.frames@[0].tilesheet@,
            },
    {
        match self {
            Tile::Static(tile) => tile.tilesheet.as_str(),
            Tile::Animated(tile) => tile.frames[0].tilesheet.as_str(),
        }
    }

    /// The position of the tile, for an animated tile that of its first
    /// frame.
    pub fn get_pos(&self) -> (pos: (u32, u32))
        requires
            self.has_frame(),
        ensures
            pos == match *self {
                Tile::Static(tile) => tile.pos,
                Tile::Animated(tile) => tile.frames@[0].pos,
            },
    {
        match self {
            Tile::Static(tile) => tile.pos,
            Tile::Animated(tile) => tile.frames[0].pos,
        }
    }

    /// The properties of the tile, for an animated tile those of the tile as
    /// a whole.
    pub fn properties(&self) -> (props: &T)
        ensures
            *props == match *self {
                Tile::Static(tile) => tile.properties,
                Tile::Animated(tile) => tile.properties,
            },
    {
        match self {
            Tile::Static(tile) => &tile.properties,
            Tile::Animated(tile) => &tile.properties,
        }
    }
}

/// Reading the body of a static tile that stands at `at` and shows an image
/// of `sheet`: its image index, its blend mode, its properties.
pub open spec fn spec_static_tile<P: PropertyParse>(
    input: Seq<u8>,
    pos: int,
    sheet: Seq<char>,
    at: (u32, u32),
) -> Decoded<StaticTileView<P::V>> {
    match spec_read_u32(input, pos) {
        Ok((idx, after_idx)) => match spec_read_u8(input, after_idx) {
            Ok((blend_mode, after_blend)) => match spec_properties(input, after_blend) {
                Ok((props, end)) => Ok(
                    (
                        StaticTileView {
                            tilesheet: sheet,
                            idx,
                            pos: at,
                            blend_mode,
                            properties: P::converted(props),
                        },
                        end,
                    ),
                ),
                Err(e) => Err(e),
            },
            Err(e) => Err(e),
        },
        Err(e) => Err(e),
    }
}

/// Every static tile ends behind its start, within the input.
proof fn lemma_static_tile_advances<P: PropertyParse>(
    input: Seq<u8>,
    pos: int,
    sheet: Seq<char>,
    at: (u32, u32),
)
    ensures
        spec_static_tile::<P>(input, pos, sheet, at) is Ok ==> pos < spec_static_tile::<P>(
            input,
            pos,
            sheet,
            at,
        )->Ok_0.1 <= input.len(),
{
    lemma_properties_advance(input, pos + 5);
}

/// Reads the body of a static tile and stamps it with its tilesheet and its
/// position.
pub fn read_static_tile<T: PropertyParse>(rdr: &mut Reader, tilesheet: String, pos: (u32, u32)) -> (r:
    Result<StaticTile<T>, Error>)
    ensures
        final(rdr).input() == old(rdr).input(),
        decodes_as(
            r,
            final(rdr).position(),
            spec_static_tile::<T>(old(rdr).input(), old(rdr).position(), tilesheet@, pos),
        ),
{
    let idx = match rdr.read_u32() {
        Ok(idx) => idx,
        Err(e) => {
            return Err(e);
        },
    };
    let blend_mode = match rdr.read_u8() {
        Ok(blend_mode) => blend_mode,
        Err(e) => {
            return Err(e);
        },
    };
    let props = match read_tide_properties(rdr) {
        Ok(props) => props,
        Err(e) => {
            return Err(e);
        },
    };
    let properties = T::parse(props);
    Ok(StaticTile { tilesheet, idx, pos, blend_mode, properties })
}

/// The tag that names the tilesheet of the tiles that follow.
pub const TAG_TILESHEET: u8 = 0x54;

/// The tag of a static tile.
pub const TAG_STATIC: u8 = 0x53;

/// The tag of a run of empty cells.
pub const TAG_EMPTY_RUN: u8 = 0x4e;

/// The tag of an animated tile.
pub const TAG_ANIMATED: u8 = 0x41;

/// Tiles read so far, and the tilesheet that the next tile will show.
pub type Scan<V> = (Seq<V>, Option<Seq<char>>);

/// Reading the frames of an animated tile at `at`: tagged items until `left`
/// frames are read. A tilesheet tag sets the current tilesheet and counts for
/// no frame; a static tag reads one frame, which needs a current tilesheet;
/// any other tag is refused. `done` holds the frames read before `pos`.
pub open spec fn spec_frames<P: PropertyParse>(
    input: Seq<u8>,
    pos: int,
    left: nat,
    at: (u32, u32),
    sheet: Option<Seq<char>>,
    done: Seq<StaticTileView<P::V>>,
) -> Decoded<Scan<StaticTileView<P::V>>>
    decreases input.len() - pos,
    via spec_frames_decreases::<P>
{
    if left == 0 {
        Ok(((done, sheet), pos))
    } else {
        match spec_read_u8(input, pos) {
            Ok((tag, start)) => if tag == TAG_TILESHEET {
                match spec_tide_string(input, start) {
                    Ok((name, next)) => spec_frames::<P>(input, next, left, at, Some(name), done),
                    Err(e) => Err(e),
                }
            } else if tag == TAG_STATIC {
                match sheet {
                    Some(name) => match spec_static_tile::<P>(input, start, name, at) {
                        Ok((frame, next)) => spec_frames::<P>(
                            input,
                            next,
                            (left - 1) as nat,
                            at,
                            sheet,
                            done.push(frame),
                        ),
                        Err(e) => Err(e),
                    },
                    None => Err(ErrorView::Malformed),
                }
            } else {
                Err(ErrorView::MalformedTileTag(tag))
            },
            Err(e) => Err(e),
        }
    }
}

#[via_fn]
proof fn spec_frames_decreases<P: PropertyParse>(
    input: Seq<u8>,
    pos: int,
    left: nat,
    at: (u32, u32),
    sheet: Option<Seq<char>>,
    done: Seq<StaticTileView<P::V>>,
) {
    if let Some(name) = sheet {
        lemma_static_tile_advances::<P>(input, pos + 1, name, at);
    }
}

/// The frames of an animated tile end at or behind their start, within the
/// input.
proof fn lemma_frames_advance<P: PropertyParse>(
    input: Seq<u8>,
    pos: int,
    left: nat,
    at: (u32, u32),
    sheet: Option<Seq<char>>,
    done: Seq<StaticTileView<P::V>>,
)
    requires
        pos <= input.len(),
    ensures
        spec_frames::<P>(input, pos, left, at, sheet, done) is Ok ==> pos <= spec_frames::<P>(
            input,
            pos,
            left,
            at,
            sheet,
            done,
        )->Ok_0.1 <= input.len(),
    decreases input.len() - pos,
{
    if left > 0 {
        if let Ok((tag, start)) = spec_read_u8(input, pos) {
            if tag == TAG_TILESHEET {
                if let Ok((name, next)) = spec_tide_string(input, start) {
                    lemma_frames_advance::<P>(input, next, left, at, Some(name), done);
                }
            } else if tag == TAG_STATIC {
                if let Some(name) = sheet {
                    lemma_static_tile_advances::<P>(input, start, name, at);
                    if let Ok((frame, next)) = spec_static_tile::<P>(input, start, name, at) {
                        lemma_frames_advance::<P>(
                            input,
                            next,
                            (left - 1) as nat,
                            at,
                            sheet,
                            done.push(frame),
                        );
                    }
                }
            }
        }
    }
}

/// Reading the body of an animated tile at `at`: its interval, the number of
/// its frames, the frames, and the properties of the tile as a whole. The
/// tilesheet that the frames leave current comes back with the tile.
pub open spec fn spec_animated_tile<P: PropertyParse>(
    input: Seq<u8>,
    pos: int,
    at: (u32, u32),
    sheet: Option<Seq<char>>,
) -> Decoded<(AnimatedTileView<P::V>, Option<Seq<char>>)> {
    match spec_read_u32(input, pos) {
        Ok((interval, after_interval)) => match spec_read_u32(input, after_interval) {
            Ok((frame_count, start)) => match spec_frames::<P>(
                input,
                start,
                frame_count as nat,
                at,
                sheet,
                Seq::empty(),
            ) {
                Ok(((frames, last_sheet), after_frames)) => match spec_properties(
                    input,
                    after_frames,
                ) {
                    Ok((props, end)) => Ok(
                        (
                            (
                                AnimatedTileView {
                                    interval,
                                    pos: at,
                                    frames,
                                    properties: P::converted(props),
                                },
                                last_sheet,
                            ),
                            end,
                        ),
                    ),
                    Err(e) => Err(e),
                },
                Err(e) => Err(e),
            },
            Err(e) => Err(e),
        },
        Err(e) => Err(e),
    }
}

/// Every animated tile ends behind its start, within the input.
proof fn lemma_animated_tile_advances<P: PropertyParse>(
    input: Seq<u8>,
    pos: int,
    at: (u32, u32),
    sheet: Option<Seq<char>>,
)
    ensures
        spec_animated_tile::<P>(input, pos, at, sheet) is Ok ==> pos < spec_animated_tile::<P>(
            input,
            pos,
            at,
            sheet,
        )->Ok_0.1 <= input.len(),
{
    if let Ok((interval, after_interval)) = spec_read_u32(input, pos) {
        if let Ok((frame_count, start)) = spec_read_u32(input, after_interval) {
            lemma_frames_advance::<P>(input, start, frame_count as nat, at, sheet, Seq::empty());
            if let Ok(((frames, last_sheet), after_frames)) = spec_frames::<P>(
                input,
                start,
                frame_count as nat,
                at,
                sheet,
                Seq::empty(),
            ) {
                lemma_properties_advance(input, after_frames);
            }
        }
    }
}

/// Reading one row `y` of a layer `width` cells wide, from cell `x` on:
/// tagged items until the cell index reaches the width. A tilesheet tag sets
/// the current tilesheet and moves to no other cell; a static or animated
/// tag reads one tile for cell `x` and moves one cell on; an empty-run tag
/// reads a run length and moves that many cells on without a tile; any other
/// tag is refused. `done` holds the tiles read before `pos`.
pub open spec fn spec_tile_row<P: PropertyParse>(
    input: Seq<u8>,
    pos: int,
    width: u32,
    x: int,
    y: u32,
    sheet: Option<Seq<char>>,
    done: Seq<TileView<P::V>>,
) -> Decoded<Scan<TileView<P::V>>>
    decreases input.len() - pos,
    via spec_tile_row_decreases::<P>
{
    if x >= width {
        Ok(((done, sheet), pos))
    } else {
        match spec_read_u8(input, pos) {
            Ok((tag, start)) => if tag == TAG_TILESHEET {
                match spec_tide_string(input, start) {
                    Ok((name, next)) => spec_tile_row::<P>(
                        input,
                        next,
                        width,
                        x,
                        y,
                        Some(name),
                        done,
                    ),
                    Err(e) => Err(e),
                }
            } else if tag == TAG_STATIC {
                match sheet {
                    Some(name) => match spec_static_tile::<P>(input, start, name, (x as u32, y)) {
                        Ok((tile, next)) => spec_tile_row::<P>(
                            input,
                            next,
                            width,
                            x + 1,
                            y,
                            sheet,
                            done.push(TileView::Static(tile)),
                        ),
                        Err(e) => Err(e),
                    },
                    None => Err(ErrorView::Malformed),
                }
            } else if tag == TAG_EMPTY_RUN {
                match spec_read_u32(input, start) {
                    Ok((run, next)) => spec_tile_row::<P>(
                        input,
                        next,
                        width,
                        x + run,
                        y,
                        sheet,
                        done,
                    ),
                    Err(e) => Err(e),
                }
            } else if tag == TAG_ANIMATED {
                match spec_animated_tile::<P>(input, start, (x as u32, y), sheet) {
                    Ok(((tile, last_sheet), next)) => spec_tile_row::<P>(
                        input,
                        next,
                        width,
                        x + 1,
                        y,
                        last_sheet,
                        done.push(TileView::Animated(tile)),
                    ),
                    Err(e) => Err(e),
                }
            } else {
                Err(ErrorView::MalformedTileTag(tag))
            },
            Err(e) => Err(e),
        }
    }
}

#[via_fn]
proof fn spec_tile_row_decreases<P: PropertyParse>(
    input: Seq<u8>,
    pos: int,
    width: u32,
    x: int,
    y: u32,
    sheet: Option<Seq<char>>,
    done: Seq<TileView<P::V>>,
) {
    if let Some(name) = sheet {
        lemma_static_tile_advances::<P>(input, pos + 1, name, (x as u32, y));
    }
    lemma_animated_tile_advances::<P>(input, pos + 1, (x as u32, y), sheet);
}

/// Reading the rows `y` to `height` of a layer, each from its first cell on;
/// the current tilesheet carries over from row to row. `done` holds the tiles
/// read before `pos`.
pub open spec fn spec_tile_rows<P: PropertyParse>(
    input: Seq<u8>,
    pos: int,
    width: u32,
    height: u32,
    y: int,
    sheet: Option<Seq<char>>,
    done: Seq<TileView<P::V>>,
) -> Decoded<Seq<TileView<P::V>>>
    decreases height - y,
{
    if y >= height {
        Ok((done, pos))
    } else {
        match spec_tile_row::<P>(input, pos, width, 0, y as u32, sheet, done) {
            Ok(((tiles, last_sheet), next)) => spec_tile_rows::<P>(
                input,
                next,
                width,
                height,
                y + 1,
                last_sheet,
                tiles,
            ),
            Err(e) => Err(e),
        }
    }
}

/// Reading the tile stream of a layer: all its rows, with no tilesheet
/// current at the start.
pub open spec fn spec_tile_stream<P: PropertyParse>(
    input: Seq<u8>,
    pos: int,
    width: u32,
    height: u32,
) -> Decoded<Seq<TileView<P::V>>> {
    spec_tile_rows::<P>(input, pos, width, height, 0, None, Seq::empty())
}

/// Reads `count` frames of an animated tile at `at`, with `tileset` current
/// at the start, and hands back the frames with the tilesheet current at the
/// end.
pub fn read_frames<T: PropertyParse>(
    rdr: &mut Reader,
    count: u32,
    at: (u32, u32),
    tileset: Option<String>,
) -> (r: Result<(Vec<StaticTile<T>>, Option<String>), Error>)
    ensures
        final(rdr).input() == old(rdr).input(),
        decodes_as(
            r,
            final(rdr).position(),
            spec_frames::<T>(
                old(rdr).input(),
                old(rdr).position(),
                count as nat,
                at,
                tileset.deep_view(),
                Seq::empty(),
            ),
        ),
{
    let ghost input = rdr.input();
    let mut current = tileset;
    let mut frames: Vec<StaticTile<T>> = Vec::new();
    let mut frame: u32 = 0;
    assert(frames.deep_view() =~= Seq::empty());
    while frame < count
        invariant
            rdr.input() == input,
            input == old(rdr).input(),
            frame <= count,
            spec_frames::<T>(
                input,
                old(rdr).position(),
                count as nat,
                at,
                tileset.deep_view(),
                Seq::empty(),
            ) == spec_frames::<T>(
                input,
                rdr.position(),
                (count - frame) as nat,
                at,
                current.deep_view(),
                frames.deep_view(),
            ),
        decreases input.len() - rdr.position(),
    {
        proof {
            use_type_invariant(&*rdr);
        }
        let tag = match rdr.read_u8() {
            Ok(tag) => tag,
            Err(e) => {
                return Err(e);
            },
        };
        if tag == TAG_TILESHEET {
            let name = match read_tide_string(rdr) {
                Ok(name) => name,
                Err(e) => {
                    return Err(e);
                },
            };
            current = Some(name);
        } else if tag == TAG_STATIC {
            let name = match &current {
                Some(name) => name.clone(),
                None => {
                    return Err(Error::Malformed);
                },
            };
            proof {
                lemma_static_tile_advances::<T>(input, rdr.position(), name@, at);
            }
            let tile = match read_static_tile::<T>(rdr, name, at) {
                Ok(tile) => tile,
                Err(e) => {
                    return Err(e);
                },
            };
            let ghost before = frames;
            let ghost pushed = tile;
            frames.push(tile);
            proof {
                lemma_deep_view_push(before, frames, pushed);
            }
            frame = frame + 1;
        } else {
            return Err(Error::MalformedTileTag(tag));
        }
    }
    Ok((frames, current))
}

/// Reads the body of an animated tile at `at`, with `tileset` current at the
/// start, and hands back the tile with the tilesheet current at the end.
pub fn read_animated_tile<T: PropertyParse>(
    rdr: &mut Reader,
    at: (u32, u32),
    tileset: Option<String>,
) -> (r: Result<(AnimatedTile<T>, Option<String>), Error>)
    ensures
        final(rdr).input() == old(rdr).input(),
        decodes_as(
            r,
            final(rdr).position(),
            spec_animated_tile::<T>(old(rdr).input(), old(rdr).position(), at, tileset.deep_view()),
        ),
{
    let interval = match rdr.read_u32() {
        Ok(interval) => interval,
        Err(e) => {
            return Err(e);
        },
    };
    let frame_count = match rdr.read_u32() {
        Ok(frame_count) => frame_count,
        Err(e) => {
            return Err(e);
        },
    };
    let (frames, tileset) = match read_frames::<T>(rdr, frame_count, at, tileset) {
        Ok(read) => read,
        Err(e) => {
            return Err(e);
        },
    };
    let props = match read_tide_properties(rdr) {
        Ok(props) => props,
        Err(e) => {
            return Err(e);
        },
    };
    let properties = T::parse(props);
    Ok((AnimatedTile { interval, pos: at, frames, properties }, tileset))
}

/// Reads row `y` of a layer `width` cells wide, with `tileset` current at the
/// start, and appends its tiles to `tiles`. Hands back the tiles with the
/// tilesheet current at the end of the row.
pub fn read_tile_row<T: PropertyParse>(
    rdr: &mut Reader,
    width: u32,
    y: u32,
    tileset: Option<String>,
    tiles: Vec<Tile<T>>,
) -> (r: Result<(Vec<Tile<T>>, Option<String>), Error>)
    ensures
        final(rdr).input() == old(rdr).input(),
        decodes_as(
            r,
            final(rdr).position(),
            spec_tile_row::<T>(
                old(rdr).input(),
                old(rdr).position(),
                width,
                0,
                y,
                tileset.deep_view(),
                tiles.deep_view(),
            ),
        ),
{
    let ghost input = rdr.input();
    let mut current = tileset;
    let mut row = tiles;
    let mut x: u64 = 0;
    while x < width as u64
        invariant
            rdr.input() == input,
            input == old(rdr).input(),
            x <= 2 * u32::MAX,
            spec_tile_row::<T>(
                input,
                old(rdr).position(),
                width,
                0,
                y,
                tileset.deep_view(),
                tiles.deep_view(),
            ) == spec_tile_row::<T>(
                input,
                rdr.position(),
                width,
                x as int,
                y,
                current.deep_view(),
                row.deep_view(),
            ),
        decreases input.len() - rdr.position(),
    {
        proof {
            use_type_invariant(&*rdr);
        }
        let tag = match rdr.read_u8() {
            Ok(tag) => tag,
            Err(e) => {
                return Err(e);
            },
        };
        if tag == TAG_TILESHEET {
            let name = match read_tide_string(rdr) {
                Ok(name) => name,
                Err(e) => {
                    return Err(e);
                },
            };
            current = Some(name);
        } else if tag == TAG_STATIC {
            let name = match &current {
                Some(name) => name.clone(),
                None => {
                    return Err(Error::Malformed);
                },
            };
            proof {
                lemma_static_tile_advances::<T>(input, rdr.position(), name@, (x as u32, y));
            }
            let tile = match read_static_tile::<T>(rdr, name, (x as u32, y)) {
                Ok(tile) => Tile::Static(tile),
                Err(e) => {
                    return Err(e);
                },
            };
            let ghost before = row;
            let ghost pushed = tile;
            row.push(tile);
            proof {
                lemma_deep_view_push(before, row, pushed);
            }
            x = x + 1;
        } else if tag == TAG_EMPTY_RUN {
            let run = match rdr.read_u32() {
                Ok(run) => run,
                Err(e) => {
                    return Err(e);
                },
            };
            x = x + run as u64;
        } else if tag == TAG_ANIMATED {
            proof {
                lemma_animated_tile_advances::<T>(
                    input,
                    rdr.position(),
                    (x as u32, y),
                    current.deep_view(),
                );
            }
            let (tile, last) = match read_animated_tile::<T>(rdr, (x as u32, y), current) {
                Ok((tile, last)) => (Tile::Animated(tile), last),
                Err(e) => {
                    return Err(e);
                },
            };
            current = last;
            let ghost before = row;
            let ghost pushed = tile;
            row.push(tile);
            proof {
                lemma_deep_view_push(before, row, pushed);
            }
            x = x + 1;
        } else {
            return Err(Error::MalformedTileTag(tag));
        }
    }
    Ok((row, current))
}

/// Reads the tile stream of a layer `width` cells wide and `height` cells
/// high: row after row, each from its first cell to the width.
pub fn read_tile_stream<T: PropertyParse>(rdr: &mut Reader, width: u32, height: u32) -> (r: Result<
    Vec<Tile<T>>,
    Error,
>)
    ensures
        final(rdr).input() == old(rdr).input(),
        decodes_as(
            r,
            final(rdr).position(),
            spec_tile_stream::<T>(old(rdr).input(), old(rdr).position(), width, height),
        ),
{
    let ghost input = rdr.input();
    let mut tileset: Option<String> = None;
    let mut tiles: Vec<Tile<T>> = Vec::new();
    let mut y: u32 = 0;
    assert(tiles.deep_view() =~= Seq::empty());
    while y < height
        invariant
            rdr.input() == input,
            input == old(rdr).input(),
            y <= height,
            spec_tile_stream::<T>(input, old(rdr).position(), width, height) == spec_tile_rows::<T>(
                input,
                rdr.position(),
                width,
                height,
                y as int,
                tileset.deep_view(),
                tiles.deep_view(),
            ),
        decreases height - y,
    {
        let (row_tiles, last) = match read_tile_row::<T>(rdr, width, y, tileset, tiles) {
            Ok(read) => read,
            Err(e) => {
                return Err(e);
            },
        };
        tiles = row_tiles;
        tileset = last;
        y = y + 1;
    }
    Ok(tiles)
}

/// A pair of little-endian `u32`s: a width and a height.
pub open spec fn spec_size(input: Seq<u8>, pos: int) -> Decoded<(u32, u32)> {
    match spec_read_u32(input, pos) {
        Ok((width, start)) => match spec_read_u32(input, start) {
            Ok((height, end)) => Ok(((width, height), end)),
            Err(e) => Err(e),
        },
        Err(e) => Err(e),
    }
}

/// Reads a width and a height.
pub fn read_size(rdr: &mut Reader) -> (r: Result<(u32, u32), Error>)
    ensures
        final(rdr).input() == old(rdr).input(),
        decodes_as(r, final(rdr).position(), spec_size(old(rdr).input(), old(rdr).position())),
{
    let width = match rdr.read_u32() {
        Ok(width) => width,
        Err(e) => {
            return Err(e);
        },
    };
    let height = match rdr.read_u32() {
        Ok(height) => height,
        Err(e) => {
            return Err(e);
        },
    };
    Ok((width, height))
}

/// An image cut into tiles.
#[derive(Debug, PartialEq, Eq)]
pub struct TileSheet<T> {
    pub id: String,
    pub description: String,
    pub image_source: String,
    pub sheet_size: (u32, u32),
    pub tile_size: (u32, u32),
    pub margin: (u32, u32),
    pub spacing: (u32, u32),
    pub properties: T,
}

/// The mathematical value of a [`TileSheet`].
pub struct TileSheetView<T> {
    pub id: Seq<char>,
    pub description: Seq<char>,
    pub image_source: Seq<char>,
    pub sheet_size: (u32, u32),
    pub tile_size: (u32, u32),
    pub margin: (u32, u32),
    pub spacing: (u32, u32),
    pub properties: T,
}

impl<T: DeepView> DeepView for TileSheet<T> {
    type V = TileSheetView<T::V>;

    open spec fn deep_view(&self) -> TileSheetView<T::V> {
        TileSheetView {
            id: self.id@,
            description: self.description@,
            image_source: self.image_source@,
            sheet_size: self.sheet_size,
            tile_size: self.tile_size,
            margin: self.margin,
            spacing: self.spacing,
            properties: self.properties.deep_view(),
        }
    }
}

/// Reading a tilesheet: its id, description and image source, then its
/// sheet size, tile size, margin and spacing, then its properties.
pub open spec fn spec_tilesheet<P: PropertyParse>(input: Seq<u8>, pos: int) -> Decoded<
    TileSheetView<P::V>,
> {
    match spec_tide_string(input, pos) {
        Ok((id, p1)) => match spec_tide_string(input, p1) {
            Ok((description, p2)) => match spec_tide_string(input, p2) {
                Ok((image_source, p3)) => match spec_size(input, p3) {
                    Ok((sheet_size, p4)) => match spec_size(input, p4) {
                        Ok((tile_size, p5)) => match spec_size(input, p5) {
                            Ok((margin, p6)) => match spec_size(input, p6) {
                                Ok((spacing, p7)) => match spec_properties(input, p7) {
                                    Ok((props, end)) => Ok(
                                        (
                                            TileSheetView {
                                                id,
                                                description,
                                                image_source,
                                                sheet_size,
                                                tile_size,
                                                margin,
                                                spacing,
                                                properties: P::converted(props),
                                            },
                                            end,
                                        ),
                                    ),
                                    Err(e) => Err(e),
                                },
                                Err(e) => Err(e),
                            },
                            Err(e) => Err(e),
                        },
                        Err(e) => Err(e),
                    },
                    Err(e) => Err(e),
                },
                Err(e) => Err(e),
            },
            Err(e) => Err(e),
        },
        Err(e) => Err(e),
    }
}

/// The decoder of one tilesheet of `input`, as a function of the position.
pub open spec fn tilesheet_at<P: PropertyParse>(input: Seq<u8>) -> spec_fn(int) -> Decoded<
    TileSheetView<P::V>,
> {
    |pos: int| spec_tilesheet::<P>(input, pos)
}

/// Reads a tilesheet.
pub fn read_tilesheet<T: PropertyParse>(rdr: &mut Reader) -> (r: Result<TileSheet<T>, Error>)
    ensures
        final(rdr).input() == old(rdr).input(),
        decodes_as(r, final(rdr).position(), spec_tilesheet::<T>(old(rdr).input(), old(rdr).position())),
{
    let id = match read_tide_string(rdr) {
        Ok(id) => id,
        Err(e) => {
            return Err(e);
        },
    };
    let description = match read_tide_string(rdr) {
        Ok(description) => description,
        Err(e) => {
            return Err(e);
        },
    };
    let image_source = match read_tide_string(rdr) {
        Ok(image_source) => image_source,
        Err(e) => {
            return Err(e);
        },
    };
    let sheet_size = match read_size(rdr) {
        Ok(sheet_size) => sheet_size,
        Err(e) => {
            return Err(e);
        },
    };
    let tile_size = match read_size(rdr) {
        Ok(tile_size) => tile_size,
        Err(e) => {
            return Err(e);
        },
    };
    let margin = match read_size(rdr) {
        Ok(margin) => margin,
        Err(e) => {
            return Err(e);
        },
    };
    let spacing = match read_size(rdr) {
        Ok(spacing) => spacing,
        Err(e) => {
            return Err(e);
        },
    };
    let props = match read_tide_properties(rdr) {
        Ok(props) => props,
        Err(e) => {
            return Err(e);
        },
    };
    let properties = T::parse(props);
    Ok(
        TileSheet {
            id,
            description,
            image_source,
            sheet_size,
            tile_size,
            margin,
            spacing,
            properties,
        },
    )
}

/// A grid of cells, some of which hold a tile.
#[derive(Debug, PartialEq, Eq)]
pub struct Layer<T, U> {
    pub id: String,
    pub description: String,
    pub tiles: Vec<Tile<U>>,
    pub visible: bool,
    pub size: (u32, u32),
    pub tile_size: (u32, u32),
    pub properties: T,
}

/// The mathematical value of a [`Layer`].
pub struct LayerView<T, U> {
    pub id: Seq<char>,
    pub description: Seq<char>,
    pub tiles: Seq<TileView<U>>,
    pub visible: bool,
    pub size: (u32, u32),
    pub tile_size: (u32, u32),
    pub properties: T,
}

impl<T: DeepView, U: DeepView> DeepView for Layer<T, U> {
    type V = LayerView<T::V, U::V>;

    open spec fn deep_view(&self) -> LayerView<T::V, U::V> {
        LayerView {
            id: self.id@,
            description: self.description@,
            tiles: self.tiles.deep_view(),
            visible: self.visible,
            size: self.size,
            tile_size: self.tile_size,
            properties: self.properties.deep_view(),
        }
    }
}

/// Reading a layer: its id, its visibility byte, its description, its size
/// in cells, its tile size, its properties, then its tile stream.
pub open spec fn spec_layer<P: PropertyParse, Q: PropertyParse>(input: Seq<u8>, pos: int) -> Decoded<
    LayerView<P::V, Q::V>,
> {
    match spec_tide_string(input, pos) {
        Ok((id, p1)) => match spec_read_u8(input, p1) {
            Ok((visible, p2)) => match spec_tide_string(input, p2) {
                Ok((description, p3)) => match spec_size(input, p3) {
                    Ok((size, p4)) => match spec_size(input, p4) {
                        Ok((tile_size, p5)) => match spec_properties(input, p5) {
                            Ok((props, p6)) => match spec_tile_stream::<Q>(
                                input,
                                p6,
                                size.0,
                                size.1,
                            ) {
                                Ok((tiles, end)) => Ok(
                                    (
                                        LayerView {
                                            id,
                                            description,
                                            tiles,
                                            visible: visible != 0,
                                            size,
                                            tile_size,
                                            properties: P::converted(props),
                                        },
                                        end,
                                    ),
                                ),
                                Err(e) => Err(e),
                            },
                            Err(e) => Err(e),
                        },
                        Err(e) => Err(e),
                    },
                    Err(e) => Err(e),
                },
                Err(e) => Err(e),
            },
            Err(e) => Err(e),
        },
        Err(e) => Err(e),
    }
}

/// The decoder of one layer of `input`, as a function of the position.
pub open spec fn layer_at<P: PropertyParse, Q: PropertyParse>(input: Seq<u8>) -> spec_fn(int) -> Decoded<
    LayerView<P::V, Q::V>,
> {
    |pos: int| spec_layer::<P, Q>(input, pos)
}

/// Reads a layer.
pub fn read_layer<T: PropertyParse, U: PropertyParse>(rdr: &mut Reader) -> (r: Result<
    Layer<T, U>,
    Error,
>)
    ensures
        final(rdr).input() == old(rdr).input(),
        decodes_as(r, final(rdr).position(), spec_layer::<T, U>(old(rdr).input(), old(rdr).position())),
{
    let id = match read_tide_string(rdr) {
        Ok(id) => id,
        Err(e) => {
            return Err(e);
        },
    };
    let visible = match rdr.read_u8() {
        Ok(visible) => visible != 0,
        Err(e) => {
            return Err(e);
        },
    };
    let description = match read_tide_string(rdr) {
        Ok(description) => description,
        Err(e) => {
            return Err(e);
        },
    };
    let size = match read_size(rdr) {
        Ok(size) => size,
        Err(e) => {
            return Err(e);
        },
    };
    let tile_size = match read_size(rdr) {
        Ok(tile_size) => tile_size,
        Err(e) => {
            return Err(e);
        },
    };
    let props = match read_tide_properties(rdr) {
        Ok(props) => props,
        Err(e) => {
            return Err(e);
        },
    };
    let properties = T::parse(props);
    let tiles = match read_tile_stream::<U>(rdr, size.0, size.1) {
        Ok(tiles) => tiles,
        Err(e) => {
            return Err(e);
        },
    };
    Ok(Layer { id, description, tiles, visible, size, tile_size, properties })
}

/// A tilemap: tilesheets, and layers of tiles that show their images.
#[derive(Debug, PartialEq, Eq)]
pub struct TideMap<T, U, V, W> {
    pub id: String,
    pub description: String,
    pub tilesheets: Vec<TileSheet<U>>,
    pub layers: Vec<Layer<V, W>>,
    pub properties: T,
}

/// The mathematical value of a [`TideMap`].
pub struct TideMapView<T, U, V, W> {
    pub id: Seq<char>,
    pub description: Seq<char>,
    pub tilesheets: Seq<TileSheetView<U>>,
    pub layers: Seq<LayerView<V, W>>,
    pub properties: T,
}

impl<T: DeepView, U: DeepView, V: DeepView, W: DeepView> DeepView for TideMap<T, U, V, W> {
    type V = TideMapView<T::V, U::V, V::V, W::V>;

    open spec fn deep_view(&self) -> TideMapView<T::V, U::V, V::V, W::V> {
        TideMapView {
            id: self.id@,
            description: self.description@,
            tilesheets: self.tilesheets.deep_view(),
            layers: self.layers.deep_view(),
            properties: self.properties.deep_view(),
        }
    }
}

/// The six bytes that open a tilemap: `tBIN10`.
pub open spec fn tide_magic() -> Seq<u8> {
    seq![0x74u8, 0x42u8, 0x49u8, 0x4eu8, 0x31u8, 0x30u8]
}

/// Reading a run of tilesheets: a little-endian `u32` count, then that many
/// tilesheets.
pub open spec fn spec_tilesheets<P: PropertyParse>(input: Seq<u8>, pos: int) -> Decoded<
    Seq<TileSheetView<P::V>>,
> {
    match spec_read_u32(input, pos) {
        Ok((count, start)) => repeated(tilesheet_at::<P>(input), start, count as nat),
        Err(e) => Err(e),
    }
}

/// Reading a run of layers: a little-endian `u32` count, then that many
/// layers.
pub open spec fn spec_layers<P: PropertyParse, Q: PropertyParse>(input: Seq<u8>, pos: int) -> Decoded<
    Seq<LayerView<P::V, Q::V>>,
> {
    match spec_read_u32(input, pos) {
        Ok((count, start)) => repeated(layer_at::<P, Q>(input), start, count as nat),
        Err(e) => Err(e),
    }
}

/// Reading what follows the magic of a tilemap: the id and the description
/// of the map, its properties, its tilesheets, its layers.
pub open spec fn spec_tide_body<T: PropertyParse, U: PropertyParse, V: PropertyParse, W: PropertyParse>(
    input: Seq<u8>,
    pos: int,
) -> Decoded<TideMapView<T::V, U::V, V::V, W::V>> {
    match spec_tide_string(input, pos) {
        Ok((id, p1)) => match spec_tide_string(input, p1) {
            Ok((description, p2)) => match spec_properties(input, p2) {
                Ok((props, p3)) => match spec_tilesheets::<U>(input, p3) {
                    Ok((tilesheets, p4)) => match spec_layers::<V, W>(input, p4) {
                        Ok((layers, end)) => Ok(
                            (
                                TideMapView {
                                    id,
                                    description,
                                    tilesheets,
                                    layers,
                                    properties: T::converted(props),
                                },
                                end,
                            ),
                        ),
                        Err(e) => Err(e),
                    },
                    Err(e) => Err(e),
                },
                Err(e) => Err(e),
            },
            Err(e) => Err(e),
        },
        Err(e) => Err(e),
    }
}

/// `blob` opens with the magic of a tilemap.
pub open spec fn has_tide_magic(blob: Seq<u8>) -> bool {
    has_bytes(blob, 0, 6) && blob.subrange(0, 6) == tide_magic()
}

/// Reading a tilemap from the start of its blob: the magic, then the body of
/// the map. A blob that does not open with the magic is malformed.
pub open spec fn spec_tide_map<T: PropertyParse, U: PropertyParse, V: PropertyParse, W: PropertyParse>(
    blob: Seq<u8>,
) -> Decoded<TideMapView<T::V, U::V, V::V, W::V>> {
    if has_tide_magic(blob) {
        spec_tide_body::<T, U, V, W>(blob, 6)
    } else {
        Err(ErrorView::Malformed)
    }
}

/// Reading a tilemap: a little-endian `u32` length, then a blob of that
/// length, which holds the map from its first byte on. The map ends where
/// the blob ends, whatever the map left unread of it.
pub open spec fn spec_read_tide<T: PropertyParse, U: PropertyParse, V: PropertyParse, W: PropertyParse>(
    input: Seq<u8>,
    pos: int,
) -> Decoded<TideMapView<T::V, U::V, V::V, W::V>> {
    match spec_read_u32(input, pos) {
        Ok((size, start)) => match spec_read_exact(input, start, size as int) {
            Ok((blob, end)) => match spec_tide_map::<T, U, V, W>(blob) {
                Ok((map, _)) => Ok((map, end)),
                Err(e) => Err(e),
            },
            Err(e) => Err(e),
        },
        Err(e) => Err(e),
    }
}

/// Reads a run of tilesheets.
pub fn read_tilesheets<T: PropertyParse>(rdr: &mut Reader) -> (r: Result<Vec<TileSheet<T>>, Error>)
    ensures
        final(rdr).input() == old(rdr).input(),
        decodes_as(r, final(rdr).position(), spec_tilesheets::<T>(old(rdr).input(), old(rdr).position())),
{
    let count = match rdr.read_u32() {
        Ok(count) => count,
        Err(e) => {
            return Err(e);
        },
    };
    let ghost input = rdr.input();
    let mut tilesheets: Vec<TileSheet<T>> = Vec::new();
    let mut i: u32 = 0;
    assert(tilesheets.deep_view() =~= Seq::empty());
    while i < count
        invariant
            rdr.input() == input,
            input == old(rdr).input(),
            i <= count,
            spec_tilesheets::<T>(input, old(rdr).position()) == repeat_onto(
                tilesheet_at::<T>(input),
                rdr.position(),
                (count - i) as nat,
                tilesheets.deep_view(),
            ),
        decreases count - i,
    {
        let tilesheet = match read_tilesheet::<T>(rdr) {
            Ok(tilesheet) => tilesheet,
            Err(e) => {
                return Err(e);
            },
        };
        let ghost before = tilesheets;
        let ghost pushed = tilesheet;
        tilesheets.push(tilesheet);
        proof {
            lemma_deep_view_push(before, tilesheets, pushed);
        }
        i = i + 1;
    }
    Ok(tilesheets)
}

/// Reads a run of layers.
pub fn read_layers<T: PropertyParse, U: PropertyParse>(rdr: &mut Reader) -> (r: Result<
    Vec<Layer<T, U>>,
    Error,
>)
    ensures
        final(rdr).input() == old(rdr).input(),
        decodes_as(r, final(rdr).position(), spec_layers::<T, U>(old(rdr).input(), old(rdr).position())),
{
    let count = match rdr.read_u32() {
        Ok(count) => count,
        Err(e) => {
            return Err(e);
        },
    };
    let ghost input = rdr.input();
    let mut layers: Vec<Layer<T, U>> = Vec::new();
    let mut i: u32 = 0;
    assert(layers.deep_view() =~= Seq::empty());
    while i < count
        invariant
            rdr.input() == input,
            input == old(rdr).input(),
            i <= count,
            spec_layers::<T, U>(input, old(rdr).position()) == repeat_onto(
                layer_at::<T, U>(input),
                rdr.position(),
                (count - i) as nat,
                layers.deep_view(),
            ),
        decreases count - i,
    {
        let layer = match read_layer::<T, U>(rdr) {
            Ok(layer) => layer,
            Err(e) => {
                return Err(e);
            },
        };
        let ghost before = layers;
        let ghost pushed = layer;
        layers.push(layer);
        proof {
            lemma_deep_view_push(before, layers, pushed);
        }
        i = i + 1;
    }
    Ok(layers)
}

/// Reads the magic of a tilemap and says whether it was found.
fn read_tide_magic(rdr: &mut Reader) -> (found: bool)
    requires
        old(rdr).position() == 0,
    ensures
        final(rdr).input() == old(rdr).input(),
        found == has_tide_magic(old(rdr).input()),
        found ==> final(rdr).position() == 6,
{
    let magic = match rdr.read_exact(6) {
        Ok(magic) => magic,
        Err(_) => {
            return false;
        },
    };
    let found = magic[0] == 0x74 && magic[1] == 0x42 && magic[2] == 0x49 && magic[3] == 0x4e
        && magic[4] == 0x31 && magic[5] == 0x30;
    proof {
        if found {
            assert(magic@ =~= tide_magic());
        } else {
            assert(tide_magic()[0] == 0x74 && tide_magic()[1] == 0x42 && tide_magic()[2] == 0x49
                && tide_magic()[3] == 0x4e && tide_magic()[4] == 0x31 && tide_magic()[5] == 0x30);
        }
    }
    found
}

/// Reads what follows the magic of a tilemap.
pub fn read_tide_body<T: PropertyParse, U: PropertyParse, V: PropertyParse, W: PropertyParse>(
    rdr: &mut Reader,
) -> (r: Result<TideMap<T, U, V, W>, Error>)
    ensures
        final(rdr).input() == old(rdr).input(),
        decodes_as(
            r,
            final(rdr).position(),
            spec_tide_body::<T, U, V, W>(old(rdr).input(), old(rdr).position()),
        ),
{
    let id = match read_tide_string(rdr) {
        Ok(id) => id,
        Err(e) => {
            return Err(e);
        },
    };
    let description = match read_tide_string(rdr) {
        Ok(description) => description,
        Err(e) => {
            return Err(e);
        },
    };
    let props = match read_tide_properties(rdr) {
        Ok(props) => props,
        Err(e) => {
            return Err(e);
        },
    };
    let properties = T::parse(props);
    let tilesheets = match read_tilesheets::<U>(rdr) {
        Ok(tilesheets) => tilesheets,
        Err(e) => {
            return Err(e);
        },
    };
    let layers = match read_layers::<V, W>(rdr) {
        Ok(layers) => layers,
        Err(e) => {
            return Err(e);
        },
    };
    Ok(TideMap { id, description, tilesheets, layers, properties })
}

/// Reads a tilemap from a blob that holds nothing before it.
pub fn read_tide_map<T: PropertyParse, U: PropertyParse, V: PropertyParse, W: PropertyParse>(
    blob: &[u8],
) -> (r: Result<TideMap<T, U, V, W>, Error>)
    ensures
        match r {
            Ok(map) => spec_tide_map::<T, U, V, W>(blob@) is Ok && spec_tide_map::<T, U, V, W>(
                blob@,
            )->Ok_0.0 == map.deep_view(),
            Err(e) => spec_tide_map::<T, U, V, W>(blob@) == Err::<
                (TideMapView<T::V, U::V, V::V, W::V>, int),
                ErrorView,
            >(e.deep_view()),
        },
{
    let mut rdr = Reader::new(blob);
    if !read_tide_magic(&mut rdr) {
        return Err(Error::Malformed);
    }
    read_tide_body::<T, U, V, W>(&mut rdr)
}

/// Reads a tilemap: the length of its blob, the blob, and the map that the
/// blob holds. The reader ends behind the blob.
pub fn read_tide<T: PropertyParse, U: PropertyParse, V: PropertyParse, W: PropertyParse>(
    rdr: &mut Reader,
) -> (r: Result<TideMap<T, U, V, W>, Error>)
    ensures
        final(rdr).input() == old(rdr).input(),
        decodes_as(
            r,
            final(rdr).position(),
            spec_read_tide::<T, U, V, W>(old(rdr).input(), old(rdr).position()),
        ),
{
    let size = match rdr.read_u32() {
        Ok(size) => size,
        Err(e) => {
            return Err(e);
        },
    };
    let blob = match rdr.read_exact(size as usize) {
        Ok(blob) => blob,
        Err(e) => {
            return Err(e);
        },
    };
    read_tide_map::<T, U, V, W>(blob)
}

impl<T: PropertyParse, U: PropertyParse, V: PropertyParse, W: PropertyParse> Parse for TideMap<
    T,
    U,
    V,
    W,
> {
    open spec fn reader_name() -> Seq<char> {
        "xTile.Pipeline.TideReader"@
    }

    open spec fn decoded(
        input: Seq<u8>,
        pos: int,
        readers: Seq<TypeReaderView>,
        args: Seq<Seq<char>>,
    ) -> Decoded<TideMapView<T::V, U::V, V::V, W::V>> {
        spec_read_tide::<T, U, V, W>(input, pos)
    }

    fn reader() -> (name: &'static str) {
        "xTile.Pipeline.TideReader"
    }

    fn try_parse(rdr: &mut Reader, readers: &[TypeReader], args: Vec<String>) -> (r: Result<
        Self,
        Error,
    >) {
        read_tide::<T, U, V, W>(rdr)
    }
}

impl<T, U, V, W> TideMap<T, U, V, W> {
    /// The first tilesheet of the map whose id is `sheet`, if there is one.
    pub fn tilesheet(&self, sheet: &str) -> (found: Option<&TileSheet<U>>)
        ensures
            match found {
                Some(tilesheet) => exists|i: int|
                    0 <= i < self.tilesheets@.len() && *tilesheet == #[trigger] self.tilesheets@[i]
                        && tilesheet.id@ == sheet@ && forall|j: int|
                        0 <= j < i ==> (#[trigger] self.tilesheets@[j]).id@ != sheet@,
                None => forall|i: int|
                    0 <= i < self.tilesheets@.len() ==> (#[trigger] self.tilesheets@[i]).id@
                        != sheet@,
            },
    {
        let mut i: usize = 0;
        while i < self.tilesheets.len()
            invariant
                i <= self.tilesheets@.len(),
                forall|j: int| 0 <= j < i ==> (#[trigger] self.tilesheets@[j]).id@ != sheet@,
            decreases self.tilesheets@.len() - i,
        {
            if str_eq(self.tilesheets[i].id.as_str(), sheet) {
                return Some(&self.tilesheets[i]);
            }
            i = i + 1;
        }
        None
    }
}

} // verus!

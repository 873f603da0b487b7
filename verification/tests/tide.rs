use xnb::tide::{
    read_animated_tile, read_frames, read_layer, read_property_value, read_static_tile,
    read_tide, read_tide_map, read_tide_properties, read_tide_string, read_tile_row,
    read_tile_stream, read_tilesheet, AnimatedTile, Layer, PropertyParse, PropertyValue,
    StaticTile, TideMap, Tile, TileSheet,
};
use xnb::{read_object, Error, Float32, Parse, Reader, TypeReader};

type Props = Vec<(String, PropertyValue)>;

fn le(v: u32) -> Vec<u8> {
    v.to_le_bytes().to_vec()
}

fn text(s: &str) -> Vec<u8> {
    let mut out = le(s.len() as u32);
    out.extend_from_slice(s.as_bytes());
    out
}

fn static_body(idx: u32, blend: u8) -> Vec<u8> {
    let mut b = le(idx);
    b.push(blend);
    b.extend(le(0));
    b
}

fn sheet_tag(name: &str) -> Vec<u8> {
    let mut b = vec![b'T'];
    b.extend(text(name));
    b
}

fn static_tag(idx: u32) -> Vec<u8> {
    let mut b = vec![b'S'];
    b.extend(static_body(idx, 0));
    b
}

fn run_tag(n: u32) -> Vec<u8> {
    let mut b = vec![b'N'];
    b.extend(le(n));
    b
}

fn plain_tile(sheet: &str, idx: u32, pos: (u32, u32)) -> StaticTile<Props> {
    StaticTile { tilesheet: sheet.to_string(), idx, pos, blend_mode: 0, properties: vec![] }
}

#[test]
fn tile_stream_with_a_gap() {
    let mut b = sheet_tag("sheetA");
    b.extend(static_tag(10));
    b.extend(run_tag(1));
    b.extend(static_tag(12));
    let mut rdr = Reader::new(&b);
    let tiles = read_tile_stream::<Props>(&mut rdr, 3, 1).unwrap();
    assert_eq!(
        tiles,
        vec![
            Tile::Static(plain_tile("sheetA", 10, (0, 0))),
            Tile::Static(plain_tile("sheetA", 12, (2, 0))),
        ]
    );
    assert_eq!(tiles.len(), 2);
    assert_eq!(tiles[0].get_pos(), (0, 0));
    assert_eq!(tiles[1].get_pos(), (2, 0));
    assert_eq!(tiles[0].get_tilesheet(), "sheetA");
    assert_eq!(tiles[1].get_tilesheet(), "sheetA");
    assert_eq!(rdr.offset(), b.len());
}

#[test]
fn tilesheet_tag_does_not_advance_the_scan() {
    let mut b = sheet_tag("a");
    b.extend(sheet_tag("b"));
    b.extend(static_tag(1));
    b.extend(sheet_tag("c"));
    b.extend(static_tag(2));
    let mut rdr = Reader::new(&b);
    let tiles = read_tile_stream::<Props>(&mut rdr, 2, 1).unwrap();
    assert_eq!(
        tiles,
        vec![Tile::Static(plain_tile("b", 1, (0, 0))), Tile::Static(plain_tile("c", 2, (1, 0)))]
    );
}

#[test]
fn tilesheet_carries_over_to_the_next_row() {
    let mut b = sheet_tag("s");
    b.extend(static_tag(1));
    b.extend(static_tag(2));
    b.extend(run_tag(1));
    b.extend(static_tag(3));
    let mut rdr = Reader::new(&b);
    let tiles = read_tile_stream::<Props>(&mut rdr, 2, 2).unwrap();
    assert_eq!(
        tiles,
        vec![
            Tile::Static(plain_tile("s", 1, (0, 0))),
            Tile::Static(plain_tile("s", 2, (1, 0))),
            Tile::Static(plain_tile("s", 3, (1, 1))),
        ]
    );
}

#[test]
fn run_past_the_end_of_a_row_ends_the_row() {
    let mut b = run_tag(u32::MAX);
    b.extend(sheet_tag("s"));
    b.extend(static_tag(4));
    let mut rdr = Reader::new(&b);
    let tiles = read_tile_stream::<Props>(&mut rdr, 1, 2).unwrap();
    assert_eq!(tiles, vec![Tile::Static(plain_tile("s", 4, (0, 1)))]);
}

#[test]
fn run_of_no_cells_changes_nothing() {
    let mut b = run_tag(0);
    b.extend(run_tag(1));
    let mut rdr = Reader::new(&b);
    assert_eq!(read_tile_stream::<Props>(&mut rdr, 1, 1), Ok(vec![]));
    assert_eq!(rdr.offset(), 10);
}

#[test]
fn layer_without_cells_reads_no_tag() {
    let mut rdr = Reader::new(&[b'S']);
    assert_eq!(read_tile_stream::<Props>(&mut rdr, 0, 5), Ok(vec![]));
    assert_eq!(rdr.offset(), 0);
    assert_eq!(read_tile_stream::<Props>(&mut rdr, 5, 0), Ok(vec![]));
    assert_eq!(rdr.offset(), 0);
}

#[test]
fn unknown_tile_tag_is_refused() {
    let mut rdr = Reader::new(&[b'Q', 0, 0, 0, 0]);
    assert_eq!(read_tile_stream::<Props>(&mut rdr, 1, 1), Err(Error::MalformedTileTag(b'Q')));
    let mut rdr = Reader::new(&[b't']);
    assert_eq!(read_tile_stream::<Props>(&mut rdr, 1, 1), Err(Error::MalformedTileTag(b't')));
}

#[test]
fn static_tile_before_any_tilesheet_is_malformed() {
    let b = static_tag(1);
    let mut rdr = Reader::new(&b);
    assert_eq!(read_tile_stream::<Props>(&mut rdr, 1, 1), Err(Error::Malformed));
}

#[test]
fn tile_stream_that_ends_early_is_io() {
    let mut b = sheet_tag("s");
    b.extend(static_tag(1));
    let mut rdr = Reader::new(&b);
    assert_eq!(read_tile_stream::<Props>(&mut rdr, 2, 1), Err(Error::Io));
    let mut rdr = Reader::new(&b[..b.len() - 1]);
    assert_eq!(read_tile_stream::<Props>(&mut rdr, 1, 1), Err(Error::Io));
}

fn animated_tag(interval: u32, frames: &[(Option<&str>, u32)]) -> Vec<u8> {
    let mut b = vec![b'A'];
    b.extend(le(interval));
    b.extend(le(frames.len() as u32));
    for (sheet, idx) in frames {
        if let Some(sheet) = sheet {
            b.extend(sheet_tag(sheet));
        }
        b.extend(static_tag(*idx));
    }
    b.extend(le(0));
    b
}

#[test]
fn animated_tile_reads_its_frames_and_moves_one_cell() {
    let mut b = sheet_tag("s");
    b.extend(animated_tag(100, &[(None, 1), (Some("t"), 2), (None, 3)]));
    b.extend(static_tag(9));
    let mut rdr = Reader::new(&b);
    let tiles = read_tile_stream::<Props>(&mut rdr, 2, 1).unwrap();
    assert_eq!(
        tiles,
        vec![
            Tile::Animated(AnimatedTile {
                interval: 100,
                pos: (0, 0),
                frames: vec![
                    plain_tile("s", 1, (0, 0)),
                    plain_tile("t", 2, (0, 0)),
                    plain_tile("t", 3, (0, 0)),
                ],
                properties: vec![],
            }),
            Tile::Static(plain_tile("t", 9, (1, 0))),
        ]
    );
    assert_eq!(tiles[0].get_index(0), 1);
    assert_eq!(tiles[0].get_index(99), 1);
    assert_eq!(tiles[0].get_index(100), 2);
    assert_eq!(tiles[0].get_index(250), 3);
    assert_eq!(tiles[0].get_index(300), 1);
    assert_eq!(tiles[0].get_tilesheet(), "s");
    assert_eq!(tiles[0].get_pos(), (0, 0));
    assert_eq!(tiles[0].properties(), &vec![]);
    assert_eq!(tiles[1].get_index(12345), 9);
}

#[test]
fn animated_tile_without_frames() {
    let b = animated_tag(5, &[]);
    let mut rdr = Reader::new(&b[1..]);
    let (tile, sheet) = read_animated_tile::<Props>(&mut rdr, (3, 4), None).unwrap();
    assert_eq!(tile, AnimatedTile { interval: 5, pos: (3, 4), frames: vec![], properties: vec![] });
    assert_eq!(sheet, None);
}

#[test]
fn frame_with_another_tag_is_refused() {
    let mut b = vec![b'N'];
    b.extend(le(1));
    let mut rdr = Reader::new(&b);
    assert_eq!(
        read_frames::<Props>(&mut rdr, 1, (0, 0), Some("s".to_string())),
        Err(Error::MalformedTileTag(b'N'))
    );
    let mut rdr = Reader::new(&[b'A']);
    assert_eq!(
        read_frames::<Props>(&mut rdr, 1, (0, 0), Some("s".to_string())),
        Err(Error::MalformedTileTag(b'A'))
    );
}

#[test]
fn frame_before_any_tilesheet_is_malformed() {
    let b = static_tag(1);
    let mut rdr = Reader::new(&b);
    assert_eq!(read_frames::<Props>(&mut rdr, 1, (0, 0), None), Err(Error::Malformed));
}

#[test]
fn frames_hand_back_the_current_tilesheet() {
    let mut b = sheet_tag("x");
    b.extend(static_tag(1));
    b.extend(sheet_tag("unused"));
    let mut rdr = Reader::new(&b);
    let (frames, sheet) = read_frames::<Props>(&mut rdr, 1, (7, 8), None).unwrap();
    assert_eq!(frames, vec![plain_tile("x", 1, (7, 8))]);
    assert_eq!(sheet, Some("x".to_string()));
    assert_eq!(rdr.offset(), b.len() - sheet_tag("unused").len());
}

#[test]
fn row_appends_to_the_tiles_read_before() {
    let b = static_tag(2);
    let mut rdr = Reader::new(&b);
    let before = vec![Tile::Static(plain_tile("s", 1, (0, 0)))];
    let (tiles, sheet) =
        read_tile_row::<Props>(&mut rdr, 1, 1, Some("s".to_string()), before).unwrap();
    assert_eq!(
        tiles,
        vec![Tile::Static(plain_tile("s", 1, (0, 0))), Tile::Static(plain_tile("s", 2, (0, 1)))]
    );
    assert_eq!(sheet, Some("s".to_string()));
}

fn properties_bytes() -> Vec<u8> {
    let mut b = le(4);
    b.extend(text("flag"));
    b.extend([0, 1]);
    b.extend(text("count"));
    b.push(1);
    b.extend((-5i32).to_le_bytes());
    b.extend(text("ratio"));
    b.push(2);
    b.extend(2.5f32.to_le_bytes());
    b.extend(text("name"));
    b.push(3);
    b.extend(text("value"));
    b
}

fn properties() -> Props {
    vec![
        ("flag".to_string(), PropertyValue::Bool(true)),
        ("count".to_string(), PropertyValue::Int(-5)),
        ("ratio".to_string(), PropertyValue::Float(Float32 { bits: 2.5f32.to_bits() })),
        ("name".to_string(), PropertyValue::String("value".to_string())),
    ]
}

#[test]
fn properties_of_every_kind() {
    let b = properties_bytes();
    let mut rdr = Reader::new(&b);
    assert_eq!(read_tide_properties(&mut rdr), Ok(properties()));
    assert_eq!(rdr.offset(), b.len());
}

#[test]
fn boolean_property_is_true_for_any_nonzero_byte() {
    let mut rdr = Reader::new(&[0, 0, 0, 2, 0, 255]);
    assert_eq!(read_property_value(&mut rdr), Ok(PropertyValue::Bool(false)));
    assert_eq!(read_property_value(&mut rdr), Ok(PropertyValue::Bool(true)));
    assert_eq!(read_property_value(&mut rdr), Ok(PropertyValue::Bool(true)));
}

#[test]
fn unknown_property_kind_is_malformed() {
    let mut rdr = Reader::new(&[4, 0, 0, 0, 0]);
    assert_eq!(read_property_value(&mut rdr), Err(Error::Malformed));
    let mut b = le(1);
    b.extend(text("p"));
    b.push(9);
    let mut rdr = Reader::new(&b);
    assert_eq!(read_tide_properties(&mut rdr), Err(Error::Malformed));
}

#[test]
fn short_properties_are_io() {
    let b = properties_bytes();
    for cut in [0, 3, 4, 10, b.len() - 1] {
        let mut rdr = Reader::new(&b[..cut]);
        assert_eq!(read_tide_properties(&mut rdr), Err(Error::Io));
    }
}

#[test]
fn tide_strings_have_a_fixed_width_length() {
    let mut rdr = Reader::new(&[2, 0, 0, 0, b'h', 0xe9, b'!']);
    let s = read_tide_string(&mut rdr).unwrap();
    assert_eq!(s, "h\u{e9}");
    assert_eq!(rdr.offset(), 6);
    let mut rdr = Reader::new(&[2, 0, 0]);
    assert_eq!(read_tide_string(&mut rdr), Err(Error::Io));
    let mut rdr = Reader::new(&[2, 0, 0, 0, b'h']);
    assert_eq!(read_tide_string(&mut rdr), Err(Error::Io));
}

#[test]
fn static_tile_is_stamped_with_sheet_and_position() {
    let mut b = le(77);
    b.push(3);
    b.extend(properties_bytes());
    let mut rdr = Reader::new(&b);
    assert_eq!(
        read_static_tile::<Props>(&mut rdr, "sheet".to_string(), (4, 5)),
        Ok(StaticTile {
            tilesheet: "sheet".to_string(),
            idx: 77,
            pos: (4, 5),
            blend_mode: 3,
            properties: properties()
        })
    );
}

#[test]
fn properties_can_be_discarded() {
    let mut b = le(77);
    b.push(3);
    b.extend(properties_bytes());
    let mut rdr = Reader::new(&b);
    assert_eq!(
        read_static_tile::<()>(&mut rdr, "sheet".to_string(), (4, 5)),
        Ok(StaticTile {
            tilesheet: "sheet".to_string(),
            idx: 77,
            pos: (4, 5),
            blend_mode: 3,
            properties: ()
        })
    );
    assert_eq!(rdr.offset(), b.len());
    assert_eq!(<() as PropertyParse>::parse(properties()), ());
    assert_eq!(<Props as PropertyParse>::parse(properties()), properties());
}

fn tilesheet_bytes(id: &str) -> Vec<u8> {
    let mut b = text(id);
    b.extend(text("a sheet"));
    b.extend(text("img.png"));
    for v in [16u32, 32, 8, 9, 1, 2, 3, 4] {
        b.extend(le(v));
    }
    b.extend(le(0));
    b
}

fn tilesheet(id: &str) -> TileSheet<Props> {
    TileSheet {
        id: id.to_string(),
        description: "a sheet".to_string(),
        image_source: "img.png".to_string(),
        sheet_size: (16, 32),
        tile_size: (8, 9),
        margin: (1, 2),
        spacing: (3, 4),
        properties: vec![],
    }
}

#[test]
fn tilesheet_fields_in_order() {
    let b = tilesheet_bytes("town");
    let mut rdr = Reader::new(&b);
    assert_eq!(read_tilesheet::<Props>(&mut rdr), Ok(tilesheet("town")));
    assert_eq!(rdr.offset(), b.len());
}

fn layer_bytes() -> Vec<u8> {
    let mut b = text("back");
    b.push(1);
    b.extend(text("the back"));
    b.extend(le(3));
    b.extend(le(1));
    b.extend(le(16));
    b.extend(le(16));
    b.extend(le(0));
    b.extend(sheet_tag("sheetA"));
    b.extend(static_tag(10));
    b.extend(run_tag(1));
    b.extend(static_tag(12));
    b
}

fn layer() -> Layer<Props, Props> {
    Layer {
        id: "back".to_string(),
        description: "the back".to_string(),
        tiles: vec![
            Tile::Static(plain_tile("sheetA", 10, (0, 0))),
            Tile::Static(plain_tile("sheetA", 12, (2, 0))),
        ],
        visible: true,
        size: (3, 1),
        tile_size: (16, 16),
        properties: vec![],
    }
}

#[test]
fn layer_fields_in_order() {
    let b = layer_bytes();
    let mut rdr = Reader::new(&b);
    assert_eq!(read_layer::<Props, Props>(&mut rdr), Ok(layer()));
    assert_eq!(rdr.offset(), b.len());
}

fn map_blob() -> Vec<u8> {
    let mut b = b"tBIN10".to_vec();
    b.extend(text("map1"));
    b.extend(text("a map"));
    b.extend(properties_bytes());
    b.extend(le(2));
    b.extend(tilesheet_bytes("sheetA"));
    b.extend(tilesheet_bytes("sheetB"));
    b.extend(le(1));
    b.extend(layer_bytes());
    b
}

fn map() -> TideMap<Props, Props, Props, Props> {
    TideMap {
        id: "map1".to_string(),
        description: "a map".to_string(),
        tilesheets: vec![tilesheet("sheetA"), tilesheet("sheetB")],
        layers: vec![layer()],
        properties: properties(),
    }
}

#[test]
fn whole_map_from_its_blob() {
    assert_eq!(read_tide_map::<Props, Props, Props, Props>(&map_blob()), Ok(map()));
}

#[test]
fn map_behind_its_length_prefix() {
    let blob = map_blob();
    let mut b = le(blob.len() as u32 + 2);
    b.extend(&blob);
    b.extend([0xaa, 0xbb, 0xcc]);
    let mut rdr = Reader::new(&b);
    assert_eq!(read_tide::<Props, Props, Props, Props>(&mut rdr), Ok(map()));
    assert_eq!(rdr.offset(), 4 + blob.len() + 2);
}

#[test]
fn map_with_a_short_blob_is_io() {
    let blob = map_blob();
    let mut b = le(blob.len() as u32 + 1);
    b.extend(&blob);
    let mut rdr = Reader::new(&b);
    assert_eq!(read_tide::<Props, Props, Props, Props>(&mut rdr), Err(Error::Io));
    let mut rdr = Reader::new(&[1, 0]);
    assert_eq!(read_tide::<Props, Props, Props, Props>(&mut rdr), Err(Error::Io));
}

#[test]
fn map_cut_inside_its_blob_is_io() {
    let blob = map_blob();
    let cut = &blob[..blob.len() - 3];
    let mut b = le(cut.len() as u32);
    b.extend(cut);
    let mut rdr = Reader::new(&b);
    assert_eq!(read_tide::<Props, Props, Props, Props>(&mut rdr), Err(Error::Io));
}

#[test]
fn map_without_its_magic_is_malformed() {
    let mut blob = map_blob();
    blob[5] = b'1';
    assert_eq!(read_tide_map::<Props, Props, Props, Props>(&blob), Err(Error::Malformed));
    assert_eq!(read_tide_map::<Props, Props, Props, Props>(b"tBIN1"), Err(Error::Malformed));
    assert_eq!(read_tide_map::<Props, Props, Props, Props>(b""), Err(Error::Malformed));
    assert_eq!(read_tide_map::<(), (), (), ()>(b"tBIN10"), Err(Error::Io));
}

#[test]
fn map_through_the_reference_table() {
    let readers = vec![TypeReader { name: "xTile.Pipeline.TideReader, xTile".to_string(), version: 0 }];
    let blob = map_blob();
    let mut b = vec![0x01];
    b.extend(le(blob.len() as u32));
    b.extend(&blob);
    let mut rdr = Reader::new(&b);
    let decoded = read_object::<TideMap<Props, (), (), ()>>(&mut rdr, &readers).unwrap();
    assert_eq!(decoded.id, "map1");
    assert_eq!(decoded.properties, properties());
    assert_eq!(decoded.tilesheets.len(), 2);
    assert_eq!(decoded.layers[0].tiles.len(), 2);
    assert_eq!(<TideMap<(), (), (), ()> as Parse>::reader(), "xTile.Pipeline.TideReader");
}

#[test]
fn tilesheet_lookup_finds_the_first_match() {
    let mut m = map();
    m.tilesheets[1].id = "sheetA".to_string();
    m.tilesheets[1].description = "second".to_string();
    assert_eq!(m.tilesheet("sheetA"), Some(&tilesheet("sheetA")));
    assert_eq!(m.tilesheet("sheetB"), None);
    assert_eq!(map().tilesheet("sheetB"), Some(&tilesheet("sheetB")));
    assert_eq!(map().tilesheet(""), None);
}

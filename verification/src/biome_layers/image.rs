//! Maps as pictures and as text: four bytes for every cell, row by row,
//! in the colours of the biomes or of the treasure maps.

use vstd::prelude::*;
use vstd::string::StringExecFns;
use crate::biome_info::{colour, colour_of};
use crate::biome_layers::grid::{cells_fit, lemma_cells_fit_sides};
use crate::biome_layers::layers::area_ok;
use crate::biome_layers::models::{layer_model, lemma_model_of_layer, MapModel};
use crate::biome_layers::pipeline::{depth_limit, generate_up_to_layer, world_layer};
use crate::biome_layers::treasure::{
    fragment_treasure_model, generate_fragment_treasure_map, holds_colours, treasure_area_ok,
    treasure_map_at, treasure_model,
};
use crate::biome_layers::{coord_limit, Area, BiomeMap};
use crate::seed_info::MinecraftVersion;

verus! {

/// A colour channel made brighter by 40, up to 255.
pub open spec fn brighter(c: u8) -> u8 {
    if c > 215 {
        255
    } else {
        (c + 40) as u8
    }
}

/// The colour that a biome is drawn in, as red, green, blue and 255: the
/// colour of the biome that the low 8 bits of the id name, made brighter
/// for the ids from 128 up to 167.
pub open spec fn biome_colour(id: i32) -> Seq<u8> {
    let low = id & 0xFF;
    let c = colour_of(low as int);
    if 128 <= low <= 167 {
        seq![brighter(c.0), brighter(c.1), brighter(c.2), 255u8]
    } else {
        seq![c.0, c.1, c.2, 255u8]
    }
}

/// The colour that a biome is drawn in.
pub fn biome_to_color(id: i32) -> (r: [u8; 4])
    ensures
        r@ == biome_colour(id),
{
    // An id that names no biome is drawn as the biome of its low 8 bits.
    let low = id & 0xFF;
    assert(0 <= low < 256) by (bit_vector)
        requires
            low == id & 0xFF,
    ;
    let (r, g, b) = colour(low);
    let c = if low >= 128 && low <= 167 {
        [r.saturating_add(40), g.saturating_add(40), b.saturating_add(40), 255]
    } else {
        [r, g, b, 255]
    };
    assert(c@ =~= biome_colour(id));
    c
}

/// The colour with the given number of the treasure maps, as
/// 0xRRGGBB: black where there is none.
pub open spec fn treasure_colour(id: usize) -> u32 {
    match id {
        1 => 0x7FB238,
        2 => 0xF7E9A3,
        3 => 0xC7C7C7,
        4 => 0xFF0000,
        5 => 0xA0A0FF,
        6 => 0xA7A7A7,
        7 => 0x007C00,
        8 => 0xFFFFFF,
        9 => 0xA4A8B8,
        10 => 0x976D4D,
        11 => 0x707070,
        12 => 0x4040FF,
        13 => 0x8F7748,
        14 => 0xFFFCF5,
        15 => 0xD87F33,
        16 => 0xB24CD8,
        17 => 0x6699D8,
        18 => 0xE5E533,
        19 => 0x7FCC19,
        20 => 0xF27FA5,
        21 => 0x4C4C4C,
        22 => 0x999999,
        23 => 0x4C7F99,
        24 => 0x7F3FB2,
        25 => 0x334CB2,
        26 => 0x664C33,
        27 => 0x667F33,
        28 => 0x993333,
        29 => 0x191919,
        30 => 0xFAEE4D,
        31 => 0x5CDBD5,
        32 => 0x4A80FF,
        33 => 0x00D93A,
        34 => 0x815631,
        35 => 0x700200,
        36 => 0xD1B1A1,
        37 => 0x9F5224,
        38 => 0x95576C,
        39 => 0x706C8A,
        40 => 0xBA8524,
        41 => 0x677535,
        42 => 0xA04D4E,
        43 => 0x392923,
        44 => 0x876B62,
        45 => 0x575C5C,
        46 => 0x7A4958,
        47 => 0x4C3E5C,
        48 => 0x4C3223,
        49 => 0x4C522A,
        50 => 0x8E3C2E,
        51 => 0x251610,
        _ => 0x000000,
    }
}

/// The colour with the given number of the treasure maps.
pub fn treasure_map_colors(id: usize) -> (r: u32)
    ensures
        r == treasure_colour(id),
        r <= 0xFFFFFF,
{
    match id {
        1 => 0x7FB238,
        2 => 0xF7E9A3,
        3 => 0xC7C7C7,
        4 => 0xFF0000,
        5 => 0xA0A0FF,
        6 => 0xA7A7A7,
        7 => 0x007C00,
        8 => 0xFFFFFF,
        9 => 0xA4A8B8,
        10 => 0x976D4D,
        11 => 0x707070,
        12 => 0x4040FF,
        13 => 0x8F7748,
        14 => 0xFFFCF5,
        15 => 0xD87F33,
        16 => 0xB24CD8,
        17 => 0x6699D8,
        18 => 0xE5E533,
        19 => 0x7FCC19,
        20 => 0xF27FA5,
        21 => 0x4C4C4C,
        22 => 0x999999,
        23 => 0x4C7F99,
        24 => 0x7F3FB2,
        25 => 0x334CB2,
        26 => 0x664C33,
        27 => 0x667F33,
        28 => 0x993333,
        29 => 0x191919,
        30 => 0xFAEE4D,
        31 => 0x5CDBD5,
        32 => 0x4A80FF,
        33 => 0x00D93A,
        34 => 0x815631,
        35 => 0x700200,
        36 => 0xD1B1A1,
        37 => 0x9F5224,
        38 => 0x95576C,
        39 => 0x706C8A,
        40 => 0xBA8524,
        41 => 0x677535,
        42 => 0xA04D4E,
        43 => 0x392923,
        44 => 0x876B62,
        45 => 0x575C5C,
        46 => 0x7A4958,
        47 => 0x4C3E5C,
        48 => 0x4C3223,
        49 => 0x4C522A,
        50 => 0x8E3C2E,
        51 => 0x251610,
        _ => 0x000000,
    }
}

/// The factor, in 256ths, of a shade.
pub open spec fn shade_factor(variant: u8) -> int {
    if variant == 0 {
        180
    } else if variant == 1 {
        220
    } else if variant == 2 {
        255
    } else {
        135
    }
}

/// A colour channel in a shade: the channel times the factor of the
/// shade, divided by 256.
pub open spec fn shaded(channel: u8, variant: u8) -> u8 {
    ((channel * shade_factor(variant)) / 256) as u8
}

/// A colour channel in a shade.
pub fn color_variant_channel(channel: u8, variant: u8) -> (r: u8)
    requires
        variant < 4,
    ensures
        r == shaded(channel, variant),
{
    let factor: u16 = if variant == 0 {
        180
    } else if variant == 1 {
        220
    } else if variant == 2 {
        255
    } else {
        135
    };
    assert(channel * factor <= 255 * 255) by (nonlinear_arith)
        requires
            channel <= 255,
            factor <= 255,
    ;
    let mut x: u16 = channel as u16;
    x = x * factor;
    x = x / 256;
    x as u8
}

/// A colour in a shade.
pub fn color_variant(r: u8, g: u8, b: u8, variant: u8) -> (c: (u8, u8, u8))
    requires
        variant < 4,
    ensures
        c == (shaded(r, variant), shaded(g, variant), shaded(b, variant)),
{
    let r = color_variant_channel(r, variant);
    let g = color_variant_channel(g, variant);
    let b = color_variant_channel(b, variant);
    (r, g, b)
}

/// The colour that a cell of a treasure map is drawn in, as red, green,
/// blue and 255. The cell holds four times the number of a colour, and a
/// shade. The colour 0, through which the game shows the paper, is drawn
/// in the colour of the paper.
pub open spec fn treasure_shown(id: i32) -> Seq<u8> {
    let colour = (id / 4) as usize;
    let variant = (id % 4) as u8;
    let rgb = if colour == 0 {
        0xDBC6ACu32
    } else {
        treasure_colour(colour)
    };
    seq![
        shaded((rgb / 65536) as u8, variant),
        shaded(((rgb / 256) % 256) as u8, variant),
        shaded((rgb % 256) as u8, variant),
        255u8,
    ]
}

/// The colour that a cell of a treasure map is drawn in.
pub fn treasure_map_to_color(id: i32) -> (c: [u8; 4])
    requires
        0 <= id < 256,
    ensures
        c@ == treasure_shown(id),
{
    let cell = id;
    let id = id as usize;
    let (id, variant) = (id / 4, id % 4);
    // Colour 0 is drawn as nothing: take a colour like that of the paper.
    let rgb: u32 = if id == 0 {
        0xDBC6AC
    } else {
        treasure_map_colors(id)
    };
    let b = (rgb % 256) as u8;
    let rg = rgb / 256;
    let g = (rg % 256) as u8;
    let r = (rg / 256) as u8;
    let (r, g, b) = color_variant(r, g, b, variant as u8);
    let c = [r, g, b, 255];
    assert(c@ =~= treasure_shown(cell));
    c
}

/// The colours that a picture is drawn in.
#[derive(Copy, Clone, Debug, PartialEq, Eq, Structural)]
pub enum Palette {
    /// The colours of the biomes.
    Biomes,
    /// The colours of the treasure maps.
    Treasure,
}

/// The four bytes of a cell in a picture.
pub open spec fn painted(palette: Palette, v: i32) -> Seq<u8> {
    match palette {
        Palette::Biomes => biome_colour(v),
        Palette::Treasure => treasure_shown(v),
    }
}

/// The bytes of the first `x` cells of the row `z` of a map.
pub open spec fn row_bytes(palette: Palette, m: MapModel, z: int, x: nat) -> Seq<u8>
    decreases x,
{
    if x == 0 {
        Seq::empty()
    } else {
        row_bytes(palette, m, z, (x - 1) as nat) + painted(palette, m.at(x - 1, z))
    }
}

/// The bytes of the first `z` rows of a map.
pub open spec fn rows_bytes(palette: Palette, m: MapModel, z: nat) -> Seq<u8>
    decreases z,
{
    if z == 0 {
        Seq::empty()
    } else {
        rows_bytes(palette, m, (z - 1) as nat) + row_bytes(palette, m, z - 1, m.w)
    }
}

/// A map as a picture: four bytes for every cell, red, green, blue and
/// 255, row by row.
pub open spec fn picture(palette: Palette, m: MapModel) -> Seq<u8> {
    rows_bytes(palette, m, m.h)
}

/// A map as a picture.
pub fn paint_map(palette: Palette, map: &BiomeMap) -> (v: Vec<u8>)
    requires
        map.wf(),
        palette == Palette::Treasure ==> holds_colours(map@),
    ensures
        v@ == picture(palette, map@),
{
    let (w, h) = map.dim();
    let mut v: Vec<u8> = Vec::new();
    let mut z: usize = 0;
    while z < h
        invariant
            z <= h,
            w == map.w(),
            h == map.h(),
            map.wf(),
            palette == Palette::Treasure ==> holds_colours(map@),
            v@ == rows_bytes(palette, map@, z as nat),
        decreases h - z,
    {
        let ghost before = v@;
        let mut x: usize = 0;
        while x < w
            invariant
                z < h,
                x <= w,
                w == map.w(),
                h == map.h(),
                map.wf(),
                palette == Palette::Treasure ==> holds_colours(map@),
                v@ == before + row_bytes(palette, map@, z as int, x as nat),
            decreases w - x,
        {
            let id = map.at(x, z);
            assert(map@.at(x as int, z as int) == id);
            let color = match palette {
                Palette::Biomes => biome_to_color(id),
                Palette::Treasure => treasure_map_to_color(id),
            };
            let ghost inner = v@;
            v.push(color[0]);
            v.push(color[1]);
            v.push(color[2]);
            v.push(color[3]);
            proof {
                assert(v@ =~= inner + color@);
                assert(v@ =~= before + row_bytes(palette, map@, z as int, (x + 1) as nat));
            }
            x += 1;
        }
        z += 1;
    }
    v
}

/// A map of biomes as a picture.
pub fn draw_map_image(map: &BiomeMap) -> (v: Vec<u8>)
    requires
        map.wf(),
    ensures
        v@ == picture(Palette::Biomes, map@),
{
    paint_map(Palette::Biomes, map)
}

/// A treasure map as a picture.
pub fn draw_treasure_map_image(map: &BiomeMap) -> (v: Vec<u8>)
    requires
        map.wf(),
        holds_colours(map@),
    ensures
        v@ == picture(Palette::Treasure, map@),
{
    paint_map(Palette::Treasure, map)
}

/// The picture of a layer of the world over an area.
pub fn generate_image_up_to_layer(version: MinecraftVersion, area: Area, seed: i64, layer: u32) -> (v:
    Vec<u8>)
    requires
        area_ok(area, depth_limit()),
    ensures
        v@ == picture(Palette::Biomes, layer_model(world_layer(version, seed, layer), area)),
{
    let map = generate_up_to_layer(version, area, seed, layer);
    proof {
        lemma_model_of_layer(world_layer(version, seed, layer), &map, area);
    }
    draw_map_image(&map)
}

/// The picture of the biomes of the world over an area.
pub fn generate_image(version: MinecraftVersion, area: Area, seed: i64) -> (v: Vec<u8>)
    requires
        area_ok(area, depth_limit()),
    ensures
        v@ == picture(
            Palette::Biomes,
            layer_model(world_layer(version, seed, version.layers()), area),
        ),
{
    let num_layers = version.num_layers();
    generate_image_up_to_layer(version, area, seed, num_layers)
}

/// The picture of terrain in the style of the treasure maps that are not
/// explored yet, for a version from 1.13 on.
pub fn generate_image_treasure_map(version: MinecraftVersion, area: Area, seed: i64) -> (v: Vec<u8>)
    requires
        version != MinecraftVersion::Java1_7,
        treasure_area_ok(area),
    ensures
        v@ == picture(Palette::Treasure, fragment_treasure_model(version, area, seed)),
{
    let map = generate_fragment_treasure_map(version, area, seed);
    draw_treasure_map_image(&map)
}

/// The area of the world that the treasure map of a fragment shows: 256
/// by 256 cells, from 64 cells before the cell `(256 * fx, 256 * fz)`.
pub open spec fn fragment_area(fx: i64, fz: i64) -> Area {
    Area { x: (fx * 256 - 64) as i64, z: (fz * 256 - 64) as i64, w: 256, h: 256 }
}

/// Whether the treasure map of a fragment can be asked for: its area lies
/// within the limit of the coordinates, with room to spare.
pub open spec fn fragment_ok(fx: i64, fz: i64) -> bool {
    -(coord_limit() - 8192) <= fx * 256 - 64 && fx * 256 + 192 <= coord_limit() - 8192 && -(
    coord_limit() - 8192) <= fz * 256 - 64 && fz * 256 + 192 <= coord_limit() - 8192
}

/// The picture of the treasure map of a fragment, with the scale and the
/// place that the maps of the game have, for a version from 1.13 on.
pub fn generate_image_treasure_map_at(
    version: MinecraftVersion,
    seed: i64,
    fragment_x: i64,
    fragment_z: i64,
) -> (v: Vec<u8>)
    requires
        version != MinecraftVersion::Java1_7,
        fragment_ok(fragment_x, fragment_z),
    ensures
        v@ == picture(
            Palette::Treasure,
            treasure_model(
                fragment_x as int,
                fragment_z as int,
                layer_model(
                    world_layer(version, seed, 51),
                    fragment_area(fragment_x, fragment_z),
                ),
            ),
        ),
{
    let corner_x = fragment_x * 256 - 64;
    let corner_z = fragment_z * 256 - 64;
    let parea = Area { x: corner_x, z: corner_z, w: 256, h: 256 };
    assert(cells_fit(4352int, 4352int));
    assert(area_ok(parea, depth_limit()));
    let pmap = generate_up_to_layer(version, parea, seed, 51);
    proof {
        lemma_model_of_layer(world_layer(version, seed, 51), &pmap, parea);
    }
    let map = treasure_map_at(fragment_x, fragment_z, &pmap);
    draw_treasure_map_image(&map)
}

/// The character of a decimal digit.
pub open spec fn digit(d: int) -> char {
    if d == 0 {
        '0'
    } else if d == 1 {
        '1'
    } else if d == 2 {
        '2'
    } else if d == 3 {
        '3'
    } else if d == 4 {
        '4'
    } else if d == 5 {
        '5'
    } else if d == 6 {
        '6'
    } else if d == 7 {
        '7'
    } else if d == 8 {
        '8'
    } else {
        '9'
    }
}

/// A number above or at zero in decimal digits.
pub open spec fn digits(n: nat) -> Seq<char>
    decreases n,
{
    if n < 10 {
        seq![digit(n as int)]
    } else {
        digits(n / 10).push(digit((n % 10) as int))
    }
}

/// A number in decimal digits, with a minus sign where it is below zero.
pub open spec fn decimal(n: int) -> Seq<char> {
    if n < 0 {
        seq!['-'] + digits((-n) as nat)
    } else {
        digits(n as nat)
    }
}

/// The character that a cell is drawn as in a text.
pub open spec fn cell_char(v: i32) -> char {
    if v == 0 {
        '_'
    } else if v == 1 {
        '#'
    } else if v == 2 {
        '2'
    } else if v == 3 {
        '3'
    } else if v == 7 {
        'R'
    } else {
        '?'
    }
}

/// The first `x` cells of the row `z` of a map as text.
pub open spec fn row_text(m: MapModel, z: int, x: nat) -> Seq<char>
    decreases x,
{
    if x == 0 {
        Seq::empty()
    } else {
        row_text(m, z, (x - 1) as nat).push(cell_char(m.at(x - 1, z)))
    }
}

/// The first `z` rows of a map as text, each with the end of a line.
pub open spec fn rows_text(m: MapModel, z: nat) -> Seq<char>
    decreases z,
{
    if z == 0 {
        Seq::empty()
    } else {
        rows_text(m, (z - 1) as nat) + row_text(m, z - 1, m.w).push('\n')
    }
}

/// A map as text: a line with the coordinates of the first cell and the
/// lengths, then a line for every row, with a character for every cell.
pub open spec fn map_text(m: MapModel) -> Seq<char> {
    "MAP: x: "@ + decimal(m.x) + ", z: "@ + decimal(m.z) + ", "@ + decimal(m.w as int) + "x"@
        + decimal(m.h as int) + "\n"@ + rows_text(m, m.h)
}

/// A decimal digit as text.
fn digit_str(d: u64) -> (s: &'static str)
    requires
        d < 10,
    ensures
        s@ == seq![digit(d as int)],
{
    proof {
        reveal_strlit("0");
        reveal_strlit("1");
        reveal_strlit("2");
        reveal_strlit("3");
        reveal_strlit("4");
        reveal_strlit("5");
        reveal_strlit("6");
        reveal_strlit("7");
        reveal_strlit("8");
        reveal_strlit("9");
    }
    let s = if d == 0 {
        "0"
    } else if d == 1 {
        "1"
    } else if d == 2 {
        "2"
    } else if d == 3 {
        "3"
    } else if d == 4 {
        "4"
    } else if d == 5 {
        "5"
    } else if d == 6 {
        "6"
    } else if d == 7 {
        "7"
    } else if d == 8 {
        "8"
    } else {
        "9"
    };
    assert(s@ =~= seq![digit(d as int)]);
    s
}

/// A cell as text.
fn cell_str(v: i32) -> (s: &'static str)
    ensures
        s@ == seq![cell_char(v)],
{
    proof {
        reveal_strlit("_");
        reveal_strlit("#");
        reveal_strlit("2");
        reveal_strlit("3");
        reveal_strlit("R");
        reveal_strlit("?");
    }
    let s = if v == 0 {
        "_"
    } else if v == 1 {
        "#"
    } else if v == 2 {
        "2"
    } else if v == 3 {
        "3"
    } else if v == 7 {
        "R"
    } else {
        "?"
    };
    assert(s@ =~= seq![cell_char(v)]);
    s
}

/// Writes a number above or at zero in decimal digits.
fn push_digits(s: &mut String, n: u64)
    ensures
        final(s)@ == old(s)@ + digits(n as nat),
    decreases n,
{
    if n >= 10 {
        push_digits(s, n / 10);
    }
    let ghost before = s@;
    s.append(digit_str(n % 10));
    proof {
        assert(s@ =~= old(s)@ + digits(n as nat));
    }
}

/// Writes a number in decimal digits.
fn push_decimal(s: &mut String, n: i64)
    ensures
        final(s)@ == old(s)@ + decimal(n as int),
{
    if n < 0 {
        proof {
            reveal_strlit("-");
        }
        s.append("-");
        push_digits(s, (-(n as i128)) as u64);
        proof {
            assert(s@ =~= old(s)@ + decimal(n as int));
        }
    } else {
        push_digits(s, n as u64);
    }
}

/// A map as text.
pub fn draw_map(map: &BiomeMap) -> (s: String)
    requires
        map.wf(),
    ensures
        s@ == map_text(map@),
{
    let (w, h) = map.dim();
    proof {
        lemma_cells_fit_sides(map.w() as int, map.h() as int);
    }
    let mut s = String::new();
    s.append("MAP: x: ");
    push_decimal(&mut s, map.x);
    s.append(", z: ");
    push_decimal(&mut s, map.z);
    s.append(", ");
    push_digits(&mut s, w as u64);
    s.append("x");
    push_digits(&mut s, h as u64);
    s.append("\n");
    let ghost head = s@;
    proof {
        assert(head =~= "MAP: x: "@ + decimal(map@.x) + ", z: "@ + decimal(map@.z) + ", "@
            + decimal(map@.w as int) + "x"@ + decimal(map@.h as int) + "\n"@);
        reveal_strlit("\n");
    }
    let mut z: usize = 0;
    while z < h
        invariant
            z <= h,
            w == map.w(),
            h == map.h(),
            map.wf(),
            "\n"@ =~= seq!['\n'],
            s@ == head + rows_text(map@, z as nat),
        decreases h - z,
    {
        let ghost before = s@;
        let mut x: usize = 0;
        while x < w
            invariant
                z < h,
                x <= w,
                w == map.w(),
                h == map.h(),
                map.wf(),
                s@ == before + row_text(map@, z as int, x as nat),
            decreases w - x,
        {
            let v = map.at(x, z);
            assert(map@.at(x as int, z as int) == v);
            s.append(cell_str(v));
            proof {
                assert(s@ =~= before + row_text(map@, z as int, (x + 1) as nat));
            }
            x += 1;
        }
        s.append("\n");
        proof {
            assert(s@ =~= head + rows_text(map@, (z + 1) as nat));
        }
        z += 1;
    }
    s
}

} // verus!

use vstd::prelude::*;
use vstd::bytes::*;
use vstd::slice::*;
use vstd::utf8::*;

verus! {

/// At most this many polygons in a map.
pub const MAX_POLYS: i32 = 5000;

/// At most this many sectors on each side of the centre sector.
pub const MAX_SECTOR: i32 = 25;

/// At most this many props in a map.
pub const MAX_PROPS: i32 = 500;

/// A colour as a map file stores it.
#[derive(Debug, Clone, Copy, PartialEq, Eq, Structural)]
pub struct MapColor {
    pub r: u8,
    pub g: u8,
    pub b: u8,
    pub a: u8,
}

/// A polygon vertex. The coordinates are the IEEE-754 bit patterns of the
/// `f32` values in the file.
#[derive(Debug, Clone, Copy, PartialEq, Eq, Structural)]
pub struct MapVertex {
    pub x: u32,
    pub y: u32,
    pub z: u32,
    pub rhw: u32,
    pub color: MapColor,
    pub u: u32,
    pub v: u32,
}

/// A triangle of the map, with the normals of its edges (as `f32` bit
/// patterns) and its type.
#[derive(Debug, Clone, Copy)]
pub struct MapPolygon {
    pub vertices: [MapVertex; 3],
    pub normals: [(u32, u32, u32); 3],
    pub polytype: u8,
}

/// The polygons that lie in one sector of the map.
#[derive(Debug, Default)]
pub struct MapSector {
    pub polys: Vec<u16>,
}

/// A piece of scenery placed on the map (position, rotation and scale as
/// `f32` bit patterns).
#[derive(Debug, Clone, Copy, PartialEq, Eq, Structural)]
pub struct MapProp {
    pub active: bool,
    pub style: u16,
    pub width: i32,
    pub height: i32,
    pub x: u32,
    pub y: u32,
    pub rotation: u32,
    pub scale_x: u32,
    pub scale_y: u32,
    pub alpha: u8,
    pub color: MapColor,
    pub level: u8,
}

/// A scenery image that props refer to.
#[derive(Debug)]
pub struct MapScenery {
    pub filename: String,
    pub date: i32,
}

/// A round collider (position and radius as `f32` bit patterns).
#[derive(Debug, Clone, Copy, PartialEq, Eq, Structural)]
pub struct MapCollider {
    pub active: bool,
    pub x: u32,
    pub y: u32,
    pub radius: u32,
}

/// A spawn point of a team.
#[derive(Debug, Clone, Copy, PartialEq, Eq, Structural)]
pub struct MapSpawnpoint {
    pub active: bool,
    pub x: i32,
    pub y: i32,
    pub team: i32,
}

/// A map, as a PMS file describes it.
pub struct MapFile {
    pub filename: String,
    pub version: i32,
    pub mapname: String,
    pub texture_name: String,
    pub bg_color_top: MapColor,
    pub bg_color_bottom: MapColor,
    pub start_jet: i32,
    pub grenade_packs: u8,
    pub medikits: u8,
    pub weather: u8,
    pub steps: u8,
    pub random_id: i32,
    pub polygons: Vec<MapPolygon>,
    pub sectors_division: i32,
    pub sectors_num: i32,
    pub sectors: Vec<MapSector>,
    pub props: Vec<MapProp>,
    pub scenery: Vec<MapScenery>,
    pub colliders: Vec<MapCollider>,
    pub spawnpoints: Vec<MapSpawnpoint>,
    /// The first 51 rows of 51 sectors each hold the sectors in file order;
    /// the last 20 rows are empty.
    pub sectors_poly: Vec<Vec<MapSector>>,
}

/// Why a map file could not be read.
#[derive(Debug, Clone, Copy, PartialEq, Eq, Structural)]
pub enum MapError {
    /// The file ends before the map does.
    UnexpectedEnd,
    /// A string is longer than its field.
    BadStringLength,
    /// The number of polygons is negative or above `MAX_POLYS`.
    BadPolygonCount,
    /// The number of sectors is negative or above `MAX_SECTOR`.
    BadSectorCount,
    /// The file holds fewer than the 51 x 51 sectors that the map grid needs.
    MissingSectors,
    /// The number of props is negative or above `MAX_PROPS`.
    BadPropCount,
}

// ---------------------------------------------------------------------------
// What the file holds
// ---------------------------------------------------------------------------
pub struct PolygonView {
    pub vertices: Seq<MapVertex>,
    pub normals: Seq<(u32, u32, u32)>,
    pub polytype: u8,
}

pub struct MapFileView {
    pub version: i32,
    pub mapname: Seq<char>,
    pub texture_name: Seq<char>,
    pub bg_color_top: MapColor,
    pub bg_color_bottom: MapColor,
    pub start_jet: i32,
    pub grenade_packs: u8,
    pub medikits: u8,
    pub weather: u8,
    pub steps: u8,
    pub random_id: i32,
    pub polygons: Seq<PolygonView>,
    pub sectors_division: i32,
    pub sectors_num: i32,
    pub sectors: Seq<Seq<u16>>,
    pub props: Seq<MapProp>,
    pub scenery: Seq<(Seq<char>, i32)>,
    pub colliders: Seq<MapCollider>,
    pub spawnpoints: Seq<MapSpawnpoint>,
}

pub open spec fn polygon_view(p: MapPolygon) -> PolygonView {
    PolygonView { vertices: p.vertices@, normals: p.normals@, polytype: p.polytype }
}

pub open spec fn sector_view(s: MapSector) -> Seq<u16> {
    s.polys@
}

pub open spec fn scenery_view(s: MapScenery) -> (Seq<char>, i32) {
    (s.filename@, s.date)
}

impl MapFile {
    pub open spec fn file_view(&self) -> MapFileView {
        MapFileView {
            version: self.version,
            mapname: self.mapname@,
            texture_name: self.texture_name@,
            bg_color_top: self.bg_color_top,
            bg_color_bottom: self.bg_color_bottom,
            start_jet: self.start_jet,
            grenade_packs: self.grenade_packs,
            medikits: self.medikits,
            weather: self.weather,
            steps: self.steps,
            random_id: self.random_id,
            polygons: self.polygons@.map_values(|p| polygon_view(p)),
            sectors_division: self.sectors_division,
            sectors_num: self.sectors_num,
            sectors: self.sectors@.map_values(|s| sector_view(s)),
            props: self.props@,
            scenery: self.scenery@.map_values(|s| scenery_view(s)),
            colliders: self.colliders@,
            spawnpoints: self.spawnpoints@,
        }
    }
}

/// `String::from_utf8_lossy`: the string of the bytes, with each invalid
/// UTF-8 sequence replaced by U+FFFD.
pub uninterp spec fn utf8_lossy(b: Seq<u8>) -> Seq<char>;

/// `String::from_utf8_lossy(..).into_owned()`: the string that
/// `utf8_lossy` names; valid UTF-8 is decoded as it stands, as the
/// documentation says.
#[verifier::external_body]
fn string_from_utf8_lossy(b: &[u8]) -> (s: String)
    ensures
        s@ == utf8_lossy(b@),
        valid_utf8(b@) ==> s@ == decode_utf8(b@),
{
    String::from_utf8_lossy(b).into_owned()
}

// ---------------------------------------------------------------------------
// The layout of the file
// ---------------------------------------------------------------------------
/// A read of a value at offset `o`: the value and the offset after it, or
/// why it failed.
pub open spec fn s_u16(d: Seq<u8>, o: int) -> Result<(u16, int), MapError> {
    if 0 <= o && o + 2 <= d.len() {
        Ok((spec_u16_from_le_bytes(d.subrange(o, o + 2)), o + 2))
    } else {
        Err(MapError::UnexpectedEnd)
    }
}

/// 4 bytes little-endian: a `u32`, or the bits of an `f32`.
pub open spec fn s_u32(d: Seq<u8>, o: int) -> Result<(u32, int), MapError> {
    if 0 <= o && o + 4 <= d.len() {
        Ok((spec_u32_from_le_bytes(d.subrange(o, o + 4)), o + 4))
    } else {
        Err(MapError::UnexpectedEnd)
    }
}

pub open spec fn s_i32(d: Seq<u8>, o: int) -> Result<(i32, int), MapError> {
    match s_u32(d, o) {
        Ok((v, o1)) => Ok((v as i32, o1)),
        Err(e) => Err(e),
    }
}

/// A colour: blue, green, red, alpha.
pub open spec fn s_color(d: Seq<u8>, o: int) -> Result<(MapColor, int), MapError> {
    if 0 <= o && o + 4 <= d.len() {
        Ok((MapColor { b: d[o], g: d[o + 1], r: d[o + 2], a: d[o + 3] }, o + 4))
    } else {
        Err(MapError::UnexpectedEnd)
    }
}

/// A string field of `length` bytes: its length (one byte), its bytes, and
/// filler up to `length`. Its bytes are decoded leniently.
pub open spec fn s_string(d: Seq<u8>, o: int, length: u32) -> Result<(Seq<char>, int), MapError> {
    if !(0 <= o < d.len()) {
        Err(MapError::UnexpectedEnd)
    } else {
        let n = d[o] as int;
        if o + 1 + n > d.len() {
            Err(MapError::UnexpectedEnd)
        } else if n > length {
            Err(MapError::BadStringLength)
        } else if o + 1 + length > d.len() {
            Err(MapError::UnexpectedEnd)
        } else {
            Ok((utf8_lossy(d.subrange(o + 1, o + 1 + n)), o + 1 + length))
        }
    }
}

pub open spec fn le32(d: Seq<u8>, o: int) -> u32 {
    spec_u32_from_le_bytes(d.subrange(o, o + 4))
}

pub open spec fn le16(d: Seq<u8>, o: int) -> u16 {
    spec_u16_from_le_bytes(d.subrange(o, o + 2))
}

/// A vertex: x, y, z, rhw, colour, u, v (28 bytes).
pub open spec fn vertex_at(d: Seq<u8>, o: int) -> MapVertex {
    MapVertex {
        x: le32(d, o),
        y: le32(d, o + 4),
        z: le32(d, o + 8),
        rhw: le32(d, o + 12),
        color: MapColor { b: d[o + 16], g: d[o + 17], r: d[o + 18], a: d[o + 19] },
        u: le32(d, o + 20),
        v: le32(d, o + 24),
    }
}

pub open spec fn vec3_at(d: Seq<u8>, o: int) -> (u32, u32, u32) {
    (le32(d, o), le32(d, o + 4), le32(d, o + 8))
}

/// A polygon: three vertices, three normals, its type (121 bytes).
pub open spec fn polygon_at(d: Seq<u8>, o: int) -> PolygonView {
    PolygonView {
        vertices: seq![vertex_at(d, o), vertex_at(d, o + 28), vertex_at(d, o + 56)],
        normals: seq![vec3_at(d, o + 84), vec3_at(d, o + 96), vec3_at(d, o + 108)],
        polytype: d[o + 120],
    }
}

/// A prop (44 bytes).
pub open spec fn prop_at(d: Seq<u8>, o: int) -> MapProp {
    MapProp {
        active: le16(d, o) != 0,
        style: le16(d, o + 2),
        width: le32(d, o + 4) as i32,
        height: le32(d, o + 8) as i32,
        x: le32(d, o + 12),
        y: le32(d, o + 16),
        rotation: le32(d, o + 20),
        scale_x: le32(d, o + 24),
        scale_y: le32(d, o + 28),
        alpha: le32(d, o + 32) as u8,
        color: MapColor { b: d[o + 36], g: d[o + 37], r: d[o + 38], a: le32(d, o + 32) as u8 },
        level: le32(d, o + 40) as u8,
    }
}

/// The 44 bytes a prop is written as: active flag and style (16 bits
/// each), width and height, x, y, rotation and the two scales, the opacity,
/// the colour (blue, green, red, one byte each, then a spare byte) and the
/// level (32 bits each), all little-endian.
pub open spec fn prop_bytes(p: MapProp) -> Seq<u8> {
    spec_u16_to_le_bytes(
        if p.active {
            1u16
        } else {
            0u16
        },
    ) + spec_u16_to_le_bytes(p.style) + spec_u32_to_le_bytes(#[verifier::truncate] (p.width as u32))
        + spec_u32_to_le_bytes(#[verifier::truncate] (p.height as u32)) + spec_u32_to_le_bytes(p.x)
        + spec_u32_to_le_bytes(p.y) + spec_u32_to_le_bytes(p.rotation) + spec_u32_to_le_bytes(p.scale_x)
        + spec_u32_to_le_bytes(p.scale_y) + spec_u32_to_le_bytes(p.alpha as u32) + seq![
        p.color.b,
        p.color.g,
        p.color.r,
        p.color.a,
    ] + spec_u32_to_le_bytes(p.level as u32)
}

/// Reading a prop gives back the prop that was written, each field from
/// its own bytes (the colour's opacity is the prop's opacity).
pub proof fn lemma_prop_roundtrip(p: MapProp, d: Seq<u8>, o: int)
    requires
        p.color.a == p.alpha,
        0 <= o,
        o + 44 <= d.len(),
        d.subrange(o, o + 44) == prop_bytes(p),
    ensures
        prop_at(d, o) == p,
{
    lemma_auto_spec_u32_to_from_le_bytes();
    lemma_auto_spec_u16_to_from_le_bytes();
    let b = prop_bytes(p);
    let a: u16 = if p.active {
        1u16
    } else {
        0u16
    };
    let w: i32 = p.width;
    let h: i32 = p.height;
    let wu: u32 = #[verifier::truncate] (w as u32);
    let hu: u32 = #[verifier::truncate] (h as u32);
    assert((#[verifier::truncate] (w as u32)) as i32 == w) by (bit_vector);
    assert((#[verifier::truncate] (h as u32)) as i32 == h) by (bit_vector);
    assert(b.len() == 44);
    assert(d.subrange(o, o + 2) =~= b.subrange(0, 2));
    assert(b.subrange(0, 2) =~= spec_u16_to_le_bytes(a));
    assert(d.subrange(o + 2, o + 4) =~= b.subrange(2, 4));
    assert(b.subrange(2, 4) =~= spec_u16_to_le_bytes(p.style));
    assert(d.subrange(o + 4, o + 8) =~= b.subrange(4, 8));
    assert(b.subrange(4, 8) =~= spec_u32_to_le_bytes(wu));
    assert(d.subrange(o + 8, o + 12) =~= b.subrange(8, 12));
    assert(b.subrange(8, 12) =~= spec_u32_to_le_bytes(hu));
    assert(d.subrange(o + 12, o + 16) =~= b.subrange(12, 16));
    assert(b.subrange(12, 16) =~= spec_u32_to_le_bytes(p.x));
    assert(d.subrange(o + 16, o + 20) =~= b.subrange(16, 20));
    assert(b.subrange(16, 20) =~= spec_u32_to_le_bytes(p.y));
    assert(d.subrange(o + 20, o + 24) =~= b.subrange(20, 24));
    assert(b.subrange(20, 24) =~= spec_u32_to_le_bytes(p.rotation));
    assert(d.subrange(o + 24, o + 28) =~= b.subrange(24, 28));
    assert(b.subrange(24, 28) =~= spec_u32_to_le_bytes(p.scale_x));
    assert(d.subrange(o + 28, o + 32) =~= b.subrange(28, 32));
    assert(b.subrange(28, 32) =~= spec_u32_to_le_bytes(p.scale_y));
    assert(d.subrange(o + 32, o + 36) =~= b.subrange(32, 36));
    assert(b.subrange(32, 36) =~= spec_u32_to_le_bytes(p.alpha as u32));
    assert(d[o + 36] == b[36] && d[o + 37] == b[37] && d[o + 38] == b[38]);
    assert(d.subrange(o + 40, o + 44) =~= b.subrange(40, 44));
    assert(b.subrange(40, 44) =~= spec_u32_to_le_bytes(p.level as u32));
    assert(prop_at(d, o) =~= p);
}

/// The 28 bytes a vertex is written as: x, y, z, rhw (32 bits each), the
/// colour (blue, green, red, alpha), u and v, little-endian.
pub open spec fn vertex_bytes(v: MapVertex) -> Seq<u8> {
    spec_u32_to_le_bytes(v.x) + spec_u32_to_le_bytes(v.y) + spec_u32_to_le_bytes(v.z) + spec_u32_to_le_bytes(v.rhw)
        + seq![v.color.b, v.color.g, v.color.r, v.color.a] + spec_u32_to_le_bytes(v.u) + spec_u32_to_le_bytes(v.v)
}

/// Reading a vertex gives back the vertex that was written.
pub proof fn lemma_vertex_roundtrip(v: MapVertex, d: Seq<u8>, o: int)
    requires
        0 <= o,
        o + 28 <= d.len(),
        d.subrange(o, o + 28) == vertex_bytes(v),
    ensures
        vertex_at(d, o) == v,
{
    lemma_auto_spec_u32_to_from_le_bytes();
    let b = vertex_bytes(v);
    assert(b.len() == 28);
    assert(d.subrange(o, o + 4) =~= b.subrange(0, 4));
    assert(b.subrange(0, 4) =~= spec_u32_to_le_bytes(v.x));
    assert(d.subrange(o + 4, o + 8) =~= b.subrange(4, 8));
    assert(b.subrange(4, 8) =~= spec_u32_to_le_bytes(v.y));
    assert(d.subrange(o + 8, o + 12) =~= b.subrange(8, 12));
    assert(b.subrange(8, 12) =~= spec_u32_to_le_bytes(v.z));
    assert(d.subrange(o + 12, o + 16) =~= b.subrange(12, 16));
    assert(b.subrange(12, 16) =~= spec_u32_to_le_bytes(v.rhw));
    assert(d[o + 16] == b[16] && d[o + 17] == b[17] && d[o + 18] == b[18] && d[o + 19] == b[19]);
    assert(d.subrange(o + 20, o + 24) =~= b.subrange(20, 24));
    assert(b.subrange(20, 24) =~= spec_u32_to_le_bytes(v.u));
    assert(d.subrange(o + 24, o + 28) =~= b.subrange(24, 28));
    assert(b.subrange(24, 28) =~= spec_u32_to_le_bytes(v.v));
    assert(vertex_at(d, o) =~= v);
}

/// The 16 bytes a spawn point is written as: active flag, x, y and team
/// (32 bits each, little-endian).
pub open spec fn spawnpoint_bytes(sp: MapSpawnpoint) -> Seq<u8> {
    spec_u32_to_le_bytes(
        if sp.active {
            1u32
        } else {
            0u32
        },
    ) + spec_u32_to_le_bytes(#[verifier::truncate] (sp.x as u32)) + spec_u32_to_le_bytes(
        #[verifier::truncate] (sp.y as u32),
    ) + spec_u32_to_le_bytes(#[verifier::truncate] (sp.team as u32))
}

/// Reading a spawn point gives back the spawn point that was written.
pub proof fn lemma_spawnpoint_roundtrip(sp: MapSpawnpoint, d: Seq<u8>, o: int)
    requires
        0 <= o,
        o + 16 <= d.len(),
        d.subrange(o, o + 16) == spawnpoint_bytes(sp),
    ensures
        spawnpoint_at(d, o) == sp,
{
    lemma_auto_spec_u32_to_from_le_bytes();
    let b = spawnpoint_bytes(sp);
    let x: i32 = sp.x;
    let y: i32 = sp.y;
    let t: i32 = sp.team;
    assert((#[verifier::truncate] (x as u32)) as i32 == x) by (bit_vector);
    assert((#[verifier::truncate] (y as u32)) as i32 == y) by (bit_vector);
    assert((#[verifier::truncate] (t as u32)) as i32 == t) by (bit_vector);
    assert(b.len() == 16);
    assert(d.subrange(o, o + 4) =~= b.subrange(0, 4));
    assert(b.subrange(0, 4) =~= spec_u32_to_le_bytes(
        if sp.active {
            1u32
        } else {
            0u32
        },
    ));
    assert(d.subrange(o + 4, o + 8) =~= b.subrange(4, 8));
    assert(b.subrange(4, 8) =~= spec_u32_to_le_bytes(#[verifier::truncate] (x as u32)));
    assert(d.subrange(o + 8, o + 12) =~= b.subrange(8, 12));
    assert(b.subrange(8, 12) =~= spec_u32_to_le_bytes(#[verifier::truncate] (y as u32)));
    assert(d.subrange(o + 12, o + 16) =~= b.subrange(12, 16));
    assert(b.subrange(12, 16) =~= spec_u32_to_le_bytes(#[verifier::truncate] (t as u32)));
    assert(spawnpoint_at(d, o) =~= sp);
}

/// A collider (16 bytes).
pub open spec fn collider_at(d: Seq<u8>, o: int) -> MapCollider {
    MapCollider { active: le32(d, o) != 0, x: le32(d, o + 4), y: le32(d, o + 8), radius: le32(d, o + 12) }
}

/// A spawn point (16 bytes).
pub open spec fn spawnpoint_at(d: Seq<u8>, o: int) -> MapSpawnpoint {
    MapSpawnpoint {
        active: le32(d, o) != 0,
        x: le32(d, o + 4) as i32,
        y: le32(d, o + 8) as i32,
        team: le32(d, o + 12) as i32,
    }
}

/// How many times a count read as `i32` runs a loop.
pub open spec fn count_of(n: i32) -> nat {
    if n < 0 {
        0
    } else {
        n as nat
    }
}

/// `n` records of `size` bytes from offset `o`, each read by `f`.
pub open spec fn s_records<T>(d: Seq<u8>, o: int, n: nat, size: int, f: spec_fn(Seq<u8>, int) -> T) -> Result<
    (Seq<T>, int),
    MapError,
> {
    if 0 <= o && o + n * size <= d.len() {
        Ok((Seq::new(n, |i: int| f(d, o + i * size)), o + n * size))
    } else {
        Err(MapError::UnexpectedEnd)
    }
}

/// A sector: the number `m` of its polygons (2 bytes), then `m` polygon
/// indices. A count above `MAX_POLYS` ends the sector list early.
pub open spec fn s_sector(d: Seq<u8>, o: int) -> Result<(Option<Seq<u16>>, int), MapError> {
    match s_u16(d, o) {
        Ok((m, o1)) => if m > 5000 {
            Ok((None, o1))
        } else if o1 + 2 * m <= d.len() {
            Ok((Some(Seq::new(m as nat, |i: int| le16(d, o1 + 2 * i))), o1 + 2 * m))
        } else {
            Err(MapError::UnexpectedEnd)
        },
        Err(e) => Err(e),
    }
}

/// Up to `n` sectors; the flag tells whether the list ended early.
pub open spec fn s_sectors(d: Seq<u8>, o: int, n: nat) -> Result<(Seq<Seq<u16>>, bool, int), MapError>
    decreases n,
{
    if n == 0 {
        Ok((seq![], false, o))
    } else {
        match s_sectors(d, o, (n - 1) as nat) {
            Ok((ss, stopped, o1)) => if stopped {
                Ok((ss, true, o1))
            } else {
                match s_sector(d, o1) {
                    Ok((Some(s), o2)) => Ok((ss.push(s), false, o2)),
                    Ok((None, o2)) => Ok((ss, true, o2)),
                    Err(e) => Err(e),
                }
            },
            Err(e) => Err(e),
        }
    }
}

/// `n` sceneries: a 50-byte string field and a date each.
pub open spec fn s_sceneries(d: Seq<u8>, o: int, n: nat) -> Result<(Seq<(Seq<char>, i32)>, int), MapError>
    decreases n,
{
    if n == 0 {
        Ok((seq![], o))
    } else {
        match s_sceneries(d, o, (n - 1) as nat) {
            Ok((ss, o1)) => match s_string(d, o1, 50) {
                Ok((name, o2)) => match s_i32(d, o2) {
                    Ok((date, o3)) => Ok((ss.push((name, date)), o3)),
                    Err(e) => Err(e),
                },
                Err(e) => Err(e),
            },
            Err(e) => Err(e),
        }
    }
}

/// The number of sectors that the file lists for `sectors_num`.
pub open spec fn sector_count(sectors_num: i32) -> nat {
    ((2 * sectors_num + 1) * (2 * sectors_num + 1)) as nat
}

/// The part of the map after the sector list, from offset `o`.
pub open spec fn s_tail(d: Seq<u8>, o: int) -> Result<
    (Seq<MapProp>, Seq<(Seq<char>, i32)>, Seq<MapCollider>, Seq<MapSpawnpoint>),
    MapError,
> {
    match s_i32(d, o) {
        Err(e) => Err(e),
        Ok((np, o1)) => if np > MAX_PROPS || np < 0 {
            Err(MapError::BadPropCount)
        } else {
            match s_records(d, o1, np as nat, 44, |d: Seq<u8>, o: int| prop_at(d, o)) {
                Err(e) => Err(e),
                Ok((props, o2)) => match s_i32(d, o2) {
                    Err(e) => Err(e),
                    Ok((ns, o3)) => match s_sceneries(d, o3, count_of(ns)) {
                        Err(e) => Err(e),
                        Ok((scenery, o4)) => match s_i32(d, o4) {
                            Err(e) => Err(e),
                            Ok((nc, o5)) => match s_records(
                                d,
                                o5,
                                count_of(nc),
                                16,
                                |d: Seq<u8>, o: int| collider_at(d, o),
                            ) {
                                Err(e) => Err(e),
                                Ok((colliders, o6)) => match s_i32(d, o6) {
                                    Err(e) => Err(e),
                                    Ok((nsp, o7)) => match s_records(
                                        d,
                                        o7,
                                        count_of(nsp),
                                        16,
                                        |d: Seq<u8>, o: int| spawnpoint_at(d, o),
                                    ) {
                                        Err(e) => Err(e),
                                        Ok((spawnpoints, _)) => Ok(
                                            (props, scenery, colliders, spawnpoints),
                                        ),
                                    },
                                },
                            },
                        },
                    },
                },
            }
        }
    }
}

/// The map that a PMS file holds, or why it cannot be read. The layout:
/// version, name (38-byte field), texture name (24-byte field), top and
/// bottom background colours, jet fuel, four one-byte counts, a random id,
/// the polygons, the sector division and size, the sectors, the props, the
/// sceneries, the colliders and the spawn points. Counts are `i32`.
pub open spec fn spec_map(d: Seq<u8>) -> Result<MapFileView, MapError> {
    match s_i32(d, 0) {
        Err(e) => Err(e),
        Ok((version, _)) => match s_string(d, 4, 38) {
            Err(e) => Err(e),
            Ok((mapname, _)) => match s_string(d, 43, 24) {
                Err(e) => Err(e),
                Ok((texture_name, _)) => if d.len() < 92 {
                    Err(MapError::UnexpectedEnd)
                } else {
                    let n = le32(d, 88) as i32;
                    if n > MAX_POLYS || n < 0 {
                        Err(MapError::BadPolygonCount)
                    } else {
                        match s_records(d, 92, n as nat, 121, |d: Seq<u8>, o: int| polygon_at(d, o)) {
                            Err(e) => Err(e),
                            Ok((polygons, o1)) => match s_i32(d, o1) {
                                Err(e) => Err(e),
                                Ok((division, o2)) => match s_i32(d, o2) {
                                    Err(e) => Err(e),
                                    Ok((num, o3)) => if num > MAX_SECTOR || num < 0 {
                                        Err(MapError::BadSectorCount)
                                    } else {
                                        match s_sectors(d, o3, sector_count(num)) {
                                            Err(e) => Err(e),
                                            Ok((sectors, stopped, o4)) => if stopped || sectors.len()
                                                < 2601 {
                                                Err(MapError::MissingSectors)
                                            } else {
                                                match s_tail(d, o4) {
                                                    Err(e) => Err(e),
                                                    Ok((props, scenery, colliders, spawnpoints)) => Ok(
                                                        MapFileView {
                                                            version,
                                                            mapname,
                                                            texture_name,
                                                            bg_color_top: MapColor {
                                                                b: d[68],
                                                                g: d[69],
                                                                r: d[70],
                                                                a: d[71],
                                                            },
                                                            bg_color_bottom: MapColor {
                                                                b: d[72],
                                                                g: d[73],
                                                                r: d[74],
                                                                a: d[75],
                                                            },
                                                            start_jet: le32(d, 76) as i32,
                                                            grenade_packs: d[80],
                                                            medikits: d[81],
                                                            weather: d[82],
                                                            steps: d[83],
                                                            random_id: le32(d, 84) as i32,
                                                            polygons,
                                                            sectors_division: division,
                                                            sectors_num: num,
                                                            sectors,
                                                            props,
                                                            scenery,
                                                            colliders,
                                                            spawnpoints,
                                                        },
                                                    ),
                                                }
                                            },
                                        }
                                    },
                                },
                            },
                        }
                    }
                },
            },
        },
    }
}

/// The exec read agrees with the layout: the same value and the offset after
/// it, or the same error.
pub open spec fn agrees<T>(r: Result<T, MapError>, p: usize, s: Result<(T, int), MapError>) -> bool {
    match s {
        Ok((v, o)) => r == Ok::<T, MapError>(v) && p == o,
        Err(e) => r == Err::<T, MapError>(e),
    }
}

fn rd_u16(d: &[u8], pos: &mut usize) -> (r: Result<u16, MapError>)
    ensures
        agrees(r, *final(pos), s_u16(d@, *old(pos) as int)),
{
    if *pos <= d.len() && d.len() - *pos >= 2 {
        let v = u16_from_le_bytes(slice_subrange(d, *pos, *pos + 2));
        *pos = *pos + 2;
        Ok(v)
    } else {
        Err(MapError::UnexpectedEnd)
    }
}

fn rd_u32(d: &[u8], pos: &mut usize) -> (r: Result<u32, MapError>)
    ensures
        agrees(r, *final(pos), s_u32(d@, *old(pos) as int)),
{
    if *pos <= d.len() && d.len() - *pos >= 4 {
        let v = u32_from_le_bytes(slice_subrange(d, *pos, *pos + 4));
        *pos = *pos + 4;
        Ok(v)
    } else {
        Err(MapError::UnexpectedEnd)
    }
}

fn rd_i32(d: &[u8], pos: &mut usize) -> (r: Result<i32, MapError>)
    ensures
        agrees(r, *final(pos), s_i32(d@, *old(pos) as int)),
{
    match rd_u32(d, pos) {
        Ok(v) => Ok(v as i32),
        Err(e) => Err(e),
    }
}

/// Reads a colour (blue, green, red, alpha) at `*pos` and moves past it.
/// Four bytes must remain.
pub fn read_color(d: &[u8], pos: &mut usize) -> (c: MapColor)
    requires
        *old(pos) + 4 <= d.len(),
    ensures
        s_color(d@, *old(pos) as int) == Ok::<(MapColor, int), MapError>((c, *final(pos) as int)),
{
    let b = d[*pos];
    let g = d[*pos + 1];
    let r = d[*pos + 2];
    let a = d[*pos + 3];
    *pos = *pos + 4;
    MapColor { r, g, b, a }
}

/// Reads a string field of `length` bytes at `*pos`: a length byte, that
/// many bytes (decoded leniently) and filler up to `length`.
pub fn read_string(d: &[u8], pos: &mut usize, length: u32) -> (r: Result<String, MapError>)
    ensures
        match s_string(d@, *old(pos) as int, length) {
            Ok((v, o)) => r matches Ok(s) && s@ == v && *final(pos) == o,
            Err(e) => r == Err::<String, MapError>(e),
        },
{
    if *pos >= d.len() {
        return Err(MapError::UnexpectedEnd);
    }
    let n = d[*pos] as usize;
    let start = *pos + 1;
    if n > d.len() - start {
        return Err(MapError::UnexpectedEnd);
    }
    if n > length as usize {
        return Err(MapError::BadStringLength);
    }
    if length as usize > d.len() - start {
        return Err(MapError::UnexpectedEnd);
    }
    let s = string_from_utf8_lossy(slice_subrange(d, start, start + n));
    *pos = start + length as usize;
    Ok(s)
}

fn le32_at(d: &[u8], o: usize) -> (v: u32)
    requires
        o + 4 <= d.len(),
    ensures
        v == le32(d@, o as int),
{
    u32_from_le_bytes(slice_subrange(d, o, o + 4))
}

fn le16_at(d: &[u8], o: usize) -> (v: u16)
    requires
        o + 2 <= d.len(),
    ensures
        v == le16(d@, o as int),
{
    u16_from_le_bytes(slice_subrange(d, o, o + 2))
}

/// Reads a vertex at `o` (28 bytes must remain).
pub fn read_vertex(d: &[u8], o: usize) -> (v: MapVertex)
    requires
        o + 28 <= d.len(),
    ensures
        v == vertex_at(d@, o as int),
{
    MapVertex {
        x: le32_at(d, o),
        y: le32_at(d, o + 4),
        z: le32_at(d, o + 8),
        rhw: le32_at(d, o + 12),
        color: MapColor { b: d[o + 16], g: d[o + 17], r: d[o + 18], a: d[o + 19] },
        u: le32_at(d, o + 20),
        v: le32_at(d, o + 24),
    }
}

/// Reads three `f32` bit patterns at `o` (12 bytes must remain).
pub fn read_vec3(d: &[u8], o: usize) -> (v: (u32, u32, u32))
    requires
        o + 12 <= d.len(),
    ensures
        v == vec3_at(d@, o as int),
{
    (le32_at(d, o), le32_at(d, o + 4), le32_at(d, o + 8))
}

fn read_polygon(d: &[u8], o: usize) -> (p: MapPolygon)
    requires
        o + 121 <= d.len(),
    ensures
        polygon_view(p) == polygon_at(d@, o as int),
{
    let vertices = [read_vertex(d, o), read_vertex(d, o + 28), read_vertex(d, o + 56)];
    let normals = [read_vec3(d, o + 84), read_vec3(d, o + 96), read_vec3(d, o + 108)];
    let p = MapPolygon { vertices, normals, polytype: d[o + 120] };
    assert(p.vertices@ =~= polygon_at(d@, o as int).vertices);
    assert(p.normals@ =~= polygon_at(d@, o as int).normals);
    p
}

fn read_prop(d: &[u8], o: usize) -> (p: MapProp)
    requires
        o + 44 <= d.len(),
    ensures
        p == prop_at(d@, o as int),
{
    let alpha = le32_at(d, o + 32) as u8;
    MapProp {
        active: le16_at(d, o) != 0,
        style: le16_at(d, o + 2),
        width: le32_at(d, o + 4) as i32,
        height: le32_at(d, o + 8) as i32,
        x: le32_at(d, o + 12),
        y: le32_at(d, o + 16),
        rotation: le32_at(d, o + 20),
        scale_x: le32_at(d, o + 24),
        scale_y: le32_at(d, o + 28),
        alpha,
        color: MapColor { b: d[o + 36], g: d[o + 37], r: d[o + 38], a: alpha },
        level: le32_at(d, o + 40) as u8,
    }
}

fn read_collider(d: &[u8], o: usize) -> (c: MapCollider)
    requires
        o + 16 <= d.len(),
    ensures
        c == collider_at(d@, o as int),
{
    MapCollider {
        active: le32_at(d, o) != 0,
        x: le32_at(d, o + 4),
        y: le32_at(d, o + 8),
        radius: le32_at(d, o + 12),
    }
}

fn read_spawnpoint(d: &[u8], o: usize) -> (c: MapSpawnpoint)
    requires
        o + 16 <= d.len(),
    ensures
        c == spawnpoint_at(d@, o as int),
{
    MapSpawnpoint {
        active: le32_at(d, o) != 0,
        x: le32_at(d, o + 4) as i32,
        y: le32_at(d, o + 8) as i32,
        team: le32_at(d, o + 12) as i32,
    }
}

fn read_polygons(d: &[u8], o: usize, n: usize) -> (r: Result<(Vec<MapPolygon>, usize), MapError>)
    ensures
        match s_records(d@, o as int, n as nat, 121, |d: Seq<u8>, o: int| polygon_at(d, o)) {
            Ok((v, o2)) => r matches Ok((ps, p2)) && ps@.map_values(|p| polygon_view(p)) == v && p2
                == o2,
            Err(e) => r == Err::<(Vec<MapPolygon>, usize), MapError>(e),
        },
{
    if o > d.len() || n > (d.len() - o) / 121 {
        return Err(MapError::UnexpectedEnd);
    }
    let mut out: Vec<MapPolygon> = Vec::new();
    let mut i: usize = 0;
    while i < n
        invariant
            o + n * 121 <= d.len(),
            i <= n,
            out@.map_values(|p| polygon_view(p)) == Seq::new(i as nat, |k: int| polygon_at(d@, o + k * 121)),
        decreases n - i,
    {
        let p = read_polygon(d, o + i * 121);
        let ghost before = out@.map_values(|p| polygon_view(p));
        let ghost pv = polygon_view(p);
        out.push(p);
        assert(out@.map_values(|p| polygon_view(p)) =~= before.push(pv));
        assert(before.push(pv) =~= Seq::new((i + 1) as nat, |k: int| polygon_at(d@, o + k * 121)));
        i += 1;
    }
    Ok((out, o + n * 121))
}

fn read_props(d: &[u8], o: usize, n: usize) -> (r: Result<(Vec<MapProp>, usize), MapError>)
    ensures
        match s_records(d@, o as int, n as nat, 44, |d: Seq<u8>, o: int| prop_at(d, o)) {
            Ok((v, o2)) => r matches Ok((ps, p2)) && ps@ == v && p2 == o2,
            Err(e) => r == Err::<(Vec<MapProp>, usize), MapError>(e),
        },
{
    if o > d.len() || n > (d.len() - o) / 44 {
        return Err(MapError::UnexpectedEnd);
    }
    let mut out: Vec<MapProp> = Vec::new();
    let mut i: usize = 0;
    while i < n
        invariant
            o + n * 44 <= d.len(),
            i <= n,
            out@ == Seq::new(i as nat, |k: int| prop_at(d@, o + k * 44)),
        decreases n - i,
    {
        let p = read_prop(d, o + i * 44);
        out.push(p);
        assert(out@ =~= Seq::new((i + 1) as nat, |k: int| prop_at(d@, o + k * 44)));
        i += 1;
    }
    Ok((out, o + n * 44))
}

fn read_colliders(d: &[u8], o: usize, n: usize) -> (r: Result<(Vec<MapCollider>, usize), MapError>)
    ensures
        match s_records(d@, o as int, n as nat, 16, |d: Seq<u8>, o: int| collider_at(d, o)) {
            Ok((v, o2)) => r matches Ok((ps, p2)) && ps@ == v && p2 == o2,
            Err(e) => r == Err::<(Vec<MapCollider>, usize), MapError>(e),
        },
{
    if o > d.len() || n > (d.len() - o) / 16 {
        return Err(MapError::UnexpectedEnd);
    }
    let mut out: Vec<MapCollider> = Vec::new();
    let mut i: usize = 0;
    while i < n
        invariant
            o + n * 16 <= d.len(),
            i <= n,
            out@ == Seq::new(i as nat, |k: int| collider_at(d@, o + k * 16)),
        decreases n - i,
    {
        let p = read_collider(d, o + i * 16);
        out.push(p);
        assert(out@ =~= Seq::new((i + 1) as nat, |k: int| collider_at(d@, o + k * 16)));
        i += 1;
    }
    Ok((out, o + n * 16))
}

fn read_spawnpoints(d: &[u8], o: usize, n: usize) -> (r: Result<(Vec<MapSpawnpoint>, usize), MapError>)
    ensures
        match s_records(d@, o as int, n as nat, 16, |d: Seq<u8>, o: int| spawnpoint_at(d, o)) {
            Ok((v, o2)) => r matches Ok((ps, p2)) && ps@ == v && p2 == o2,
            Err(e) => r == Err::<(Vec<MapSpawnpoint>, usize), MapError>(e),
        },
{
    if o > d.len() || n > (d.len() - o) / 16 {
        return Err(MapError::UnexpectedEnd);
    }
    let mut out: Vec<MapSpawnpoint> = Vec::new();
    let mut i: usize = 0;
    while i < n
        invariant
            o + n * 16 <= d.len(),
            i <= n,
            out@ == Seq::new(i as nat, |k: int| spawnpoint_at(d@, o + k * 16)),
        decreases n - i,
    {
        let p = read_spawnpoint(d, o + i * 16);
        out.push(p);
        assert(out@ =~= Seq::new((i + 1) as nat, |k: int| spawnpoint_at(d@, o + k * 16)));
        i += 1;
    }
    Ok((out, o + n * 16))
}

/// Reads one sector at `*pos`; `None` when its count exceeds `MAX_POLYS`.
fn read_sector(d: &[u8], pos: &mut usize) -> (r: Result<Option<MapSector>, MapError>)
    ensures
        match s_sector(d@, *old(pos) as int) {
            Ok((v, o)) => *final(pos) == o && match v {
                Some(sv) => r matches Ok(Some(sec)) && sec.polys@ == sv,
                None => r matches Ok(None),
            },
            Err(e) => r == Err::<Option<MapSector>, MapError>(e),
        },
{
    let m = match rd_u16(d, pos) {
        Ok(m) => m,
        Err(e) => return Err(e),
    };
    if m > 5000 {
        return Ok(None);
    }
    let o = *pos;
    if o > d.len() || (m as usize) > (d.len() - o) / 2 {
        return Err(MapError::UnexpectedEnd);
    }
    let mut polys: Vec<u16> = Vec::new();
    let mut j: usize = 0;
    while j < m as usize
        invariant
            o + 2 * (m as int) <= d.len(),
            j <= m,
            polys@ == Seq::new(j as nat, |i: int| le16(d@, o + 2 * i)),
        decreases m - j,
    {
        polys.push(le16_at(d, o + 2 * j));
        assert(polys@ =~= Seq::new((j + 1) as nat, |i: int| le16(d@, o + 2 * i)));
        j += 1;
    }
    *pos = o + 2 * (m as usize);
    Ok(Some(MapSector { polys }))
}

proof fn lemma_s_sectors_err(d: Seq<u8>, o: int, k: nat, n: nat, e: MapError)
    requires
        k <= n,
        s_sectors(d, o, k) == Err::<(Seq<Seq<u16>>, bool, int), MapError>(e),
    ensures
        s_sectors(d, o, n) == Err::<(Seq<Seq<u16>>, bool, int), MapError>(e),
    decreases n - k,
{
    if k < n {
        lemma_s_sectors_err(d, o, k + 1, n, e);
    }
}

proof fn lemma_s_sectors_stopped(d: Seq<u8>, o: int, k: nat, n: nat)
    requires
        k <= n,
        s_sectors(d, o, k) matches Ok((_, stopped, _)) && stopped,
    ensures
        s_sectors(d, o, n) == s_sectors(d, o, k),
    decreases n - k,
{
    if k < n {
        lemma_s_sectors_stopped(d, o, k + 1, n);
    }
}

/// Reads up to `n` sectors; the flag tells whether the list ended early.
fn read_sectors(d: &[u8], pos: &mut usize, n: usize) -> (r: Result<(Vec<MapSector>, bool), MapError>)
    ensures
        match s_sectors(d@, *old(pos) as int, n as nat) {
            Ok((v, stopped, o)) => r matches Ok((secs, st)) && secs@.map_values(|s| sector_view(s))
                == v && st == stopped && *final(pos) == o,
            Err(e) => r == Err::<(Vec<MapSector>, bool), MapError>(e),
        },
{
    let ghost o0 = *pos;
    let mut out: Vec<MapSector> = Vec::new();
    let mut i: usize = 0;
    assert(out@.map_values(|s| sector_view(s)) =~= seq![]);
    while i < n
        invariant
            i <= n,
            o0 == *old(pos),
            s_sectors(d@, o0 as int, i as nat) == Ok::<(Seq<Seq<u16>>, bool, int), MapError>(
                (out@.map_values(|s| sector_view(s)), false, *pos as int),
            ),
        decreases n - i,
    {
        let ghost before = out@.map_values(|s| sector_view(s));
        let ghost p0 = *pos;
        match read_sector(d, pos) {
            Ok(Some(sec)) => {
                let ghost sv = sec.polys@;
                out.push(sec);
                assert(out@.map_values(|s| sector_view(s)) =~= before.push(sv));
                assert(s_sectors(d@, o0 as int, (i + 1) as nat) == Ok::<
                    (Seq<Seq<u16>>, bool, int),
                    MapError,
                >((before.push(sv), false, *pos as int)));
            },
            Ok(None) => {
                assert(s_sectors(d@, o0 as int, (i + 1) as nat) == Ok::<
                    (Seq<Seq<u16>>, bool, int),
                    MapError,
                >((before, true, *pos as int)));
                proof {
                    lemma_s_sectors_stopped(d@, o0 as int, (i + 1) as nat, n as nat);
                }
                return Ok((out, true));
            },
            Err(e) => {
                assert(s_sectors(d@, o0 as int, (i + 1) as nat) == Err::<
                    (Seq<Seq<u16>>, bool, int),
                    MapError,
                >(e));
                proof {
                    lemma_s_sectors_err(d@, o0 as int, (i + 1) as nat, n as nat, e);
                }
                return Err(e);
            },
        }
        i += 1;
    }
    Ok((out, false))
}

proof fn lemma_s_sceneries_err(d: Seq<u8>, o: int, k: nat, n: nat, e: MapError)
    requires
        k <= n,
        s_sceneries(d, o, k) == Err::<(Seq<(Seq<char>, i32)>, int), MapError>(e),
    ensures
        s_sceneries(d, o, n) == Err::<(Seq<(Seq<char>, i32)>, int), MapError>(e),
    decreases n - k,
{
    if k < n {
        lemma_s_sceneries_err(d, o, k + 1, n, e);
    }
}

fn read_sceneries(d: &[u8], pos: &mut usize, n: usize) -> (r: Result<Vec<MapScenery>, MapError>)
    ensures
        match s_sceneries(d@, *old(pos) as int, n as nat) {
            Ok((v, o)) => r matches Ok(ss) && ss@.map_values(|s| scenery_view(s)) == v && *final(pos)
                == o,
            Err(e) => r == Err::<Vec<MapScenery>, MapError>(e),
        },
{
    let ghost o0 = *pos;
    let mut out: Vec<MapScenery> = Vec::new();
    let mut i: usize = 0;
    assert(out@.map_values(|s| scenery_view(s)) =~= seq![]);
    while i < n
        invariant
            i <= n,
            o0 == *old(pos),
            s_sceneries(d@, o0 as int, i as nat) == Ok::<(Seq<(Seq<char>, i32)>, int), MapError>(
                (out@.map_values(|s| scenery_view(s)), *pos as int),
            ),
        decreases n - i,
    {
        let ghost before = out@.map_values(|s| scenery_view(s));
        let ghost p0 = *pos;
        let filename = match read_string(d, pos, 50) {
            Ok(f) => f,
            Err(e) => {
                assert(s_sceneries(d@, o0 as int, (i + 1) as nat) == Err::<
                    (Seq<(Seq<char>, i32)>, int),
                    MapError,
                >(e));
                proof {
                    lemma_s_sceneries_err(d@, o0 as int, (i + 1) as nat, n as nat, e);
                }
                return Err(e);
            },
        };
        let date = match rd_i32(d, pos) {
            Ok(v) => v,
            Err(e) => {
                assert(s_sceneries(d@, o0 as int, (i + 1) as nat) == Err::<
                    (Seq<(Seq<char>, i32)>, int),
                    MapError,
                >(e));
                proof {
                    lemma_s_sceneries_err(d@, o0 as int, (i + 1) as nat, n as nat, e);
                }
                return Err(e);
            },
        };
        let ghost sv = (filename@, date);
        out.push(MapScenery { filename, date });
        assert(out@.map_values(|s| scenery_view(s)) =~= before.push(sv));
        i += 1;
    }
    Ok(out)
}

/// A count read as `i32`, as the number of times a loop over `0..n` runs.
fn loop_count(n: i32) -> (c: usize)
    ensures
        c == count_of(n),
{
    if n < 0 {
        0
    } else {
        n as usize
    }
}

fn copy_sector(s: &MapSector) -> (c: MapSector)
    ensures
        c.polys@ == s.polys@,
{
    let mut polys: Vec<u16> = Vec::new();
    let mut j: usize = 0;
    while j < s.polys.len()
        invariant
            j <= s.polys@.len(),
            polys@ == s.polys@.subrange(0, j as int),
        decreases s.polys@.len() - j,
    {
        polys.push(s.polys[j]);
        assert(polys@ =~= s.polys@.subrange(0, j + 1));
        j += 1;
    }
    assert(polys@ =~= s.polys@);
    MapSector { polys }
}

/// The sector grid of a map: 71 rows of 51 sectors; row `i < 51` holds the
/// sectors `51 * i .. 51 * i + 51` of the file, the other rows are empty.
pub open spec fn grid_ok(m: &MapFile) -> bool {
    &&& m.sectors_poly@.len() == 71
    &&& forall|i: int|
        0 <= i < 71 ==> (#[trigger] m.sectors_poly@[i])@.len() == 51 && forall|j: int|
            0 <= j < 51 ==> (#[trigger] m.sectors_poly@[i]@[j]).polys@ == if i < 51 {
                m.sectors@[i * 51 + j].polys@
            } else {
                Seq::<u16>::empty()
            }
}

fn build_grid(sectors: &Vec<MapSector>) -> (g: Vec<Vec<MapSector>>)
    requires
        sectors@.len() >= 2601,
    ensures
        g@.len() == 71,
        forall|i: int|
            0 <= i < 71 ==> (#[trigger] g@[i])@.len() == 51 && forall|j: int|
                0 <= j < 51 ==> (#[trigger] g@[i]@[j]).polys@ == if i < 51 {
                    sectors@[i * 51 + j].polys@
                } else {
                    Seq::<u16>::empty()
                },
{
    let mut g: Vec<Vec<MapSector>> = Vec::new();
    let mut i: usize = 0;
    while i < 71
        invariant
            i <= 71,
            sectors@.len() >= 2601,
            g@.len() == i,
            forall|a: int|
                0 <= a < i ==> (#[trigger] g@[a])@.len() == 51 && forall|j: int|
                    0 <= j < 51 ==> (#[trigger] g@[a]@[j]).polys@ == if a < 51 {
                        sectors@[a * 51 + j].polys@
                    } else {
                        Seq::<u16>::empty()
                    },
        decreases 71 - i,
    {
        let mut row: Vec<MapSector> = Vec::new();
        let mut j: usize = 0;
        while j < 51
            invariant
                i < 71,
                j <= 51,
                sectors@.len() >= 2601,
                row@.len() == j,
                forall|b: int|
                    0 <= b < j ==> (#[trigger] row@[b]).polys@ == if i < 51 {
                        sectors@[i * 51 + b].polys@
                    } else {
                        Seq::<u16>::empty()
                    },
            decreases 51 - j,
        {
            if i < 51 {
                row.push(copy_sector(&sectors[i * 51 + j]));
            } else {
                row.push(MapSector { polys: Vec::new() });
            }
            j += 1;
        }
        g.push(row);
        i += 1;
    }
    g
}

impl MapFile {
    /// Reads a map from the bytes of a PMS file that holds one (see
    /// `spec_map` for the layout; `parse_map_file` says whether the bytes
    /// hold a map, and why not). `filename` is kept as the map's file name.
    pub fn load_map_file(filename: String, d: &[u8]) -> (m: MapFile)
        requires
            spec_map(d@) is Ok,
        ensures
            m.file_view() == spec_map(d@)->Ok_0,
            m.filename@ == filename@,
            grid_ok(&m),
    {
        MapFile::parse_map_file(filename, d).unwrap()
    }

    /// Reads a map from the bytes of a PMS file (see `spec_map` for the
    /// layout), or says why the bytes are no map. `filename` is kept as the
    /// map's file name.
    pub fn parse_map_file(filename: String, d: &[u8]) -> (r: Result<MapFile, MapError>)
        ensures
            match spec_map(d@) {
                Ok(v) => r matches Ok(m) && m.file_view() == v && m.filename@ == filename@ && grid_ok(&m),
                Err(e) => r matches Err(e2) && e2 == e,
            },
    {
        let mut pos: usize = 0;
        let version = rd_i32(d, &mut pos)?;
        pos = 4;
        let mapname = read_string(d, &mut pos, 38)?;
        let texture_name = read_string(d, &mut pos, 24)?;
        if d.len() < 92 {
            return Err(MapError::UnexpectedEnd);
        }
        pos = 68;
        let bg_color_top = read_color(d, &mut pos);
        let bg_color_bottom = read_color(d, &mut pos);
        let start_jet = le32_at(d, 76) as i32;
        let grenade_packs = d[80];
        let medikits = d[81];
        let weather = d[82];
        let steps = d[83];
        let random_id = le32_at(d, 84) as i32;
        let n = le32_at(d, 88) as i32;
        if n > MAX_POLYS || n < 0 {
            return Err(MapError::BadPolygonCount);
        }
        let (polygons, p1) = read_polygons(d, 92, n as usize)?;
        pos = p1;
        let sectors_division = rd_i32(d, &mut pos)?;
        let sectors_num = rd_i32(d, &mut pos)?;
        if sectors_num > MAX_SECTOR || sectors_num < 0 {
            return Err(MapError::BadSectorCount);
        }
        let side = (2 * sectors_num + 1) as usize;
        assert(side * side <= 2601) by (nonlinear_arith)
            requires
                side <= 51,
        ;
        assert(side * side == sector_count(sectors_num));
        let (sectors, stopped) = read_sectors(d, &mut pos, side * side)?;
        if stopped || sectors.len() < 2601 {
            return Err(MapError::MissingSectors);
        }
        let sectors_poly = build_grid(&sectors);
        let np = rd_i32(d, &mut pos)?;
        if np > MAX_PROPS || np < 0 {
            return Err(MapError::BadPropCount);
        }
        let (props, p2) = read_props(d, pos, np as usize)?;
        pos = p2;
        let ns = rd_i32(d, &mut pos)?;
        let scenery = read_sceneries(d, &mut pos, loop_count(ns))?;
        let nc = rd_i32(d, &mut pos)?;
        let (colliders, p3) = read_colliders(d, pos, loop_count(nc))?;
        pos = p3;
        let nsp = rd_i32(d, &mut pos)?;
        let (spawnpoints, _) = read_spawnpoints(d, pos, loop_count(nsp))?;
        Ok(
            MapFile {
                filename,
                version,
                mapname,
                texture_name,
                bg_color_top,
                bg_color_bottom,
                start_jet,
                grenade_packs,
                medikits,
                weather,
                steps,
                random_id,
                polygons,
                sectors_division,
                sectors_num,
                sectors,
                props,
                scenery,
                colliders,
                spawnpoints,
                sectors_poly,
            },
        )
    }
}

} // verus!

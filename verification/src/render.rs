use vstd::prelude::*;
use std::ops::Range;
use crate::mapfile::{MapFile, MapProp};

verus! {

/// A colour with 8-bit red, green, blue and alpha channels.
#[derive(Debug, Clone, Copy, PartialEq, Eq, Structural)]
pub struct Color {
    pub r: u8,
    pub g: u8,
    pub b: u8,
    pub a: u8,
}

/// An opaque colour.
pub fn rgb(r: u8, g: u8, b: u8) -> (c: Color)
    ensures
        c == (Color { r, g, b, a: 255 }),
{
    Color { r, g, b, a: 255 }
}

/// A colour with the given opacity.
pub fn rgba(r: u8, g: u8, b: u8, a: u8) -> (c: Color)
    ensures
        c == (Color { r, g, b, a }),
{
    Color { r, g, b, a }
}

/// Opaque black.
pub fn black() -> (c: Color)
    ensures
        c == (Color { r: 0, g: 0, b: 0, a: 255 }),
{
    rgb(0, 0, 0)
}

/// Opaque white.
pub fn white() -> (c: Color)
    ensures
        c == (Color { r: 255, g: 255, b: 255, a: 255 }),
{
    rgb(255, 255, 255)
}

/// Opaque cornflower blue.
pub fn cornflower_blue() -> (c: Color)
    ensures
        c == (Color { r: 100, g: 149, b: 237, a: 255 }),
{
    rgb(100, 149, 237)
}

/// The sprite a part of a soldier is drawn with: none, or the sprite at a
/// position in the soldier or weapon sprite group.
#[derive(Debug, Clone, Copy, PartialEq, Eq, Structural)]
pub enum SoldierSprite {
    NoSprite,
    Soldier(usize),
    Weapon(usize),
}

impl SoldierSprite {
    pub fn is_none(&self) -> (b: bool)
        ensures
            b == (*self is NoSprite),
    {
        match *self {
            SoldierSprite::NoSprite => true,
            _ => false,
        }
    }
}

/// Which of the player's colours tints a soldier part.
#[derive(Debug, Clone, Copy, PartialEq, Eq, Structural)]
pub enum SoldierColor {
    NoColor,
    Main,
    Pants,
    Skin,
    Hair,
    Cygar,
    Headblood,
}

/// Which opacity a soldier part is drawn with.
#[derive(Debug, Clone, Copy, PartialEq, Eq, Structural)]
pub enum SoldierAlpha {
    Base,
    Blood,
    Nades,
}

/// The sprite a part of a gostek is drawn with: none, or the sprite at a
/// position in the gostek or weapon sprite group.
#[derive(Debug, Clone, Copy, PartialEq, Eq, Structural)]
pub enum GostekSprite {
    NoSprite,
    Gostek(usize),
    Weapon(usize),
}

impl GostekSprite {
    pub fn is_none(&self) -> (b: bool)
        ensures
            b == (*self is NoSprite),
    {
        match *self {
            GostekSprite::NoSprite => true,
            _ => false,
        }
    }
}

/// Which of the player's colours tints a gostek part.
#[derive(Debug, Clone, Copy, PartialEq, Eq, Structural)]
pub enum GostekColor {
    NoColor,
    Main,
    Pants,
    Skin,
    Hair,
    Cygar,
    Headblood,
}

/// Which opacity a gostek part is drawn with.
#[derive(Debug, Clone, Copy, PartialEq, Eq, Structural)]
pub enum GostekAlpha {
    Base,
    Blood,
    Nades,
}

/// Where each layer of a map lies in its draw batch.
pub struct MapGraphics {
    pub background: Range<usize>,
    pub polys_back: Range<usize>,
    pub polys_front: Range<usize>,
    pub scenery_back: Range<usize>,
    pub scenery_mid: Range<usize>,
    pub scenery_front: Range<usize>,
}

fn copy_range(r: &Range<usize>) -> (c: Range<usize>)
    ensures
        c.start == r.start,
        c.end == r.end,
{
    Range { start: r.start, end: r.end }
}

impl MapGraphics {
    /// The background quad.
    pub fn background(&self) -> (r: Range<usize>)
        ensures
            r.start == self.background.start && r.end == self.background.end,
    {
        copy_range(&self.background)
    }

    /// The polygons behind the soldiers.
    pub fn polys_back(&self) -> (r: Range<usize>)
        ensures
            r.start == self.polys_back.start && r.end == self.polys_back.end,
    {
        copy_range(&self.polys_back)
    }

    /// The polygons in front of the soldiers.
    pub fn polys_front(&self) -> (r: Range<usize>)
        ensures
            r.start == self.polys_front.start && r.end == self.polys_front.end,
    {
        copy_range(&self.polys_front)
    }

    /// The scenery behind everything else.
    pub fn scenery_back(&self) -> (r: Range<usize>)
        ensures
            r.start == self.scenery_back.start && r.end == self.scenery_back.end,
    {
        copy_range(&self.scenery_back)
    }

    /// The scenery between the back polygons and the soldiers.
    pub fn scenery_mid(&self) -> (r: Range<usize>)
        ensures
            r.start == self.scenery_mid.start && r.end == self.scenery_mid.end,
    {
        copy_range(&self.scenery_mid)
    }

    /// The scenery in front of everything else.
    pub fn scenery_front(&self) -> (r: Range<usize>)
        ensures
            r.start == self.scenery_front.start && r.end == self.scenery_front.end,
    {
        copy_range(&self.scenery_front)
    }

    /// A map with nothing to draw: every layer is empty.
    pub fn empty() -> (g: MapGraphics)
        ensures
            g.background.start == 0 && g.background.end == 0,
            g.polys_back.start == 0 && g.polys_back.end == 0,
            g.polys_front.start == 0 && g.polys_front.end == 0,
            g.scenery_back.start == 0 && g.scenery_back.end == 0,
            g.scenery_mid.start == 0 && g.scenery_mid.end == 0,
            g.scenery_front.start == 0 && g.scenery_front.end == 0,
    {
        MapGraphics {
            background: Range { start: 0, end: 0 },
            polys_back: Range { start: 0, end: 0 },
            polys_front: Range { start: 0, end: 0 },
            scenery_back: Range { start: 0, end: 0 },
            scenery_mid: Range { start: 0, end: 0 },
            scenery_front: Range { start: 0, end: 0 },
        }
    }
}

/// A prop is drawn: it is active, on one of the three levels, and names a
/// scenery image of the map (styles count from 1).
pub open spec fn prop_active(scenery_len: int, prop: MapProp) -> bool {
    prop.active && prop.level <= 2 && prop.style > 0 && prop.style <= scenery_len
}

pub fn is_prop_active(map: &MapFile, prop: &MapProp) -> (b: bool)
    ensures
        b == prop_active(map.scenery@.len() as int, *prop),
{
    prop.active && prop.level <= 2 && prop.style > 0 && (prop.style as usize) <= map.scenery.len()
}

/// Scenery image `i` is drawn by some prop.
pub open spec fn scenery_used(scenery_len: int, props: Seq<MapProp>, i: int) -> bool {
    exists|k: int| 0 <= k < props.len() && prop_active(scenery_len, props[k]) && props[k].style == i + 1
}

/// How many of the first `i` flags are set.
pub open spec fn count_set(flags: Seq<bool>, i: int) -> nat
    decreases i,
{
    if i <= 0 {
        0
    } else {
        count_set(flags, i - 1) + if flags[i - 1] {
            1nat
        } else {
            0nat
        }
    }
}

/// Which scenery images the map's props draw, and for each one drawn its
/// place among those drawn (0 for the others): the images that go into the
/// sprite sheet, in order.
pub fn scenery_usage(map: &MapFile) -> (r: (Vec<bool>, Vec<usize>))
    ensures
        r.0@.len() == map.scenery@.len(),
        r.1@.len() == map.scenery@.len(),
        forall|i: int|
            0 <= i < map.scenery@.len() ==> (#[trigger] r.0@[i]) == scenery_used(
                map.scenery@.len() as int,
                map.props@,
                i,
            ),
        forall|i: int|
            0 <= i < map.scenery@.len() ==> (#[trigger] r.1@[i]) == if r.0@[i] {
                count_set(r.0@, i)
            } else {
                0
            },
{
    let n: usize = map.scenery.len();
    let ghost props = map.props@;
    let mut used: Vec<bool> = vec![false; n];
    let mut k: usize = 0;
    while k < map.props.len()
        invariant
            n == map.scenery@.len(),
            props == map.props@,
            k <= props.len(),
            used@.len() == n,
            forall|i: int|
                0 <= i < n ==> (#[trigger] used@[i]) == exists|j: int|
                    0 <= j < k && prop_active(n as int, props[j]) && props[j].style == i + 1,
        decreases props.len() - k,
    {
        let prop: MapProp = map.props[k];
        if is_prop_active(map, &prop) {
            let s: usize = (prop.style - 1) as usize;
            used.set(s, true);
        }
        proof {
            assert forall|i: int| 0 <= i < n implies (#[trigger] used@[i]) == exists|j: int|
                0 <= j < k + 1 && prop_active(n as int, props[j]) && props[j].style == i + 1 by {
                if prop_active(n as int, props[k as int]) && props[k as int].style == i + 1 {
                    assert(0 <= k < k + 1);
                }
            }
        }
        k = k + 1;
    }
    let mut index: Vec<usize> = vec![0usize; n];
    let mut count: usize = 0;
    let mut i: usize = 0;
    while i < n
        invariant
            i <= n,
            used@.len() == n,
            index@.len() == n,
            count == count_set(used@, i as int),
            count <= i,
            forall|j: int| 0 <= j < i ==> (#[trigger] index@[j]) == if used@[j] {
                count_set(used@, j)
            } else {
                0
            },
            forall|j: int| i <= j < n ==> (#[trigger] index@[j]) == 0,
        decreases n - i,
    {
        if used[i] {
            index.set(i, count);
            count = count + 1;
        }
        i = i + 1;
    }
    (used, index)
}

/// The positions of the drawn props on each level, in map order.
pub fn props_by_level(map: &MapFile) -> (r: (Vec<usize>, Vec<usize>, Vec<usize>))
    ensures
        r.0@ == props_on_level(map.scenery@.len() as int, map.props@, 0),
        r.1@ == props_on_level(map.scenery@.len() as int, map.props@, 1),
        r.2@ == props_on_level(map.scenery@.len() as int, map.props@, 2),
{
    let ghost n = map.scenery@.len() as int;
    let mut back: Vec<usize> = Vec::new();
    let mut mid: Vec<usize> = Vec::new();
    let mut front: Vec<usize> = Vec::new();
    let mut k: usize = 0;
    while k < map.props.len()
        invariant
            k <= map.props@.len(),
            n == map.scenery@.len(),
            back@ == props_on_level(n, map.props@.subrange(0, k as int), 0),
            mid@ == props_on_level(n, map.props@.subrange(0, k as int), 1),
            front@ == props_on_level(n, map.props@.subrange(0, k as int), 2),
        decreases map.props@.len() - k,
    {
        let prop: MapProp = map.props[k];
        proof {
            let s = map.props@.subrange(0, k as int + 1);
            assert(s.drop_last() =~= map.props@.subrange(0, k as int));
            assert(s.last() == prop);
        }
        if is_prop_active(map, &prop) {
            if prop.level == 0 {
                back.push(k);
            } else if prop.level == 1 {
                mid.push(k);
            } else {
                front.push(k);
            }
        }
        k = k + 1;
    }
    proof {
        assert(map.props@.subrange(0, map.props@.len() as int) =~= map.props@);
    }
    (back, mid, front)
}

/// The positions of the drawn props on a level, in order.
pub open spec fn props_on_level(scenery_len: int, props: Seq<MapProp>, level: u8) -> Seq<usize>
    decreases props.len(),
{
    if props.len() == 0 {
        Seq::empty()
    } else {
        let rest = props_on_level(scenery_len, props.drop_last(), level);
        if prop_active(scenery_len, props.last()) && props.last().level == level {
            rest.push((props.len() - 1) as usize)
        } else {
            rest
        }
    }
}

/// The pixel at `i` of an RGBA buffer.
pub open spec fn pixel_at(px: Seq<u8>, i: int) -> (u8, u8, u8, u8) {
    (px[4 * i], px[4 * i + 1], px[4 * i + 2], px[4 * i + 3])
}

/// A pixel after the colour key is removed: a pixel of exactly the key's
/// colour and opacity becomes transparent black.
pub open spec fn unkeyed(p: (u8, u8, u8, u8), key: Color) -> (u8, u8, u8, u8) {
    if p == (key.r, key.g, key.b, key.a) {
        (0, 0, 0, 0)
    } else {
        p
    }
}

/// Makes every pixel of an RGBA buffer (four bytes a pixel) that has the
/// key colour transparent.
pub fn remove_color_key(pixels: &mut Vec<u8>, color_key: Color)
    requires
        old(pixels)@.len() % 4 == 0,
    ensures
        final(pixels)@.len() == old(pixels)@.len(),
        forall|i: int|
            0 <= i < old(pixels)@.len() / 4 ==> #[trigger] pixel_at(final(pixels)@, i) == unkeyed(
                pixel_at(old(pixels)@, i),
                color_key,
            ),
{
    let n: usize = pixels.len() / 4;
    let mut i: usize = 0;
    while i < n
        invariant
            n == old(pixels)@.len() / 4,
            pixels@.len() == old(pixels)@.len(),
            old(pixels)@.len() % 4 == 0,
            i <= n,
            forall|j: int| 0 <= j < i ==> #[trigger] pixel_at(pixels@, j) == unkeyed(pixel_at(old(pixels)@, j), color_key),
            forall|j: int| i <= j < n ==> #[trigger] pixel_at(pixels@, j) == pixel_at(old(pixels)@, j),
        decreases n - i,
    {
        assert(4 * i + 3 < pixels.len()) by (nonlinear_arith)
            requires
                i < n,
                n == pixels.len() / 4,
                pixels.len() % 4 == 0,
        ;
        let o: usize = 4 * i;
        let ghost before = pixels@;
        if pixels[o] == color_key.r && pixels[o + 1] == color_key.g && pixels[o + 2] == color_key.b && pixels[o + 3]
            == color_key.a {
            pixels.set(o, 0);
            pixels.set(o + 1, 0);
            pixels.set(o + 2, 0);
            pixels.set(o + 3, 0);
        }
        proof {
            assert(pixel_at(pixels@, i as int) == unkeyed(pixel_at(before, i as int), color_key));
            assert forall|j: int| 0 <= j < n && j != i implies #[trigger] pixel_at(pixels@, j) == pixel_at(before, j) by {
                assert(pixels@[4 * j] == before[4 * j]);
                assert(pixels@[4 * j + 1] == before[4 * j + 1]);
                assert(pixels@[4 * j + 2] == before[4 * j + 2]);
                assert(pixels@[4 * j + 3] == before[4 * j + 3]);
            }
        }
        i = i + 1;
    }
}

/// A colour channel scaled by an opacity: `c * a / 255`, rounded down.
pub open spec fn premultiplied(c: u8, a: u8) -> u8 {
    (c as int * a as int / 255) as u8
}

/// A pixel with its colour scaled by its opacity.
pub open spec fn premultiplied_pixel(p: (u8, u8, u8, u8)) -> (u8, u8, u8, u8) {
    (premultiplied(p.0, p.3), premultiplied(p.1, p.3), premultiplied(p.2, p.3), p.3)
}

/// Scales the colour of every pixel of an RGBA buffer by its opacity.
pub fn premultiply_image(pixels: &mut Vec<u8>)
    requires
        old(pixels)@.len() % 4 == 0,
    ensures
        final(pixels)@.len() == old(pixels)@.len(),
        forall|i: int|
            0 <= i < old(pixels)@.len() / 4 ==> #[trigger] pixel_at(final(pixels)@, i) == premultiplied_pixel(
                pixel_at(old(pixels)@, i),
            ),
{
    let n: usize = pixels.len() / 4;
    let mut i: usize = 0;
    while i < n
        invariant
            n == old(pixels)@.len() / 4,
            pixels@.len() == old(pixels)@.len(),
            old(pixels)@.len() % 4 == 0,
            i <= n,
            forall|j: int| 0 <= j < i ==> #[trigger] pixel_at(pixels@, j) == premultiplied_pixel(pixel_at(old(pixels)@, j)),
            forall|j: int| i <= j < n ==> #[trigger] pixel_at(pixels@, j) == pixel_at(old(pixels)@, j),
        decreases n - i,
    {
        assert(4 * i + 3 < pixels.len()) by (nonlinear_arith)
            requires
                i < n,
                n == pixels.len() / 4,
                pixels.len() % 4 == 0,
        ;
        let o: usize = 4 * i;
        let ghost before = pixels@;
        let a: u32 = pixels[o + 3] as u32;
        let r: u32 = pixels[o] as u32;
        let g: u32 = pixels[o + 1] as u32;
        let b: u32 = pixels[o + 2] as u32;
        assert(r * a <= 255 * 255) by (nonlinear_arith)
            requires
                r <= 255,
                a <= 255,
        ;
        assert(g * a <= 255 * 255) by (nonlinear_arith)
            requires
                g <= 255,
                a <= 255,
        ;
        assert(b * a <= 255 * 255) by (nonlinear_arith)
            requires
                b <= 255,
                a <= 255,
        ;
        pixels.set(o, (r * a / 255) as u8);
        pixels.set(o + 1, (g * a / 255) as u8);
        pixels.set(o + 2, (b * a / 255) as u8);
        proof {
            assert(pixel_at(pixels@, i as int) == premultiplied_pixel(pixel_at(before, i as int)));
            assert forall|j: int| 0 <= j < n && j != i implies #[trigger] pixel_at(pixels@, j) == pixel_at(before, j) by {
                assert(pixels@[4 * j] == before[4 * j]);
                assert(pixels@[4 * j + 1] == before[4 * j + 1]);
                assert(pixels@[4 * j + 2] == before[4 * j + 2]);
                assert(pixels@[4 * j + 3] == before[4 * j + 3]);
            }
        }
        i = i + 1;
    }
}

/// The opacity of grenades a soldier carries: three quarters of its own,
/// rounded half up.
pub open spec fn nades_alpha(alpha: u8) -> u8 {
    ((3 * alpha as int + 2) / 4) as u8
}

/// The tints of a soldier's parts (in the order of `SoldierColor`: none,
/// main, pants, skin, hair, cigar, head blood) and its opacities (in the
/// order of `SoldierAlpha`: base, blood, grenades). `alpha_blood` is the
/// opacity of blood stains its health gives. A soldier with cigar style 5
/// smokes a grey cigar.
pub fn colors_and_alpha(has_cigar: u8, alpha: u8, alpha_blood: u8) -> (r: ([Color; 7], [u8; 3]))
    ensures
        r.0@ == seq![
            Color { r: 255, g: 255, b: 255, a: 255 },
            Color { r: 0, g: 0, b: 0, a: 255 },
            Color { r: 0, g: 0, b: 0, a: 255 },
            Color { r: 230, g: 180, b: 120, a: 255 },
            Color { r: 0, g: 0, b: 0, a: 255 },
            if has_cigar == 5 {
                Color { r: 97, g: 97, b: 97, a: 255 }
            } else {
                Color { r: 255, g: 255, b: 255, a: 255 }
            },
            Color { r: 172, g: 169, b: 168, a: 255 },
        ],
        r.1@ == seq![alpha, alpha_blood, nades_alpha(alpha)],
{
    let color_cygar = if has_cigar == 5 {
        rgb(97, 97, 97)
    } else {
        rgb(255, 255, 255)
    };
    let colors: [Color; 7] = [
        rgb(255, 255, 255),
        rgb(0, 0, 0),
        rgb(0, 0, 0),
        rgb(230, 180, 120),
        rgb(0, 0, 0),
        color_cygar,
        rgb(172, 169, 168),
    ];
    let nades: u8 = ((3 * (alpha as u16) + 2) / 4) as u8;
    let alphas: [u8; 3] = [alpha, alpha_blood, nades];
    proof {
        assert(colors@ =~= seq![
            Color { r: 255, g: 255, b: 255, a: 255 },
            Color { r: 0, g: 0, b: 0, a: 255 },
            Color { r: 0, g: 0, b: 0, a: 255 },
            Color { r: 230, g: 180, b: 120, a: 255 },
            Color { r: 0, g: 0, b: 0, a: 255 },
            if has_cigar == 5 {
                Color { r: 97, g: 97, b: 97, a: 255 }
            } else {
                Color { r: 255, g: 255, b: 255, a: 255 }
            },
            Color { r: 172, g: 169, b: 168, a: 255 },
        ]);
        assert(alphas@ =~= seq![alpha, alpha_blood, nades_alpha(alpha)]);
    }
    (colors, alphas)
}

} // verus!

//! World-level rules: level data conversion, the camera, summoning, contacts
//! that end the world, and the intro and outro transitions.
use crate::control::{Controls, Power};
use crate::geometry::{
    all_wf, circle_hits_any, dist2, hits_any, in_bounds, Point2, Point3, Rect, COORD_LIMIT,
    SUBPIXELS,
};
use crate::image::{blit, Image, ImageState, FULL_BRIGHTNESS, IMAGE_LIMIT, OPAQUE};
use crate::power::FrogPower;
use crate::random::Random;
use crate::system::{
    contacts, leader_contacts, ENTITY_RADIUS, FROG_THRESHOLD, SCREEN_HEIGHT, SCREEN_INSET,
    SCREEN_WIDTH, OUTRO_DURATION,
};
use vstd::arithmetic::div_mod::{
    lemma_div_pos_is_pos, lemma_fundamental_div_mod, lemma_fundamental_div_mod_converse,
    lemma_mod_bound,
};
use vstd::prelude::*;

verus! {

/// Largest magnitude of a level coordinate, in pixels.
pub const LEVEL_LIMIT: i64 = 0x4000_0000;

pub open spec fn level_coord(v: int) -> bool {
    -LEVEL_LIMIT <= v <= LEVEL_LIMIT
}

/// The kinds of objects a level can place.
#[derive(Clone, Copy, Debug, PartialEq, Eq, Structural)]
pub enum EntityKind {
    Jean,
    Blob,
    Fire,
}

impl EntityKind {
    /// The kind a level object's name stands for; `None` for any other name,
    /// which the level loader treats as an authoring error.
    pub fn from_name(name: &String) -> (r: Option<EntityKind>)
        ensures
            name@ == "Jean"@ <==> r == Some(EntityKind::Jean),
            name@ == "Blob"@ <==> r == Some(EntityKind::Blob),
            name@ == "Fire"@ <==> r == Some(EntityKind::Fire),
    {
        proof {
            reveal_strlit("Jean");
            reveal_strlit("Blob");
            reveal_strlit("Fire");
            assert("Jean"@[0] != "Blob"@[0]);
            assert("Jean"@[0] != "Fire"@[0]);
            assert("Blob"@[0] != "Fire"@[0]);
        }
        if *name == "Jean".to_owned() {
            Some(EntityKind::Jean)
        } else if *name == "Blob".to_owned() {
            Some(EntityKind::Blob)
        } else if *name == "Fire".to_owned() {
            Some(EntityKind::Fire)
        } else {
            None
        }
    }
}

/// A level rectangle `(x, y, w, h)` in pixels, `y` measured down from the top
/// of a map `map_height` pixels tall, as a collision shape in world units on
/// the ground plane, whose `z` grows upward.
pub open spec fn shape_of(x: int, y: int, w: int, h: int, map_height: int) -> Rect {
    Rect {
        x: (x * SUBPIXELS) as i64,
        y: ((map_height - y - h) * SUBPIXELS) as i64,
        w: (w * SUBPIXELS) as i64,
        h: (h * SUBPIXELS) as i64,
    }
}

pub fn collision_shape(x: i64, y: i64, w: i64, h: i64, map_height: i64) -> (r: Rect)
    requires
        level_coord(x as int),
        level_coord(y as int),
        0 <= w <= LEVEL_LIMIT,
        0 <= h <= LEVEL_LIMIT,
        0 <= map_height <= LEVEL_LIMIT,
    ensures
        r == shape_of(x as int, y as int, w as int, h as int, map_height as int),
        r.wf(),
{
    Rect {
        x: x * SUBPIXELS,
        y: (map_height - y - h) * SUBPIXELS,
        w: w * SUBPIXELS,
        h: h * SUBPIXELS,
    }
}

/// Where an object placed by a level rectangle stands: the middle of its
/// bottom edge, in world units.
pub open spec fn spawn_of(x: int, y: int, w: int, h: int, map_height: int) -> Point3 {
    Point3 {
        x: (x * SUBPIXELS + w * (SUBPIXELS / 2)) as i64,
        y: 0,
        z: ((map_height - y - h) * SUBPIXELS) as i64,
    }
}

pub fn spawn_point(x: i64, y: i64, w: i64, h: i64, map_height: i64) -> (r: Point3)
    requires
        level_coord(x as int),
        level_coord(y as int),
        0 <= w <= LEVEL_LIMIT,
        0 <= h <= LEVEL_LIMIT,
        0 <= map_height <= LEVEL_LIMIT,
    ensures
        r == spawn_of(x as int, y as int, w as int, h as int, map_height as int),
        r.wf(),
{
    Point3 { x: x * SUBPIXELS + w * (SUBPIXELS / 2), y: 0, z: (map_height - y - h) * SUBPIXELS }
}

/// Where tile `gid` of a tileset (first id `first_gid`, `per_row` tiles of
/// `tw` by `th` pixels to a row) lies in the tileset image; `None` for the
/// empty tile `0`.
pub open spec fn tile_source_spec(gid: int, first_gid: int, per_row: int, tw: int, th: int) -> Option<Point2> {
    if gid == 0 {
        None
    } else {
        let id = gid - first_gid;
        Some(Point2 { x: ((id % per_row) * tw) as i64, y: ((id / per_row) * th) as i64 })
    }
}

pub fn tile_source(gid: u32, first_gid: u32, per_row: u32, tw: u32, th: u32) -> (r: Option<Point2>)
    requires
        gid == 0 || gid >= first_gid,
        per_row > 0,
        tw <= IMAGE_LIMIT,
        th <= IMAGE_LIMIT,
    ensures
        r == tile_source_spec(gid as int, first_gid as int, per_row as int, tw as int, th as int),
        r matches Some(p) ==> p.x == ((gid - first_gid) as int % per_row as int) * tw && p.y == ((
        gid - first_gid) as int / per_row as int) * th,
{
    if gid == 0 {
        return None;
    }
    let id = (gid - first_gid) as u64;
    let col = id % per_row as u64;
    let row = id / per_row as u64;
    assert(col * tw <= 0xffff_ffff * 0x4000) by (nonlinear_arith)
        requires
            col < 0x1_0000_0000,
            tw <= 0x4000,
    ;
    assert(row * th <= 0xffff_ffff * 0x4000) by (nonlinear_arith)
        requires
            row <= 0xffff_ffff,
            th <= 0x4000,
    ;
    assert(0 <= col * tw && 0 <= row * th) by (nonlinear_arith)
        requires
            0 <= col,
            0 <= row,
            0 <= tw,
            0 <= th,
    ;
    Some(Point2 { x: (col * tw as u64) as i64, y: (row * th as u64) as i64 })
}

/// The tileset pixel shown at pixel `(x, y)` of a layer built from `gids`
/// (`gids[r][c]` is the tile at row `r`, column `c`), if a tile is there.
pub open spec fn tile_pixel(
    gids: Seq<Vec<u32>>,
    first_gid: int,
    per_row: int,
    tw: int,
    th: int,
    x: int,
    y: int,
) -> Option<(int, int)> {
    let r = y / th;
    let c = x / tw;
    if 0 <= r < gids.len() && 0 <= c < gids[r]@.len() && gids[r]@[c] != 0 {
        let id = gids[r]@[c] - first_gid;
        Some(((id % per_row) * tw + x % tw, (id / per_row) * th + y % th))
    } else {
        None
    }
}

/// Channel `c` of pixel `(x, y)` of a layer built from `gids`: the tileset
/// pixel at the same place within its tile when that pixel is solid,
/// transparent black everywhere else.
pub open spec fn layer_byte(
    gids: Seq<Vec<u32>>,
    first_gid: int,
    tileset: ImageState,
    tw: int,
    th: int,
    x: int,
    y: int,
    c: int,
) -> u8 {
    match tile_pixel(gids, first_gid, tileset.width / tw, tw, th, x, y) {
        Some(p) => if tileset.contains(p.0, p.1) && tileset.byte(p.0, p.1, 3) == OPAQUE {
            tileset.byte(p.0, p.1, c)
        } else {
            0
        },
        None => 0,
    }
}

/// Tile `(tr, tc)` comes before tile `(r, c)` in row-major order.
pub open spec fn tile_before(tr: int, tc: int, r: int, c: int) -> bool {
    tr < r || (tr == r && tc < c)
}

proof fn lemma_window(x: int, c: int, tw: int)
    requires
        tw > 0,
        x >= 0,
    ensures
        (c * tw <= x < c * tw + tw) <==> x / tw == c,
        x / tw == c ==> x % tw == x - c * tw,
        x / tw >= 0,
        0 <= x % tw < tw,
        x / tw * tw <= x,
{
    lemma_fundamental_div_mod(x, tw);
    lemma_mod_bound(x, tw);
    lemma_div_pos_is_pos(x, tw);
    if c * tw <= x < c * tw + tw {
        lemma_fundamental_div_mod_converse(x, tw, c, x - c * tw);
    }
    assert(x / tw * tw == tw * (x / tw)) by (nonlinear_arith);
}

/// Draws a tile layer once, tile by tile, into an image of `cols * tw` by
/// `rows * th` pixels: each pixel is `layer_byte` of the tiles.
pub fn build_layer(
    gids: &Vec<Vec<u32>>,
    first_gid: u32,
    tileset: &Image,
    tw: u32,
    th: u32,
    cols: usize,
    rows: usize,
) -> (r: Image)
    requires
        tileset@.wf(),
        0 < tw <= tileset@.width,
        0 < th <= tileset@.height,
        cols * tw <= IMAGE_LIMIT,
        rows * th <= IMAGE_LIMIT,
        forall|i: int, j: int|
            0 <= i < gids@.len() && 0 <= j < gids@[i]@.len() ==> (#[trigger] gids@[i]@[j] == 0
                || gids@[i]@[j] >= first_gid),
    ensures
        r@.wf(),
        r@.width == cols * tw,
        r@.height == rows * th,
        forall|x: int, y: int, c: int|
            r@.contains(x, y) && 0 <= c < 4 ==> #[trigger] r@.byte(x, y, c) == layer_byte(
                gids@,
                first_gid as int,
                tileset@,
                tw as int,
                th as int,
                x,
                y,
                c,
            ),
{
    let width = cols * tw as usize;
    let height = rows * th as usize;
    let mut layer = Image::blank(width, height);
    let tsw = tileset.width();
    assert(tsw / (tw as usize) >= 1 && tsw / (tw as usize) <= tsw) by (nonlinear_arith)
        requires
            tsw >= tw,
            tw > 0,
    ;
    let per_row = (tsw / tw as usize) as u32;
    let size = Point2 { x: tw as i64, y: th as i64 };
    let ghost g = gids@;
    let ghost ts = tileset@;
    proof {
        assert forall|x: int, y: int, c: int|
            layer@.contains(x, y) && 0 <= c < 4 implies #[trigger] layer@.byte(x, y, c) == (
            if tile_before(y / th as int, x / tw as int, 0, 0) {
                layer_byte(g, first_gid as int, ts, tw as int, th as int, x, y, c)
            } else {
                0u8
            }) by {
            lemma_window(x, 0, tw as int);
            lemma_window(y, 0, th as int);
            crate::image::lemma_idx_in_bounds(width as int, height as int, x, y, c);
        }
    }
    let mut r: usize = 0;
    while r < gids.len()
        invariant
            layer@.wf(),
            layer@.width == width,
            layer@.height == height,
            width == cols * tw,
            height == rows * th,
            tileset@.wf(),
            ts == tileset@,
            g == gids@,
            0 < tw <= tileset@.width,
            0 < th <= tileset@.height,
            width <= IMAGE_LIMIT,
            height <= IMAGE_LIMIT,
            per_row == tileset@.width / tw as int,
            per_row > 0,
            r <= gids@.len(),
            size == (Point2 { x: tw as i64, y: th as i64 }),
            forall|i: int, j: int|
                0 <= i < gids@.len() && 0 <= j < gids@[i]@.len() ==> (#[trigger] gids@[i]@[j]
                    == 0 || gids@[i]@[j] >= first_gid),
            forall|x: int, y: int, c: int|
                layer@.contains(x, y) && 0 <= c < 4 ==> #[trigger] layer@.byte(x, y, c) == (
                if tile_before(y / th as int, x / tw as int, r as int, 0) {
                    layer_byte(g, first_gid as int, ts, tw as int, th as int, x, y, c)
                } else {
                    0u8
                }),
        decreases gids.len() - r,
    {
        let row = &gids[r];
        let mut c: usize = 0;
        while c < row.len()
            invariant
                layer@.wf(),
                layer@.width == width,
                layer@.height == height,
                width == cols * tw,
                height == rows * th,
                tileset@.wf(),
                ts == tileset@,
                g == gids@,
                0 < tw <= tileset@.width,
                0 < th <= tileset@.height,
                width <= IMAGE_LIMIT,
                height <= IMAGE_LIMIT,
                per_row == tileset@.width / tw as int,
                per_row > 0,
                r < gids@.len(),
                c <= row@.len(),
                row@ == gids@[r as int]@,
                size == (Point2 { x: tw as i64, y: th as i64 }),
                forall|i: int, j: int|
                    0 <= i < gids@.len() && 0 <= j < gids@[i]@.len() ==> (#[trigger] gids@[i]@[j]
                        == 0 || gids@[i]@[j] >= first_gid),
                forall|x: int, y: int, ch: int|
                    layer@.contains(x, y) && 0 <= ch < 4 ==> #[trigger] layer@.byte(x, y, ch) == (
                    if tile_before(y / th as int, x / tw as int, r as int, c as int) {
                        layer_byte(g, first_gid as int, ts, tw as int, th as int, x, y, ch)
                    } else {
                        0u8
                    }),
            decreases row.len() - c,
        {
            assert(gids@[r as int]@[c as int] == 0 || gids@[r as int]@[c as int] >= first_gid);
            let gid = row[c];
            let ghost before = layer@;
            match tile_source(gid, first_gid, per_row, tw, th) {
                Some(src_pos) => {
                    // a tile outside the tileset image would draw nothing
                    if c <= IMAGE_LIMIT && r <= IMAGE_LIMIT && size.x <= width as i64 && size.y
                        <= height as i64 && src_pos.x < tileset.width() as i64 && src_pos.y
                        < tileset.height() as i64 {
                        assert(c * tw <= 0x4000 * 0x4000 && r * th <= 0x4000 * 0x4000)
                            by (nonlinear_arith)
                            requires
                                c <= 0x4000,
                                r <= 0x4000,
                                tw <= 0x4000,
                                th <= 0x4000,
                        ;
                        let dest_pos = Point2 {
                            x: c as i64 * tw as i64,
                            y: r as i64 * th as i64,
                        };
                        blit(&mut layer, dest_pos, tileset, src_pos, size, FULL_BRIGHTNESS);
                        proof {
                            assert forall|x: int, y: int, ch: int|
                                layer@.contains(x, y) && 0 <= ch < 4 implies #[trigger] layer@.byte(
                                x,
                                y,
                                ch,
                            ) == (if tile_before(y / th as int, x / tw as int, r as int, c + 1) {
                                layer_byte(g, first_gid as int, ts, tw as int, th as int, x, y, ch)
                            } else {
                                0u8
                            }) by {
                                lemma_window(x, c as int, tw as int);
                                lemma_window(y, r as int, th as int);
                                assert(before.contains(x, y));
                                assert(layer@.byte(x, y, ch) == crate::image::blitted(
                                    before,
                                    ts,
                                    dest_pos,
                                    src_pos,
                                    size,
                                    FULL_BRIGHTNESS as int,
                                    x,
                                    y,
                                    ch,
                                ));
                                if x / tw as int == c && y / th as int == r {
                                    let id = gid - first_gid;
                                    assert(src_pos.x == (id % per_row as int) * tw);
                                    assert(src_pos.y == (id / per_row as int) * th);
                                    assert(gids@[r as int]@[c as int] == gid);
                                    assert(tile_pixel(
                                        g,
                                        first_gid as int,
                                        per_row as int,
                                        tw as int,
                                        th as int,
                                        x,
                                        y,
                                    ) == Some(
                                        (src_pos.x + x - dest_pos.x, src_pos.y + y - dest_pos.y),
                                    ));
                                } else {
                                    assert(!crate::image::copies(
                                        ts,
                                        dest_pos,
                                        src_pos,
                                        size,
                                        x,
                                        y,
                                    ));
                                }
                            }
                        }
                    } else {
                        proof {
                            assert forall|x: int, y: int, ch: int|
                                layer@.contains(x, y) && 0 <= ch < 4 implies #[trigger] layer@.byte(
                                x,
                                y,
                                ch,
                            ) == (if tile_before(y / th as int, x / tw as int, r as int, c + 1) {
                                layer_byte(g, first_gid as int, ts, tw as int, th as int, x, y, ch)
                            } else {
                                0u8
                            }) by {
                                lemma_window(x, c as int, tw as int);
                                lemma_window(y, r as int, th as int);
                                assert(x < width && y < height);
                                if x / tw as int == c && y / th as int == r {
                                    assert(c * tw <= x);
                                    assert(c <= c * tw) by (nonlinear_arith)
                                        requires
                                            tw >= 1,
                                            c >= 0,
                                    ;
                                    assert(r <= r * th) by (nonlinear_arith)
                                        requires
                                            th >= 1,
                                            r >= 0,
                                    ;
                                    assert(cols >= 1) by (nonlinear_arith)
                                        requires
                                            x < cols * tw,
                                            0 <= x,
                                    ;
                                    assert(rows >= 1) by (nonlinear_arith)
                                        requires
                                            y < rows * th,
                                            0 <= y,
                                    ;
                                    assert(tw <= cols * tw && th <= rows * th) by (nonlinear_arith)
                                        requires
                                            cols >= 1,
                                            rows >= 1,
                                            tw >= 0,
                                            th >= 0,
                                    ;
                                }
                            }
                        }
                    }
                },
                None => {
                    proof {
                        assert forall|x: int, y: int, ch: int|
                            layer@.contains(x, y) && 0 <= ch < 4 implies #[trigger] layer@.byte(
                            x,
                            y,
                            ch,
                        ) == (if tile_before(y / th as int, x / tw as int, r as int, c + 1) {
                            layer_byte(g, first_gid as int, ts, tw as int, th as int, x, y, ch)
                        } else {
                            0u8
                        }) by {
                            lemma_window(x, c as int, tw as int);
                            lemma_window(y, r as int, th as int);
                        }
                    }
                },
            }
            c += 1;
        }
        proof {
            assert forall|x: int, y: int, ch: int|
                layer@.contains(x, y) && 0 <= ch < 4 implies #[trigger] layer@.byte(x, y, ch) == (
                if tile_before(y / th as int, x / tw as int, r + 1, 0) {
                    layer_byte(g, first_gid as int, ts, tw as int, th as int, x, y, ch)
                } else {
                    0u8
                }) by {
                lemma_window(x, 0, tw as int);
                lemma_window(y, r as int, th as int);
            }
        }
        r += 1;
    }
    proof {
        assert forall|x: int, y: int, ch: int|
            layer@.contains(x, y) && 0 <= ch < 4 implies #[trigger] layer@.byte(x, y, ch)
            == layer_byte(g, first_gid as int, ts, tw as int, th as int, x, y, ch) by {
            lemma_window(x, 0, tw as int);
            lemma_window(y, 0, th as int);
            if y / th as int >= gids@.len() {
                assert(tile_pixel(g, first_gid as int, ts.width / tw as int, tw as int, th as int, x, y) is None);
            }
        }
    }
    layer
}

/// `v` world units in whole pixels, rounded down.
pub open spec fn to_pixels(v: int) -> int {
    v / SUBPIXELS as int
}

pub fn pixels(v: i64) -> (r: i64)
    requires
        in_bounds(v as int),
    ensures
        r == to_pixels(v as int),
{
    if v >= 0 {
        v / SUBPIXELS
    } else {
        -((-v + (SUBPIXELS - 1)) / SUBPIXELS)
    }
}

/// The camera: its scroll position in world units (`y` grows downward, as on
/// the screen) and the height of the world in pixels.
#[derive(Clone, Copy, Debug, PartialEq, Eq, Structural)]
pub struct Viewport {
    pub pos: Point2,
    pub world_height: i64,
}

impl Viewport {
    pub open spec fn wf(self) -> bool {
        self.pos.wf() && 0 <= self.world_height <= LEVEL_LIMIT
    }
}

/// Screen position, in pixels, of the top-left corner of a sprite of `size`
/// pixels standing at world position `pos`: centered horizontally on it, with
/// its bottom edge at its feet.
pub open spec fn world_to_screen_spec(pos: Point3, size: Point2, viewport: Viewport) -> Point2 {
    Point2 {
        x: (to_pixels(pos.x as int) - size.x / 2 - to_pixels(viewport.pos.x as int)) as i64,
        y: (viewport.world_height - size.y + to_pixels(-pos.z) - to_pixels(
            viewport.pos.y as int,
        )) as i64,
    }
}

pub fn world_to_screen(pos: Point3, size: Point2, viewport: &Viewport) -> (r: Point2)
    requires
        pos.wf(),
        0 <= size.x <= IMAGE_LIMIT,
        0 <= size.y <= IMAGE_LIMIT,
        viewport.wf(),
    ensures
        r == world_to_screen_spec(pos, size, *viewport),
        r.wf(),
{
    let x = pixels(pos.x) - size.x / 2 - pixels(viewport.pos.x);
    let y = viewport.world_height - size.y + pixels(-pos.z) - pixels(viewport.pos.y);
    Point2 { x, y }
}

/// Keeps the sprite box `min .. max` (screen pixels with the camera at the
/// origin) inside the screen inset by `SCREEN_INSET`: each edge that crosses
/// the inset moves the camera by exactly the overflow, right and bottom edges
/// first, then left and top.
pub open spec fn followed(vp: Point2, min: Point2, max: Point2) -> Point2 {
    let x1 = if max.x > to_pixels(vp.x as int) + (SCREEN_WIDTH - SCREEN_INSET) {
        (max.x - (SCREEN_WIDTH - SCREEN_INSET)) * SUBPIXELS
    } else {
        vp.x as int
    };
    let y1 = if max.y > to_pixels(vp.y as int) + (SCREEN_HEIGHT - SCREEN_INSET) {
        (max.y - (SCREEN_HEIGHT - SCREEN_INSET)) * SUBPIXELS
    } else {
        vp.y as int
    };
    let x2 = if min.x < to_pixels(x1) + SCREEN_INSET {
        (min.x - SCREEN_INSET) * SUBPIXELS
    } else {
        x1
    };
    let y2 = if min.y < to_pixels(y1) + SCREEN_INSET {
        (min.y - SCREEN_INSET) * SUBPIXELS
    } else {
        y1
    };
    Point2 { x: x2 as i64, y: y2 as i64 }
}

impl Viewport {
    /// Moves the camera to keep the leader's sprite (`size` pixels, standing
    /// at `pos`) inside the screen's inset.
    pub fn follow(&mut self, pos: Point3, size: Point2)
        requires
            old(self).wf(),
            pos.wf(),
            0 <= size.x <= IMAGE_LIMIT,
            0 <= size.y <= IMAGE_LIMIT,
            level_coord(pos.x as int / 16),
            level_coord(pos.z as int / 16),
        ensures
            final(self).world_height == old(self).world_height,
            ({
                let basis = Viewport { pos: Point2 { x: 0, y: 0 }, ..*old(self) };
                let min = world_to_screen_spec(pos, size, basis);
                let max = Point2 { x: (min.x + size.x) as i64, y: (min.y + size.y) as i64 };
                final(self).pos == followed(old(self).pos, min, max)
            }),
            final(self).wf(),
    {
        let basis = Viewport { pos: Point2 { x: 0, y: 0 }, world_height: self.world_height };
        let min = world_to_screen(pos, size, &basis);
        let max = Point2 { x: min.x + size.x, y: min.y + size.y };
        if max.x > pixels(self.pos.x) + (SCREEN_WIDTH - SCREEN_INSET) {
            self.pos.x = (max.x - (SCREEN_WIDTH - SCREEN_INSET)) * SUBPIXELS;
        }
        if max.y > pixels(self.pos.y) + (SCREEN_HEIGHT - SCREEN_INSET) {
            self.pos.y = (max.y - (SCREEN_HEIGHT - SCREEN_INSET)) * SUBPIXELS;
        }
        if min.x < pixels(self.pos.x) + SCREEN_INSET {
            self.pos.x = (min.x - SCREEN_INSET) * SUBPIXELS;
        }
        if min.y < pixels(self.pos.y) + SCREEN_INSET {
            self.pos.y = (min.y - SCREEN_INSET) * SUBPIXELS;
        }
    }
}

/// Camera step of the intro pan, in world units per tick, and where it stops.
pub const INTRO_STEP: i64 = 3;
pub const INTRO_END_X: i64 = 2048;
pub const INTRO_END_Y: i64 = 3520;

/// One tick of the intro: pan right, then diagonally down-right, and report
/// `false` (intro over, camera left where it is) once both ends are reached.
pub fn intro_step(vp: &mut Viewport) -> (running: bool)
    requires
        old(vp).wf(),
        old(vp).pos.x <= COORD_LIMIT - INTRO_STEP,
        old(vp).pos.y <= COORD_LIMIT - INTRO_STEP,
    ensures
        final(vp).world_height == old(vp).world_height,
        running == (old(vp).pos.x < INTRO_END_X || old(vp).pos.y < INTRO_END_Y),
        old(vp).pos.x < INTRO_END_X ==> final(vp).pos == (Point2 { x: (old(vp).pos.x + INTRO_STEP) as i64, y: old(vp).pos.y }),
        old(vp).pos.x >= INTRO_END_X && old(vp).pos.y < INTRO_END_Y ==> final(vp).pos == (Point2 { x: (old(vp).pos.x + INTRO_STEP) as i64, y: (old(vp).pos.y + INTRO_STEP) as i64 }),
        !running ==> final(vp).pos == old(vp).pos,
        final(vp).wf(),
{
    if vp.pos.x < INTRO_END_X {
        vp.pos.x = vp.pos.x + INTRO_STEP;
        true
    } else if vp.pos.y < INTRO_END_Y {
        vp.pos.x = vp.pos.x + INTRO_STEP;
        vp.pos.y = vp.pos.y + INTRO_STEP;
        true
    } else {
        false
    }
}

/// Brightness (in 256ths) of the outro fade `elapsed` milliseconds after it
/// began: linear from full to zero over `OUTRO_DURATION`.
pub open spec fn fade_spec(elapsed: int) -> int {
    if elapsed >= OUTRO_DURATION {
        0
    } else {
        FULL_BRIGHTNESS - elapsed * FULL_BRIGHTNESS / OUTRO_DURATION as int
    }
}

/// The fade of an outro begun at `start`, at time `now`; zero means the
/// world is to be torn down and built again.
pub fn outro_fade(start: u64, now: u64) -> (r: u32)
    ensures
        r == fade_spec(if now >= start { now - start } else { 0 }),
        r <= FULL_BRIGHTNESS,
{
    let elapsed: u64 = if now >= start {
        now - start
    } else {
        0
    };
    if elapsed >= OUTRO_DURATION {
        0
    } else {
        assert(elapsed * 256 < 2000 * 256);
        (FULL_BRIGHTNESS as u64 - elapsed * FULL_BRIGHTNESS as u64 / OUTRO_DURATION) as u32
    }
}

/// Leader/antagonist contact: every antagonist that the leader touches is
/// queued for deletion, each time together with the leader; any contact starts
/// the outro. Returns whether the outro starts.
pub fn leader_collision(
    leader_id: u64,
    leader: Point3,
    shadow_ids: &Vec<u64>,
    shadows: &Vec<Point3>,
    queue: &mut Vec<u64>,
) -> (outro: bool)
    requires
        leader.wf(),
        shadow_ids@.len() == shadows@.len(),
        forall|i: int| 0 <= i < shadows@.len() ==> (#[trigger] shadows@[i]).wf(),
    ensures
        outro == (contacts(leader, shadows@).len() > 0),
        final(queue)@ == old(queue)@ + queued_pairs(leader_id, shadow_ids@, contacts(leader, shadows@)),
{
    let hits = leader_contacts(leader, shadows);
    let ghost q0 = queue@;
    proof {
        lemma_contacts_in_range(leader, shadows@);
    }
    let mut k: usize = 0;
    while k < hits.len()
        invariant
            k <= hits@.len(),
            hits@ == contacts(leader, shadows@),
            shadow_ids@.len() == shadows@.len(),
            forall|j: int| 0 <= j < hits@.len() ==> (#[trigger] hits@[j]) < shadows@.len(),
            queue@ == q0 + queued_pairs(leader_id, shadow_ids@, hits@.take(k as int)),
        decreases hits.len() - k,
    {
        queue.push(leader_id);
        queue.push(shadow_ids[hits[k]]);
        proof {
            assert(hits@.take(k as int + 1).drop_last() =~= hits@.take(k as int));
            assert(q0 + queued_pairs(leader_id, shadow_ids@, hits@.take(k as int + 1)) =~= queue@);
        }
        k += 1;
    }
    proof {
        assert(hits@.take(hits@.len() as int) =~= hits@);
    }
    hits.len() > 0
}

/// The deletion requests for the contacts `hits`: the leader's id and then the
/// antagonist's, for each contact in order.
pub open spec fn queued_pairs(leader_id: u64, ids: Seq<u64>, hits: Seq<usize>) -> Seq<u64>
    decreases hits.len(),
{
    if hits.len() == 0 {
        Seq::empty()
    } else {
        queued_pairs(leader_id, ids, hits.drop_last()).push(leader_id).push(ids[hits.last() as int])
    }
}

proof fn lemma_contacts_in_range(leader: Point3, s: Seq<Point3>)
    ensures
        forall|j: int| 0 <= j < contacts(leader, s).len() ==> (#[trigger] contacts(leader, s)[j]) < s.len(),
        forall|i: int| 0 <= i < s.len() && dist2(leader, #[trigger] s[i]) < crate::system::CONTACT_REACH_SQ ==> contacts(leader, s).contains(i as usize),
    decreases s.len(),
{
    if s.len() > 0 {
        lemma_contacts_in_range(leader, s.drop_last());
        let c = contacts(leader, s);
        let p = contacts(leader, s.drop_last());
        assert forall|i: int| 0 <= i < s.len() && dist2(leader, #[trigger] s[i]) < crate::system::CONTACT_REACH_SQ implies c.contains(i as usize) by {
            if i < s.len() - 1 {
                assert(s.drop_last()[i] == s[i]);
                assert(p.contains(i as usize));
                let k = choose|k: int| 0 <= k < p.len() && p[k] == i as usize;
                if dist2(leader, s.last()) < crate::system::CONTACT_REACH_SQ {
                    assert(c[k] == i as usize);
                }
            } else {
                assert(c[c.len() - 1] == i as usize);
            }
        }
    }
}

proof fn lemma_pairs_hold(leader_id: u64, ids: Seq<u64>, hits: Seq<usize>, k: int)
    requires
        0 <= k < hits.len(),
        forall|j: int| 0 <= j < hits.len() ==> (#[trigger] hits[j]) < ids.len(),
    ensures
        queued_pairs(leader_id, ids, hits).contains(leader_id),
        queued_pairs(leader_id, ids, hits).contains(ids[hits[k] as int]),
    decreases hits.len(),
{
    let q = queued_pairs(leader_id, ids, hits);
    let n = q.len();
    assert(q[n - 2] == leader_id);
    if k == hits.len() - 1 {
        assert(q[n - 1] == ids[hits[k] as int]);
    } else {
        lemma_pairs_hold(leader_id, ids, hits.drop_last(), k);
        let p = queued_pairs(leader_id, ids, hits.drop_last());
        let m = choose|m: int| 0 <= m < p.len() && p[m] == ids[hits[k] as int];
        assert(q[m] == p[m]);
    }
}

/// When the leader is strictly within two radii of an antagonist, the contact
/// check of that tick starts the outro and queues both of them for deletion.
pub proof fn lemma_contact_ends_world(
    leader_id: u64,
    leader: Point3,
    shadow_ids: Seq<u64>,
    shadows: Seq<Point3>,
    i: int,
)
    requires
        shadow_ids.len() == shadows.len(),
        shadows.len() <= usize::MAX,
        0 <= i < shadows.len(),
        dist2(leader, shadows[i]) < crate::system::CONTACT_REACH_SQ,
    ensures
        contacts(leader, shadows).len() > 0,
        queued_pairs(leader_id, shadow_ids, contacts(leader, shadows)).contains(leader_id),
        queued_pairs(leader_id, shadow_ids, contacts(leader, shadows)).contains(shadow_ids[i]),
{
    lemma_contacts_in_range(leader, shadows);
    let c = contacts(leader, shadows);
    assert(c.contains(i as usize));
    let k = choose|k: int| 0 <= k < c.len() && c[k] == i as usize;
    assert(c[k] as int == i);
    lemma_pairs_hold(leader_id, shadow_ids, c, k);
}

/// Summon offsets are drawn from the square of half-side `FROG_THRESHOLD`
/// around the leader and kept only inside the circle of that radius.
pub open spec fn summon_ok(leader: Point3, p: Point3, shapes: Seq<Rect>) -> bool {
    &&& p.wf()
    &&& p.y == leader.y
    &&& dist2(p, leader) <= FROG_THRESHOLD * FROG_THRESHOLD
    &&& !hits_any(shapes, p, ENTITY_RADIUS as int)
}

/// Width of the square that summon offsets are drawn from, centered on the leader.
pub const SUMMON_SPAN: u32 = 897;

/// The spot that the draws `a` and `b` propose: the leader offset by
/// `a % SUMMON_SPAN - FROG_THRESHOLD` along `x` and `b % SUMMON_SPAN - FROG_THRESHOLD`
/// along `z`. It is taken exactly when `summon_ok` holds of it.
pub open spec fn candidate_spec(leader: Point3, a: u32, b: u32, shapes: Seq<Rect>) -> Option<Point3> {
    let p = Point3 {
        x: (leader.x + (a % SUMMON_SPAN) - FROG_THRESHOLD) as i64,
        y: leader.y,
        z: (leader.z + (b % SUMMON_SPAN) - FROG_THRESHOLD) as i64,
    };
    if summon_ok(leader, p, shapes) {
        Some(p)
    } else {
        None
    }
}

/// Tests the spot proposed by one pair of draws.
pub fn summon_candidate(leader: Point3, a: u32, b: u32, shapes: &Vec<Rect>) -> (r: Option<Point3>)
    requires
        leader.wf(),
        all_wf(shapes@),
    ensures
        r == candidate_spec(leader, a, b, shapes@),
{
    let am = a % SUMMON_SPAN;
    let bm = b % SUMMON_SPAN;
    assert(am < 897 && bm < 897);
    let dx = am as i64 - FROG_THRESHOLD;
    let dz = bm as i64 - FROG_THRESHOLD;
    let p = Point3 { x: leader.x + dx, y: leader.y, z: leader.z + dz };
    assert(0 <= dx * dx <= 448 * 448 && 0 <= dz * dz <= 448 * 448) by (nonlinear_arith)
        requires
            -448 <= dx <= 448,
            -448 <= dz <= 448,
    ;
    assert(dist2(p, leader) == dx * dx + dz * dz);
    if dx * dx + dz * dz <= FROG_THRESHOLD * FROG_THRESHOLD && -COORD_LIMIT <= p.x && p.x
        <= COORD_LIMIT && -COORD_LIMIT <= p.z && p.z <= COORD_LIMIT {
        if !circle_hits_any(shapes, p, ENTITY_RADIUS) {
            return Some(p);
        }
    }
    None
}

/// Rejection sampling of a spot for a new dependent near `leader`: up to
/// `attempts` pairs of draws, each tested by `summon_candidate`; the first
/// spot accepted is returned.
pub fn summon_position(leader: Point3, random: &mut Random, shapes: &Vec<Rect>, attempts: u32) -> (r: Option<Point3>)
    requires
        leader.wf(),
        all_wf(shapes@),
    ensures
        r matches Some(p) ==> exists|a: u32, b: u32| candidate_spec(leader, a, b, shapes@) == Some(p),
        r matches Some(p) ==> summon_ok(leader, p, shapes@),
{
    let mut n: u32 = 0;
    while n < attempts
        invariant
            leader.wf(),
            all_wf(shapes@),
        decreases attempts - n,
    {
        let a = random.next_u32();
        let b = random.next_u32();
        let found = summon_candidate(leader, a, b, shapes);
        if found.is_some() {
            return found;
        }
        n += 1;
    }
    None
}

/// The summon system for one tick: on a fresh "use" press with a charge in
/// the meter, a spot is sought for the new dependent; the charge is spent
/// only when one is found. Returns that spot, if any.
pub fn summon(
    controls: &mut Controls,
    power: &mut FrogPower,
    leader: Point3,
    random: &mut Random,
    shapes: &Vec<Rect>,
    attempts: u32,
    now: u64,
) -> (r: Option<Point3>)
    requires
        old(power)@.wf(),
        leader.wf(),
        all_wf(shapes@),
    ensures
        final(controls)@ == (crate::control::ControlsState { prev_power: old(controls)@.current_power, ..old(controls)@ }),
        final(power)@.wf(),
        r is Some ==> old(controls)@.power_edge() == Power::Use && old(power)@.pp > 0
            && final(power)@ == old(power)@.used(now as int),
        r is None ==> final(power)@ == old(power)@,
        r matches Some(p) ==> summon_ok(leader, p, shapes@),
{
    if controls.power() == Power::Use && power.pp() > 0 {
        let found = summon_position(leader, random, shapes, attempts);
        if found.is_some() {
            power.use_power(now);
        }
        found
    } else {
        None
    }
}

/// `order` lists each index below `n` exactly once.
pub open spec fn is_order_of(order: Seq<usize>, n: int) -> bool {
    &&& order.len() == n
    &&& order.no_duplicates()
    &&& forall|i: int| 0 <= i < order.len() ==> (#[trigger] order[i]) < n
}

/// The order in which sprites standing at depths `zs` are drawn: farthest
/// (largest `z`) first, sprites at the same depth in their given order.
pub fn draw_order(zs: &Vec<i64>) -> (r: Vec<usize>)
    ensures
        is_order_of(r@, zs@.len() as int),
        forall|i: int, j: int| 0 <= i < j < r@.len() ==> zs@[r@[i] as int] >= zs@[r@[j] as int],
{
    let mut out: Vec<usize> = Vec::new();
    let mut k: usize = 0;
    while k < zs.len()
        invariant
            k <= zs@.len(),
            is_order_of(out@, k as int),
            forall|i: int, j: int|
                0 <= i < j < out@.len() ==> zs@[out@[i] as int] >= zs@[out@[j] as int],
        decreases zs.len() - k,
    {
        let z = zs[k];
        let mut at: usize = 0;
        while at < out.len() && zs[out[at]] >= z
            invariant
                at <= out@.len(),
                is_order_of(out@, k as int),
                k < zs@.len(),
                z == zs@[k as int],
                forall|i: int| 0 <= i < at ==> zs@[(#[trigger] out@[i]) as int] >= z,
            decreases out.len() - at,
        {
            at += 1;
        }
        let ghost before = out@;
        out.insert(at, k);
        proof {
            assert forall|i: int| 0 <= i < out@.len() implies (#[trigger] out@[i]) < k + 1 by {
                if i < at {
                    assert(out@[i] == before[i]);
                } else if i > at {
                    assert(out@[i] == before[i - 1]);
                }
            }
            assert(!before.contains(k)) by {
                if before.contains(k) {
                    let m = choose|m: int| 0 <= m < before.len() && before[m] == k;
                    assert(before[m] < k);
                }
            }
            assert(out@.no_duplicates()) by {
                assert forall|i: int, j: int|
                    0 <= i < out@.len() && 0 <= j < out@.len() && i != j implies out@[i]
                    != out@[j] by {
                    if i != at as int && j != at as int {
                        let bi = if i < at { i } else { i - 1 };
                        let bj = if j < at { j } else { j - 1 };
                        assert(out@[i] == before[bi] && out@[j] == before[bj]);
                    } else if i == at as int {
                        let bj = if j < at { j } else { j - 1 };
                        assert(out@[j] == before[bj]);
                    } else {
                        let bi = if i < at { i } else { i - 1 };
                        assert(out@[i] == before[bi]);
                    }
                }
            }
            assert forall|i: int, j: int|
                0 <= i < j < out@.len() implies zs@[out@[i] as int] >= zs@[out@[j] as int] by {
                if at < before.len() {
                    assert(zs@[before[at as int] as int] < z);
                }
                if i < at && j < at {
                    assert(out@[i] == before[i] && out@[j] == before[j]);
                } else if i < at && j == at {
                    assert(out@[i] == before[i]);
                } else if i < at && j > at {
                    assert(out@[i] == before[i] && out@[j] == before[j - 1]);
                } else if i == at {
                    assert(out@[j] == before[j - 1]);
                    if j - 1 > at {
                        assert(zs@[before[at as int] as int] >= zs@[before[j - 1] as int]);
                    }
                } else {
                    assert(out@[i] == before[i - 1] && out@[j] == before[j - 1]);
                }
            }
        }
        k += 1;
    }
    out
}

/// Draws frame `frame_index` of a sprite sheet (frames of `frame_height`
/// pixels stacked top to bottom) for a sprite standing at `pos`, with
/// brightness `factor`.
pub fn draw_sprite(
    dest: &mut Image,
    viewport: &Viewport,
    pos: Point3,
    sheet: &Image,
    frame_height: i64,
    frame_index: usize,
    factor: u32,
)
    requires
        old(dest)@.wf(),
        sheet@.wf(),
        viewport.wf(),
        pos.wf(),
        0 < frame_height,
        (frame_index + 1) * frame_height <= sheet@.height,
        sheet@.width <= old(dest)@.width,
        frame_height <= old(dest)@.height,
        factor <= FULL_BRIGHTNESS,
    ensures
        final(dest)@.wf(),
        final(dest)@.width == old(dest)@.width,
        final(dest)@.height == old(dest)@.height,
        ({
            let size = Point2 { x: sheet@.width as i64, y: frame_height };
            let at = world_to_screen_spec(pos, size, *viewport);
            let row = Point2 { x: 0, y: (frame_index * frame_height) as i64 };
            forall|x: int, y: int, c: int|
                old(dest)@.contains(x, y) && 0 <= c < 4 ==> #[trigger] final(dest)@.byte(x, y, c)
                    == crate::image::blitted(old(dest)@, sheet@, at, row, size, factor as int, x, y, c)
        }),
{
    let size = Point2 { x: sheet.width() as i64, y: frame_height };
    let at = world_to_screen(pos, size, viewport);
    assert(frame_index * frame_height <= (frame_index + 1) * frame_height && frame_height <= (
    frame_index + 1) * frame_height && frame_index + 1 <= (frame_index + 1) * frame_height)
        by (nonlinear_arith)
        requires
            frame_height >= 1,
    ;
    let row = Point2 { x: 0, y: frame_index as i64 * frame_height };
    blit(dest, at, sheet, row, size, factor);
}

} // verus!

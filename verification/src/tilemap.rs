//! The ASCII tile map.
//!
//! A map file is plain text: one byte per tile, one line per row, lines
//! separated by `\n` with an optional trailing newline. The first row fixes
//! the nominal width used to centre the map; rows are laid out exactly as
//! written, even when their lengths differ. A tile at column `col` of row
//! `row` sits at world position `origin + (col * TILE_SIZE, -row *
//! TILE_SIZE)` with `origin = (-width * TILE_SIZE / 2, height * TILE_SIZE /
//! 2)`, so the map is centred and `y` grows upward. The wall glyph `#`
//! additionally owns a static obstacle body co-located with its tile; every
//! other byte is a plain sprite, its atlas index being the byte itself. An
//! empty file is a zero-by-zero map with no tiles and no obstacles.

use vstd::prelude::*;

use crate::components::CollisionLayers;
use crate::components::CollisionShape;
use crate::components::LayerSet;
use crate::components::RigidBody;
use crate::components::TILE_Z;
use crate::units::Coord;
use crate::units::Vec2;
use crate::units::TILE_SIZE;

verus! {

/// The line separator of map files.
pub const NEWLINE: u8 = 10;

/// The one glyph with collision semantics.
pub const WALL_GLYPH: u8 = 35;

/// Largest map file the loader accepts, in bytes; keeps every tile
/// position within the coordinate range.
pub const MAX_MAP_BYTES: u64 = 0x7fff_ffff;

/// Index of the first newline in `bytes`, or their length when none.
pub open spec fn line_break(bytes: Seq<u8>) -> nat
    decreases bytes.len(),
{
    if bytes.len() == 0 {
        0
    } else if bytes[0] == NEWLINE {
        0
    } else {
        1 + line_break(bytes.skip(1))
    }
}

/// The rows of a map file: the newline-separated segments of `bytes`, a
/// trailing newline ending the last row rather than opening an empty one.
pub open spec fn lines_of(bytes: Seq<u8>) -> Seq<Seq<u8>>
    decreases bytes.len(),
{
    if bytes.len() == 0 {
        Seq::empty()
    } else {
        let k = line_break(bytes) as int;
        if k >= bytes.len() {
            seq![bytes]
        } else {
            seq![bytes.take(k)] + lines_of(bytes.skip(k + 1))
        }
    }
}

/// Where the first line ends: within the bytes only at a newline, with
/// none before it.
pub proof fn lemma_line_break(bytes: Seq<u8>)
    ensures
        0 <= line_break(bytes) <= bytes.len(),
        line_break(bytes) < bytes.len() ==> bytes[line_break(bytes) as int] == NEWLINE,
        forall|j: int| 0 <= j < line_break(bytes) ==> bytes[j] != NEWLINE,
    decreases bytes.len(),
{
    if bytes.len() != 0 && bytes[0] != NEWLINE {
        lemma_line_break(bytes.skip(1));
        assert forall|j: int| 0 <= j < line_break(bytes) implies bytes[j] != NEWLINE by {
            if j > 0 {
                assert(bytes.skip(1)[j - 1] == bytes[j]);
            }
        }
    }
}

/// The first line ends exactly at `k` when no earlier byte is a newline
/// and byte `k` is one (or the bytes end there).
pub proof fn lemma_line_break_at(bytes: Seq<u8>, k: int)
    requires
        0 <= k <= bytes.len(),
        forall|j: int| 0 <= j < k ==> bytes[j] != NEWLINE,
        k < bytes.len() ==> bytes[k] == NEWLINE,
    ensures
        line_break(bytes) == k,
    decreases k,
{
    if k == 0 {
    } else {
        assert(bytes[0] != NEWLINE);
        assert forall|j: int| 0 <= j < k - 1 implies bytes.skip(1)[j] != NEWLINE by {
            assert(bytes.skip(1)[j] == bytes[j + 1]);
        }
        assert(k - 1 < bytes.skip(1).len() ==> bytes.skip(1)[k - 1] == NEWLINE);
        lemma_line_break_at(bytes.skip(1), k - 1);
    }
}

/// A map file has no more rows than bytes, and no row longer than the
/// file.
pub proof fn lemma_lines_bounds(bytes: Seq<u8>)
    ensures
        lines_of(bytes).len() <= bytes.len(),
        forall|i: int|
            0 <= i < lines_of(bytes).len() ==> (#[trigger] lines_of(bytes)[i]).len()
                <= bytes.len(),
    decreases bytes.len(),
{
    lemma_line_break(bytes);
    if bytes.len() != 0 {
        let k = line_break(bytes) as int;
        if k < bytes.len() {
            lemma_lines_bounds(bytes.skip(k + 1));
        }
    }
}

/// A renderable quad on the tile draw layer: an atlas index, a square side
/// length in subunits, and a placement.
#[derive(Clone, Copy, PartialEq, Eq, Structural, Debug)]
pub struct AsciiSprite {
    pub index: u8,
    pub size: u64,
    pub pos: Vec2,
    pub z: u64,
}

/// Builds the sprite of one glyph: the atlas index is the glyph byte
/// itself, the quad is one tile wide, on the tile draw layer.
pub fn spawn_ascii(idx: u8, pos: Vec2) -> (s: AsciiSprite)
    ensures
        s == (AsciiSprite { index: idx, size: TILE_SIZE, pos, z: TILE_Z }),
{
    AsciiSprite { index: idx, size: TILE_SIZE, pos, z: TILE_Z }
}

/// One cell of the map: its grid place, its glyph, its sprite, and whether
/// it is a wall.
#[derive(Clone, Copy, PartialEq, Eq, Structural, Debug)]
pub struct Tile {
    pub col: usize,
    pub row: usize,
    pub glyph: u8,
    pub sprite: AsciiSprite,
    pub is_wall: bool,
}

/// A static obstacle body owned by a wall tile.
#[derive(Clone, Copy, PartialEq, Eq, Structural, Debug)]
pub struct Obstacle {
    pub pos: Vec2,
    pub rigid_body: RigidBody,
    pub shape: CollisionShape,
    pub layers: CollisionLayers,
}

/// World position of the tile at `(col, row)` on a map of the given
/// nominal width and height: `origin + (col * TILE_SIZE, -row *
/// TILE_SIZE)`, the origin centring the map.
pub open spec fn tile_pos(row: int, col: int, width: int, height: int) -> Vec2 {
    Vec2 {
        x: Coord {
            base: (col * (TILE_SIZE as int) - width * ((TILE_SIZE as int) / 2)) as i64,
            diag: 0,
        },
        y: Coord {
            base: (height * ((TILE_SIZE as int) / 2) - row * (TILE_SIZE as int)) as i64,
            diag: 0,
        },
    }
}

/// The tile a glyph at `(col, row)` becomes.
pub open spec fn tile_at(glyph: u8, row: int, col: int, width: int, height: int) -> Tile {
    Tile {
        col: col as usize,
        row: row as usize,
        glyph,
        sprite: AsciiSprite {
            index: glyph,
            size: TILE_SIZE,
            pos: tile_pos(row, col, width, height),
            z: TILE_Z,
        },
        is_wall: glyph == WALL_GLYPH,
    }
}

/// What `tile_at` builds, read field by field: on any map the loader
/// accepts, the grid place is kept as given, the sprite index is the glyph
/// byte itself, only the wall glyph makes a wall, and the world position is
/// exactly the centred grid formula, on the tile draw layer.
pub proof fn lemma_tile_at_fields(glyph: u8, row: int, col: int, width: int, height: int)
    requires
        0 <= row <= MAX_MAP_BYTES,
        0 <= col <= MAX_MAP_BYTES,
        0 <= width <= MAX_MAP_BYTES,
        0 <= height <= MAX_MAP_BYTES,
    ensures
        ({
            let t = tile_at(glyph, row, col, width, height);
            &&& t.col == col
            &&& t.row == row
            &&& t.glyph == glyph
            &&& t.sprite.index == glyph
            &&& t.sprite.size == TILE_SIZE
            &&& t.sprite.z == TILE_Z
            &&& t.is_wall == (glyph == WALL_GLYPH)
            &&& t.sprite.pos.x.base == col * (TILE_SIZE as int) - width * ((TILE_SIZE as int)
                / 2)
            &&& t.sprite.pos.x.diag == 0
            &&& t.sprite.pos.y.base == height * ((TILE_SIZE as int) / 2) - row * (TILE_SIZE
                as int)
            &&& t.sprite.pos.y.diag == 0
        }),
{
    let ts = TILE_SIZE as int;
    let half = ts / 2;
    assert(ts == 10000 && half == 5000);
    assert(0 <= col * ts <= 0x7fff_ffff * 10000) by (nonlinear_arith)
        requires
            0 <= col <= 0x7fff_ffff,
            ts == 10000,
    ;
    assert(0 <= row * ts <= 0x7fff_ffff * 10000) by (nonlinear_arith)
        requires
            0 <= row <= 0x7fff_ffff,
            ts == 10000,
    ;
    assert(0 <= width * half <= 0x7fff_ffff * 5000) by (nonlinear_arith)
        requires
            0 <= width <= 0x7fff_ffff,
            half == 5000,
    ;
    assert(0 <= height * half <= 0x7fff_ffff * 5000) by (nonlinear_arith)
        requires
            0 <= height <= 0x7fff_ffff,
            half == 5000,
    ;
    assert((col * ts - width * half) as i64 == col * ts - width * half);
    assert((height * half - row * ts) as i64 == height * half - row * ts);
}

/// The tiles of one row, left to right.
pub open spec fn row_tiles(line: Seq<u8>, row: int, width: int, height: int) -> Seq<Tile> {
    Seq::new(line.len(), |c: int| tile_at(line[c], row, c, width, height))
}

/// The tiles of a whole map, row-major.
pub open spec fn tiles_spec(rows: Seq<Seq<u8>>, width: int, height: int) -> Seq<Tile>
    decreases rows.len(),
{
    if rows.len() == 0 {
        Seq::empty()
    } else {
        tiles_spec(rows.drop_last(), width, height) + row_tiles(
            rows.last(),
            rows.len() - 1,
            width,
            height,
        )
    }
}

/// Number of glyphs, hence tiles, in the rows.
pub open spec fn glyph_count(rows: Seq<Seq<u8>>) -> int
    decreases rows.len(),
{
    if rows.len() == 0 {
        0
    } else {
        glyph_count(rows.drop_last()) + rows.last().len()
    }
}

/// A glyph count is never negative.
proof fn lemma_glyph_count_nonneg(rows: Seq<Seq<u8>>)
    ensures
        glyph_count(rows) >= 0,
    decreases rows.len(),
{
    if rows.len() != 0 {
        lemma_glyph_count_nonneg(rows.drop_last());
    }
}

/// A map has exactly one tile per glyph.
pub proof fn lemma_tiles_spec_len(rows: Seq<Seq<u8>>, width: int, height: int)
    ensures
        tiles_spec(rows, width, height).len() == glyph_count(rows),
        glyph_count(rows) >= 0,
    decreases rows.len(),
{
    if rows.len() != 0 {
        lemma_tiles_spec_len(rows.drop_last(), width, height);
    }
}

/// The glyphs of a proper prefix of the rows, plus one more whole row,
/// never outnumber the glyphs of the map.
proof fn lemma_glyph_count_prefix(rows: Seq<Seq<u8>>, row: int)
    requires
        0 <= row < rows.len(),
    ensures
        glyph_count(rows.take(row)) + rows[row].len() <= glyph_count(rows),
        glyph_count(rows.take(row)) >= 0,
    decreases rows.len(),
{
    lemma_glyph_count_nonneg(rows.take(row));
    if row == rows.len() - 1 {
        assert(rows.take(row) =~= rows.drop_last());
    } else {
        let prefix = rows.drop_last();
        assert(prefix.take(row) =~= rows.take(row));
        lemma_glyph_count_prefix(prefix, row);
    }
}

/// Row-major lookup: the tile of the glyph at `(row, col)` stands at flat
/// index `glyph_count(rows.take(row)) + col` of the map's tiles, and is
/// exactly the tile that glyph becomes there.
pub proof fn lemma_tile_lookup(rows: Seq<Seq<u8>>, width: int, height: int, row: int, col: int)
    requires
        0 <= row < rows.len(),
        0 <= col < rows[row].len(),
    ensures
        ({
            let ix = glyph_count(rows.take(row)) + col;
            &&& 0 <= ix < tiles_spec(rows, width, height).len()
            &&& tiles_spec(rows, width, height)[ix] == tile_at(
                rows[row][col],
                row,
                col,
                width,
                height,
            )
        }),
    decreases rows.len(),
{
    lemma_tiles_spec_len(rows, width, height);
    lemma_glyph_count_prefix(rows, row);
    let prefix = rows.drop_last();
    lemma_tiles_spec_len(prefix, width, height);
    if row == rows.len() - 1 {
        assert(rows.take(row) =~= prefix);
    } else {
        assert(prefix.take(row) =~= rows.take(row));
        lemma_tile_lookup(prefix, width, height, row, col);
    }
}

/// Layer membership of every obstacle body: the obstacle group, masking
/// every layer.
pub open spec fn obstacle_layers() -> CollisionLayers {
    CollisionLayers {
        groups: LayerSet { player: false, obstacle: true, unit: false, bullet: false },
        masks: LayerSet { player: true, obstacle: true, unit: true, bullet: true },
    }
}

/// The obstacle body a wall tile owns: a static axis-aligned square of
/// half a tile, co-located with the tile.
pub open spec fn obstacle_for(t: Tile) -> Obstacle {
    Obstacle {
        pos: t.sprite.pos,
        rigid_body: RigidBody::Static,
        shape: CollisionShape::Cuboid { half_extent: TILE_SIZE / 2 },
        layers: obstacle_layers(),
    }
}

/// The obstacles of a tile list: one per wall tile, in tile order.
pub open spec fn obstacles_spec(tiles: Seq<Tile>) -> Seq<Obstacle>
    decreases tiles.len(),
{
    if tiles.len() == 0 {
        Seq::empty()
    } else if tiles.last().is_wall {
        obstacles_spec(tiles.drop_last()).push(obstacle_for(tiles.last()))
    } else {
        obstacles_spec(tiles.drop_last())
    }
}

/// Ghost image of split rows.
pub open spec fn rows_view(rows: Seq<Vec<u8>>) -> Seq<Seq<u8>> {
    rows.map_values(|r: Vec<u8>| r@)
}

/// A parsed map: its nominal width (the first row's length), its height,
/// every tile in row-major order, and the obstacle bodies of its walls.
pub struct TileMap {
    pub width: usize,
    pub height: usize,
    pub tiles: Vec<Tile>,
    pub obstacles: Vec<Obstacle>,
}

/// Splits a map file into its rows.
fn split_lines(bytes: &Vec<u8>) -> (rows: Vec<Vec<u8>>)
    ensures
        rows_view(rows@) == lines_of(bytes@),
{
    let mut rows: Vec<Vec<u8>> = Vec::new();
    let mut start: usize = 0;
    proof {
        assert(bytes@.skip(0) =~= bytes@);
        assert(rows_view(rows@) + lines_of(bytes@) =~= lines_of(bytes@));
    }
    while start < bytes.len()
        invariant
            start <= bytes@.len(),
            lines_of(bytes@) == rows_view(rows@) + lines_of(bytes@.skip(start as int)),
        decreases bytes@.len() - start,
    {
        let ghost rem = bytes@.skip(start as int);
        let mut end: usize = start;
        while end < bytes.len() && bytes[end] != NEWLINE
            invariant
                start <= end <= bytes@.len(),
                forall|j: int| start <= j < end ==> bytes@[j] != NEWLINE,
            decreases bytes@.len() - end,
        {
            end = end + 1;
        }
        let mut line: Vec<u8> = Vec::new();
        let mut j: usize = start;
        while j < end
            invariant
                start <= j <= end,
                end <= bytes@.len(),
                line@ == bytes@.subrange(start as int, j as int),
            decreases end - j,
        {
            let b = bytes[j];
            line.push(b);
            proof {
                assert(line@ =~= bytes@.subrange(start as int, j + 1));
            }
            j = j + 1;
        }
        proof {
            assert forall|q: int| 0 <= q < end - start implies rem[q] != NEWLINE by {
                assert(rem[q] == bytes@[start + q]);
            }
            if end < bytes@.len() {
                assert(rem[end - start] == bytes@[end as int]);
            }
            lemma_line_break_at(rem, end - start);
            assert(line@ =~= rem.take(end - start));
            if end < bytes@.len() {
                assert(rem.skip(end - start + 1) =~= bytes@.skip(end + 1));
                assert(lines_of(rem) == seq![line@] + lines_of(bytes@.skip(end + 1)));
            } else {
                assert(line@ =~= rem);
                assert(lines_of(rem) == seq![line@]);
            }
        }
        let ghost rows_before = rows@;
        rows.push(line);
        proof {
            assert(rows_view(rows@) =~= rows_view(rows_before).push(line@));
            assert(rows_view(rows_before).push(line@) =~= rows_view(rows_before) + seq![line@]);
        }
        if end < bytes.len() {
            start = end + 1;
        } else {
            start = end;
            proof {
                assert(lines_of(bytes@.skip(start as int)) =~= Seq::<Seq<u8>>::empty());
            }
        }
    }
    proof {
        assert(bytes@.skip(start as int) =~= Seq::<u8>::empty());
        assert(rows_view(rows@) =~= lines_of(bytes@));
    }
    rows
}

/// Parses a map file into its tiles and obstacles. The glyphs become tiles
/// in row-major order at their centred world positions; each wall glyph
/// owns one static obstacle body co-located with its tile; every other
/// glyph is a plain sprite. An empty file yields a zero-by-zero map with
/// no tiles, no obstacles and no failure.
pub fn parse_map(bytes: &Vec<u8>) -> (m: TileMap)
    requires
        bytes@.len() <= MAX_MAP_BYTES,
    ensures
        m.height == lines_of(bytes@).len(),
        m.width == (if lines_of(bytes@).len() == 0 {
            0int
        } else {
            lines_of(bytes@)[0].len() as int
        }),
        m.tiles@ == tiles_spec(lines_of(bytes@), m.width as int, m.height as int),
        m.obstacles@ == obstacles_spec(m.tiles@),
{
    let rows = split_lines(bytes);
    let ghost rv = rows_view(rows@);
    proof {
        lemma_lines_bounds(bytes@);
    }
    let height = rows.len();
    proof {
        assert(lines_of(bytes@).len() <= bytes@.len());
        if height > 0 {
            assert(rv[0] == rows@[0]@);
            assert(lines_of(bytes@)[0].len() <= bytes@.len());
        }
    }
    let width = if height == 0 {
        0
    } else {
        rows[0].len()
    };
    let mut tiles: Vec<Tile> = Vec::new();
    let mut obstacles: Vec<Obstacle> = Vec::new();
    let half: i64 = (TILE_SIZE / 2) as i64;
    let ts: i64 = TILE_SIZE as i64;
    let mut r: usize = 0;
    while r < rows.len()
        invariant
            r <= rows@.len(),
            rv == rows_view(rows@),
            rv == lines_of(bytes@),
            bytes@.len() <= MAX_MAP_BYTES,
            height == rows@.len(),
            height <= bytes@.len(),
            width == (if height == 0 {
                0int
            } else {
                rv[0].len() as int
            }),
            width <= bytes@.len(),
            half == (TILE_SIZE as int) / 2,
            ts == TILE_SIZE as int,
            tiles@ == tiles_spec(rv.take(r as int), width as int, height as int),
            obstacles@ == obstacles_spec(tiles@),
        decreases rows@.len() - r,
    {
        let rowlen = rows[r].len();
        proof {
            lemma_lines_bounds(bytes@);
            assert(rv[r as int] == rows@[r as int]@);
            assert(lines_of(bytes@)[r as int].len() <= bytes@.len());
        }
        let mut c: usize = 0;
        while c < rowlen
            invariant
                c <= rowlen,
                r < rows@.len(),
                rv == rows_view(rows@),
                rv == lines_of(bytes@),
                bytes@.len() <= MAX_MAP_BYTES,
                height == rows@.len(),
                height <= bytes@.len(),
                width == (if height == 0 {
                    0int
                } else {
                    rv[0].len() as int
                }),
                width <= bytes@.len(),
                half == (TILE_SIZE as int) / 2,
                ts == TILE_SIZE as int,
                rowlen == rv[r as int].len(),
                rowlen <= bytes@.len(),
                tiles@ == tiles_spec(rv.take(r as int), width as int, height as int)
                    + row_tiles(rv[r as int], r as int, width as int, height as int).take(
                    c as int,
                ),
                obstacles@ == obstacles_spec(tiles@),
            decreases rowlen - c,
        {
            let glyph = rows[r][c];
            proof {
                assert(half == 5000 && ts == 10000);
            }
            let x: i64 = (c as i64) * ts - (width as i64) * half;
            let y: i64 = (height as i64) * half - (r as i64) * ts;
            let pos = Vec2 { x: Coord { base: x, diag: 0 }, y: Coord { base: y, diag: 0 } };
            let sprite = spawn_ascii(glyph, pos);
            let tile = Tile { col: c, row: r, glyph, sprite, is_wall: glyph == WALL_GLYPH };
            proof {
                assert(rv[r as int][c as int] == rows@[r as int]@[c as int]);
                assert(tile == tile_at(
                    rv[r as int][c as int],
                    r as int,
                    c as int,
                    width as int,
                    height as int,
                ));
            }
            let ghost tiles_before = tiles@;
            tiles.push(tile);
            if glyph == WALL_GLYPH {
                let body = Obstacle {
                    pos,
                    rigid_body: RigidBody::Static,
                    shape: CollisionShape::Cuboid { half_extent: TILE_SIZE / 2 },
                    layers: CollisionLayers {
                        groups: LayerSet {
                            player: false,
                            obstacle: true,
                            unit: false,
                            bullet: false,
                        },
                        masks: LayerSet { player: true, obstacle: true, unit: true, bullet: true },
                    },
                };
                proof {
                    assert(body == obstacle_for(tile));
                }
                obstacles.push(body);
            }
            proof {
                assert(tiles@.drop_last() =~= tiles_before);
                assert(row_tiles(rv[r as int], r as int, width as int, height as int).take(c + 1)
                    =~= row_tiles(rv[r as int], r as int, width as int, height as int).take(
                    c as int,
                ).push(tile));
                assert(tiles@ =~= tiles_before.push(tile));
            }
            c = c + 1;
        }
        proof {
            let full_row = row_tiles(rv[r as int], r as int, width as int, height as int);
            assert(full_row.take(rowlen as int) =~= full_row);
            assert(rv.take(r + 1).drop_last() =~= rv.take(r as int));
            assert(rv.take(r + 1).last() == rv[r as int]);
            assert(tiles@ =~= tiles_spec(rv.take(r + 1), width as int, height as int));
        }
        r = r + 1;
    }
    proof {
        assert(rv.take(rv.len() as int) =~= rv);
    }
    TileMap { width, height, tiles, obstacles }
}

} // verus!

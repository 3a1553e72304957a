//! Tile map resources (`.map`): the tile grid of a scene, the tileset it
//! draws from, and statistics about the raw buffer.
use vstd::prelude::*;

use crate::text::{spec_utf8_lossy, utf8_lossy};

verus! {

/// One cell of a tile grid.
#[derive(Debug, Clone, Copy, PartialEq, Eq, Structural)]
pub struct Tile {
    /// Tile ID (index into the tileset).
    pub id: u16,
    /// Horizontal flip flag.
    pub flip_x: bool,
    /// Vertical flip flag.
    pub flip_y: bool,
}

impl Tile {
    /// A tile with the given ID and flips.
    pub fn new(id: u16, flip_x: bool, flip_y: bool) -> (res: Self)
        ensures
            res == (Tile { id, flip_x, flip_y }),
    {
        Tile { id, flip_x, flip_y }
    }
}

/// Draw record for rendering optimization.
#[derive(Debug, Clone, Copy, PartialEq, Eq, Structural)]
pub struct DrawRecord {
    pub src_x: u32,
    pub src_y: u32,
    pub dst_x: u32,
    pub dst_y: u32,
    pub width: u32,
    pub height: u32,
}

/// Why a map resource was refused.
#[derive(Debug, Clone, Copy, PartialEq, Eq, Structural)]
pub enum MapError {
    /// No data.
    Empty,
    /// Fewer than 16 bytes.
    TooShort,
}

/// A parsed tile map.
#[derive(Debug)]
pub struct TileMap {
    /// Width in tiles.
    pub width: u32,
    /// Height in tiles.
    pub height: u32,
    /// Name of the tileset image, when the data names one.
    pub tileset_ref: Option<String>,
    /// Tile grid, one vector per row.
    pub tiles: Vec<Vec<Tile>>,
    /// Draw records for rendering.
    pub draw_records: Vec<DrawRecord>,
    /// The raw map data.
    pub raw_data: Vec<u8>,
}

/// Statistics about a raw map buffer.
#[derive(Debug, Clone, Copy, PartialEq, Eq, Structural)]
pub struct MapAnalysis {
    pub size: usize,
    pub has_draw_records: bool,
    pub rle_candidates: usize,
    pub tile_candidates: usize,
}

/// Rows of a tile grid.
pub open spec fn grid_view(tiles: Seq<Vec<Tile>>) -> Seq<Seq<Tile>> {
    tiles.map_values(|row: Vec<Tile>| row@)
}

/// A `width` x `height` grid filled with `tile`.
pub open spec fn spec_filled_grid(width: int, height: int, tile: Tile) -> Seq<Seq<Tile>> {
    Seq::new(height as nat, |y: int| Seq::new(width as nat, |x: int| tile))
}

/// The generated pattern grid: tile `(x + y) % 8` at each cell.
pub open spec fn spec_pattern_grid(width: int, height: int) -> Seq<Seq<Tile>> {
    Seq::new(
        height as nat,
        |y: int| Seq::new(width as nat, |x: int| Tile { id: ((x + y) % 8) as u16, flip_x: false, flip_y: false }),
    )
}

/// First position at or after `from` where `pat` occurs.
pub open spec fn spec_find_from(data: Seq<u8>, pat: Seq<u8>, from: int) -> Option<int>
    decreases data.len() + 1 - from,
{
    if from < 0 || from + pat.len() > data.len() {
        None
    } else if data.subrange(from, from + pat.len()) == pat {
        Some(from)
    } else {
        spec_find_from(data, pat, from + 1)
    }
}

/// Start of the name that ends at `pos`: the scan walks back over bytes that
/// are neither 0 nor 8.
pub open spec fn spec_name_start(data: Seq<u8>, pos: int) -> int
    decreases pos,
{
    if pos > 0 && data[pos - 1] != 0 && data[pos - 1] != 8 {
        spec_name_start(data, pos - 1)
    } else {
        pos
    }
}

/// The name span ending at the first occurrence of `ext`, when non-empty.
pub open spec fn spec_name_before(data: Seq<u8>, ext: Seq<u8>) -> Option<(int, int)> {
    match spec_find_from(data, ext, 0) {
        Some(pos) => if spec_name_start(data, pos) < pos {
            Some((spec_name_start(data, pos), pos))
        } else {
            None
        },
        None => None,
    }
}

/// ".gif", ".png" and ".bmp", in the order they are tried.
pub open spec fn spec_image_extensions() -> Seq<Seq<u8>> {
    seq![
        seq![0x2eu8, 0x67, 0x69, 0x66],
        seq![0x2eu8, 0x70, 0x6e, 0x67],
        seq![0x2eu8, 0x62, 0x6d, 0x70],
    ]
}

/// The tileset name span: the name before the first image extension that
/// has one, trying the extensions in order.
pub open spec fn spec_tileset_span(data: Seq<u8>) -> Option<(int, int)> {
    let e = spec_image_extensions();
    match spec_name_before(data, e[0]) {
        Some(s) => Some(s),
        None => match spec_name_before(data, e[1]) {
            Some(s) => Some(s),
            None => spec_name_before(data, e[2]),
        },
    }
}

/// `ceil(v / 16)`.
pub open spec fn spec_tiles_for(v: u32) -> u32 {
    ((v as int + 15) / 16) as u32
}

/// Number of byte values below `k` that occur in the data.
pub open spec fn spec_distinct_bytes(data: Seq<u8>, k: int) -> int
    decreases k,
{
    if k <= 0 {
        0
    } else {
        spec_distinct_bytes(data, k - 1) + if data.contains((k - 1) as u8) {
            1int
        } else {
            0
        }
    }
}

/// Length of the run of equal bytes starting at `i`, counted from `r` and
/// capped at 256.
pub open spec fn spec_run_from(data: Seq<u8>, i: int, r: int) -> int
    decreases 256 - r,
{
    if r < 256 && 0 <= i && i + r < data.len() && data[i + r] == data[i] {
        spec_run_from(data, i, r + 1)
    } else {
        r
    }
}

/// Number of runs of at least three equal bytes from `i` on; runs are cut
/// at 256 bytes.
pub open spec fn spec_rle_runs(data: Seq<u8>, i: int) -> int
    decreases data.len() - i,
{
    if i < 0 || i >= data.len() {
        0
    } else {
        let r = spec_run_from(data, i, 1);
        proof {
            lemma_run_from_bounds(data, i, 1);
        }
        (if r >= 3 {
            1int
        } else {
            0
        }) + spec_rle_runs(data, i + r)
    }
}

pub proof fn lemma_run_from_bounds(data: Seq<u8>, i: int, r: int)
    requires
        0 <= i < data.len(),
        1 <= r <= 256,
        i + r <= data.len(),
    ensures
        r <= spec_run_from(data, i, r) <= 256,
        i + spec_run_from(data, i, r) <= data.len(),
    decreases 256 - r,
{
    if r < 256 && i + r < data.len() && data[i + r] == data[i] {
        lemma_run_from_bounds(data, i, r + 1);
    }
}

/// A grid of `height` rows of `width` copies of `tile`.
fn filled_rows(width: u32, height: u32, tile: Tile) -> (res: Vec<Vec<Tile>>)
    ensures
        grid_view(res@) == spec_filled_grid(width as int, height as int, tile),
{
    let mut rows: Vec<Vec<Tile>> = Vec::new();
    let mut y: u32 = 0;
    while y < height
        invariant
            y <= height,
            grid_view(rows@) =~= spec_filled_grid(width as int, y as int, tile),
        decreases height - y,
    {
        let mut row: Vec<Tile> = Vec::new();
        let mut x: u32 = 0;
        while x < width
            invariant
                x <= width,
                row@ =~= Seq::new(x as nat, |i: int| tile),
            decreases width - x,
        {
            row.push(tile);
            x = x + 1;
        }
        let ghost prev = grid_view(rows@);
        rows.push(row);
        assert(grid_view(rows@) =~= prev.push(row@));
        y = y + 1;
    }
    rows
}

/// First position at or after `from` where the four bytes of `pat` occur.
fn find_from(data: &[u8], pat: &[u8; 4], from: usize) -> (res: Option<usize>)
    ensures
        match res {
            Some(p) => spec_find_from(data@, pat@, from as int) == Some(p as int),
            None => spec_find_from(data@, pat@, from as int) is None,
        },
    decreases data@.len() - from,
{
    if from > data.len() || data.len() - from < 4 {
        return None;
    }
    let hit = data[from] == pat[0] && data[from + 1] == pat[1] && data[from + 2] == pat[2] && data[from + 3]
        == pat[3];
    assert(hit == (data@.subrange(from as int, from + 4) =~= pat@));
    if hit {
        Some(from)
    } else {
        find_from(data, pat, from + 1)
    }
}

/// Start of the name that ends at `pos`.
fn name_start(data: &[u8], pos: usize) -> (res: usize)
    requires
        pos <= data@.len(),
    ensures
        res as int == spec_name_start(data@, pos as int),
        res <= pos,
    decreases pos,
{
    if pos > 0 && data[pos - 1] != 0 && data[pos - 1] != 8 {
        name_start(data, pos - 1)
    } else {
        pos
    }
}

/// The name span before the first occurrence of an extension.
fn name_before(data: &[u8], ext: &[u8; 4]) -> (res: Option<(usize, usize)>)
    ensures
        match res {
            Some((a, b)) => spec_name_before(data@, ext@) == Some((a as int, b as int)),
            None => spec_name_before(data@, ext@) is None,
        },
{
    match find_from(data, ext, 0) {
        Some(pos) => {
            proof {
                lemma_find_from_in_bounds(data@, ext@, 0);
            }
            let start = name_start(data, pos);
            if start < pos {
                Some((start, pos))
            } else {
                None
            }
        },
        None => None,
    }
}

proof fn lemma_find_from_in_bounds(data: Seq<u8>, pat: Seq<u8>, from: int)
    requires
        spec_find_from(data, pat, from) is Some,
    ensures
        spec_find_from(data, pat, from) matches Some(p) && from <= p && p + pat.len() <= data.len(),
    decreases data.len() + 1 - from,
{
    if !(from < 0 || from + pat.len() > data.len()) && data.subrange(from, from + pat.len()) != pat {
        lemma_find_from_in_bounds(data, pat, from + 1);
    }
}

impl TileMap {
    /// Parse a map resource. The grid layout of the format is not decoded:
    /// the result is an empty 15 x 25 grid (a portrait screen of 16-pixel
    /// tiles) that keeps the raw data.
    pub fn parse(data: &[u8]) -> (res: Result<Self, MapError>)
        ensures
            data@.len() == 0 <==> res is Err,
            res is Err ==> res == Err::<Self, MapError>(MapError::Empty),
            res matches Ok(m) ==> m.width == 15 && m.height == 25 && m.tileset_ref is None && grid_view(m.tiles@)
                == spec_filled_grid(15, 25, Tile { id: 0, flip_x: false, flip_y: false }) && m.draw_records@.len() == 0
                && m.raw_data@ == data@,
    {
        if data.len() == 0 {
            return Err(MapError::Empty);
        }
        let tiles = filled_rows(15, 25, Tile::new(0, false, false));
        Ok(TileMap {
            width: 15,
            height: 25,
            tileset_ref: None,
            tiles,
            draw_records: Vec::new(),
            raw_data: vstd::slice::slice_to_vec(data),
        })
    }

    /// Parse a map for a scene of the given pixel size: the grid covers the
    /// scene in 16-pixel tiles with the generated pattern, and the tileset is
    /// the name that precedes the first ".gif", ".png" or ".bmp".
    pub fn parse_with_tiles(data: &[u8], scene_width: u32, scene_height: u32) -> (res: Result<Self, MapError>)
        ensures
            data@.len() < 16 <==> res is Err,
            res is Err ==> res == Err::<Self, MapError>(MapError::TooShort),
            res matches Ok(m) ==> {
                &&& m.width == spec_tiles_for(scene_width)
                &&& m.height == spec_tiles_for(scene_height)
                &&& grid_view(m.tiles@) == spec_pattern_grid(m.width as int, m.height as int)
                &&& m.draw_records@.len() == 0
                &&& m.raw_data@ == data@
                &&& match spec_tileset_span(data@) {
                    Some((a, b)) => m.tileset_ref matches Some(name) && name@ == spec_utf8_lossy(data@.subrange(a, b)),
                    None => m.tileset_ref is None,
                }
            },
    {
        if data.len() < 16 {
            return Err(MapError::TooShort);
        }
        let span = match name_before(data, &[0x2e, 0x67, 0x69, 0x66]) {
            Some(s) => Some(s),
            None => match name_before(data, &[0x2e, 0x70, 0x6e, 0x67]) {
                Some(s) => Some(s),
                None => name_before(data, &[0x2e, 0x62, 0x6d, 0x70]),
            },
        };
        proof {
            let e = spec_image_extensions();
            assert([0x2eu8, 0x67, 0x69, 0x66]@ =~= e[0]);
            assert([0x2eu8, 0x70, 0x6e, 0x67]@ =~= e[1]);
            assert([0x2eu8, 0x62, 0x6d, 0x70]@ =~= e[2]);
        }
        let tileset_ref = match span {
            Some((a, b)) => {
                proof {
                    lemma_tileset_span_in_bounds(data@);
                }
                Some(utf8_lossy(vstd::slice::slice_subrange(data, a, b)))
            },
            None => None,
        };
        let width = scene_width / 16 + if scene_width % 16 != 0 {
            1u32
        } else {
            0
        };
        let height = scene_height / 16 + if scene_height % 16 != 0 {
            1u32
        } else {
            0
        };
        let mut tiles: Vec<Vec<Tile>> = Vec::new();
        let mut y: u32 = 0;
        while y < height
            invariant
                y <= height,
                grid_view(tiles@) =~= spec_pattern_grid(width as int, y as int),
            decreases height - y,
        {
            let mut row: Vec<Tile> = Vec::new();
            let mut x: u32 = 0;
            while x < width
                invariant
                    x <= width,
                    y < height,
                    row@ =~= Seq::new(
                        x as nat,
                        |i: int| Tile { id: ((i + y) % 8) as u16, flip_x: false, flip_y: false },
                    ),
                decreases width - x,
            {
                row.push(Tile::new(((x as u64 + y as u64) % 8) as u16, false, false));
                x = x + 1;
            }
            let ghost prev = grid_view(tiles@);
            tiles.push(row);
            assert(grid_view(tiles@) =~= prev.push(row@));
            y = y + 1;
        }
        Ok(TileMap {
            width,
            height,
            tileset_ref,
            tiles,
            draw_records: Vec::new(),
            raw_data: vstd::slice::slice_to_vec(data),
        })
    }

    /// The tile at column `x` of row `y`.
    pub fn get_tile(&self, x: u32, y: u32) -> (res: Option<&Tile>)
        ensures
            match res {
                Some(t) => y < self.tiles@.len() && x < self.tiles@[y as int]@.len() && *t
                    == self.tiles@[y as int]@[x as int],
                None => !(y < self.tiles@.len() && x < self.tiles@[y as int]@.len()),
            },
    {
        if (y as usize) < self.tiles.len() {
            let row = &self.tiles[y as usize];
            if (x as usize) < row.len() {
                return Some(&row[x as usize]);
            }
        }
        None
    }

    /// Statistics about a raw map buffer: its size, whether it is long
    /// enough to hold draw records (over 100 bytes), the number of runs of
    /// at least three equal bytes (runs are cut at 256), and the number of
    /// distinct byte values.
    pub fn analyze_buffer(data: &[u8]) -> (res: MapAnalysis)
        ensures
            res.size == data@.len(),
            res.has_draw_records == (data@.len() > 100),
            res.rle_candidates == spec_rle_runs(data@, 0),
            res.tile_candidates == spec_distinct_bytes(data@, 256),
    {
        let n = data.len();
        let mut seen: Vec<bool> = Vec::new();
        let mut v: usize = 0;
        while v < 256
            invariant
                v <= 256,
                seen@.len() == v,
                forall|j: int| 0 <= j < v ==> !#[trigger] seen@[j],
            decreases 256 - v,
        {
            seen.push(false);
            v = v + 1;
        }
        let mut k: usize = 0;
        while k < n
            invariant
                n == data@.len(),
                k <= n,
                seen@.len() == 256,
                forall|b: int| 0 <= b < 256 ==> #[trigger] seen@[b] == data@.subrange(0, k as int).contains(b as u8),
            decreases n - k,
        {
            let b = data[k];
            proof {
                let next = data@.subrange(0, k + 1);
                assert forall|c: int| 0 <= c < 256 implies (#[trigger] next.contains(c as u8) == (data@.subrange(0, k as int).contains(
                    c as u8,
                ) || c == b)) by {
                    if next.contains(c as u8) {
                        let j = choose|j: int| 0 <= j < next.len() && next[j] == c as u8;
                        if j < k {
                            assert(data@.subrange(0, k as int)[j] == c as u8);
                        }
                    }
                    if data@.subrange(0, k as int).contains(c as u8) {
                        let j = choose|j: int| 0 <= j < k && data@.subrange(0, k as int)[j] == c as u8;
                        assert(next[j] == c as u8);
                    }
                    if c == b {
                        assert(next[k as int] == b);
                    }
                }
            }
            seen.set(b as usize, true);
            k = k + 1;
        }
        assert(data@.subrange(0, n as int) =~= data@);
        let mut distinct: usize = 0;
        let mut c: usize = 0;
        while c < 256
            invariant
                c <= 256,
                seen@.len() == 256,
                forall|b: int| 0 <= b < 256 ==> #[trigger] seen@[b] == data@.contains(b as u8),
                distinct == spec_distinct_bytes(data@, c as int),
                distinct <= c,
            decreases 256 - c,
        {
            if seen[c] {
                distinct = distinct + 1;
            }
            c = c + 1;
        }
        let mut runs: usize = 0;
        let mut i: usize = 0;
        while i < n
            invariant
                n == data@.len(),
                i <= n,
                runs <= i,
                runs + spec_rle_runs(data@, i as int) == spec_rle_runs(data@, 0),
            decreases n - i,
        {
            let mut run: usize = 1;
            while i + run < n && data[i + run] == data[i] && run < 256
                invariant
                    i < n,
                    1 <= run <= 256,
                    i + run <= n,
                    n == data@.len(),
                    spec_run_from(data@, i as int, run as int) == spec_run_from(data@, i as int, 1),
                decreases 256 - run,
            {
                run = run + 1;
            }
            proof {
                lemma_run_from_bounds(data@, i as int, 1);
            }
            if run >= 3 {
                runs = runs + 1;
            }
            i = i + run;
        }
        MapAnalysis { size: n, has_draw_records: n > 100, rle_candidates: runs, tile_candidates: distinct }
    }
}

proof fn lemma_tileset_span_in_bounds(data: Seq<u8>)
    ensures
        spec_tileset_span(data) matches Some((a, b)) ==> 0 <= a <= b <= data.len(),
{
    let e = spec_image_extensions();
    assert forall|k: int| 0 <= k < 3 implies (spec_name_before(data, #[trigger] e[k]) matches Some((a, b)) ==> 0 <= a
        <= b <= data.len()) by {
        if spec_find_from(data, e[k], 0) is Some {
            lemma_find_from_in_bounds(data, e[k], 0);
            let pos = spec_find_from(data, e[k], 0).unwrap();
            lemma_name_start_bounds(data, pos);
        }
    }
    assert(spec_name_before(data, e[0]) == spec_name_before(data, e[0]));
}

proof fn lemma_name_start_bounds(data: Seq<u8>, pos: int)
    requires
        0 <= pos,
    ensures
        0 <= spec_name_start(data, pos) <= pos,
    decreases pos,
{
    if pos > 0 && data[pos - 1] != 0 && data[pos - 1] != 8 {
        lemma_name_start_bounds(data, pos - 1);
    }
}

} // verus!

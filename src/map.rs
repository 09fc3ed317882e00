use vstd::prelude::*;

use crate::collision::Collision;
use crate::geometry::Rect;
use crate::sprites::{Blit, Sprites};

verus! {

/// Side of a square tile, in world units.
pub const TILE_SIZE: u32 = 50;

/// The most rows or columns a level may have, so that its extent in world units stays
/// within `COORD_LIMIT`, where actors may stand.
pub const MAX_SIDE: usize = 21474836;

/// A tile's look: the index of its image in the map's sprite set.
#[derive(Clone, Copy, Debug, PartialEq, Eq, Structural)]
pub struct Tile {
    pub idx: usize,
}

impl Tile {
    pub fn new(idx: usize) -> (r: Tile)
        ensures
            r.idx == idx,
    {
        Tile { idx }
    }
}

/// Whether a tile stops a hitbox.
#[derive(Clone, Copy, Debug, PartialEq, Eq, Structural)]
pub enum CollisionType {
    Block,
    Open,
}

impl Default for CollisionType {
    fn default() -> (r: CollisionType)
        ensures
            r == CollisionType::Open,
    {
        CollisionType::Open
    }
}

/// Draws tiles with the map's sprite set.
pub struct TileRenderer {
    pub textures: Sprites,
}

impl TileRenderer {
    pub fn new(textures: Sprites) -> (r: TileRenderer)
        ensures
            r.textures@ == textures@,
    {
        TileRenderer { textures }
    }

    /// What drawing `tile` into `quad` sends to the renderer.
    pub fn render(&self, tile: &Tile, quad: Rect) -> (r: Vec<Blit>)
        requires
            tile.idx < self.textures@.len(),
            crate::sprites::drawable(quad),
        ensures
            r@ == self.textures@[tile.idx as int].blits(quad, false, false),
    {
        self.textures.sprites[tile.idx].draw(quad, false, false)
    }
}

/// Why a level definition was refused.
#[derive(Clone, Copy, Debug, PartialEq, Eq, Structural)]
pub enum LevelError {
    /// The sprite set has no image for open ground (0) or for wall (1).
    MissingSprite,
    /// The rows of the level differ in length.
    Ragged,
    /// More than `MAX_SIDE` rows or columns.
    TooLarge,
    /// A cell holds something other than 0 (open) or 1 (blocking).
    BadTile,
}

/// The number of columns of a level: the length of its first row.
pub open spec fn level_cols(level: Seq<Vec<usize>>) -> int {
    if level.len() == 0 {
        0
    } else {
        level[0]@.len() as int
    }
}

/// Some row of the level differs in length from the first.
pub open spec fn level_ragged(level: Seq<Vec<usize>>) -> bool {
    exists|r: int| 0 <= r < level.len() && level[r]@.len() != level_cols(level)
}

/// Some cell of the level is neither 0 nor 1.
pub open spec fn level_bad_tile(level: Seq<Vec<usize>>) -> bool {
    exists|r: int, c: int| 0 <= r < level.len() && 0 <= c < level[r]@.len() && level[r]@[c] > 1
}

/// The error that building a map from `level` with `n_textures` sprites gives, if any.
pub open spec fn level_error(level: Seq<Vec<usize>>, n_textures: nat) -> Option<LevelError> {
    if n_textures < 2 {
        Some(LevelError::MissingSprite)
    } else if level_ragged(level) {
        Some(LevelError::Ragged)
    } else if level.len() > MAX_SIDE || level_cols(level) > MAX_SIDE {
        Some(LevelError::TooLarge)
    } else if level_bad_tile(level) {
        Some(LevelError::BadTile)
    } else {
        None
    }
}

/// The world box of the tile in row `r` and column `c`.
pub open spec fn cell_rect(r: int, c: int) -> Rect {
    Rect { x: (TILE_SIZE * c) as i32, y: (TILE_SIZE * r) as i32, w: TILE_SIZE, h: TILE_SIZE }
}

/// The first tile index that the span `[v, v + len)` reaches (rounded down).
pub open spec fn first_cell(v: int) -> int {
    v / (TILE_SIZE as int)
}

/// One past the last tile index that the span ending at `end` reaches (rounded up).
pub open spec fn end_cell(end: int) -> int {
    (end + TILE_SIZE - 1) / (TILE_SIZE as int)
}

/// The tile in row `r`, column `c` is among those that `h` covers, its edges rounded
/// outwards to tile boundaries.
pub open spec fn covers(h: Rect, r: int, c: int) -> bool {
    &&& first_cell(h.y as int) <= r < end_cell(h.y + h.h)
    &&& first_cell(h.x as int) <= c < end_cell(h.x + h.w)
}

/// A fixed grid of tiles, each drawn with a sprite and either open or blocking.
pub struct TileMap {
    pub tiles: Vec<Vec<Tile>>,
    pub collisionMap: Vec<Vec<CollisionType>>,
    pub renderer: TileRenderer,
    pub rows: usize,
    pub cols: usize,
}

impl TileMap {
    pub open spec fn wf(&self) -> bool {
        &&& self.tiles@.len() == self.rows
        &&& self.collisionMap@.len() == self.rows
        &&& self.rows <= MAX_SIDE
        &&& self.cols <= MAX_SIDE
        &&& self.renderer.textures@.len() >= 2
        &&& forall|r: int|
            0 <= r < self.rows ==> self.tiles@[r]@.len() == self.cols
                && self.collisionMap@[r]@.len() == self.cols
        &&& forall|r: int, c: int|
            0 <= r < self.rows && 0 <= c < self.cols ==> self.tiles@[r]@[c].idx <= 1 && (
            self.collisionMap@[r]@[c] is Block <==> self.tiles@[r]@[c].idx == 1)
    }

    /// The tile in row `r`, column `c` blocks.
    pub open spec fn blocking(&self, r: int, c: int) -> bool {
        self.collisionMap@[r]@[c] is Block
    }

    /// `h` lies inside the playfield.
    pub open spec fn in_grid(&self, h: Rect) -> bool {
        &&& h.x >= 0
        &&& h.y >= 0
        &&& h.x + h.w <= TILE_SIZE * self.cols
        &&& h.y + h.h <= TILE_SIZE * self.rows
    }

    /// `h` covers a blocking tile.
    pub open spec fn hits(&self, h: Rect) -> bool {
        exists|r: int, c: int|
            0 <= r < self.rows && 0 <= c < self.cols && covers(h, r, c) && self.blocking(r, c)
    }

    /// Builds the map from a grid of 0 (open) and 1 (blocking), row by row, and the
    /// sprite set whose images 0 and 1 draw those tiles.
    pub fn new(map: Vec<Vec<usize>>, textures: Sprites) -> (r: Result<TileMap, LevelError>)
        ensures
            match level_error(map@, textures@.len()) {
                Some(e) => r == Err::<TileMap, LevelError>(e),
                None => r is Ok,
            },
            r is Ok ==> {
                let m = r->Ok_0;
                &&& m.wf()
                &&& m.rows == map@.len()
                &&& m.cols == level_cols(map@)
                &&& m.renderer.textures@ == textures@
                &&& forall|i: int, j: int|
                    0 <= i < m.rows && 0 <= j < m.cols ==> m.tiles@[i]@[j].idx == map@[i]@[j]
            },
    {
        if textures.len() < 2 {
            return Err(LevelError::MissingSprite);
        }
        let rows = map.len();
        let cols: usize = if rows == 0 {
            0
        } else {
            map[0].len()
        };
        let mut i: usize = 0;
        while i < rows
            invariant
                rows == map@.len(),
                cols == level_cols(map@),
                textures@.len() >= 2,
                i <= rows,
                forall|k: int| 0 <= k < i ==> map@[k]@.len() == cols,
            decreases rows - i,
        {
            if map[i].len() != cols {
                assert(level_ragged(map@));
                return Err(LevelError::Ragged);
            }
            i = i + 1;
        }
        if rows > MAX_SIDE || cols > MAX_SIDE {
            return Err(LevelError::TooLarge);
        }
        let mut tiles: Vec<Vec<Tile>> = Vec::new();
        let mut collisionMap: Vec<Vec<CollisionType>> = Vec::new();
        let mut r: usize = 0;
        while r < rows
            invariant
                rows == map@.len(),
                cols == level_cols(map@),
                textures@.len() >= 2,
                rows <= MAX_SIDE,
                cols <= MAX_SIDE,
                r <= rows,
                forall|k: int| 0 <= k < rows ==> map@[k]@.len() == cols,
                tiles@.len() == r,
                collisionMap@.len() == r,
                forall|a: int|
                    0 <= a < r ==> tiles@[a]@.len() == cols && collisionMap@[a]@.len() == cols,
                forall|a: int, b: int|
                    0 <= a < r && 0 <= b < cols ==> map@[a]@[b] <= 1 && tiles@[a]@[b].idx
                        == map@[a]@[b] && (collisionMap@[a]@[b] is Block <==> map@[a]@[b] == 1),
            decreases rows - r,
        {
            let mut trow: Vec<Tile> = Vec::new();
            let mut crow: Vec<CollisionType> = Vec::new();
            let mut c: usize = 0;
            while c < cols
                invariant
                    rows == map@.len(),
                    cols == level_cols(map@),
                    textures@.len() >= 2,
                    r < rows,
                    c <= cols,
                    forall|k: int| 0 <= k < rows ==> map@[k]@.len() == cols,
                    !level_ragged(map@),
                    rows <= MAX_SIDE,
                    cols <= MAX_SIDE,
                    trow@.len() == c,
                    crow@.len() == c,
                    forall|b: int|
                        0 <= b < c ==> map@[r as int]@[b] <= 1 && trow@[b].idx == map@[r as int]@[b]
                            && (crow@[b] is Block <==> map@[r as int]@[b] == 1),
                decreases cols - c,
            {
                let v = map[r][c];
                if v > 1 {
                    assert(level_bad_tile(map@));
                    return Err(LevelError::BadTile);
                }
                trow.push(Tile::new(v));
                crow.push(
                    if v == 1 {
                        CollisionType::Block
                    } else {
                        CollisionType::Open
                    },
                );
                c = c + 1;
            }
            tiles.push(trow);
            collisionMap.push(crow);
            r = r + 1;
        }
        assert(!level_bad_tile(map@));
        let renderer = TileRenderer::new(textures);
        let m = TileMap { tiles, collisionMap, renderer, rows, cols };
        assert forall|a: int, b: int| 0 <= a < rows && 0 <= b < cols implies m.tiles@[a]@[b].idx
            <= 1 && (m.collisionMap@[a]@[b] is Block <==> m.tiles@[a]@[b].idx == 1) by {
            assert(map@[a]@[b] <= 1);
        }
        Ok(m)
    }
}

impl Collision for TileMap {
    open spec fn inv(&self) -> bool {
        self.wf()
    }

    open spec fn admits(&self, hitbox: Rect) -> bool {
        self.in_grid(hitbox)
    }

    open spec fn collides(&self, hitbox: Rect) -> bool {
        self.hits(hitbox)
    }

    /// Whether `hitbox`, which lies in the playfield, covers a blocking tile; its edges
    /// are rounded outwards to tile boundaries, each on its own.
    fn doesCollide(&self, hitbox: Rect) -> (r: bool) {
        let size = TILE_SIZE as i64;
        let x = hitbox.x as i64;
        let y = hitbox.y as i64;
        let leftBound = x / size;
        let rightBound = (x + hitbox.w as i64 + size - 1) / size;
        let topBound = y / size;
        let bottomBound = (y + hitbox.h as i64 + size - 1) / size;
        proof {
            let cols = self.cols as int;
            let rows = self.rows as int;
            let ex = hitbox.x + hitbox.w;
            let ey = hitbox.y + hitbox.h;
            assert(0 <= ex <= 50 * cols ==> (ex + 49) / 50 <= cols) by (nonlinear_arith);
            assert(0 <= ey <= 50 * rows ==> (ey + 49) / 50 <= rows) by (nonlinear_arith);
        }
        let top = topBound as usize;
        let bottom = bottomBound as usize;
        let left = leftBound as usize;
        let right = rightBound as usize;
        let mut row: usize = top;
        while row < bottom
            invariant
                self.wf(),
                self.in_grid(hitbox),
                top == first_cell(hitbox.y as int),
                bottom == end_cell(hitbox.y + hitbox.h),
                left == first_cell(hitbox.x as int),
                right == end_cell(hitbox.x + hitbox.w),
                bottom <= self.rows,
                right <= self.cols,
                top <= row <= bottom || bottom < top,
                forall|a: int, b: int|
                    top <= a < row && left <= b < right ==> !self.blocking(a, b),
            decreases bottom - row,
        {
            let mut col: usize = left;
            while col < right
                invariant
                    self.wf(),
                    top == first_cell(hitbox.y as int),
                    bottom == end_cell(hitbox.y + hitbox.h),
                    left == first_cell(hitbox.x as int),
                    right == end_cell(hitbox.x + hitbox.w),
                    top <= row < bottom,
                    bottom <= self.rows,
                    right <= self.cols,
                    left <= col <= right || right < left,
                    forall|a: int, b: int|
                        top <= a < row && left <= b < right ==> !self.blocking(a, b),
                    forall|b: int| left <= b < col ==> !self.blocking(row as int, b),
                decreases right - col,
            {
                match self.collisionMap[row][col] {
                    CollisionType::Block => {
                        assert(covers(hitbox, row as int, col as int));
                        assert(self.blocking(row as int, col as int));
                        return true;
                    },
                    CollisionType::Open => {},
                }
                col = col + 1;
            }
            row = row + 1;
        }
        assert forall|a: int, b: int|
            0 <= a < self.rows && 0 <= b < self.cols && covers(hitbox, a, b) implies !self.blocking(
            a,
            b,
        ) by {
            assert(top <= a < row);
        }
        false
    }
}

impl TileMap {
    /// Whether `h` lies inside the playfield, where the map may be asked about it.
    pub fn contains(&self, h: Rect) -> (r: bool)
        requires
            self.wf(),
        ensures
            r == self.in_grid(h),
    {
        h.x >= 0 && h.y >= 0 && h.x as i64 + h.w as i64 <= TILE_SIZE as i64 * self.cols as i64
            && h.y as i64 + h.h as i64 <= TILE_SIZE as i64 * self.rows as i64
    }

    /// What drawing the tiles of row `r` before column `c` sends to the renderer.
    pub open spec fn row_blits(&self, r: int, c: int) -> Seq<Blit>
        decreases c,
    {
        if c <= 0 {
            seq![]
        } else {
            self.row_blits(r, c - 1) + self.renderer.textures@[self.tiles@[r]@[c - 1].idx as int].blits(
                cell_rect(r, c - 1),
                false,
                false,
            )
        }
    }

    /// What drawing the rows before row `r` sends to the renderer.
    pub open spec fn map_blits(&self, r: int) -> Seq<Blit>
        decreases r,
    {
        if r <= 0 {
            seq![]
        } else {
            self.map_blits(r - 1) + self.row_blits(r - 1, self.cols as int)
        }
    }

    /// Draws every tile into its cell, row by row from the top, each row from the left.
    pub fn render(&self) -> (r: Vec<Blit>)
        requires
            self.wf(),
        ensures
            r@ == self.map_blits(self.rows as int),
    {
        let mut out: Vec<Blit> = Vec::new();
        let mut row: usize = 0;
        while row < self.rows
            invariant
                self.wf(),
                row <= self.rows,
                out@ == self.map_blits(row as int),
            decreases self.rows - row,
        {
            let mut col: usize = 0;
            let ghost before = out@;
            while col < self.cols
                invariant
                    self.wf(),
                    row < self.rows,
                    col <= self.cols,
                    before == self.map_blits(row as int),
                    out@ == before + self.row_blits(row as int, col as int),
                decreases self.cols - col,
            {
                let quad = Rect {
                    x: (col * 50) as i32,
                    y: (row * 50) as i32,
                    w: TILE_SIZE,
                    h: TILE_SIZE,
                };
                assert(quad == cell_rect(row as int, col as int));
                let mut b = self.renderer.render(&self.tiles[row][col], quad);
                out.append(&mut b);
                proof {
                    assert(out@ =~= before + self.row_blits(row as int, col + 1));
                }
                col = col + 1;
            }
            row = row + 1;
        }
        out
    }
}

/// Tile indices round as the grid needs them: a coordinate at or past the left edge of
/// tile `c` starts at tile `c` or later, an end at or before the right edge of tile
/// `c` stops at tile `c` or earlier, and a span that crosses into tile `c` from either
/// side reaches it.
proof fn lemma_cell_rounding(v: int, end: int, c: int)
    ensures
        v >= TILE_SIZE * c ==> first_cell(v) >= c,
        end <= TILE_SIZE * (c + 1) ==> end_cell(end) <= c + 1,
        0 <= v < TILE_SIZE * (c + 1) ==> first_cell(v) <= c,
        end > TILE_SIZE * c ==> end_cell(end) >= c + 1,
{
    assert(v >= 50 * c ==> v / 50 >= c) by (nonlinear_arith);
    assert(end <= 50 * (c + 1) ==> (end + 49) / 50 <= c + 1) by (nonlinear_arith);
    assert(0 <= v < 50 * (c + 1) ==> v / 50 <= c) by (nonlinear_arith);
    assert(end > 50 * c ==> (end + 49) / 50 >= c + 1) by (nonlinear_arith);
}

/// A box that lies entirely inside one open tile runs into nothing.
pub proof fn lemma_inside_open_tile(m: TileMap, h: Rect, r: int, c: int)
    requires
        m.wf(),
        0 <= r < m.rows,
        0 <= c < m.cols,
        !m.blocking(r, c),
        TILE_SIZE * c <= h.x,
        h.x + h.w <= TILE_SIZE * (c + 1),
        TILE_SIZE * r <= h.y,
        h.y + h.h <= TILE_SIZE * (r + 1),
    ensures
        m.in_grid(h),
        !m.hits(h),
{
    lemma_cell_rounding(h.x as int, h.x + h.w, c);
    lemma_cell_rounding(h.y as int, h.y + h.h, r);
    assert(m.in_grid(h)) by {
        assert(TILE_SIZE * (c + 1) <= TILE_SIZE * m.cols) by (nonlinear_arith)
            requires
                c + 1 <= m.cols,
        ;
        assert(TILE_SIZE * (r + 1) <= TILE_SIZE * m.rows) by (nonlinear_arith)
            requires
                r + 1 <= m.rows,
        ;
    }
    assert forall|a: int, b: int|
        0 <= a < m.rows && 0 <= b < m.cols && covers(h, a, b) implies !m.blocking(a, b) by {
        assert(a == r && b == c);
    }
}

/// A box in the playfield that overlaps a blocking tile runs into the map.
pub proof fn lemma_overlaps_blocking_tile(m: TileMap, h: Rect, r: int, c: int)
    requires
        m.wf(),
        m.in_grid(h),
        0 <= r < m.rows,
        0 <= c < m.cols,
        m.blocking(r, c),
        h.intersects(cell_rect(r, c)),
    ensures
        m.hits(h),
{
    assert(TILE_SIZE * c <= TILE_SIZE * MAX_SIDE) by (nonlinear_arith)
        requires
            c <= MAX_SIDE,
    ;
    assert(TILE_SIZE * r <= TILE_SIZE * MAX_SIDE) by (nonlinear_arith)
        requires
            r <= MAX_SIDE,
    ;
    assert(cell_rect(r, c).x == TILE_SIZE * c);
    assert(cell_rect(r, c).y == TILE_SIZE * r);
    lemma_cell_rounding(h.x as int, h.x + h.w, c);
    lemma_cell_rounding(h.y as int, h.y + h.h, r);
    assert(covers(h, r, c));
}

} // verus!

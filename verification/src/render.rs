use vstd::prelude::*;
use vstd::string::StrSliceExecFns;

use crate::state::GameState;
use crate::tile::Tile;
use crate::world::{Agent, AgentView, GameMap, MapView};

verus! {

/// A rectangle of the screen: its top-left corner and its size, in cells.
#[derive(Clone, Copy, Debug, PartialEq, Eq, Structural)]
pub struct ScreenArea {
    pub x: u16,
    pub y: u16,
    pub width: u16,
    pub height: u16,
}

/// The colours in which the world map draws its tiles.
#[derive(Clone, Copy, Debug, PartialEq, Eq, Structural)]
pub enum TileColor {
    DarkGray,
    Yellow,
    White,
    Gray,
}

/// One cell that the world map draws: where on the screen, which symbol, in
/// which colour.
#[derive(Clone, Copy, Debug, PartialEq, Eq, Structural)]
pub struct MapCell {
    pub x: u16,
    pub y: u16,
    pub symbol: char,
    pub color: TileColor,
}

/// One cell of the plain map drawing: where on the screen, and which glyph.
#[derive(Clone, Copy, Debug, PartialEq, Eq, Structural)]
pub struct GlyphCell {
    pub x: u16,
    pub y: u16,
    pub glyph: char,
}

/// A view of the world map centred on `(center_x, center_y)`.
pub struct WorldMapWidget<'a> {
    pub game_state: &'a GameState,
    pub center_x: i32,
    pub center_y: i32,
}

/// The symbol of a tile on the world map; none for a character or an unknown
/// tile, which the world map cannot draw.
pub open spec fn tile_symbol(t: Tile) -> Option<char> {
    match t {
        Tile::Wall => Some('\u{2588}'),
        Tile::Empty => Some('.'),
        Tile::Path => Some('~'),
        Tile::Item(_) => Some('$'),
        Tile::Character(_) => None,
        Tile::Unknown => None,
    }
}

/// The colour of a tile on the world map; none where it has no symbol.
pub open spec fn tile_color(t: Tile) -> Option<TileColor> {
    match t {
        Tile::Wall => Some(TileColor::DarkGray),
        Tile::Item(_) => Some(TileColor::Yellow),
        Tile::Empty => Some(TileColor::White),
        Tile::Path => Some(TileColor::Gray),
        Tile::Character(_) => None,
        Tile::Unknown => None,
    }
}

/// The letter that marks an agent on the world map: the first of its name, or
/// `@` for an empty name.
pub open spec fn id_initial(id: Seq<char>) -> char {
    if id.len() > 0 {
        id[0]
    } else {
        '@'
    }
}

/// The mark of the last agent in `agents` that stands at `(x, y)`, if any.
pub open spec fn agent_symbol(agents: Seq<AgentView>, x: int, y: int) -> Option<char>
    decreases agents.len(),
{
    if agents.len() == 0 {
        None
    } else if agents.last().x == x && agents.last().y == y {
        Some(id_initial(agents.last().id))
    } else {
        agent_symbol(agents.drop_last(), x, y)
    }
}

/// The part of the map that the world map shows: columns `min_x .. max_x` and
/// rows `min_y .. max_y`.
pub struct Viewport {
    pub min_x: int,
    pub min_y: int,
    pub max_x: int,
    pub max_y: int,
}

/// The larger of two integers.
pub open spec fn max_int(a: int, b: int) -> int {
    if a >= b {
        a
    } else {
        b
    }
}

/// The smaller of two integers.
pub open spec fn min_int(a: int, b: int) -> int {
    if a <= b {
        a
    } else {
        b
    }
}

/// The shown part of `map` in `area`, centred on `(cx, cy)` where the map allows:
/// it starts half the area before the centre, but not before the map, and ends
/// an area later, but not after the map (whose size is read as `i32`).
pub open spec fn viewport(map: MapView, area: ScreenArea, cx: i32, cy: i32) -> Viewport {
    let min_x = max_int(0, cx - area.width / 2);
    let min_y = max_int(0, cy - area.height / 2);
    Viewport {
        min_x,
        min_y,
        max_x: min_int((map.width as i32) as int, min_x + area.width),
        max_y: min_int((map.height as i32) as int, min_y + area.height),
    }
}

/// The tile at `(x, y)` is stored and has a symbol on the world map.
pub open spec fn drawable(map: MapView, x: int, y: int) -> bool {
    &&& 0 <= y < map.tiles.len()
    &&& 0 <= x < map.tiles[y].len()
    &&& tile_color(map.tiles[y][x]) is Some
}

/// The world map can be drawn: its corners fit in `i32`, the map's size read as
/// `i32` is not negative, the screen positions fit in `u16`, and every shown
/// tile is stored and has a symbol.
pub open spec fn world_drawable(map: MapView, area: ScreenArea, cx: i32, cy: i32) -> bool {
    let vp = viewport(map, area, cx, cy);
    &&& cx - area.width / 2 >= i32::MIN
    &&& cy - area.height / 2 >= i32::MIN
    &&& vp.min_x + area.width <= i32::MAX
    &&& vp.min_y + area.height <= i32::MAX
    &&& (map.width as i32) >= 0
    &&& (map.height as i32) >= 0
    &&& (vp.min_x < vp.max_x && vp.min_y < vp.max_y) ==> {
        &&& vp.max_x - 1 - vp.min_x + area.x <= u16::MAX
        &&& vp.max_y - 1 - vp.min_y + area.y <= u16::MAX
    }
    &&& forall|x: int, y: int|
        vp.min_x <= x < vp.max_x && vp.min_y <= y < vp.max_y ==> #[trigger] drawable(map, x, y)
}

/// The cell that the world map draws for map square `(x, y)`: an agent's mark
/// where an agent stands, else the tile's symbol, in the tile's colour.
pub open spec fn world_cell(map: MapView, area: ScreenArea, vp: Viewport, x: int, y: int) -> MapCell {
    MapCell {
        x: (x - vp.min_x + area.x) as u16,
        y: (y - vp.min_y + area.y) as u16,
        symbol: match agent_symbol(map.agents, x, y) {
            Some(c) => c,
            None => tile_symbol(map.tiles[y][x])->0,
        },
        color: tile_color(map.tiles[y][x])->0,
    }
}

/// The number of integers in `lo .. hi`.
pub open spec fn span(lo: int, hi: int) -> int {
    if lo < hi {
        hi - lo
    } else {
        0
    }
}

/// `rows` are the cells of the world map, row by row.
pub open spec fn world_rows(
    rows: Seq<Seq<MapCell>>,
    map: MapView,
    area: ScreenArea,
    cx: i32,
    cy: i32,
) -> bool {
    let vp = viewport(map, area, cx, cy);
    &&& rows.len() == span(vp.min_y, vp.max_y)
    &&& forall|i: int| 0 <= i < rows.len() ==> #[trigger] rows[i].len() == span(vp.min_x, vp.max_x)
    &&& forall|i: int, j: int|
        0 <= i < rows.len() && 0 <= j < rows[i].len() ==> #[trigger] rows[i][j] == world_cell(
            map,
            area,
            vp,
            vp.min_x + j,
            vp.min_y + i,
        )
}

/// The glyph of a tile in the plain map drawing; none for an empty tile.
pub open spec fn tile_glyph(t: Tile) -> Option<char> {
    match t {
        Tile::Wall => Some('\u{25A6}'),
        Tile::Path => Some('\u{2591}'),
        Tile::Item(_) => Some('I'),
        Tile::Character(_) => Some('\u{2542}'),
        Tile::Unknown => Some('?'),
        Tile::Empty => None,
    }
}

/// `a + b`, or `u16::MAX` where that is larger.
pub open spec fn saturating_add_u16(a: u16, b: u16) -> int {
    if a + b > u16::MAX {
        u16::MAX as int
    } else {
        a + b
    }
}

/// The end of the columns that the plain drawing covers: the area's right edge,
/// but not beyond the map's width read as `u16`.
pub open spec fn glyph_x_end(map: MapView, area: ScreenArea) -> int {
    min_int(saturating_add_u16(area.x, area.width), (map.width as u16) as int)
}

/// The end of the rows that the plain drawing covers.
pub open spec fn glyph_y_end(map: MapView, area: ScreenArea) -> int {
    min_int(saturating_add_u16(area.y, area.height), (map.height as u16) as int)
}

/// The plain drawing can be made: for every covered screen cell `(x, y)`, the
/// stored tile `tiles[x][y]` exists and is not empty.
pub open spec fn glyphs_drawable(map: MapView, area: ScreenArea) -> bool {
    forall|x: int, y: int|
        area.x <= x < glyph_x_end(map, area) && area.y <= y < glyph_y_end(map, area)
            ==> #[trigger] glyph_readable(map, x, y)
}

/// `tiles[x][y]` exists and has a glyph.
pub open spec fn glyph_readable(map: MapView, x: int, y: int) -> bool {
    &&& 0 <= x < map.tiles.len()
    &&& 0 <= y < map.tiles[x].len()
    &&& tile_glyph(map.tiles[x][y]) is Some
}

/// `cols` are the cells of the plain drawing, column by column.
pub open spec fn glyph_columns(cols: Seq<Seq<GlyphCell>>, map: MapView, area: ScreenArea) -> bool {
    &&& cols.len() == span(area.x as int, glyph_x_end(map, area))
    &&& forall|i: int|
        0 <= i < cols.len() ==> #[trigger] cols[i].len() == span(
            area.y as int,
            glyph_y_end(map, area),
        )
    &&& forall|i: int, j: int|
        0 <= i < cols.len() && 0 <= j < cols[i].len() ==> #[trigger] cols[i][j] == glyph_cell(
            map,
            area.x + i,
            area.y + j,
        )
}

/// The cell of the plain drawing at screen position `(x, y)`.
pub open spec fn glyph_cell(map: MapView, x: int, y: int) -> GlyphCell {
    GlyphCell { x: x as u16, y: y as u16, glyph: tile_glyph(map.tiles[x][y])->0 }
}

/// The symbol of a tile on the world map.
fn tile_symbol_of(t: Tile) -> (r: Option<char>)
    ensures
        r == tile_symbol(t),
{
    match t {
        Tile::Wall => Some('\u{2588}'),
        Tile::Empty => Some('.'),
        Tile::Path => Some('~'),
        Tile::Item(_) => Some('$'),
        Tile::Character(_) => None,
        Tile::Unknown => None,
    }
}

/// The colour of a tile on the world map.
fn tile_color_of(t: Tile) -> (r: Option<TileColor>)
    ensures
        r == tile_color(t),
{
    match t {
        Tile::Wall => Some(TileColor::DarkGray),
        Tile::Item(_) => Some(TileColor::Yellow),
        Tile::Empty => Some(TileColor::White),
        Tile::Path => Some(TileColor::Gray),
        Tile::Character(_) => None,
        Tile::Unknown => None,
    }
}

/// The glyph of a tile in the plain map drawing.
fn tile_glyph_of(t: Tile) -> (r: Option<char>)
    ensures
        r == tile_glyph(t),
{
    match t {
        Tile::Wall => Some('\u{25A6}'),
        Tile::Path => Some('\u{2591}'),
        Tile::Item(_) => Some('I'),
        Tile::Character(_) => Some('\u{2542}'),
        Tile::Unknown => Some('?'),
        Tile::Empty => None,
    }
}

/// The first letter of a name, or `@` for an empty name.
fn initial_of(id: &String) -> (c: char)
    ensures
        c == id_initial(id@),
{
    let s = id.as_str();
    if s.is_empty() {
        '@'
    } else {
        s.get_char(0)
    }
}

/// The mark of the last agent that stands at `(x, y)`, if any.
fn agent_symbol_at(agents: &Vec<Agent>, x: i32, y: i32) -> (r: Option<char>)
    ensures
        r == agent_symbol(agents@.map_values(|a: Agent| a@), x as int, y as int),
{
    let ghost all = agents@.map_values(|a: Agent| a@);
    let mut found: Option<char> = None;
    let mut k: usize = 0;
    while k < agents.len()
        invariant
            k <= agents@.len(),
            all == agents@.map_values(|a: Agent| a@),
            found == agent_symbol(all.take(k as int), x as int, y as int),
        decreases agents@.len() - k,
    {
        let a = &agents[k];
        assert(all.take(k + 1).drop_last() =~= all.take(k as int));
        assert(all.take(k + 1).last() == a@);
        if a.x == x && a.y == y {
            found = Some(initial_of(&a.id));
        }
        k = k + 1;
    }
    assert(all.take(agents@.len() as int) =~= all);
    found
}

impl<'a> WorldMapWidget<'a> {
    /// The cells that the world map draws in `area`, row by row; `None` where it
    /// cannot be drawn (see `world_drawable`).
    pub fn cells(&self, area: ScreenArea) -> (r: Option<Vec<Vec<MapCell>>>)
        ensures
            match r {
                Some(rows) => world_drawable(
                    self.game_state@,
                    area,
                    self.center_x,
                    self.center_y,
                ) && world_rows(
                    rows@.map_values(|row: Vec<MapCell>| row@),
                    self.game_state@,
                    area,
                    self.center_x,
                    self.center_y,
                ),
                None => !world_drawable(self.game_state@, area, self.center_x, self.center_y),
            },
    {
        let map = &self.game_state.world;
        let ghost m = map@;
        let ghost vp = viewport(m, area, self.center_x, self.center_y);
        assert(self.game_state@ == m);
        let map_h: i32 = #[verifier::truncate] (map.height as i32);
        let map_w: i32 = #[verifier::truncate] (map.width as i32);
        let view_w: i32 = area.width as i32;
        let view_h: i32 = area.height as i32;
        if self.center_x < i32::MIN + view_w / 2 || self.center_y < i32::MIN + view_h / 2 {
            return None;
        }
        let cx: i32 = self.center_x - view_w / 2;
        let cy: i32 = self.center_y - view_h / 2;
        let min_x: i32 = if cx > 0 {
            cx
        } else {
            0
        };
        let min_y: i32 = if cy > 0 {
            cy
        } else {
            0
        };
        if min_x > i32::MAX - view_w || min_y > i32::MAX - view_h {
            return None;
        }
        let max_x: i32 = if map_w < min_x + view_w {
            map_w
        } else {
            min_x + view_w
        };
        let max_y: i32 = if map_h < min_y + view_h {
            map_h
        } else {
            min_y + view_h
        };
        assert(vp.min_x == min_x && vp.min_y == min_y && vp.max_x == max_x && vp.max_y == max_y);
        if map_w < 0 || map_h < 0 {
            return None;
        }
        if min_x < max_x && min_y < max_y {
            if (max_x - 1 - min_x) as u32 + area.x as u32 > 65535 || (max_y - 1 - min_y) as u32
                + area.y as u32 > 65535 {
                return None;
            }
        }
        let mut rows: Vec<Vec<MapCell>> = Vec::new();
        let mut y: i32 = min_y;
        while y < max_y
            invariant
                m == map@,
                m == self.game_state@,
                vp == viewport(m, area, self.center_x, self.center_y),
                vp.min_x == min_x && vp.min_y == min_y && vp.max_x == max_x && vp.max_y == max_y,
                0 <= min_x,
                0 <= min_y,
                min_y <= y,
                y <= max_y || y == min_y,
                max_x <= map_w,
                max_y <= map_h,
                (min_x < max_x && min_y < max_y) ==> (max_x - 1 - min_x + area.x <= u16::MAX
                    && max_y - 1 - min_y + area.y <= u16::MAX),
                rows@.len() == y - min_y,
                forall|i: int| 0 <= i < rows@.len() ==> #[trigger] rows@[i]@.len() == span(min_x as int, max_x as int),
                forall|i: int, j: int|
                    0 <= i < rows@.len() && 0 <= j < rows@[i]@.len() ==> #[trigger] rows@[i]@[j]
                        == world_cell(m, area, vp, min_x + j, min_y + i),
                forall|px: int, py: int|
                    min_x <= px < max_x && min_y <= py < y ==> #[trigger] drawable(m, px, py),
            decreases max_y - y,
        {
            let mut row: Vec<MapCell> = Vec::new();
            if min_x < max_x {
                let yi: usize = y as usize;
                if yi >= map.tiles.len() {
                    assert(!drawable(m, min_x as int, y as int));
                    return None;
                }
                let row_tiles = &map.tiles[yi];
                assert(m.tiles[y as int] == row_tiles@);
                let mut x: i32 = min_x;
                while x < max_x
                    invariant
                        m == map@,
                        m == self.game_state@,
                        vp == viewport(m, area, self.center_x, self.center_y),
                        vp.min_x == min_x && vp.min_y == min_y && vp.max_x == max_x && vp.max_y
                            == max_y,
                        0 <= min_x <= x <= max_x,
                        min_y <= y < max_y,
                        max_x - 1 - min_x + area.x <= u16::MAX,
                        max_y - 1 - min_y + area.y <= u16::MAX,
                        0 <= y < m.tiles.len(),
                        m.tiles[y as int] == row_tiles@,
                        row@.len() == x - min_x,
                        forall|j: int|
                            0 <= j < row@.len() ==> #[trigger] row@[j] == world_cell(
                                m,
                                area,
                                vp,
                                min_x + j,
                                y as int,
                            ),
                        forall|px: int| min_x <= px < x ==> #[trigger] drawable(m, px, y as int),
                    decreases max_x - x,
                {
                    let xi: usize = x as usize;
                    if xi >= row_tiles.len() {
                        assert(!drawable(m, x as int, y as int));
                        return None;
                    }
                    let t: Tile = row_tiles[xi];
                    let color = match tile_color_of(t) {
                        Some(c) => c,
                        None => {
                            assert(!drawable(m, x as int, y as int));
                            return None;
                        },
                    };
                    let symbol: char = match agent_symbol_at(&map.agents, x, y) {
                        Some(c) => c,
                        None => match tile_symbol_of(t) {
                            Some(c) => c,
                            None => '?',
                        },
                    };
                    let sx: u16 = (x - min_x) as u16 + area.x;
                    let sy: u16 = (y - min_y) as u16 + area.y;
                    let ghost before = row@;
                    row.push(MapCell { x: sx, y: sy, symbol, color });
                    assert(row@ == before.push(world_cell(m, area, vp, x as int, y as int)));
                    assert(drawable(m, x as int, y as int));
                    x = x + 1;
                }
            }
            rows.push(row);
            y = y + 1;
        }
        assert(world_drawable(m, area, self.center_x, self.center_y));
        proof {
            let views = rows@.map_values(|row: Vec<MapCell>| row@);
            assert forall|i: int| 0 <= i < views.len() implies #[trigger] views[i] == rows@[i]@ by {}
        }
        Some(rows)
    }
}

impl GameMap {
    /// The glyphs of the plain map drawing in `area`, column by column; cell
    /// `(x, y)` shows the glyph of `tiles[x][y]`. `None` where it cannot be drawn
    /// (see `glyphs_drawable`).
    pub fn glyph_cells(&self, area: ScreenArea) -> (r: Option<Vec<Vec<GlyphCell>>>)
        ensures
            match r {
                Some(cols) => glyphs_drawable(self@, area) && glyph_columns(
                    cols@.map_values(|col: Vec<GlyphCell>| col@),
                    self@,
                    area,
                ),
                None => !glyphs_drawable(self@, area),
            },
    {
        let ghost m = self@;
        let w: u16 = #[verifier::truncate] (self.width as u16);
        let h: u16 = #[verifier::truncate] (self.height as u16);
        let right: u16 = area.x.saturating_add(area.width);
        let bottom: u16 = area.y.saturating_add(area.height);
        let x_end: u16 = if right < w {
            right
        } else {
            w
        };
        let y_end: u16 = if bottom < h {
            bottom
        } else {
            h
        };
        assert(x_end == glyph_x_end(m, area) && y_end == glyph_y_end(m, area));
        let mut cols: Vec<Vec<GlyphCell>> = Vec::new();
        let mut x: u16 = area.x;
        while x < x_end
            invariant
                m == self@,
                x_end == glyph_x_end(m, area),
                y_end == glyph_y_end(m, area),
                area.x <= x,
                x <= x_end || x == area.x,
                cols@.len() == x - area.x,
                forall|i: int| 0 <= i < cols@.len() ==> #[trigger] cols@[i]@.len() == span(area.y as int, y_end as int),
                forall|i: int, j: int|
                    0 <= i < cols@.len() && 0 <= j < cols@[i]@.len() ==> #[trigger] cols@[i]@[j]
                        == glyph_cell(m, area.x + i, area.y + j),
                forall|px: int, py: int|
                    area.x <= px < x && area.y <= py < y_end ==> #[trigger] glyph_readable(
                        m,
                        px,
                        py,
                    ),
            decreases x_end - x,
        {
            let mut col: Vec<GlyphCell> = Vec::new();
            let mut y: u16 = area.y;
            while y < y_end
                invariant
                    m == self@,
                    x_end == glyph_x_end(m, area),
                    y_end == glyph_y_end(m, area),
                    area.x <= x < x_end,
                    area.y <= y,
                    y <= y_end || y == area.y,
                    col@.len() == y - area.y,
                    forall|j: int|
                        0 <= j < col@.len() ==> #[trigger] col@[j] == glyph_cell(
                            m,
                            x as int,
                            area.y + j,
                        ),
                    forall|py: int| area.y <= py < y ==> #[trigger] glyph_readable(m, x as int, py),
                decreases y_end - y,
            {
                let xi: usize = x as usize;
                let yi: usize = y as usize;
                if xi >= self.tiles.len() {
                    assert(!glyph_readable(m, x as int, y as int));
                    return None;
                }
                assert(m.tiles[x as int] == self.tiles@[x as int]@);
                if yi >= self.tiles[xi].len() {
                    assert(!glyph_readable(m, x as int, y as int));
                    return None;
                }
                let glyph: char = match tile_glyph_of(self.tiles[xi][yi]) {
                    Some(g) => g,
                    None => {
                        assert(!glyph_readable(m, x as int, y as int));
                        return None;
                    },
                };
                col.push(GlyphCell { x, y, glyph });
                assert(glyph_readable(m, x as int, y as int));
                y = y + 1;
            }
            cols.push(col);
            x = x + 1;
        }
        proof {
            let views = cols@.map_values(|col: Vec<GlyphCell>| col@);
            assert forall|i: int| 0 <= i < views.len() implies #[trigger] views[i] == cols@[i]@ by {}
        }
        Some(cols)
    }
}

} // verus!

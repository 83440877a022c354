use vstd::prelude::*;

use crate::prompt::{
    direction_label, is_first_of, is_last_of, neighbourhood, prompt_text, status_text,
    tile_description, PROMPT_FOOTER, PROMPT_HEADER,
};
use crate::render::{
    agent_symbol, glyph_cell, glyph_x_end, glyph_y_end, span, viewport, world_cell,
    world_drawable, ScreenArea, TileColor, Viewport,
};
use crate::state::{direction_delta, is_move, ActionView};
use crate::tile::{Character, Item, Tile};
use crate::world::{initial_tile, is_target, AgentView, MapView};

verus! {

/// A move in direction `dir`.
pub open spec fn move_toward(dir: Seq<char>) -> ActionView {
    ActionView { action: "move"@, target: Some(dir) }
}

/// The direction opposite to a named one.
pub open spec fn opposite(dir: Seq<char>) -> Seq<char> {
    if dir == "north"@ {
        "south"@
    } else if dir == "northeast"@ {
        "southwest"@
    } else if dir == "east"@ {
        "west"@
    } else if dir == "southeast"@ {
        "northwest"@
    } else if dir == "south"@ {
        "north"@
    } else if dir == "southwest"@ {
        "northeast"@
    } else if dir == "west"@ {
        "east"@
    } else {
        "southeast"@
    }
}

/// `dir` is one of the eight compass directions.
pub open spec fn is_compass(dir: Seq<char>) -> bool {
    dir == "north"@ || dir == "northeast"@ || dir == "east"@ || dir == "southeast"@ || dir
        == "south"@ || dir == "southwest"@ || dir == "west"@ || dir == "northwest"@
}

/// The eight compass words are pairwise different.
proof fn lemma_compass_words_distinct()
    ensures
        "north"@ != "northeast"@,
        "north"@ != "east"@,
        "north"@ != "southeast"@,
        "north"@ != "south"@,
        "north"@ != "southwest"@,
        "north"@ != "west"@,
        "north"@ != "northwest"@,
        "northeast"@ != "east"@,
        "northeast"@ != "southeast"@,
        "northeast"@ != "south"@,
        "northeast"@ != "southwest"@,
        "northeast"@ != "west"@,
        "northeast"@ != "northwest"@,
        "east"@ != "southeast"@,
        "east"@ != "south"@,
        "east"@ != "southwest"@,
        "east"@ != "west"@,
        "east"@ != "northwest"@,
        "southeast"@ != "south"@,
        "southeast"@ != "southwest"@,
        "southeast"@ != "west"@,
        "southeast"@ != "northwest"@,
        "south"@ != "southwest"@,
        "south"@ != "west"@,
        "south"@ != "northwest"@,
        "southwest"@ != "west"@,
        "southwest"@ != "northwest"@,
        "west"@ != "northwest"@,
{
    reveal_strlit("north");
    reveal_strlit("northeast");
    reveal_strlit("east");
    reveal_strlit("southeast");
    reveal_strlit("south");
    reveal_strlit("southwest");
    reveal_strlit("west");
    reveal_strlit("northwest");
    assert("north"@.len() == 5 && "northeast"@.len() == 9 && "northwest"@.len() == 9);
    assert("south"@.len() == 5 && "southeast"@.len() == 9 && "southwest"@.len() == 9);
    assert("north"@[0] == 'n');
    assert("northeast"@[0] == 'n');
    assert("east"@[0] == 'e');
    assert("southeast"@[0] == 's');
    assert("south"@[0] == 's');
    assert("southwest"@[0] == 's');
    assert("west"@[0] == 'w');
    assert("northwest"@[0] == 'n');
    assert("northeast"@[5] == 'e');
    assert("southeast"@[5] == 'e');
    assert("southwest"@[5] == 'w');
    assert("northwest"@[5] == 'w');
}

/// A positive size read as `i32` is no larger than the size itself.
proof fn lemma_size_as_i32(w: usize)
    requires
        (w as i32) >= 1,
    ensures
        (w as i32) as int <= w,
{
    assert((w as i32) >= 1 ==> (w as i32) as int <= w as int) by (bit_vector);
}

/// Doing an action never changes the map's size, its tiles, the number of agents
/// or their names.
pub proof fn law_action_keeps_layout(m: MapView, id: Seq<char>, action: ActionView)
    ensures
        m.after_action(id, action).width == m.width,
        m.after_action(id, action).height == m.height,
        m.after_action(id, action).tiles == m.tiles,
        m.after_action(id, action).agents.len() == m.agents.len(),
        forall|k: int|
            0 <= k < m.agents.len() ==> #[trigger] m.after_action(id, action).agents[k].id
                == m.agents[k].id,
{
}

/// An action moves at most one agent: the first one with the given name.
pub proof fn law_action_moves_only_target(m: MapView, id: Seq<char>, action: ActionView)
    ensures
        forall|k: int|
            0 <= k < m.agents.len() && !is_target(m.agents, id, k) ==> #[trigger] m.after_action(
                id,
                action,
            ).agents[k] == m.agents[k],
{
}

/// Anything but a move with a direction leaves the world unchanged.
pub proof fn law_non_move_keeps_state(m: MapView, id: Seq<char>, action: ActionView)
    requires
        !is_move(action),
    ensures
        m.after_action(id, action) == m,
{
}

/// After a move, the agent that moved stands inside the map.
pub proof fn law_moved_agent_inside(m: MapView, id: Seq<char>, action: ActionView, k: int)
    requires
        is_move(action),
        is_target(m.agents, id, k),
        m.action_in_range(id, action),
    ensures
        m.after_action(id, action).in_bounds(
            m.after_action(id, action).agents[k].x,
            m.after_action(id, action).agents[k].y,
        ),
{
    lemma_size_as_i32(m.width);
    lemma_size_as_i32(m.height);
}

/// Doing an action keeps a well-formed map well formed, and keeps every agent
/// inside the map if all were inside before.
pub proof fn law_action_keeps_invariant(m: MapView, id: Seq<char>, action: ActionView)
    requires
        m.wf(),
        m.agents_in_bounds(),
        m.action_in_range(id, action),
    ensures
        m.after_action(id, action).wf(),
        m.after_action(id, action).agents_in_bounds(),
{
    let r = m.after_action(id, action);
    if is_move(action) {
        assert forall|k: int| 0 <= k < r.agents.len() implies r.in_bounds(
            #[trigger] r.agents[k].x,
            r.agents[k].y,
        ) by {
            if is_target(m.agents, id, k) {
                law_moved_agent_inside(m, id, action, k);
            } else {
                assert(r.agents[k] == m.agents[k]);
                assert(m.in_bounds(m.agents[k].x, m.agents[k].y));
            }
        }
    }
}

/// A step in an unknown direction leaves an agent that stands inside the map
/// where it is.
pub proof fn law_unknown_direction_keeps_inside_agent(m: MapView, id: Seq<char>, dir: Seq<char>)
    requires
        !is_compass(dir),
        m.width <= i32::MAX,
        m.height <= i32::MAX,
        m.agents_in_bounds(),
    ensures
        m.after_action(id, move_toward(dir)) == m,
{
    let r = m.after_action(id, move_toward(dir));
    assert forall|k: int| 0 <= k < m.agents.len() implies #[trigger] r.agents[k] == m.agents[k] by {
        assert(m.in_bounds(m.agents[k].x, m.agents[k].y));
    }
    assert(r.agents =~= m.agents);
}

/// A move in a compass direction followed by a move in the opposite direction
/// brings back the world as it was, where the agent stands at least one square
/// from every edge of the map.
pub proof fn law_opposite_moves_cancel(m: MapView, id: Seq<char>, dir: Seq<char>, k: int)
    requires
        is_compass(dir),
        is_target(m.agents, id, k),
        m.width <= i32::MAX,
        m.height <= i32::MAX,
        1 <= m.agents[k].x <= m.width - 2,
        1 <= m.agents[k].y <= m.height - 2,
    ensures
        m.after_action(id, move_toward(dir)).after_action(id, move_toward(opposite(dir))) == m,
{
    let once = m.after_action(id, move_toward(dir));
    let twice = once.after_action(id, move_toward(opposite(dir)));
    assert(is_target(once.agents, id, k));
    assert forall|j: int| 0 <= j < once.agents.len() && j != k implies !is_target(
        once.agents,
        id,
        j,
    ) by {
        if j < k {
            assert(once.agents[j].id == m.agents[j].id);
        } else {
            assert(once.agents[k].id == id);
        }
    }
    lemma_compass_words_distinct();
    let d = direction_delta(dir);
    let e = direction_delta(opposite(dir));
    assert(e.0 == -d.0 && e.1 == -d.1);
    assert((m.width as i32) == m.width && (m.height as i32) == m.height);
    assert(once.agents[k].x == m.agents[k].x + d.0);
    assert(once.agents[k].y == m.agents[k].y + d.1);
    assert(twice.agents[k] == m.agents[k]);
    assert forall|j: int| 0 <= j < m.agents.len() implies #[trigger] twice.agents[j]
        == m.agents[j] by {
        if j != k {
            assert(!is_target(m.agents, id, j));
            assert(!is_target(once.agents, id, j));
        }
    }
    assert(twice.agents =~= m.agents);
}

/// Every cell that the world map draws lies inside the area it is drawn in, and
/// shows a square of the map.
pub proof fn law_world_cells_inside_area(
    m: MapView,
    area: ScreenArea,
    cx: i32,
    cy: i32,
    i: int,
    j: int,
)
    requires
        world_drawable(m, area, cx, cy),
        0 <= i < span(viewport(m, area, cx, cy).min_y, viewport(m, area, cx, cy).max_y),
        0 <= j < span(viewport(m, area, cx, cy).min_x, viewport(m, area, cx, cy).max_x),
    ensures
        ({
            let vp = viewport(m, area, cx, cy);
            let cell = world_cell(m, area, vp, vp.min_x + j, vp.min_y + i);
            &&& area.x <= cell.x < area.x + area.width
            &&& area.y <= cell.y < area.y + area.height
            &&& m.in_bounds(vp.min_x + j, vp.min_y + i)
        }),
{
    let vp = viewport(m, area, cx, cy);
    if (m.width as i32) >= 1 {
        lemma_size_as_i32(m.width);
    }
    if (m.height as i32) >= 1 {
        lemma_size_as_i32(m.height);
    }
}

/// Every cell of the plain map drawing lies inside the area it is drawn in.
pub proof fn law_glyph_cells_inside_area(m: MapView, area: ScreenArea, i: int, j: int)
    requires
        0 <= i < span(area.x as int, glyph_x_end(m, area)),
        0 <= j < span(area.y as int, glyph_y_end(m, area)),
    ensures
        ({
            let cell = glyph_cell(m, area.x + i, area.y + j);
            &&& area.x <= cell.x < area.x + area.width
            &&& area.y <= cell.y < area.y + area.height
        }),
{
}

/// The JSON object cut out of a reply, where not empty, opens with `{` and closes
/// with `}`.
pub proof fn law_json_object_braced(s: Seq<u8>, o: int, c: int)
    requires
        is_first_of(s, o, 123u8),
        is_last_of(s, c, 125u8),
        o <= c,
    ensures
        s.subrange(o, c + 1)[0] == 123u8,
        s.subrange(o, c + 1).last() == 125u8,
{
}

/// Outside the map every square reads as a wall.
pub proof fn law_outside_is_wall(m: MapView, x: int, y: int)
    requires
        !m.in_bounds(x, y),
    ensures
        m.tile_at(x, y) == Tile::Wall,
{
}


/// `dir` names the step `(dx, dy)`: each compass word its own step (north is
/// towards smaller `y`), any other word no step at all.
pub open spec fn names_step(dir: Seq<char>, dx: int, dy: int) -> bool {
    if dir == "north"@ {
        dx == 0 && dy == -1
    } else if dir == "northeast"@ {
        dx == 1 && dy == -1
    } else if dir == "east"@ {
        dx == 1 && dy == 0
    } else if dir == "southeast"@ {
        dx == 1 && dy == 1
    } else if dir == "south"@ {
        dx == 0 && dy == 1
    } else if dir == "southwest"@ {
        dx == -1 && dy == 1
    } else if dir == "west"@ {
        dx == -1 && dy == 0
    } else if dir == "northwest"@ {
        dx == -1 && dy == -1
    } else {
        dx == 0 && dy == 0
    }
}

/// The eight compass words name the eight unit steps, and any other word the
/// step of zero.
pub proof fn law_direction_steps(dir: Seq<char>)
    ensures
        names_step(dir, direction_delta(dir).0, direction_delta(dir).1),
{
    lemma_compass_words_distinct();
}

/// A move clamps each coordinate on its own: the mover's new `x` is its old `x`
/// plus the step's `dx`, brought into `0 ..= w - 1`, whatever happens to `y`, and
/// the same for `y`; `w` and `h` are the map's size read as `i32`. Its name stays.
pub proof fn law_move_clamps_each_axis(
    m: MapView,
    id: Seq<char>,
    dir: Seq<char>,
    k: int,
    dx: int,
    dy: int,
)
    requires
        0 <= k < m.agents.len(),
        m.agents[k].id == id,
        forall|j: int| 0 <= j < k ==> #[trigger] m.agents[j].id != id,
        names_step(dir, dx, dy),
        (m.width as i32) >= 1,
        (m.height as i32) >= 1,
    ensures
        ({
            let a = m.agents[k];
            let n = m.after_action(id, move_toward(dir)).agents[k];
            let w = (m.width as i32) as int;
            let h = (m.height as i32) as int;
            &&& n.id == a.id
            &&& a.x + dx < 0 ==> n.x == 0
            &&& a.x + dx > w - 1 ==> n.x == w - 1
            &&& 0 <= a.x + dx <= w - 1 ==> n.x == a.x + dx
            &&& a.y + dy < 0 ==> n.y == 0
            &&& a.y + dy > h - 1 ==> n.y == h - 1
            &&& 0 <= a.y + dy <= h - 1 ==> n.y == a.y + dy
        }),
{
    law_direction_steps(dir);
    assert(is_target(m.agents, id, k));
}

/// A move leaves every agent before the mover, and every agent after it, as it
/// was; the mover is the first agent with the name.
pub proof fn law_move_leaves_others(m: MapView, id: Seq<char>, action: ActionView, k: int)
    requires
        0 <= k < m.agents.len(),
        m.agents[k].id != id || exists|j: int| 0 <= j < k && #[trigger] m.agents[j].id == id,
    ensures
        m.after_action(id, action).agents[k] == m.agents[k],
{
}

/// Inside the map, the tile read at `(x, y)` is the stored tile `tiles[y][x]`,
/// whatever it is; only outside the map is a wall read.
pub proof fn law_tile_read_is_stored(m: MapView, x: int, y: int)
    ensures
        0 <= x < m.width && 0 <= y < m.height ==> m.tile_at(x, y) == m.tiles[y][x],
        !(0 <= x < m.width && 0 <= y < m.height) ==> m.tile_at(x, y) == Tile::Wall,
{
}

/// In the plain map drawing, the cell at screen `(x, y)` shows the glyph of
/// `tiles[x][y]`: a wall `▦`, a path `░`, every item `I`, every character `╂`,
/// an unknown tile `?`.
pub proof fn law_glyphs_by_kind(m: MapView, x: int, y: int)
    requires
        0 <= x <= u16::MAX,
        0 <= y <= u16::MAX,
    ensures
        glyph_cell(m, x, y).x == x,
        glyph_cell(m, x, y).y == y,
        m.tiles[x][y] == Tile::Wall ==> glyph_cell(m, x, y).glyph == '\u{25A6}',
        m.tiles[x][y] == Tile::Path ==> glyph_cell(m, x, y).glyph == '\u{2591}',
        m.tiles[x][y] is Item ==> glyph_cell(m, x, y).glyph == 'I',
        m.tiles[x][y] is Character ==> glyph_cell(m, x, y).glyph == '\u{2542}',
        m.tiles[x][y] == Tile::Unknown ==> glyph_cell(m, x, y).glyph == '?',
{
}

/// Agent `k` is the last agent that stands at `(x, y)`.
pub open spec fn is_last_at(agents: Seq<AgentView>, k: int, x: int, y: int) -> bool {
    &&& 0 <= k < agents.len()
    &&& agents[k].x == x
    &&& agents[k].y == y
    &&& forall|j: int|
        k < j < agents.len() ==> !(#[trigger] agents[j].x == x && agents[j].y == y)
}

/// The mark found at `(x, y)` is the first letter of the last agent standing
/// there (`@` for an empty name), and there is none where no agent stands.
proof fn lemma_agent_mark(agents: Seq<AgentView>, x: int, y: int)
    ensures
        (forall|k: int| 0 <= k < agents.len() ==> !(#[trigger] agents[k].x == x && agents[k].y
            == y)) ==> agent_symbol(agents, x, y) is None,
        forall|k: int|
            #[trigger] is_last_at(agents, k, x, y) ==> agent_symbol(agents, x, y) == Some(
                if agents[k].id.len() > 0 {
                    agents[k].id[0]
                } else {
                    '@'
                },
            ),
    decreases agents.len(),
{
    if agents.len() > 0 {
        let rest = agents.drop_last();
        lemma_agent_mark(rest, x, y);
        assert forall|k: int| #[trigger] is_last_at(agents, k, x, y) implies agent_symbol(
            agents,
            x,
            y,
        ) == Some(
            if agents[k].id.len() > 0 {
                agents[k].id[0]
            } else {
                '@'
            },
        ) by {
            if k < agents.len() - 1 {
                assert(!(agents[agents.len() - 1].x == x && agents[agents.len() - 1].y == y));
                assert(rest[k] == agents[k]);
                assert(is_last_at(rest, k, x, y));
            }
        }
        if forall|k: int| 0 <= k < agents.len() ==> !(#[trigger] agents[k].x == x && agents[k].y
            == y) {
            assert forall|k: int| 0 <= k < rest.len() implies !(#[trigger] rest[k].x == x
                && rest[k].y == y) by {
                assert(rest[k] == agents[k]);
            }
            assert(!(agents[agents.len() - 1].x == x && agents[agents.len() - 1].y == y));
        }
    }
}

/// The world map shows map square `(x, y)` at screen position
/// `(x - min_x + area.x, y - min_y + area.y)`. Where agents stand, it shows the
/// first letter of the last of them (`@` for an empty name), whatever the tile;
/// elsewhere the tile's symbol: `█` for a wall, `.` for an empty tile, `~` for a
/// path, `$` for any item. The colour is the tile's in both cases: dark gray for
/// a wall, yellow for an item, white for an empty tile, gray for a path.
pub proof fn law_world_cell_shows_agents_over_tiles(
    m: MapView,
    area: ScreenArea,
    vp: Viewport,
    x: int,
    y: int,
)
    requires
        0 <= x - vp.min_x + area.x <= u16::MAX,
        0 <= y - vp.min_y + area.y <= u16::MAX,
    ensures
        world_cell(m, area, vp, x, y).x == x - vp.min_x + area.x,
        world_cell(m, area, vp, x, y).y == y - vp.min_y + area.y,
        forall|k: int|
            #[trigger] is_last_at(m.agents, k, x, y) ==> world_cell(m, area, vp, x, y).symbol == (
            if m.agents[k].id.len() > 0 {
                m.agents[k].id[0]
            } else {
                '@'
            }),
        (forall|k: int| 0 <= k < m.agents.len() ==> !(#[trigger] m.agents[k].x == x
            && m.agents[k].y == y)) ==> {
            &&& m.tiles[y][x] == Tile::Wall ==> world_cell(m, area, vp, x, y).symbol == '\u{2588}'
            &&& m.tiles[y][x] == Tile::Empty ==> world_cell(m, area, vp, x, y).symbol == '.'
            &&& m.tiles[y][x] == Tile::Path ==> world_cell(m, area, vp, x, y).symbol == '~'
            &&& m.tiles[y][x] is Item ==> world_cell(m, area, vp, x, y).symbol == '$'
        },
        m.tiles[y][x] == Tile::Wall ==> world_cell(m, area, vp, x, y).color == TileColor::DarkGray,
        m.tiles[y][x] is Item ==> world_cell(m, area, vp, x, y).color == TileColor::Yellow,
        m.tiles[y][x] == Tile::Empty ==> world_cell(m, area, vp, x, y).color == TileColor::White,
        m.tiles[y][x] == Tile::Path ==> world_cell(m, area, vp, x, y).color == TileColor::Gray,
{
    lemma_agent_mark(m.agents, x, y);
}

/// The line of a prompt for square `(r, c)` holding `t`: the square's direction
/// and the tile's description.
pub open spec fn prompt_line(view: Seq<Seq<Tile>>, r: int, c: int) -> Seq<char> {
    "- To the "@ + direction_label(r, c) + ": "@ + tile_description(view[r][c]) + "\n"@
}

/// A prompt is the opening, then one line per square of the view row by row
/// from the north-west corner, each describing the tile of that very square,
/// then the closing.
pub proof fn law_prompt_lines(view: Seq<Seq<Tile>>)
    ensures
        prompt_text(view) =~= PROMPT_HEADER@ + prompt_line(view, 0, 0) + prompt_line(view, 0, 1)
            + prompt_line(view, 0, 2) + prompt_line(view, 1, 0) + prompt_line(view, 1, 1)
            + prompt_line(view, 1, 2) + prompt_line(view, 2, 0) + prompt_line(view, 2, 1)
            + prompt_line(view, 2, 2) + PROMPT_FOOTER@,
{
    reveal_with_fuel(crate::prompt::view_lines, 4);
    reveal_with_fuel(crate::prompt::row_lines, 4);
}

/// The squares of a view are named by the compass, the centre as the viewer's
/// own position.
pub proof fn law_direction_labels()
    ensures
        direction_label(0, 0) == "northwest"@,
        direction_label(0, 1) == "north"@,
        direction_label(0, 2) == "northeast"@,
        direction_label(1, 0) == "west"@,
        direction_label(1, 1) == "your current position"@,
        direction_label(1, 2) == "east"@,
        direction_label(2, 0) == "southwest"@,
        direction_label(2, 1) == "south"@,
        direction_label(2, 2) == "southeast"@,
{
}

/// Every tile is described by its kind alone, wherever it lies in the view: a
/// wall as `a wall`, a path as `a path`, an item by its name, a character by its
/// name in quotes, an unknown tile as `unknown terrain`.
pub proof fn law_tile_descriptions()
    ensures
        tile_description(Tile::Wall) == "a wall"@,
        tile_description(Tile::Path) == "a path"@,
        tile_description(Tile::Unknown) == "unknown terrain"@,
        tile_description(Tile::Item(Item::Key)) == "An item: "@ + "Key"@,
        tile_description(Tile::Item(Item::Chest)) == "An item: "@ + "Chest"@,
        tile_description(Tile::Item(Item::Treasure)) == "An item: "@ + "Treasure"@,
        tile_description(Tile::Character(Character::Player)) == "Another character '"@
            + "Player"@ + "'"@,
        tile_description(Tile::Character(Character::NPC)) == "Another character '"@ + "NPC"@
            + "'"@,
        tile_description(Tile::Character(Character::Enemy)) == "Another character '"@
            + "Enemy"@ + "'"@,
{
}

/// Only the word `move` with a target changes the world: any other action word,
/// or a move without a target, leaves it exactly as it was.
pub proof fn law_only_targeted_moves_change(m: MapView, id: Seq<char>, action: ActionView)
    requires
        action.action != "move"@ || action.target is None,
    ensures
        m.after_action(id, action) == m,
{
}

/// What an agent at `(x, y)` sees in row `r`, column `c` of its view is the
/// stored tile at `(x + c - 1, y + r - 1)` inside the map, and a wall outside.
pub proof fn law_neighbourhood_squares(m: MapView, x: int, y: int, r: int, c: int)
    requires
        0 <= r < 3,
        0 <= c < 3,
    ensures
        0 <= x + c - 1 < m.width && 0 <= y + r - 1 < m.height ==> neighbourhood(m, x, y)[r][c]
            == m.tiles[y + r - 1][x + c - 1],
        !(0 <= x + c - 1 < m.width && 0 <= y + r - 1 < m.height) ==> neighbourhood(
            m,
            x,
            y,
        )[r][c] == Tile::Wall,
{
}

/// The brace positions that bound a reply's JSON object: the first `{` has no
/// `{` before it, the last `}` no `}` after it.
pub proof fn law_brace_positions(s: Seq<u8>, o: int, c: int)
    ensures
        is_first_of(s, o, 123u8) <==> (0 <= o < s.len() && s[o] == 123u8 && forall|j: int|
            0 <= j < o ==> s[j] != 123u8),
        is_last_of(s, c, 125u8) <==> (0 <= c < s.len() && s[c] == 125u8 && forall|j: int|
            c < j < s.len() ==> s[j] != 125u8),
{
}

/// The status line names the action and its target, or `None` without one.
pub proof fn law_status_line(action: ActionView)
    ensures
        action.target is None ==> status_text(action) == "Action: "@ + action.action
            + ", Target: "@ + "None"@,
        action.target is Some ==> status_text(action) == "Action: "@ + action.action
            + ", Target: "@ + action.target->0,
{
}

/// A fresh map holds treasure at `(2, 2)` and a path on every other square.
pub proof fn law_initial_tiles(x: int, y: int)
    ensures
        x == 2 && y == 2 ==> initial_tile(x, y) == Tile::Item(Item::Treasure),
        !(x == 2 && y == 2) ==> initial_tile(x, y) == Tile::Path,
{
}

/// Where the map reaches far enough on every side, the world map starts half the
/// area before the centre, shows a full area, and draws the centre square at the
/// middle of the area.
pub proof fn law_world_map_centres(m: MapView, area: ScreenArea, cx: i32, cy: i32)
    requires
        cx - area.width / 2 >= 0,
        cy - area.height / 2 >= 0,
        cx - area.width / 2 + area.width <= (m.width as i32),
        cy - area.height / 2 + area.height <= (m.height as i32),
    ensures
        ({
            let vp = viewport(m, area, cx, cy);
            &&& vp.min_x == cx - area.width / 2
            &&& vp.min_y == cy - area.height / 2
            &&& vp.max_x - vp.min_x == area.width
            &&& vp.max_y - vp.min_y == area.height
            &&& cx - vp.min_x + area.x == area.x + area.width / 2
            &&& cy - vp.min_y + area.y == area.y + area.height / 2
        }),
{
}

} // verus!

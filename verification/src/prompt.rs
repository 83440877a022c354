use vstd::prelude::*;
use vstd::string::StringExecFns;

use crate::state::{ActionView, GameState, NPCAction};
use crate::tile::{character_name, item_name, Tile};
use crate::world::{is_target, AgentView, MapView};

verus! {

/// The opening of every prompt.
pub const PROMPT_HEADER: &'static str = "You are an NPC in a tile-based game. You are seeking treasure. If you see treasure, you should move towards it. Here's what you see:\n";

/// The closing of every prompt: the answer's expected form.
pub const PROMPT_FOOTER: &'static str = "Respond in JSON: { \"action\": \"move\", \"target\": DIRECTION }";

/// The words for the square in row `r`, column `c` of a 3 by 3 view, whose
/// centre is the viewer.
pub open spec fn direction_label(r: int, c: int) -> Seq<char> {
    if r == 0 && c == 1 {
        "north"@
    } else if r == 2 && c == 1 {
        "south"@
    } else if r == 1 && c == 0 {
        "west"@
    } else if r == 1 && c == 2 {
        "east"@
    } else if r == 0 && c == 0 {
        "northwest"@
    } else if r == 0 && c == 2 {
        "northeast"@
    } else if r == 2 && c == 0 {
        "southwest"@
    } else if r == 2 && c == 2 {
        "southeast"@
    } else if r == 1 && c == 1 {
        "your current position"@
    } else {
        "somewhere"@
    }
}

/// The words for a tile. An empty tile has none: a prompt is never made of one.
pub open spec fn tile_description(t: Tile) -> Seq<char> {
    match t {
        Tile::Wall => "a wall"@,
        Tile::Path => "a path"@,
        Tile::Item(i) => "An item: "@ + item_name(i),
        Tile::Character(c) => "Another character '"@ + character_name(c) + "'"@,
        Tile::Unknown => "unknown terrain"@,
        Tile::Empty => Seq::empty(),
    }
}

/// The line of a prompt for the square in row `r`, column `c`, holding `t`.
pub open spec fn view_line(r: int, c: int, t: Tile) -> Seq<char> {
    "- To the "@ + direction_label(r, c) + ": "@ + tile_description(t) + "\n"@
}

/// The lines for the first `n` squares of row `r` of a view.
pub open spec fn row_lines(view: Seq<Seq<Tile>>, r: int, n: int) -> Seq<char>
    decreases n,
{
    if n <= 0 {
        Seq::empty()
    } else {
        row_lines(view, r, n - 1) + view_line(r, n - 1, view[r][n - 1])
    }
}

/// The lines for the first `n` rows of a view.
pub open spec fn view_lines(view: Seq<Seq<Tile>>, n: int) -> Seq<char>
    decreases n,
{
    if n <= 0 {
        Seq::empty()
    } else {
        view_lines(view, n - 1) + row_lines(view, n - 1, 3)
    }
}

/// The prompt that describes a 3 by 3 view: the opening, one line per square
/// row by row, and the closing.
pub open spec fn prompt_text(view: Seq<Seq<Tile>>) -> Seq<char> {
    PROMPT_HEADER@ + view_lines(view, 3) + PROMPT_FOOTER@
}

/// A 3 by 3 array of tiles as rows.
pub open spec fn view_rows(view: [[Tile; 3]; 3]) -> Seq<Seq<Tile>> {
    Seq::new(3, |r: int| Seq::new(3, |c: int| view[r][c]))
}

/// No square of a 3 by 3 view is empty.
pub open spec fn no_empty_tile(view: Seq<Seq<Tile>>) -> bool {
    forall|r: int, c: int| 0 <= r < 3 && 0 <= c < 3 ==> #[trigger] view[r][c] != Tile::Empty
}

/// What a viewer at `(x, y)` sees of the map: row `r`, column `c` is the tile at
/// `(x + c - 1, y + r - 1)`.
pub open spec fn neighbourhood(map: MapView, x: int, y: int) -> Seq<Seq<Tile>> {
    Seq::new(3, |r: int| Seq::new(3, |c: int| map.tile_at(x + c - 1, y + r - 1)))
}

/// A prompt can be made for agent `a`: its neighbours' coordinates fit in `i32`,
/// the map can be read around it, and it sees no empty tile.
pub open spec fn prompt_possible(map: MapView, a: AgentView) -> bool {
    &&& i32::MIN < a.x < i32::MAX
    &&& i32::MIN < a.y < i32::MAX
    &&& map.neighbourhood_readable(a.x, a.y)
    &&& no_empty_tile(neighbourhood(map, a.x, a.y))
}

/// The words for the square in row `r`, column `c` of a 3 by 3 view.
fn direction_label_str(r: usize, c: usize) -> (s: &'static str)
    ensures
        s@ == direction_label(r as int, c as int),
{
    if r == 0 && c == 1 {
        "north"
    } else if r == 2 && c == 1 {
        "south"
    } else if r == 1 && c == 0 {
        "west"
    } else if r == 1 && c == 2 {
        "east"
    } else if r == 0 && c == 0 {
        "northwest"
    } else if r == 0 && c == 2 {
        "northeast"
    } else if r == 2 && c == 0 {
        "southwest"
    } else if r == 2 && c == 2 {
        "southeast"
    } else if r == 1 && c == 1 {
        "your current position"
    } else {
        "somewhere"
    }
}

/// Appends the words for a tile.
fn push_tile_description(s: &mut String, t: Tile)
    requires
        t != Tile::Empty,
    ensures
        final(s)@ == old(s)@ + tile_description(t),
{
    match t {
        Tile::Wall => s.append("a wall"),
        Tile::Path => s.append("a path"),
        Tile::Item(i) => {
            s.append("An item: ");
            s.append(i.name());
            assert(final(s)@ =~= old(s)@ + tile_description(t));
        },
        Tile::Character(c) => {
            s.append("Another character '");
            s.append(c.name());
            s.append("'");
            assert(final(s)@ =~= old(s)@ + tile_description(t));
        },
        Tile::Unknown => s.append("unknown terrain"),
        Tile::Empty => {},
    }
}

/// The prompt that tells the language model what a character sees: one line
/// per square of its 3 by 3 view, row by row from the north-west corner.
pub fn generate_prompt_from_view(view: [[Tile; 3]; 3]) -> (p: String)
    requires
        no_empty_tile(view_rows(view)),
    ensures
        p@ == prompt_text(view_rows(view)),
{
    let ghost rows = view_rows(view);
    let mut description = String::from_str(PROMPT_HEADER);
    let mut r: usize = 0;
    while r < 3
        invariant
            r <= 3,
            rows == view_rows(view),
            no_empty_tile(rows),
            description@ == PROMPT_HEADER@ + view_lines(rows, r as int),
        decreases 3 - r,
    {
        let mut c: usize = 0;
        while c < 3
            invariant
                r < 3,
                c <= 3,
                rows == view_rows(view),
                no_empty_tile(rows),
                description@ == PROMPT_HEADER@ + view_lines(rows, r as int) + row_lines(
                    rows,
                    r as int,
                    c as int,
                ),
            decreases 3 - c,
        {
            let tile: Tile = view[r][c];
            assert(tile == rows[r as int][c as int]);
            let ghost before = description@;
            description.append("- To the ");
            description.append(direction_label_str(r, c));
            description.append(": ");
            push_tile_description(&mut description, tile);
            description.append("\n");
            assert(description@ =~= before + view_line(r as int, c as int, tile));
            c = c + 1;
        }
        r = r + 1;
    }
    description.append(PROMPT_FOOTER);
    description
}

impl GameState {
    /// The prompt for the first agent named `agent_id`, describing what it sees;
    /// `None` where there is no such agent or no prompt can be made for it
    /// (see `prompt_possible`).
    pub fn npc_prompt(&self, agent_id: &String) -> (r: Option<String>)
        ensures
            match r {
                Some(p) => exists|k: int|
                    #[trigger] is_target(self@.agents, agent_id@, k) && prompt_possible(
                        self@,
                        self@.agents[k],
                    ) && p@ == prompt_text(
                        neighbourhood(self@, self@.agents[k].x, self@.agents[k].y),
                    ),
                None => forall|k: int|
                    #[trigger] is_target(self@.agents, agent_id@, k) ==> !prompt_possible(
                        self@,
                        self@.agents[k],
                    ),
            },
    {
        match self.world.find_agent(agent_id) {
            None => None,
            Some(i) => {
                let agent = &self.world.agents[i];
                let ghost a = self@.agents[i as int];
                assert(a == agent@);
                proof {
                    assert forall|k: int| #[trigger]
                        is_target(self@.agents, agent_id@, k) implies k == i by {
                        if k < i {
                            assert(self@.agents[k].id != agent_id@);
                        } else if k > i {
                            assert(self@.agents[i as int].id == agent_id@);
                        }
                    }
                }
                if agent.x == i32::MIN || agent.x == i32::MAX || agent.y == i32::MIN || agent.y
                    == i32::MAX {
                    return None;
                }
                if !self.world.neighbourhood_is_readable(agent.x, agent.y) {
                    return None;
                }
                let view = agent.visible_tiles(&self.world);
                assert(view_rows(view) =~~= neighbourhood(self@, a.x, a.y));
                if has_empty_tile(&view) {
                    return None;
                }
                Some(generate_prompt_from_view(view))
            },
        }
    }
}

/// Some square of a 3 by 3 view is empty.
fn has_empty_tile(view: &[[Tile; 3]; 3]) -> (b: bool)
    ensures
        b == !no_empty_tile(view_rows(*view)),
{
    let mut r: usize = 0;
    while r < 3
        invariant
            r <= 3,
            forall|i: int, j: int|
                0 <= i < r && 0 <= j < 3 ==> #[trigger] view[i][j] != Tile::Empty,
        decreases 3 - r,
    {
        let mut c: usize = 0;
        while c < 3
            invariant
                r < 3,
                c <= 3,
                forall|i: int, j: int|
                    0 <= i < r && 0 <= j < 3 ==> #[trigger] view[i][j] != Tile::Empty,
                forall|j: int| 0 <= j < c ==> #[trigger] view[r as int][j] != Tile::Empty,
            decreases 3 - c,
        {
            if view[r][c] == Tile::Empty {
                assert(view_rows(*view)[r as int][c as int] == Tile::Empty);
                return true;
            }
            c = c + 1;
        }
        r = r + 1;
    }
    assert forall|i: int, j: int| 0 <= i < 3 && 0 <= j < 3 implies #[trigger] view_rows(
        *view,
    )[i][j] != Tile::Empty by {
        assert(view[i][j] != Tile::Empty);
    }
    false
}

/// `i` is the position of the first `b` in `s`.
pub open spec fn is_first_of(s: Seq<u8>, i: int, b: u8) -> bool {
    0 <= i < s.len() && s[i] == b && forall|j: int| 0 <= j < i ==> #[trigger] s[j] != b
}

/// `i` is the position of the last `b` in `s`.
pub open spec fn is_last_of(s: Seq<u8>, i: int, b: u8) -> bool {
    0 <= i < s.len() && s[i] == b && forall|j: int| i < j < s.len() ==> #[trigger] s[j] != b
}

/// The bytes of a reply from its first `{` through its last `}`: `None` where
/// the reply lacks either brace, or its last `}` stands more than one place
/// before its first `{`. Where the last `}` stands just before the first `{`,
/// the result is empty.
pub fn extract_json_object(content: &[u8]) -> (r: Option<Vec<u8>>)
    ensures
        match r {
            Some(v) => exists|o: int, c: int|
                #[trigger] is_first_of(content@, o, 123u8) && #[trigger] is_last_of(
                    content@,
                    c,
                    125u8,
                ) && o <= c + 1 && v@ == content@.subrange(o, c + 1),
            None => forall|o: int, c: int|
                #[trigger] is_first_of(content@, o, 123u8) && #[trigger] is_last_of(
                    content@,
                    c,
                    125u8,
                ) ==> c + 1 < o,
        },
{
    let n = content.len();
    let mut o: usize = 0;
    while o < n && content[o] != 123u8
        invariant
            o <= n,
            n == content@.len(),
            forall|j: int| 0 <= j < o ==> #[trigger] content@[j] != 123u8,
        decreases n - o,
    {
        o = o + 1;
    }
    if o == n {
        return None;
    }
    assert(is_first_of(content@, o as int, 123u8));
    let mut c: usize = n;
    while c > 0 && content[c - 1] != 125u8
        invariant
            c <= n,
            n == content@.len(),
            forall|j: int| c <= j < n ==> #[trigger] content@[j] != 125u8,
        decreases c,
    {
        c = c - 1;
    }
    if c == 0 {
        return None;
    }
    let close: usize = c - 1;
    assert(is_last_of(content@, close as int, 125u8));
    proof {
        assert forall|a: int, b: int|
            #[trigger] is_first_of(content@, a, 123u8) && #[trigger] is_last_of(
                content@,
                b,
                125u8,
            ) implies a == o && b == close by {
            if a < o {
                assert(content@[a] != 123u8);
            } else if a > o {
                assert(content@[o as int] == 123u8);
            }
            if b > close {
                assert(content@[b] != 125u8);
            } else if b < close {
                assert(content@[close as int] == 125u8);
            }
        }
    }
    if close + 1 < o {
        return None;
    }
    let mut v: Vec<u8> = Vec::new();
    let mut k: usize = o;
    while k < close + 1
        invariant
            o <= k <= close + 1,
            close < n,
            n == content@.len(),
            v@ =~= content@.subrange(o as int, k as int),
        decreases close + 1 - k,
    {
        v.push(content[k]);
        k = k + 1;
    }
    Some(v)
}

/// The text of the status line for an action.
pub open spec fn status_text(action: ActionView) -> Seq<char> {
    "Action: "@ + action.action + ", Target: "@ + match action.target {
        Some(t) => t,
        None => "None"@,
    }
}

impl NPCAction {
    /// The status line that shows an action: `Action: <action>, Target: <target>`,
    /// with `None` for a missing target.
    pub fn status_line(&self) -> (s: String)
        ensures
            s@ == status_text(self@),
    {
        let mut s = String::from_str("Action: ");
        s.append(self.action.as_str());
        s.append(", Target: ");
        match &self.target {
            Some(t) => s.append(t.as_str()),
            None => s.append("None"),
        }
        assert(s@ =~= status_text(self@));
        s
    }
}

} // verus!

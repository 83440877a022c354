use vstd::prelude::*;
use vstd::string::StringExecFns;

use crate::tile::{Item, Tile};

verus! {

/// A character of the game, named by `id` and standing at column `x`, row `y`.
#[derive(Clone, Debug)]
pub struct Agent {
    pub id: String,
    pub x: i32,
    pub y: i32,
}

/// What an agent is: its name and its position.
pub struct AgentView {
    pub id: Seq<char>,
    pub x: int,
    pub y: int,
}

impl View for Agent {
    type V = AgentView;

    open spec fn view(&self) -> AgentView {
        AgentView { id: self.id@, x: self.x as int, y: self.y as int }
    }
}

/// The world: a grid of `height` rows of `width` tiles, and the agents on it.
/// `tiles[y][x]` is the tile at column `x` of row `y`.
#[derive(Clone, Debug)]
pub struct GameMap {
    pub width: usize,
    pub height: usize,
    pub tiles: Vec<Vec<Tile>>,
    pub agents: Vec<Agent>,
}

/// What a map is: its declared size, its rows of tiles and its agents.
pub struct MapView {
    pub width: usize,
    pub height: usize,
    pub tiles: Seq<Seq<Tile>>,
    pub agents: Seq<AgentView>,
}

impl View for GameMap {
    type V = MapView;

    open spec fn view(&self) -> MapView {
        MapView {
            width: self.width,
            height: self.height,
            tiles: self.tiles@.map_values(|row: Vec<Tile>| row@),
            agents: self.agents@.map_values(|a: Agent| a@),
        }
    }
}

impl MapView {
    /// `(x, y)` lies inside the declared size of the map.
    pub open spec fn in_bounds(self, x: int, y: int) -> bool {
        0 <= x < self.width && 0 <= y < self.height
    }

    /// Reading `(x, y)` finds a tile: either it lies outside the declared size,
    /// or the rows hold a tile there.
    pub open spec fn readable(self, x: int, y: int) -> bool {
        self.in_bounds(x, y) ==> (y < self.tiles.len() && x < self.tiles[y].len())
    }

    /// The tile seen at `(x, y)`: the stored one inside the map, a wall outside.
    pub open spec fn tile_at(self, x: int, y: int) -> Tile {
        if self.in_bounds(x, y) {
            self.tiles[y][x]
        } else {
            Tile::Wall
        }
    }

    /// The rows hold exactly `height` rows of `width` tiles.
    pub open spec fn wf(self) -> bool {
        &&& self.tiles.len() == self.height
        &&& forall|r: int| 0 <= r < self.height ==> #[trigger] self.tiles[r].len() == self.width
    }

    /// Every agent stands inside the map.
    pub open spec fn agents_in_bounds(self) -> bool {
        forall|k: int|
            0 <= k < self.agents.len() ==> self.in_bounds(
                #[trigger] self.agents[k].x,
                self.agents[k].y,
            )
    }

    /// Every square of the 3 by 3 neighbourhood around `(x, y)` is readable.
    pub open spec fn neighbourhood_readable(self, x: int, y: int) -> bool {
        forall|px: int, py: int|
            x - 1 <= px <= x + 1 && y - 1 <= py <= y + 1 ==> #[trigger] self.readable(px, py)
    }
}

/// The tile that a fresh map of the given size holds at `(x, y)`:
/// treasure at `(2, 2)`, a path everywhere else.
pub open spec fn initial_tile(x: int, y: int) -> Tile {
    if x == 2 && y == 2 {
        Tile::Item(Item::Treasure)
    } else {
        Tile::Path
    }
}

/// `m` is the map that `GameMap::new(width, height)` builds.
pub open spec fn is_initial_map(m: MapView, width: usize, height: usize) -> bool {
    &&& m.width == width
    &&& m.height == height
    &&& m.wf()
    &&& forall|x: int, y: int|
        0 <= x < width && 0 <= y < height ==> #[trigger] m.tiles[y][x] == initial_tile(x, y)
    &&& m.agents == seq![AgentView { id: "Alice"@, x: 3, y: 3 }]
}

impl Agent {
    /// A copy of this agent.
    pub(crate) fn duplicate(&self) -> (r: Agent)
        ensures
            r@ == self@,
    {
        Agent { id: self.id.clone(), x: self.x, y: self.y }
    }

    /// The 3 by 3 block of tiles around this agent, row by row from the north-west
    /// corner: entry `[r][c]` is the tile at `(x + c - 1, y + r - 1)`.
    pub fn visible_tiles(&self, map: &GameMap) -> (view: [[Tile; 3]; 3])
        requires
            i32::MIN < self.x < i32::MAX,
            i32::MIN < self.y < i32::MAX,
            map@.neighbourhood_readable(self.x as int, self.y as int),
        ensures
            forall|r: int, c: int|
                0 <= r < 3 && 0 <= c < 3 ==> #[trigger] view[r][c] == map@.tile_at(
                    self.x + c - 1,
                    self.y + r - 1,
                ),
    {
        let x: i32 = self.x;
        let y: i32 = self.y;
        proof {
            assert(map@.readable(x - 1, y - 1));
            assert(map@.readable(x as int, y - 1));
            assert(map@.readable(x + 1, y - 1));
            assert(map@.readable(x - 1, y as int));
            assert(map@.readable(x as int, y as int));
            assert(map@.readable(x + 1, y as int));
            assert(map@.readable(x - 1, y + 1));
            assert(map@.readable(x as int, y + 1));
            assert(map@.readable(x + 1, y + 1));
        }
        let north: [Tile; 3] = [
            map.get_tile(x - 1, y - 1),
            map.get_tile(x, y - 1),
            map.get_tile(x + 1, y - 1),
        ];
        let middle: [Tile; 3] = [
            map.get_tile(x - 1, y),
            map.get_tile(x, y),
            map.get_tile(x + 1, y),
        ];
        let south: [Tile; 3] = [
            map.get_tile(x - 1, y + 1),
            map.get_tile(x, y + 1),
            map.get_tile(x + 1, y + 1),
        ];
        [north, middle, south]
    }
}

impl GameMap {
    /// A map of `height` rows of `width` path tiles, with treasure at `(2, 2)` and
    /// one agent, `Alice`, at `(3, 3)`.
    pub fn new(width: usize, height: usize) -> (m: GameMap)
        requires
            width > 2,
            height > 2,
        ensures
            is_initial_map(m@, width, height),
    {
        let mut tiles: Vec<Vec<Tile>> = Vec::new();
        let mut y: usize = 0;
        while y < height
            invariant
                y <= height,
                tiles@.len() == y,
                forall|r: int| 0 <= r < y ==> #[trigger] tiles@[r]@.len() == width,
                forall|r: int, c: int|
                    0 <= r < y && 0 <= c < width ==> #[trigger] tiles@[r]@[c] == initial_tile(
                        c,
                        r,
                    ),
            decreases height - y,
        {
            let mut row: Vec<Tile> = Vec::new();
            let mut x: usize = 0;
            while x < width
                invariant
                    x <= width,
                    row@.len() == x,
                    forall|c: int| 0 <= c < x ==> #[trigger] row@[c] == initial_tile(c, y as int),
                decreases width - x,
            {
                if x == 2 && y == 2 {
                    row.push(Tile::Item(Item::Treasure));
                } else {
                    row.push(Tile::Path);
                }
                x = x + 1;
            }
            tiles.push(row);
            y = y + 1;
        }
        let mut agents: Vec<Agent> = Vec::new();
        agents.push(Agent { id: String::from_str("Alice"), x: 3, y: 3 });
        let m = GameMap { width, height, tiles, agents };
        assert(m@.agents =~= seq![AgentView { id: "Alice"@, x: 3, y: 3 }]);
        m
    }

    /// The tile at `(x, y)`; a wall outside the map.
    pub fn get_tile(&self, x: i32, y: i32) -> (t: Tile)
        requires
            self@.readable(x as int, y as int),
        ensures
            t == self@.tile_at(x as int, y as int),
    {
        if x >= 0 && y >= 0 && (x as usize) < self.width && (y as usize) < self.height {
            assert(self@.tiles[y as int] == self.tiles@[y as int]@);
            self.tiles[y as usize][x as usize]
        } else {
            Tile::Wall
        }
    }

    /// Reading `(x, y)` finds a tile (see `MapView::readable`).
    fn is_readable(&self, x: i32, y: i32) -> (b: bool)
        ensures
            b == self@.readable(x as int, y as int),
    {
        if x >= 0 && y >= 0 && (x as usize) < self.width && (y as usize) < self.height {
            let yi = y as usize;
            if yi < self.tiles.len() {
                assert(self@.tiles[y as int] == self.tiles@[y as int]@);
                (x as usize) < self.tiles[yi].len()
            } else {
                false
            }
        } else {
            true
        }
    }

    /// Every square of the 3 by 3 neighbourhood around `(x, y)` is readable.
    pub(crate) fn neighbourhood_is_readable(&self, x: i32, y: i32) -> (b: bool)
        requires
            i32::MIN < x < i32::MAX,
            i32::MIN < y < i32::MAX,
        ensures
            b == self@.neighbourhood_readable(x as int, y as int),
    {
        let b = self.is_readable(x - 1, y - 1) && self.is_readable(x, y - 1) && self.is_readable(
            x + 1,
            y - 1,
        ) && self.is_readable(x - 1, y) && self.is_readable(x, y) && self.is_readable(x + 1, y)
            && self.is_readable(x - 1, y + 1) && self.is_readable(x, y + 1) && self.is_readable(
            x + 1,
            y + 1,
        );
        proof {
            if b {
                assert forall|px: int, py: int|
                    x - 1 <= px <= x + 1 && y - 1 <= py <= y + 1 implies #[trigger] self@.readable(
                    px,
                    py,
                ) by {
                    assert(px == x - 1 || px == x || px == x + 1);
                    assert(py == y - 1 || py == y || py == y + 1);
                }
            }
        }
        b
    }

    /// The index of the first agent named `agent_id`, if any.
    pub fn find_agent(&self, agent_id: &String) -> (r: Option<usize>)
        ensures
            match r {
                Some(i) => is_target(self@.agents, agent_id@, i as int),
                None => forall|k: int|
                    0 <= k < self@.agents.len() ==> #[trigger] self@.agents[k].id != agent_id@,
            },
    {
        let mut i: usize = 0;
        while i < self.agents.len()
            invariant
                i <= self.agents.len(),
                forall|k: int| 0 <= k < i ==> #[trigger] self@.agents[k].id != agent_id@,
            decreases self.agents.len() - i,
        {
            if self.agents[i].id == *agent_id {
                return Some(i);
            }
            i = i + 1;
        }
        None
    }

    /// A copy of this map.
    pub(crate) fn duplicate(&self) -> (r: GameMap)
        ensures
            r@ == self@,
    {
        let tiles = copy_tiles(&self.tiles);
        let agents = copy_agents(&self.agents);
        let r = GameMap { width: self.width, height: self.height, tiles, agents };
        assert(r@.tiles =~= self@.tiles);
        assert(r@.agents =~= self@.agents);
        r
    }
}

/// Agent `k` is the first agent named `id`.
pub open spec fn is_target(agents: Seq<AgentView>, id: Seq<char>, k: int) -> bool {
    &&& 0 <= k < agents.len()
    &&& agents[k].id == id
    &&& forall|j: int| 0 <= j < k ==> #[trigger] agents[j].id != id
}

/// A copy of the rows of tiles.
pub(crate) fn copy_tiles(tiles: &Vec<Vec<Tile>>) -> (r: Vec<Vec<Tile>>)
    ensures
        r@.len() == tiles@.len(),
        forall|i: int| 0 <= i < tiles@.len() ==> #[trigger] r@[i]@ == tiles@[i]@,
{
    let mut r: Vec<Vec<Tile>> = Vec::new();
    let mut i: usize = 0;
    while i < tiles.len()
        invariant
            i <= tiles@.len(),
            r@.len() == i,
            forall|k: int| 0 <= k < i ==> #[trigger] r@[k]@ == tiles@[k]@,
        decreases tiles@.len() - i,
    {
        let row = &tiles[i];
        let mut copy: Vec<Tile> = Vec::new();
        let mut j: usize = 0;
        while j < row.len()
            invariant
                j <= row@.len(),
                copy@ =~= row@.subrange(0, j as int),
            decreases row@.len() - j,
        {
            copy.push(row[j]);
            j = j + 1;
        }
        assert(copy@ =~= row@);
        r.push(copy);
        i = i + 1;
    }
    r
}

/// A copy of the agents.
pub(crate) fn copy_agents(agents: &Vec<Agent>) -> (r: Vec<Agent>)
    ensures
        r@.len() == agents@.len(),
        forall|i: int| 0 <= i < agents@.len() ==> #[trigger] r@[i]@ == agents@[i]@,
{
    let mut r: Vec<Agent> = Vec::new();
    let mut i: usize = 0;
    while i < agents.len()
        invariant
            i <= agents@.len(),
            r@.len() == i,
            forall|k: int| 0 <= k < i ==> #[trigger] r@[k]@ == agents@[k]@,
        decreases agents@.len() - i,
    {
        r.push(agents[i].duplicate());
        i = i + 1;
    }
    r
}

} // verus!

use vstd::prelude::*;
use vstd::string::StringExecFns;

use crate::world::{copy_agents, copy_tiles, is_target, Agent, AgentView, GameMap, MapView};

verus! {

/// What a character asks to do: an action word such as `move`, and an
/// optional target such as a compass direction.
#[derive(Clone, Debug)]
pub struct NPCAction {
    pub action: String,
    pub target: Option<String>,
}

/// The words of an action.
pub struct ActionView {
    pub action: Seq<char>,
    pub target: Option<Seq<char>>,
}

impl View for NPCAction {
    type V = ActionView;

    open spec fn view(&self) -> ActionView {
        ActionView {
            action: self.action@,
            target: match self.target {
                Some(t) => Some(t@),
                None => None,
            },
        }
    }
}

/// The whole state of a game.
#[derive(Clone, Debug)]
pub struct GameState {
    pub world: GameMap,
}

impl View for GameState {
    type V = MapView;

    open spec fn view(&self) -> MapView {
        self.world@
    }
}

/// The current state of the game and the one before it.
pub struct Context {
    pub previous_state: Option<GameState>,
    pub state: GameState,
}

/// The action is a move, and names a direction.
pub open spec fn is_move(action: ActionView) -> bool {
    action.action == "move"@ && action.target is Some
}

/// The step `(dx, dy)` that a direction names; `(0, 0)` for a word that names
/// no direction. North is towards smaller `y`.
pub open spec fn direction_delta(dir: Seq<char>) -> (int, int) {
    if dir == "north"@ {
        (0, -1)
    } else if dir == "northeast"@ {
        (1, -1)
    } else if dir == "east"@ {
        (1, 0)
    } else if dir == "southeast"@ {
        (1, 1)
    } else if dir == "south"@ {
        (0, 1)
    } else if dir == "southwest"@ {
        (-1, 1)
    } else if dir == "west"@ {
        (-1, 0)
    } else if dir == "northwest"@ {
        (-1, -1)
    } else {
        (0, 0)
    }
}

/// `v` brought into `lo ..= hi`.
pub open spec fn clamp(v: int, lo: int, hi: int) -> int {
    if v < lo {
        lo
    } else if v > hi {
        hi
    } else {
        v
    }
}

/// Agent `a` after a step of `(dx, dy)`, kept inside a map of `w` by `h`.
pub open spec fn step(a: AgentView, dx: int, dy: int, w: i32, h: i32) -> AgentView {
    AgentView { id: a.id, x: clamp(a.x + dx, 0, w - 1), y: clamp(a.y + dy, 0, h - 1) }
}

/// The agents after the first one named `id` has taken the step `(dx, dy)`.
pub open spec fn moved_agents(
    agents: Seq<AgentView>,
    id: Seq<char>,
    dx: int,
    dy: int,
    w: i32,
    h: i32,
) -> Seq<AgentView> {
    Seq::new(
        agents.len(),
        |k: int|
            if is_target(agents, id, k) {
                step(agents[k], dx, dy, w, h)
            } else {
                agents[k]
            },
    )
}

impl MapView {
    /// The world after the agent named `id` has done `action`: a move shifts the
    /// first agent with that name one step in the named direction, kept inside
    /// the map; anything else leaves the world as it is.
    pub open spec fn after_action(self, id: Seq<char>, action: ActionView) -> MapView {
        if is_move(action) {
            let d = direction_delta(action.target->0);
            MapView {
                width: self.width,
                height: self.height,
                tiles: self.tiles,
                agents: moved_agents(
                    self.agents,
                    id,
                    d.0,
                    d.1,
                    self.width as i32,
                    self.height as i32,
                ),
            }
        } else {
            self
        }
    }

    /// Doing `action` stays within machine integers: where a move shifts an
    /// agent, the map's size read as `i32` is at least one, and the new
    /// coordinates fit in `i32` before they are kept inside the map.
    pub open spec fn action_in_range(self, id: Seq<char>, action: ActionView) -> bool {
        is_move(action) ==> forall|k: int|
            #[trigger] is_target(self.agents, id, k) ==> {
                let d = direction_delta(action.target->0);
                &&& (self.width as i32) >= 1
                &&& (self.height as i32) >= 1
                &&& i32::MIN <= self.agents[k].x + d.0 <= i32::MAX
                &&& i32::MIN <= self.agents[k].y + d.1 <= i32::MAX
            }
    }
}

/// The step that a direction names.
pub fn direction_to_delta(dir: &String) -> (r: (i32, i32))
    ensures
        (r.0 as int, r.1 as int) == direction_delta(dir@),
{
    if *dir == String::from_str("north") {
        (0, -1)
    } else if *dir == String::from_str("northeast") {
        (1, -1)
    } else if *dir == String::from_str("east") {
        (1, 0)
    } else if *dir == String::from_str("southeast") {
        (1, 1)
    } else if *dir == String::from_str("south") {
        (0, 1)
    } else if *dir == String::from_str("southwest") {
        (-1, 1)
    } else if *dir == String::from_str("west") {
        (-1, 0)
    } else if *dir == String::from_str("northwest") {
        (-1, -1)
    } else {
        (0, 0)
    }
}

/// `v` brought into `lo ..= hi`.
fn clamp_i32(v: i32, lo: i32, hi: i32) -> (r: i32)
    requires
        lo <= hi,
    ensures
        r == clamp(v as int, lo as int, hi as int),
{
    if v < lo {
        lo
    } else if v > hi {
        hi
    } else {
        v
    }
}

impl GameState {
    /// A copy of this state.
    pub(crate) fn duplicate(&self) -> (r: GameState)
        ensures
            r@ == self@,
    {
        GameState { world: self.world.duplicate() }
    }

    /// The state after the agent named `agent_id` has done `action`. A `move` with
    /// a direction shifts the first agent with that name one step that way, kept
    /// inside the map (an unknown direction is a step of zero, which still brings
    /// the agent inside the map); any other action leaves the state unchanged.
    pub fn apply_action(&self, agent_id: &String, action: &NPCAction) -> (r: GameState)
        requires
            self@.action_in_range(agent_id@, action@),
        ensures
            r@ == self@.after_action(agent_id@, action@),
    {
        if action.action == String::from_str("move") {
            if let Some(dir) = &action.target {
                let d: (i32, i32) = direction_to_delta(dir);
                let dx: i32 = d.0;
                let dy: i32 = d.1;
                let mut new_agents = copy_agents(&self.world.agents);
                let ghost old_agents = self@.agents;
                match self.world.find_agent(agent_id) {
                    Some(i) => {
                        assert(is_target(old_agents, agent_id@, i as int));
                        assert(new_agents@[i as int]@ == old_agents[i as int]);
                        assert(action@.target->0 == dir@);
                        let w: i32 = #[verifier::truncate] (self.world.width as i32);
                        let h: i32 = #[verifier::truncate] (self.world.height as i32);
                        let nx: i32 = clamp_i32(new_agents[i].x + dx, 0, w - 1);
                        let ny: i32 = clamp_i32(new_agents[i].y + dy, 0, h - 1);
                        let moved = Agent { id: new_agents[i].id.clone(), x: nx, y: ny };
                        new_agents.set(i, moved);
                        proof {
                            assert forall|k: int| 0 <= k < old_agents.len() && k != i implies
                                !is_target(old_agents, agent_id@, k) by {
                                if k < i {
                                    assert(old_agents[k].id != agent_id@);
                                } else {
                                    assert(old_agents[i as int].id == agent_id@);
                                }
                            }
                        }
                    },
                    None => {},
                }
                let world = GameMap {
                    width: self.world.width,
                    height: self.world.height,
                    tiles: copy_tiles(&self.world.tiles),
                    agents: new_agents,
                };
                let r = GameState { world };
                assert(r@.tiles =~= self@.tiles);
                assert(r@.agents =~= self@.after_action(agent_id@, action@).agents);
                return r;
            }
        }
        self.duplicate()
    }

    /// The state after `action`, where it stays within machine integers
    /// (see `apply_action`); `None` where it would not.
    pub fn try_apply_action(&self, agent_id: &String, action: &NPCAction) -> (r: Option<
        GameState,
    >)
        ensures
            match r {
                Some(s) => self@.action_in_range(agent_id@, action@) && s@ == self@.after_action(
                    agent_id@,
                    action@,
                ),
                None => !self@.action_in_range(agent_id@, action@),
            },
    {
        if action.action == String::from_str("move") {
            if let Some(dir) = &action.target {
                if let Some(i) = self.world.find_agent(agent_id) {
                    let d: (i32, i32) = direction_to_delta(dir);
                    let a = &self.world.agents[i];
                    let w: i32 = #[verifier::truncate] (self.world.width as i32);
                    let h: i32 = #[verifier::truncate] (self.world.height as i32);
                    let ok = w >= 1 && h >= 1 && (d.0 >= 0 || a.x >= i32::MIN - d.0) && (d.0
                        <= 0 || a.x <= i32::MAX - d.0) && (d.1 >= 0 || a.y >= i32::MIN - d.1) && (
                    d.1 <= 0 || a.y <= i32::MAX - d.1);
                    if !ok {
                        assert(is_target(self@.agents, agent_id@, i as int));
                        return None;
                    }
                    proof {
                        assert forall|k: int| #[trigger]
                            is_target(self@.agents, agent_id@, k) implies k == i by {
                            if k < i {
                                assert(self@.agents[k].id != agent_id@);
                            } else if k > i {
                                assert(self@.agents[i as int].id == agent_id@);
                            }
                        }
                    }
                }
            }
        }
        Some(self.apply_action(agent_id, action))
    }

    /// The state after the first agent of the world has done `action` (see
    /// `apply_action`), where that stays within machine integers; `None` where it
    /// would not. With no agent, the state is unchanged.
    pub fn apply_action_to_first(&self, action: &NPCAction) -> (r: Option<GameState>)
        ensures
            self@.agents.len() == 0 ==> r is Some && r->0@ == self@,
            self@.agents.len() > 0 ==> match r {
                Some(s) => self@.action_in_range(self@.agents[0].id, action@) && s@
                    == self@.after_action(self@.agents[0].id, action@),
                None => !self@.action_in_range(self@.agents[0].id, action@),
            },
    {
        if self.world.agents.len() == 0 {
            return Some(self.duplicate());
        }
        let first: String = self.world.agents[0].id.clone();
        self.try_apply_action(&first, action)
    }
}

impl Context {
    /// Move the current state into the previous state, and record the new state.
    pub fn update_state(&mut self, state: GameState)
        ensures
            final(self).state == state,
            final(self).previous_state == Some(old(self).state),
    {
        let mut s = state;
        std::mem::swap(&mut self.state, &mut s);
        self.previous_state = Some(s);
    }
}

impl Default for GameState {
    /// A fresh 32 by 16 world.
    fn default() -> (r: Self)
        ensures
            crate::world::is_initial_map(r@, 32, 16),
    {
        GameState { world: GameMap::new(32, 16) }
    }
}

} // verus!

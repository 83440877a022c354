use npc_world::{Agent, Context, GameMap, GameState, Item, NPCAction, Tile};

fn agent(id: &str, x: i32, y: i32) -> Agent {
    Agent { id: id.to_string(), x, y }
}

fn action(action: &str, target: Option<&str>) -> NPCAction {
    NPCAction { action: action.to_string(), target: target.map(|t| t.to_string()) }
}

fn small_map(width: usize, height: usize, agents: Vec<Agent>) -> GameMap {
    GameMap { width, height, tiles: vec![vec![Tile::Path; width]; height], agents }
}

fn positions(state: &GameState) -> Vec<(String, i32, i32)> {
    state.world.agents.iter().map(|a| (a.id.clone(), a.x, a.y)).collect()
}

#[test]
fn new_map_has_treasure_and_alice() {
    let m = GameMap::new(32, 16);
    assert_eq!(m.width, 32);
    assert_eq!(m.height, 16);
    assert_eq!(m.tiles.len(), 16);
    for (y, row) in m.tiles.iter().enumerate() {
        assert_eq!(row.len(), 32);
        for (x, t) in row.iter().enumerate() {
            if x == 2 && y == 2 {
                assert_eq!(*t, Tile::Item(Item::Treasure));
            } else {
                assert_eq!(*t, Tile::Path);
            }
        }
    }
    assert_eq!(m.agents.len(), 1);
    assert_eq!(m.agents[0].id, "Alice");
    assert_eq!((m.agents[0].x, m.agents[0].y), (3, 3));
}

#[test]
fn smallest_new_map() {
    let m = GameMap::new(3, 3);
    assert_eq!(m.get_tile(2, 2), Tile::Item(Item::Treasure));
    assert_eq!(m.get_tile(0, 0), Tile::Path);
    assert_eq!(m.get_tile(3, 3), Tile::Wall);
}

#[test]
fn default_state_is_a_32_by_16_map() {
    let s = GameState::default();
    assert_eq!(s.world.width, 32);
    assert_eq!(s.world.height, 16);
    assert_eq!(s.world.get_tile(2, 2), Tile::Item(Item::Treasure));
    assert_eq!(positions(&s), vec![("Alice".to_string(), 3, 3)]);
}

#[test]
fn get_tile_outside_is_wall() {
    let m = GameMap::new(5, 4);
    assert_eq!(m.get_tile(-1, 0), Tile::Wall);
    assert_eq!(m.get_tile(0, -1), Tile::Wall);
    assert_eq!(m.get_tile(5, 0), Tile::Wall);
    assert_eq!(m.get_tile(0, 4), Tile::Wall);
    assert_eq!(m.get_tile(4, 3), Tile::Path);
    assert_eq!(m.get_tile(i32::MIN, i32::MAX), Tile::Wall);
}

#[test]
fn visible_tiles_around_alice() {
    let m = GameMap::new(32, 16);
    let view = m.agents[0].visible_tiles(&m);
    assert_eq!(view[0][0], Tile::Item(Item::Treasure));
    for r in 0..3 {
        for c in 0..3 {
            if (r, c) != (0, 0) {
                assert_eq!(view[r][c], Tile::Path);
            }
        }
    }
}

#[test]
fn visible_tiles_at_corner_sees_walls() {
    let m = GameMap::new(4, 4);
    let a = agent("Bob", 0, 0);
    let view = a.visible_tiles(&m);
    assert_eq!(view[0], [Tile::Wall, Tile::Wall, Tile::Wall]);
    assert_eq!(view[1], [Tile::Wall, Tile::Path, Tile::Path]);
    assert_eq!(view[2], [Tile::Wall, Tile::Path, Tile::Path]);
}

#[test]
fn find_agent_returns_first_match() {
    let m = small_map(5, 5, vec![agent("A", 0, 0), agent("B", 1, 1), agent("B", 2, 2)]);
    assert_eq!(m.find_agent(&"B".to_string()), Some(1));
    assert_eq!(m.find_agent(&"A".to_string()), Some(0));
    assert_eq!(m.find_agent(&"C".to_string()), None);
}

#[test]
fn move_north_decreases_y() {
    let s = GameState::default();
    let r = s.apply_action(&"Alice".to_string(), &action("move", Some("north")));
    assert_eq!(positions(&r), vec![("Alice".to_string(), 3, 2)]);
    assert_eq!(r.world.tiles, s.world.tiles);
    assert_eq!((r.world.width, r.world.height), (32, 16));
}

#[test]
fn every_direction_moves_one_step() {
    let cases = [
        ("north", 5, 4),
        ("northeast", 6, 4),
        ("east", 6, 5),
        ("southeast", 6, 6),
        ("south", 5, 6),
        ("southwest", 4, 6),
        ("west", 4, 5),
        ("northwest", 4, 4),
        ("up", 5, 5),
    ];
    for (dir, x, y) in cases {
        let s = GameState { world: small_map(10, 10, vec![agent("A", 5, 5)]) };
        let r = s.apply_action(&"A".to_string(), &action("move", Some(dir)));
        assert_eq!(positions(&r), vec![("A".to_string(), x, y)], "direction {}", dir);
    }
}

#[test]
fn moves_are_clamped_to_the_map() {
    let s = GameState { world: small_map(4, 3, vec![agent("A", 0, 0)]) };
    let r = s.apply_action(&"A".to_string(), &action("move", Some("northwest")));
    assert_eq!(positions(&r), vec![("A".to_string(), 0, 0)]);
    let s = GameState { world: small_map(4, 3, vec![agent("A", 3, 2)]) };
    let r = s.apply_action(&"A".to_string(), &action("move", Some("southeast")));
    assert_eq!(positions(&r), vec![("A".to_string(), 3, 2)]);
}

#[test]
fn unknown_direction_brings_outside_agent_inside() {
    let s = GameState { world: small_map(4, 3, vec![agent("A", 10, -5)]) };
    let r = s.apply_action(&"A".to_string(), &action("move", Some("sideways")));
    assert_eq!(positions(&r), vec![("A".to_string(), 3, 0)]);
}

#[test]
fn non_move_actions_leave_state_unchanged() {
    let s = GameState { world: small_map(6, 6, vec![agent("A", 2, 2), agent("B", 3, 3)]) };
    for a in [action("wait", Some("north")), action("move", None), action("error", None), action("Move", Some("north"))] {
        let r = s.apply_action(&"A".to_string(), &a);
        assert_eq!(positions(&r), positions(&s));
        assert_eq!(r.world.tiles, s.world.tiles);
    }
}

#[test]
fn only_the_first_agent_with_the_name_moves() {
    let s = GameState {
        world: small_map(6, 6, vec![agent("B", 1, 1), agent("A", 2, 2), agent("A", 4, 4)]),
    };
    let r = s.apply_action(&"A".to_string(), &action("move", Some("east")));
    assert_eq!(
        positions(&r),
        vec![("B".to_string(), 1, 1), ("A".to_string(), 3, 2), ("A".to_string(), 4, 4)]
    );
}

#[test]
fn missing_agent_leaves_state_unchanged() {
    let s = GameState { world: small_map(6, 6, vec![agent("A", 2, 2)]) };
    let r = s.apply_action(&"Z".to_string(), &action("move", Some("east")));
    assert_eq!(positions(&r), positions(&s));
}

#[test]
fn try_apply_action_refuses_out_of_range_moves() {
    let s = GameState { world: small_map(0, 3, vec![agent("A", 0, 0)]) };
    assert!(s.try_apply_action(&"A".to_string(), &action("move", Some("east"))).is_none());
    let s = GameState { world: small_map(5, 5, vec![agent("A", i32::MAX, 0)]) };
    assert!(s.try_apply_action(&"A".to_string(), &action("move", Some("east"))).is_none());
    let r = s.try_apply_action(&"A".to_string(), &action("move", Some("west"))).unwrap();
    assert_eq!(positions(&r), vec![("A".to_string(), 4, 0)]);
    let s = GameState { world: small_map(0, 0, vec![agent("A", 0, 0)]) };
    let r = s.try_apply_action(&"A".to_string(), &action("look", None)).unwrap();
    assert_eq!(positions(&r), positions(&s));
}

#[test]
fn opposite_moves_cancel() {
    let s = GameState { world: small_map(8, 8, vec![agent("A", 3, 4), agent("B", 1, 1)]) };
    let id = "A".to_string();
    for (there, back) in [("north", "south"), ("northeast", "southwest"), ("east", "west"), ("southeast", "northwest")] {
        let r = s.apply_action(&id, &action("move", Some(there)));
        let r = r.apply_action(&id, &action("move", Some(back)));
        assert_eq!(positions(&r), positions(&s));
    }
}

#[test]
fn moved_agent_stays_inside() {
    let mut s = GameState { world: small_map(3, 2, vec![agent("A", 1, 1)]) };
    let id = "A".to_string();
    for dir in ["south", "south", "east", "east", "north", "north", "west", "west", "west"] {
        s = s.apply_action(&id, &action("move", Some(dir)));
        let a = &s.world.agents[0];
        assert!(0 <= a.x && a.x < 3 && 0 <= a.y && a.y < 2);
    }
    assert_eq!(positions(&s), vec![("A".to_string(), 0, 0)]);
}

#[test]
fn update_state_keeps_previous() {
    let first = GameState::default();
    let second = first.apply_action(&"Alice".to_string(), &action("move", Some("south")));
    let mut ctx = Context { previous_state: None, state: first.clone() };
    ctx.update_state(second.clone());
    assert_eq!(positions(&ctx.state), vec![("Alice".to_string(), 3, 4)]);
    assert_eq!(positions(ctx.previous_state.as_ref().unwrap()), vec![("Alice".to_string(), 3, 3)]);
    let third = second.apply_action(&"Alice".to_string(), &action("move", Some("east")));
    ctx.update_state(third);
    assert_eq!(positions(&ctx.state), vec![("Alice".to_string(), 4, 4)]);
    assert_eq!(positions(ctx.previous_state.as_ref().unwrap()), vec![("Alice".to_string(), 3, 4)]);
}

#[test]
fn apply_action_to_first_moves_the_first_agent() {
    let s = GameState { world: small_map(6, 6, vec![agent("B", 1, 1), agent("A", 2, 2), agent("B", 4, 4)]) };
    let r = s.apply_action_to_first(&action("move", Some("south"))).unwrap();
    assert_eq!(
        positions(&r),
        vec![("B".to_string(), 1, 2), ("A".to_string(), 2, 2), ("B".to_string(), 4, 4)]
    );
    let empty = GameState { world: small_map(6, 6, Vec::new()) };
    let r = empty.apply_action_to_first(&action("move", Some("south"))).unwrap();
    assert!(r.world.agents.is_empty());
    let edge = GameState { world: small_map(6, 6, vec![agent("A", 1, i32::MIN)]) };
    assert!(edge.apply_action_to_first(&action("move", Some("north"))).is_none());
}

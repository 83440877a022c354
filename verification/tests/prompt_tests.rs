use npc_world::prompt::{PROMPT_FOOTER, PROMPT_HEADER};
use npc_world::{
    extract_json_object, generate_prompt_from_view, Agent, Character, GameMap, GameState, Item,
    NPCAction, Tile,
};

fn expected_prompt(lines: &[(&str, &str)]) -> String {
    let mut s = String::from(PROMPT_HEADER);
    for (dir, desc) in lines {
        s.push_str(&format!("- To the {}: {}\n", dir, desc));
    }
    s.push_str(PROMPT_FOOTER);
    s
}

#[test]
fn prompt_header_and_footer_text() {
    assert_eq!(
        PROMPT_HEADER,
        "You are an NPC in a tile-based game. You are seeking treasure. If you see treasure, you should move towards it. Here's what you see:\n"
    );
    assert_eq!(PROMPT_FOOTER, "Respond in JSON: { \"action\": \"move\", \"target\": DIRECTION }");
}

#[test]
fn prompt_describes_every_square() {
    let view = [
        [Tile::Item(Item::Treasure), Tile::Wall, Tile::Character(Character::Enemy)],
        [Tile::Unknown, Tile::Path, Tile::Item(Item::Key)],
        [Tile::Character(Character::NPC), Tile::Item(Item::Chest), Tile::Character(Character::Player)],
    ];
    let p = generate_prompt_from_view(view);
    let expected = expected_prompt(&[
        ("northwest", "An item: Treasure"),
        ("north", "a wall"),
        ("northeast", "Another character 'Enemy'"),
        ("west", "unknown terrain"),
        ("your current position", "a path"),
        ("east", "An item: Key"),
        ("southwest", "Another character 'NPC'"),
        ("south", "An item: Chest"),
        ("southeast", "Another character 'Player'"),
    ]);
    assert_eq!(p, expected);
}

#[test]
fn prompt_matches_debug_names() {
    for item in [Item::Key, Item::Chest, Item::Treasure] {
        assert_eq!(item.name(), format!("{:?}", item));
    }
    for c in [Character::Player, Character::NPC, Character::Enemy] {
        assert_eq!(c.name(), format!("{:?}", c));
    }
}

#[test]
fn npc_prompt_for_alice_on_fresh_map() {
    let s = GameState::default();
    let p = s.npc_prompt(&"Alice".to_string()).unwrap();
    let view = s.world.agents[0].visible_tiles(&s.world);
    assert_eq!(p, generate_prompt_from_view(view));
    assert!(p.contains("- To the northwest: An item: Treasure\n"));
    assert!(p.contains("- To the your current position: a path\n"));
}

#[test]
fn npc_prompt_missing_agent_is_none() {
    let s = GameState::default();
    assert_eq!(s.npc_prompt(&"Bob".to_string()), None);
}

#[test]
fn npc_prompt_with_empty_tile_in_view_is_none() {
    let mut m = GameMap::new(5, 5);
    m.tiles[3][4] = Tile::Empty;
    let s = GameState { world: m };
    assert_eq!(s.npc_prompt(&"Alice".to_string()), None);
    let mut m = GameMap::new(8, 8);
    m.tiles[6][6] = Tile::Empty;
    let s = GameState { world: m };
    assert!(s.npc_prompt(&"Alice".to_string()).is_some());
}

#[test]
fn npc_prompt_with_missing_row_is_none() {
    let mut m = GameMap::new(5, 5);
    m.tiles.truncate(3);
    let s = GameState { world: m };
    assert_eq!(s.npc_prompt(&"Alice".to_string()), None);
}

#[test]
fn npc_prompt_at_integer_edge_is_none() {
    let mut m = GameMap::new(5, 5);
    m.agents.push(Agent { id: "Edge".to_string(), x: i32::MAX, y: 0 });
    let s = GameState { world: m };
    assert_eq!(s.npc_prompt(&"Edge".to_string()), None);
}

#[test]
fn npc_prompt_outside_map_sees_walls() {
    let mut m = GameMap::new(5, 5);
    m.agents.push(Agent { id: "Far".to_string(), x: 100, y: -100 });
    let s = GameState { world: m };
    let p = s.npc_prompt(&"Far".to_string()).unwrap();
    assert_eq!(p, generate_prompt_from_view([[Tile::Wall; 3]; 3]));
}

#[test]
fn extract_json_object_cuts_outer_braces() {
    let r = extract_json_object(b"Sure! {\"action\": \"move\", \"target\": \"north\"} Bye");
    assert_eq!(r.unwrap(), b"{\"action\": \"move\", \"target\": \"north\"}".to_vec());
    let r = extract_json_object(b"```json\n{\"a\": {\"b\": 1}}\n```");
    assert_eq!(r.unwrap(), b"{\"a\": {\"b\": 1}}".to_vec());
}

#[test]
fn extract_json_object_without_braces_is_none() {
    assert_eq!(extract_json_object(b"no json here"), None);
    assert_eq!(extract_json_object(b"only { open"), None);
    assert_eq!(extract_json_object(b"only } close"), None);
    assert_eq!(extract_json_object(b""), None);
}

#[test]
fn extract_json_object_with_reversed_braces() {
    assert_eq!(extract_json_object(b"}{"), Some(Vec::new()));
    assert_eq!(extract_json_object(b"} x {"), None);
    assert_eq!(extract_json_object(b"{}"), Some(b"{}".to_vec()));
}

#[test]
fn extract_json_object_keeps_multibyte_text() {
    let text = "héllo {\"target\": \"naïve\"} ✓";
    let r = extract_json_object(text.as_bytes()).unwrap();
    assert_eq!(std::str::from_utf8(&r).unwrap(), "{\"target\": \"naïve\"}");
}

#[test]
fn status_line_shows_action_and_target() {
    let a = NPCAction { action: "move".to_string(), target: Some("north".to_string()) };
    assert_eq!(a.status_line(), "Action: move, Target: north");
    let a = NPCAction { action: "error".to_string(), target: None };
    assert_eq!(a.status_line(), "Action: error, Target: None");
}

use npc_world::{
    Agent, Character, GameMap, GameState, GlyphCell, Item, MapCell, ScreenArea, Tile, TileColor,
    WorldMapWidget,
};

fn area(x: u16, y: u16, width: u16, height: u16) -> ScreenArea {
    ScreenArea { x, y, width, height }
}

fn world(width: usize, height: usize) -> GameState {
    GameState {
        world: GameMap {
            width,
            height,
            tiles: vec![vec![Tile::Path; width]; height],
            agents: Vec::new(),
        },
    }
}

#[test]
fn world_map_draws_tiles_and_agents() {
    let mut s = world(4, 3);
    s.world.tiles[0][0] = Tile::Wall;
    s.world.tiles[1][2] = Tile::Item(Item::Key);
    s.world.tiles[2][3] = Tile::Empty;
    s.world.agents.push(Agent { id: "Zed".to_string(), x: 1, y: 1 });
    let w = WorldMapWidget { game_state: &s, center_x: 2, center_y: 2 };
    let rows = w.cells(area(10, 20, 10, 10)).unwrap();
    assert_eq!(rows.len(), 3);
    for (i, row) in rows.iter().enumerate() {
        assert_eq!(row.len(), 4);
        for (j, cell) in row.iter().enumerate() {
            assert_eq!(cell.x, 10 + j as u16);
            assert_eq!(cell.y, 20 + i as u16);
        }
    }
    assert_eq!(rows[0][0], MapCell { x: 10, y: 20, symbol: '\u{2588}', color: TileColor::DarkGray });
    assert_eq!(rows[1][2], MapCell { x: 12, y: 21, symbol: '$', color: TileColor::Yellow });
    assert_eq!(rows[2][3], MapCell { x: 13, y: 22, symbol: '.', color: TileColor::White });
    assert_eq!(rows[1][1], MapCell { x: 11, y: 21, symbol: 'Z', color: TileColor::Gray });
    assert_eq!(rows[0][1], MapCell { x: 11, y: 20, symbol: '~', color: TileColor::Gray });
}

#[test]
fn world_map_last_agent_wins_and_empty_name_is_at() {
    let mut s = world(3, 3);
    s.world.agents.push(Agent { id: "Amy".to_string(), x: 0, y: 0 });
    s.world.agents.push(Agent { id: "".to_string(), x: 0, y: 0 });
    s.world.agents.push(Agent { id: "Bo".to_string(), x: 2, y: 2 });
    s.world.agents.push(Agent { id: "Cy".to_string(), x: 2, y: 2 });
    s.world.agents.push(Agent { id: "Out".to_string(), x: 5, y: 5 });
    let w = WorldMapWidget { game_state: &s, center_x: 0, center_y: 0 };
    let rows = w.cells(area(0, 0, 3, 3)).unwrap();
    assert_eq!(rows[0][0].symbol, '@');
    assert_eq!(rows[2][2].symbol, 'C');
}

#[test]
fn world_map_view_scrolls_to_center() {
    let mut s = world(20, 20);
    s.world.tiles[10][10] = Tile::Item(Item::Chest);
    let w = WorldMapWidget { game_state: &s, center_x: 10, center_y: 10 };
    let rows = w.cells(area(0, 0, 4, 2)).unwrap();
    // columns 8..12, rows 9..11
    assert_eq!(rows.len(), 2);
    assert_eq!(rows[0].len(), 4);
    assert_eq!(rows[1][2], MapCell { x: 2, y: 1, symbol: '$', color: TileColor::Yellow });
}

#[test]
fn world_map_clips_at_map_edge() {
    let s = world(5, 5);
    let w = WorldMapWidget { game_state: &s, center_x: 4, center_y: 4 };
    let rows = w.cells(area(0, 0, 6, 6)).unwrap();
    // min corner (1, 1), max corner (5, 5)
    assert_eq!(rows.len(), 4);
    assert_eq!(rows[0].len(), 4);
    assert_eq!(rows[0][0].x, 0);
}

#[test]
fn world_map_with_unknown_tile_in_view_is_none() {
    let mut s = world(3, 3);
    s.world.tiles[1][1] = Tile::Unknown;
    let w = WorldMapWidget { game_state: &s, center_x: 1, center_y: 1 };
    assert_eq!(w.cells(area(0, 0, 3, 3)), None);
    s.world.tiles[1][1] = Tile::Character(Character::Enemy);
    let w = WorldMapWidget { game_state: &s, center_x: 1, center_y: 1 };
    assert_eq!(w.cells(area(0, 0, 3, 3)), None);
    // out of view it does no harm
    let w = WorldMapWidget { game_state: &s, center_x: 0, center_y: 0 };
    assert!(w.cells(area(0, 0, 1, 1)).is_some());
}

#[test]
fn world_map_with_short_rows_is_none() {
    let mut s = world(3, 3);
    s.world.tiles[2].pop();
    let w = WorldMapWidget { game_state: &s, center_x: 1, center_y: 1 };
    assert_eq!(w.cells(area(0, 0, 3, 3)), None);
}

#[test]
fn world_map_with_empty_area_draws_nothing() {
    let s = world(3, 3);
    let w = WorldMapWidget { game_state: &s, center_x: 1, center_y: 1 };
    assert_eq!(w.cells(area(0, 0, 0, 0)), Some(Vec::new()));
    let rows = w.cells(area(0, 0, 0, 2)).unwrap();
    assert_eq!(rows.len(), 2);
    assert!(rows.iter().all(|r| r.is_empty()));
}

#[test]
fn world_map_screen_overflow_is_none() {
    let s = world(10, 10);
    let w = WorldMapWidget { game_state: &s, center_x: 0, center_y: 0 };
    assert_eq!(w.cells(area(65530, 0, 10, 2)), None);
    assert!(w.cells(area(65526, 0, 10, 2)).is_some());
}

#[test]
fn world_map_center_near_integer_limits() {
    let s = world(3, 3);
    let w = WorldMapWidget { game_state: &s, center_x: i32::MIN, center_y: 0 };
    assert_eq!(w.cells(area(0, 0, 4, 4)), None);
    let w = WorldMapWidget { game_state: &s, center_x: i32::MAX, center_y: 0 };
    assert_eq!(w.cells(area(0, 0, 4, 4)), None);
    let w = WorldMapWidget { game_state: &s, center_x: i32::MIN, center_y: 0 };
    assert_eq!(w.cells(area(0, 0, 1, 1)).map(|r| r.len()), Some(1));
}

#[test]
fn glyphs_read_tiles_by_column_first() {
    let mut m = GameMap::new(4, 4);
    m.tiles[0][1] = Tile::Wall;
    m.tiles[1][0] = Tile::Character(Character::Player);
    m.tiles[3][3] = Tile::Unknown;
    let cols = m.glyph_cells(area(0, 0, 4, 4)).unwrap();
    assert_eq!(cols.len(), 4);
    assert!(cols.iter().all(|c| c.len() == 4));
    assert_eq!(cols[0][1], GlyphCell { x: 0, y: 1, glyph: '\u{25A6}' });
    assert_eq!(cols[1][0], GlyphCell { x: 1, y: 0, glyph: '\u{2542}' });
    assert_eq!(cols[2][2], GlyphCell { x: 2, y: 2, glyph: 'I' });
    assert_eq!(cols[3][3], GlyphCell { x: 3, y: 3, glyph: '?' });
    assert_eq!(cols[0][0], GlyphCell { x: 0, y: 0, glyph: '\u{2591}' });
}

#[test]
fn glyphs_are_clipped_to_map_size() {
    let m = GameMap::new(4, 4);
    let cols = m.glyph_cells(area(1, 2, 10, 10)).unwrap();
    assert_eq!(cols.len(), 3);
    assert_eq!(cols[0].len(), 2);
    assert_eq!(cols[1][1], GlyphCell { x: 2, y: 3, glyph: '\u{2591}' });
}

#[test]
fn glyphs_with_empty_tile_is_none() {
    let mut m = GameMap::new(3, 3);
    m.tiles[1][2] = Tile::Empty;
    assert_eq!(m.glyph_cells(area(0, 0, 3, 3)), None);
    assert!(m.glyph_cells(area(0, 0, 1, 3)).is_some());
}

#[test]
fn glyphs_past_stored_columns_is_none() {
    // a map wider than tall: tiles[x] does not exist for x >= height
    let m = GameMap::new(5, 3);
    assert_eq!(m.glyph_cells(area(0, 0, 5, 3)), None);
    assert!(m.glyph_cells(area(0, 0, 3, 3)).is_some());
}

//! A tile world whose characters are steered by a language model: the map and
//! its agents, the moves they make, the prompt that describes what an agent
//! sees, the cutting of the model's reply, and what the map looks like on screen.

pub mod laws;
pub mod prompt;
pub mod render;
pub mod state;
pub mod tile;
pub mod world;

pub use prompt::{extract_json_object, generate_prompt_from_view};
pub use render::{GlyphCell, MapCell, ScreenArea, TileColor, WorldMapWidget};
pub use state::{Context, GameState, NPCAction};
pub use tile::{Character, Item, Tile};
pub use world::{Agent, GameMap};

//! Enemy perception, path search and level geometry for a top-down stealth
//! game.
//!
//! - `grid`: the tile grid of a level, its cells and world positions, and the
//!   steps between cells.
//! - `level_text`: reading a level from its text.
//! - `path`: shortest routes over the grid by A* search.
//! - `walls`: merging wall cells into rectangles.
//! - `obstacles`: the occluders of walls and moving blockers.
//! - `facing`: headings and turning, in integer microradians.
//! - `ai`: perception, path following and chase or search behaviour.
//! - `visibility`: whether a light's reach can show on screen.
//! - `lighting`: the triangle fan of a light mesh.
//!
//! World positions are integer world units.
pub mod grid;
pub mod path;
pub mod level_text;
pub mod walls;
pub mod obstacles;
pub mod facing;
pub mod ai;
pub mod visibility;
pub mod lighting;

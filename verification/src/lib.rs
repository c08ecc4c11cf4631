//! A tick-based snake simulation over an entity-component world.
//!
//! The simulation keeps its entities in a `hecs::World`. Drawing, input
//! decoding and frame scheduling belong to the host: the library takes key
//! codes and elapsed milliseconds, and hands back the rectangles to draw.

pub mod clock;
pub mod components;
pub mod input;
pub mod render;
pub mod snake;
pub mod store;

pub use clock::{advance, Beat, ITERATION_TIME, MAX_DELTA};
pub use components::{
    AccessError, Color, Food, Position, Row, SnakeBody, SnakeHead, MAP_HEIGHT, MAP_WIDTH,
};
pub use input::{decode_key, turn, Direction};
pub use render::{cell_rect, Rect, Surface};
pub use snake::Snake;

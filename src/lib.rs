//! The engine of a terminal snake game: the snake's moves, growth and
//! collisions, the placing of apples, the decoding of key presses, and the
//! screen that a terminal front end draws.
pub mod direction;
pub mod game;
pub mod input;
pub mod laws;
pub mod screen;

pub use direction::Direction;
pub use game::{frame_pause, EndReason, Game, Position, Status, GROWTH};
pub use input::{handle_keyevent, latest_input, Input, Key};
pub use screen::{_update_snake, render_frame, reset_screen, GameItems, Segment, SegmentType};

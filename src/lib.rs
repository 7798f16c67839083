//! A 2D immediate-mode rendering core: drawing commands are captured against
//! a render state and compiled into batched draw calls, each with its own
//! vertex list, index list and a bounded set of bound textures.

pub mod math;
pub mod texture;
pub mod render;
pub mod line;
pub mod state;
pub mod api;
pub mod keyboard;
pub mod mouse;
pub mod event;
pub mod window;
pub mod frame;

//! Verified core of the Pill game engine: configuration and logging settings,
//! the network wire format and connection bookkeeping, input state, the system
//! registry, the render queue and draw batching, and the cooked asset formats.
use vstd::prelude::*;

pub mod assets;
pub mod batching;
pub mod components;
pub mod config;
pub mod graphics;
pub mod input;
pub mod log;
pub mod net_state;
pub mod networking;
pub mod render_queue;
pub mod systems;
pub mod num;
pub mod table;
pub mod text;
pub mod utils;

verus! {

} // verus!

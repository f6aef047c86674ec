//! Runtime support for composed enemies: semantic parts, animation tracks,
//! damage routing through shared health pools, and part hit feedback.

pub mod bindings;
pub mod blink;
pub mod cache;
pub mod compact;
pub mod compose;
pub mod damage;
pub mod frame;
pub mod model;
pub mod playback;
pub mod prepare;
pub mod state;
pub mod tracks;

use vstd::prelude::*;

verus! {

} // verus!

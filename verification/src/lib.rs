//! Gameplay rules of the Carcinisation stage: composed-enemy animation playback,
//! part damage routing, hit feedback, enemy decisions and stage progression.

pub mod attack_input;
pub mod attacks;
pub mod behavior;
pub mod composed;
pub mod depth;
pub mod enemy;
pub mod geometry;
pub mod intent;
pub mod keyed;
pub mod overrides;
pub mod pickup;
pub mod sort;
pub mod sprite_names;
pub mod stage;

use vstd::prelude::*;

verus! {

} // verus!

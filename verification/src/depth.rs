//! Discrete stage depth lanes, 0 (foreground) to 9 (far background).

use vstd::prelude::*;

verus! {

/// A gameplay depth lane.
#[derive(Clone, Copy, Debug, PartialEq, Eq, Structural)]
pub enum Depth {
    Zero,
    One,
    Two,
    Three,
    Four,
    Five,
    Six,
    Seven,
    Eight,
    Nine,
}

impl Depth {
    /// The lane number.
    pub open spec fn spec_to_i8(self) -> i8 {
        match self {
            Depth::Zero => 0,
            Depth::One => 1,
            Depth::Two => 2,
            Depth::Three => 3,
            Depth::Four => 4,
            Depth::Five => 5,
            Depth::Six => 6,
            Depth::Seven => 7,
            Depth::Eight => 8,
            Depth::Nine => 9,
        }
    }

    #[verifier::when_used_as_spec(spec_to_i8)]
    pub fn to_i8(self) -> (r: i8)
        ensures
            r == self.spec_to_i8(),
    {
        match self {
            Depth::Zero => 0,
            Depth::One => 1,
            Depth::Two => 2,
            Depth::Three => 3,
            Depth::Four => 4,
            Depth::Five => 5,
            Depth::Six => 6,
            Depth::Seven => 7,
            Depth::Eight => 8,
            Depth::Nine => 9,
        }
    }

    /// The lane with number `value`, if there is one.
    pub fn from_i8(value: i8) -> (r: Option<Depth>)
        ensures
            match r {
                Some(d) => d.spec_to_i8() == value,
                None => value < 0 || value > 9,
            },
    {
        match value {
            0 => Some(Depth::Zero),
            1 => Some(Depth::One),
            2 => Some(Depth::Two),
            3 => Some(Depth::Three),
            4 => Some(Depth::Four),
            5 => Some(Depth::Five),
            6 => Some(Depth::Six),
            7 => Some(Depth::Seven),
            8 => Some(Depth::Eight),
            9 => Some(Depth::Nine),
            _ => None,
        }
    }
}

/// Lane numbers identify lanes.
pub proof fn lemma_depth_number_injective(a: Depth, b: Depth)
    ensures
        a.spec_to_i8() == b.spec_to_i8() ==> a == b,
{
}

} // verus!

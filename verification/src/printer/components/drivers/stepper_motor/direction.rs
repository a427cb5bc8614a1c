//! Direction of rotation of a motor.
use vstd::prelude::*;

verus! {

/// Direction of rotation.
#[derive(Debug, Clone, Copy, PartialEq, Eq)]
pub enum RotationalDirection {
    /// Clockwise
    CW,
    /// Counter-clockwise
    CCW,
}

impl RotationalDirection {
    /// The sign associated to the direction: `1` for [`RotationalDirection::CW`], `-1` for
    /// [`RotationalDirection::CCW`].
    pub open spec fn spec_sign(self) -> int {
        match self {
            RotationalDirection::CW => 1,
            RotationalDirection::CCW => -1,
        }
    }

    /// Returns the sign associated to the direction (see [`Self::spec_sign`]).
    pub fn as_sign(&self) -> (sign: i8)
        ensures
            sign == self.spec_sign(),
    {
        match self {
            RotationalDirection::CW => 1,
            RotationalDirection::CCW => -1,
        }
    }

    /// Returns [`RotationalDirection::CW`] if `self` is [`RotationalDirection::CCW`], otherwise
    /// returns [`RotationalDirection::CCW`].
    pub fn opposite(&self) -> (opposite: Self)
        ensures
            opposite != *self,
            opposite.spec_sign() == -self.spec_sign(),
    {
        match self {
            RotationalDirection::CW => RotationalDirection::CCW,
            RotationalDirection::CCW => RotationalDirection::CW,
        }
    }
}

} // verus!

//! What is known of an output.

use vstd::prelude::*;

verus! {

/// Rotation and flip that the compositor applies to an output's contents.
#[allow(non_camel_case_types)]
#[derive(Debug, Copy, Clone, PartialEq, Eq, Structural)]
pub enum Transform {
    /// No transform.
    Normal,
    /// A quarter turn.
    _90,
    /// A half turn.
    _180,
    /// A three-quarter turn.
    _270,
    /// A flip around the vertical axis.
    Flipped,
    /// A flip, then a quarter turn.
    Flipped90,
    /// A flip, then a half turn.
    Flipped180,
    /// A flip, then a three-quarter turn.
    Flipped270,
}

impl Transform {
    /// Whether the transform turns the output on its side, so that width and
    /// height trade places.
    pub open spec fn spec_is_portrait(self) -> bool {
        self == Transform::_90 || self == Transform::_270 || self == Transform::Flipped90 || self
            == Transform::Flipped270
    }

    /// Whether the transform turns the output on its side.
    pub fn is_portrait(self) -> (r: bool)
        ensures
            r == self.spec_is_portrait(),
    {
        match self {
            Transform::_90 | Transform::_270 | Transform::Flipped90 | Transform::Flipped270 => true,
            _ => false,
        }
    }
}

/// Pixel dimensions of an output's current mode.
#[derive(Debug, Copy, Clone, PartialEq, Eq, Structural)]
pub struct WlOutputMode {
    pub width: i32,
    pub height: i32,
}

/// Position and size of an output in the compositor's logical space.
#[derive(Debug, Copy, Clone, PartialEq, Eq, Structural)]
pub struct OutputPositioning {
    pub x: i32,
    pub y: i32,
    pub width: i32,
    pub height: i32,
}

/// What is known of one output.
#[derive(Debug, Clone, PartialEq, Eq)]
pub struct OutputInfo {
    /// Identity of the output: the name under which the registry announced it.
    pub id: u32,
    pub name: String,
    pub description: String,
    pub transform: Transform,
    pub scale: i32,
    pub dimensions: OutputPositioning,
    pub mode: WlOutputMode,
}

} // verus!

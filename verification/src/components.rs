//! The component kinds an entity can carry: grid coordinates, a display
//! payload, and the two zero-data tags that mark which systems drive an
//! entity.

use vstd::prelude::*;

verus! {

/// An 8-bit-per-channel color carried by a renderable entity.
#[derive(Clone, Copy, PartialEq, Eq, Debug, Structural)]
pub struct Rgb {
    pub r: u8,
    pub g: u8,
    pub b: u8,
}

/// Grid coordinates of an entity; rewritten by movement systems.
#[derive(Clone, Copy, PartialEq, Eq, Debug, Structural)]
pub struct Position {
    pub x: i32,
    pub y: i32,
}

/// The display payload of an entity: a glyph code with its two colors.
#[derive(Clone, Copy, PartialEq, Eq, Debug, Structural)]
pub struct Renderable {
    pub glyph: u16,
    pub fg: Rgb,
    pub bg: Rgb,
}

/// Tag for the one entity that keyboard input controls.
#[derive(Clone, Copy, PartialEq, Eq, Debug, Structural)]
pub struct Player {}

/// Tag for entities driven by the autonomous demo system.
#[derive(Clone, Copy, PartialEq, Eq, Debug, Structural)]
pub struct LeftMover {}

} // verus!

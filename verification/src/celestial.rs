//! Decorative celestial bodies: a drawable handle, a size in cells,
//! and a flavor tag. Parsed from configuration by the surrounding
//! application and carried through the world for drawing.

use vstd::prelude::*;

use crate::GridPos;

verus! {

pub struct Star {}

pub struct Planet {}

pub struct Asteroid {}

pub enum CelestialFlavor {
    Star(Star),
    Planet(Planet),
    Asteroid(Asteroid),
}

/// One celestial body. The texture handle is opaque here; `size` is
/// its footprint in cells.
pub struct Celestial {
    pub texture: macroquad::texture::Texture2D,
    pub size: GridPos,
    pub flavor: CelestialFlavor,
}

impl Celestial {
    pub fn new(
        texture: macroquad::texture::Texture2D,
        size: GridPos,
        flavor: CelestialFlavor,
    ) -> (r: Celestial)
        ensures
            r.size == size,
            r.texture == texture,
            r.flavor == flavor,
    {
        Celestial { texture, size, flavor }
    }

    pub fn texture(&self) -> (r: &macroquad::texture::Texture2D)
        ensures
            *r == self.texture,
    {
        &self.texture
    }
}

} // verus!

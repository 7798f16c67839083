//! Handles to GPU-resident images, compared by identity.

use vstd::prelude::*;

verus! {

/// A handle to a GPU-resident image. Handles are compared by identity: two
/// handles name the same texture exactly when their ids agree.
#[derive(Clone, Copy, Debug, PartialEq, Eq, Structural)]
pub struct Texture {
    pub id: u64,
    pub width: u32,
    pub height: u32,
}

impl Texture {
    /// A handle for the texture with the given id and size in texels.
    pub fn new(id: u64, width: u32, height: u32) -> (r: Texture)
        ensures
            r.id == id,
            r.width == width,
            r.height == height,
    {
        Texture { id, width, height }
    }

    /// The texture's size in texels.
    pub fn size(&self) -> (r: (u32, u32))
        ensures
            r == (self.width, self.height),
    {
        (self.width, self.height)
    }

    /// Whether both handles name the same texture.
    pub fn same_as(&self, other: &Texture) -> (r: bool)
        ensures
            r == (self.id == other.id),
    {
        self.id == other.id
    }
}

} // verus!

//! Renderable geometry of one block type in one chunk.

use vstd::prelude::*;

use crate::block::TextureId;
use crate::model::Vertex;

verus! {

/// What a mesh holds: its vertex buffer, its index buffer and its texture.
pub struct MeshView {
    pub vertices: Seq<Vertex>,
    pub indices: Seq<u32>,
    pub texture: TextureId,
}

/// A vertex buffer and an index buffer drawn with one texture, ready to be
/// uploaded by a renderer.
pub struct Mesh {
    vertices: Vec<Vertex>,
    indices: Vec<u32>,
    texture: TextureId,
}

impl View for Mesh {
    type V = MeshView;

    closed spec fn view(&self) -> MeshView {
        MeshView { vertices: self.vertices@, indices: self.indices@, texture: self.texture }
    }
}

impl Mesh {
    pub fn new(vertices: Vec<Vertex>, indices: Vec<u32>, texture: TextureId) -> (r: Self)
        ensures
            r@ == (MeshView { vertices: vertices@, indices: indices@, texture }),
    {
        Mesh { vertices, indices, texture }
    }

    pub fn vertices(&self) -> (r: &Vec<Vertex>)
        ensures
            r@ == self@.vertices,
    {
        &self.vertices
    }

    pub fn indices(&self) -> (r: &Vec<u32>)
        ensures
            r@ == self@.indices,
    {
        &self.indices
    }

    /// Number of indices to draw.
    pub fn index_count(&self) -> (r: usize)
        ensures
            r == self@.indices.len(),
    {
        self.indices.len()
    }

    pub fn texture(&self) -> (r: TextureId)
        ensures
            r == self@.texture,
    {
        self.texture
    }
}

} // verus!

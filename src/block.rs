//! Block types and placed blocks.

use vstd::prelude::*;

use crate::position::BlockPosition;

verus! {

/// Handle of a block type in a `BlockRegistry`.
#[derive(Clone, Copy, PartialEq, Eq, Structural, Hash, Debug)]
pub struct BlockId(pub usize);

/// Handle of a block model in a `BlockRegistry`.
#[derive(Clone, Copy, PartialEq, Eq, Structural, Hash, Debug)]
pub struct ModelId(pub usize);

/// Handle of a texture owned by the renderer.
#[derive(Clone, Copy, PartialEq, Eq, Structural, Hash, Debug)]
pub struct TextureId(pub usize);

/// A block type: a name, the model it is drawn with and its texture.
pub struct Block {
    pub name: String,
    pub model: ModelId,
    pub texture: TextureId,
}

impl Block {
    pub fn new(name: &str, model: ModelId, texture: TextureId) -> (r: Self)
        ensures
            r.name@ == name@,
            r.model == model,
            r.texture == texture,
    {
        Block { name: name.to_owned(), model, texture }
    }

    pub fn name(&self) -> (r: &str)
        ensures
            r@ == self.name@,
    {
        self.name.as_str()
    }

    pub fn model(&self) -> (r: ModelId)
        ensures
            r == self.model,
    {
        self.model
    }
}

/// A placed block: its type and its absolute position.
#[derive(Clone, Copy, PartialEq, Eq, Structural, Debug)]
pub struct BlockInstance {
    pub block: BlockId,
    pub position: BlockPosition,
}

impl BlockInstance {
    pub fn new(block: BlockId, position: BlockPosition) -> (r: Self)
        ensures
            r == (BlockInstance { block, position }),
    {
        BlockInstance { block, position }
    }

    pub fn block_type(&self) -> (r: BlockId)
        ensures
            r == self.block,
    {
        self.block
    }

    pub fn position(&self) -> (r: BlockPosition)
        ensures
            r == self.position,
    {
        self.position
    }
}

} // verus!

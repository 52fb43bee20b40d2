//! Named block models and block types, looked up by name or handle.

use vstd::prelude::*;

use crate::block::{Block, BlockId, ModelId, TextureId};
use crate::model::BlockModel;

verus! {

/// Why a registry operation failed.
#[derive(Clone, Copy, PartialEq, Eq, Structural, Debug)]
pub enum RegistryError {
    /// No model or block type has that name or handle.
    NotFound,
    /// The name is already registered.
    Duplicate,
}

/// Whether the names in `s` are pairwise distinct.
pub open spec fn distinct_names(s: Seq<Seq<char>>) -> bool {
    forall|i: int, j: int| 0 <= i < s.len() && 0 <= j < s.len() && i != j ==> s[i] != s[j]
}

/// The block models and block types of a world, each under a unique name.
/// Handles are positions in registration order and stay valid for the
/// registry's lifetime.
pub struct BlockRegistry {
    model_names: Vec<String>,
    models: Vec<BlockModel>,
    blocks: Vec<Block>,
}

impl BlockRegistry {
    /// Names of the models, in registration order.
    pub closed spec fn model_names_spec(&self) -> Seq<Seq<char>> {
        self.model_names@.map_values(|n: String| n@)
    }

    /// The models, in registration order.
    pub closed spec fn models_spec(&self) -> Seq<BlockModel> {
        self.models@
    }

    /// The block types, in registration order.
    pub closed spec fn blocks_spec(&self) -> Seq<Block> {
        self.blocks@
    }

    /// Names of the block types, in registration order.
    pub open spec fn block_names(&self) -> Seq<Seq<char>> {
        self.blocks_spec().map_values(|b: Block| b.name@)
    }

    pub open spec fn wf(&self) -> bool {
        &&& self.model_names_spec().len() == self.models_spec().len()
        &&& distinct_names(self.model_names_spec())
        &&& distinct_names(self.block_names())
        &&& forall|i: int| 0 <= i < self.models_spec().len() ==> #[trigger] self.models_spec()[i].wf()
        &&& forall|i: int|
            0 <= i < self.blocks_spec().len() ==> (#[trigger] self.blocks_spec()[i]).model.0
                < self.models_spec().len()
    }

    /// Whether `id` names a registered block type.
    pub open spec fn has_block(&self, id: BlockId) -> bool {
        id.0 < self.blocks_spec().len()
    }

    /// The block type behind `id`.
    pub open spec fn block_spec(&self, id: BlockId) -> Block {
        self.blocks_spec()[id.0 as int]
    }

    /// The model that block type `id` is drawn with.
    pub open spec fn model_of(&self, id: BlockId) -> BlockModel {
        self.models_spec()[self.block_spec(id).model.0 as int]
    }

    pub fn new() -> (r: Self)
        ensures
            r.wf(),
            r.model_names_spec().len() == 0,
            r.blocks_spec().len() == 0,
    {
        let r = BlockRegistry { model_names: Vec::new(), models: Vec::new(), blocks: Vec::new() };
        assert(r.model_names_spec() =~= Seq::empty());
        r
    }

    /// Registers `model` under `name`. Fails with `Duplicate`, changing
    /// nothing, when a model of that name exists.
    pub fn register_model(&mut self, name: &str, model: BlockModel) -> (r: Result<
        ModelId,
        RegistryError,
    >)
        requires
            old(self).wf(),
            model.wf(),
        ensures
            final(self).wf(),
            old(self).model_names_spec().contains(name@) ==> r == Err::<ModelId, RegistryError>(
                RegistryError::Duplicate) && *final(self) == *old(self),
            !old(self).model_names_spec().contains(name@) ==> r == Ok::<ModelId, RegistryError>(
                ModelId(old(self).models_spec().len() as usize)) && final(self).model_names_spec()
                == old(self).model_names_spec().push(name@) && final(self).models_spec()
                == old(self).models_spec().push(model) && final(self).blocks_spec()
                == old(self).blocks_spec(),
    {
        match self.find_model(name) {
            Ok(id) => {
                assert(self.model_names_spec()[id.0 as int] == name@);
                Err(RegistryError::Duplicate)
            },
            Err(_) => {
                let id = ModelId(self.models.len());
                self.model_names.push(name.to_owned());
                self.models.push(model);
                assert(self.model_names_spec() =~= old(self).model_names_spec().push(name@));
                Ok(id)
            },
        }
    }

    /// The handle of the model registered under `name`.
    pub fn find_model(&self, name: &str) -> (r: Result<ModelId, RegistryError>)
        requires
            self.wf(),
        ensures
            match r {
                Ok(id) => id.0 < self.models_spec().len() && self.model_names_spec()[id.0 as int]
                    == name@,
                Err(e) => e == RegistryError::NotFound && !self.model_names_spec().contains(name@),
            },
    {
        let key = name.to_owned();
        let mut i: usize = 0;
        while i < self.model_names.len()
            invariant
                self.wf(),
                key@ == name@,
                i <= self.model_names@.len(),
                forall|j: int| 0 <= j < i ==> self.model_names_spec()[j] != name@,
            decreases self.model_names@.len() - i,
        {
            if self.model_names[i] == key {
                return Ok(ModelId(i));
            }
            i = i + 1;
        }
        Err(RegistryError::NotFound)
    }

    /// Registers a block type. Fails with `Duplicate` when a block type of
    /// the same name exists, else with `NotFound` when its model handle names
    /// no model; either way nothing changes.
    pub fn register_block(&mut self, block: Block) -> (r: Result<BlockId, RegistryError>)
        requires
            old(self).wf(),
        ensures
            final(self).wf(),
            old(self).block_names().contains(block.name@) ==> r == Err::<BlockId, RegistryError>(
                RegistryError::Duplicate) && *final(self) == *old(self),
            !old(self).block_names().contains(block.name@) && block.model.0
                >= old(self).models_spec().len() ==> r == Err::<BlockId, RegistryError>(
                RegistryError::NotFound) && *final(self) == *old(self),
            !old(self).block_names().contains(block.name@) && block.model.0 < old(self).models_spec().len() ==> {
                &&& r == Ok::<BlockId, RegistryError>(
                    BlockId(old(self).blocks_spec().len() as usize),
                )
                &&& final(self).blocks_spec() == old(self).blocks_spec().push(block)
                &&& final(self).models_spec() == old(self).models_spec()
                &&& final(self).model_names_spec() == old(self).model_names_spec()
            },
    {
        match self.find_block(block.name.as_str()) {
            Ok(id) => {
                assert(self.block_names()[id.0 as int] == block.name@);
                Err(RegistryError::Duplicate)
            },
            Err(_) => {
                if block.model.0 >= self.models.len() {
                    Err(RegistryError::NotFound)
                } else {
                    let id = BlockId(self.blocks.len());
                    let ghost name = block.name@;
                    self.blocks.push(block);
                    assert(self.block_names() =~= old(self).block_names().push(name));
                    Ok(id)
                }
            },
        }
    }

    /// The handle of the block type registered under `name`.
    pub fn find_block(&self, name: &str) -> (r: Result<BlockId, RegistryError>)
        requires
            self.wf(),
        ensures
            match r {
                Ok(id) => self.has_block(id) && self.block_spec(id).name@ == name@,
                Err(e) => e == RegistryError::NotFound && !self.block_names().contains(name@),
            },
    {
        let key = name.to_owned();
        let mut i: usize = 0;
        while i < self.blocks.len()
            invariant
                self.wf(),
                key@ == name@,
                i <= self.blocks@.len(),
                forall|j: int| 0 <= j < i ==> self.block_names()[j] != name@,
            decreases self.blocks@.len() - i,
        {
            if self.blocks[i].name == key {
                return Ok(BlockId(i));
            }
            i = i + 1;
        }
        Err(RegistryError::NotFound)
    }

    /// The block type behind `id`.
    pub fn block(&self, id: BlockId) -> (r: Result<&Block, RegistryError>)
        ensures
            self.has_block(id) ==> r == Ok::<&Block, RegistryError>(&self.block_spec(id)),
            !self.has_block(id) ==> r == Err::<&Block, RegistryError>(RegistryError::NotFound),
    {
        if id.0 < self.blocks.len() {
            Ok(&self.blocks[id.0])
        } else {
            Err(RegistryError::NotFound)
        }
    }

    /// The model that block type `id` is drawn with.
    pub fn block_model(&self, id: BlockId) -> (r: &BlockModel)
        requires
            self.wf(),
            self.has_block(id),
        ensures
            *r == self.model_of(id),
    {
        &self.models[self.blocks[id.0].model.0]
    }

    /// The texture of block type `id`.
    pub fn block_texture(&self, id: BlockId) -> (r: TextureId)
        requires
            self.has_block(id),
        ensures
            r == self.block_spec(id).texture,
    {
        self.blocks[id.0].texture
    }
}

} // verus!

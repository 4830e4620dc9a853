use vstd::prelude::*;
use crate::error::PainterError;
use crate::texture_store::TextureId;

verus! {

/// What batching reads of a mesh: the texture it samples and how many
/// vertices it has.
#[derive(Clone, Copy, Debug, PartialEq, Eq, Structural)]
pub struct MeshInfo {
    pub texture_id: TextureId,
    pub vertex_count: usize,
}

/// The two kinds of primitive that a frame can hold.
#[derive(Clone, Copy, Debug, PartialEq, Eq, Structural)]
pub enum Primitive {
    Mesh(MeshInfo),
    Callback,
}

/// One draw call of a frame: the texture to bind and the position, in the
/// frame's primitive list, of the mesh and clip rectangle to draw with.
#[derive(Clone, Copy, Debug, PartialEq, Eq, Structural)]
pub struct DrawBatch {
    pub texture_id: TextureId,
    pub source: usize,
}

/// A primitive is drawn when it is a mesh that can form a triangle.
pub open spec fn drawable(p: Primitive) -> bool {
    match p {
        Primitive::Mesh(mesh) => mesh.vertex_count >= 3,
        Primitive::Callback => false,
    }
}

pub open spec fn has_callback(primitives: Seq<Primitive>) -> bool {
    exists|i: int| 0 <= i < primitives.len() && #[trigger] primitives[i] == Primitive::Callback
}

/// The batches of a frame: one for each drawable primitive, in the order of
/// the primitives.
pub open spec fn batches_of(primitives: Seq<Primitive>) -> Seq<DrawBatch>
    decreases primitives.len(),
{
    if primitives.len() == 0 {
        Seq::empty()
    } else {
        let before = batches_of(primitives.drop_last());
        match primitives.last() {
            Primitive::Mesh(mesh) => if mesh.vertex_count >= 3 {
                before.push(
                    DrawBatch {
                        texture_id: mesh.texture_id,
                        source: (primitives.len() - 1) as usize,
                    },
                )
            } else {
                before
            },
            Primitive::Callback => before,
        }
    }
}

/// Turns a frame's primitives into its draw batches. Meshes with fewer than
/// three vertices are left out; a callback primitive anywhere in the frame
/// fails the whole frame.
pub fn build(primitives: &Vec<Primitive>) -> (result: Result<Vec<DrawBatch>, PainterError>)
    ensures
        has_callback(primitives@) ==> result == Err::<Vec<DrawBatch>, PainterError>(
            PainterError::UnsupportedPrimitive,
        ),
        !has_callback(primitives@) ==> result is Ok && result->Ok_0@ == batches_of(primitives@),
{
    let mut batches: Vec<DrawBatch> = Vec::new();
    let mut i: usize = 0;
    while i < primitives.len()
        invariant
            i <= primitives@.len(),
            !has_callback(primitives@.take(i as int)),
            batches@ == batches_of(primitives@.take(i as int)),
        decreases primitives@.len() - i,
    {
        proof {
            assert(primitives@.take(i + 1).drop_last() =~= primitives@.take(i as int));
            assert(primitives@.take(i + 1).last() == primitives@[i as int]);
        }
        match primitives[i] {
            Primitive::Mesh(mesh) => {
                if mesh.vertex_count >= 3 {
                    batches.push(DrawBatch { texture_id: mesh.texture_id, source: i });
                }
            },
            Primitive::Callback => {
                return Err(PainterError::UnsupportedPrimitive);
            },
        }
        proof {
            let next = primitives@.take(i + 1);
            if has_callback(next) {
                let k = choose|k: int| 0 <= k < next.len() && #[trigger] next[k] == Primitive::Callback;
                assert(primitives@.take(i as int)[k] == Primitive::Callback);
            }
        }
        i += 1;
    }
    proof {
        assert(primitives@.take(i as int) =~= primitives@);
    }
    Ok(batches)
}

/// Every batch stands for a drawable primitive and names its texture, and
/// the batches follow the order of the primitives.
pub proof fn lemma_batches_follow_primitives(primitives: Seq<Primitive>)
    requires
        primitives.len() <= usize::MAX,
    ensures
        batches_of(primitives).len() <= primitives.len(),
        forall|j: int|
            0 <= j < batches_of(primitives).len() ==> {
                let batch = #[trigger] batches_of(primitives)[j];
                &&& batch.source < primitives.len()
                &&& drawable(primitives[batch.source as int])
                &&& primitives[batch.source as int] == Primitive::Mesh(
                    MeshInfo {
                        texture_id: batch.texture_id,
                        vertex_count: primitives[batch.source as int]->Mesh_0.vertex_count,
                    },
                )
            },
        forall|j: int, k: int|
            0 <= j < k < batches_of(primitives).len() ==> (#[trigger] batches_of(primitives)[j]).source
                < (#[trigger] batches_of(primitives)[k]).source,
    decreases primitives.len(),
{
    if primitives.len() > 0 {
        let shorter = primitives.drop_last();
        lemma_batches_follow_primitives(shorter);
        let before = batches_of(shorter);
        let all = batches_of(primitives);
        assert forall|j: int| 0 <= j < all.len() implies {
            let batch = #[trigger] all[j];
            &&& batch.source < primitives.len()
            &&& drawable(primitives[batch.source as int])
            &&& primitives[batch.source as int] == Primitive::Mesh(
                MeshInfo {
                    texture_id: batch.texture_id,
                    vertex_count: primitives[batch.source as int]->Mesh_0.vertex_count,
                },
            )
        } by {
            if j < before.len() {
                assert(all[j] == before[j]);
                assert(shorter[before[j].source as int] == primitives[before[j].source as int]);
            }
        }
        assert forall|j: int, k: int| 0 <= j < k < all.len() implies (#[trigger] all[j]).source < (
        #[trigger] all[k]).source by {
            assert(all[j] == before[j]);
            if k < before.len() {
                assert(all[k] == before[k]);
            }
        }
    }
}

/// A mesh with fewer than three vertices, like any primitive that is not
/// drawable, has no batch.
pub proof fn lemma_degenerate_mesh_dropped(primitives: Seq<Primitive>, i: int)
    requires
        primitives.len() <= usize::MAX,
        0 <= i < primitives.len(),
        !drawable(primitives[i]),
    ensures
        forall|j: int|
            0 <= j < batches_of(primitives).len() ==> (#[trigger] batches_of(primitives)[j]).source
                != i,
{
    lemma_batches_follow_primitives(primitives);
}

/// Where every primitive is drawable, there is one batch per primitive, and
/// batch `i` draws primitive `i` with the texture of its mesh.
pub proof fn lemma_batches_keep_order(primitives: Seq<Primitive>)
    requires
        primitives.len() <= usize::MAX,
        forall|i: int| 0 <= i < primitives.len() ==> drawable(#[trigger] primitives[i]),
    ensures
        batches_of(primitives).len() == primitives.len(),
        forall|i: int|
            0 <= i < primitives.len() ==> #[trigger] batches_of(primitives)[i] == (DrawBatch {
                texture_id: primitives[i]->Mesh_0.texture_id,
                source: i as usize,
            }),
    decreases primitives.len(),
{
    if primitives.len() > 0 {
        let shorter = primitives.drop_last();
        assert forall|i: int| 0 <= i < shorter.len() implies drawable(#[trigger] shorter[i]) by {
            assert(shorter[i] == primitives[i]);
        }
        lemma_batches_keep_order(shorter);
        assert(drawable(primitives[primitives.len() - 1]));
        assert forall|i: int| 0 <= i < primitives.len() implies #[trigger] batches_of(
            primitives,
        )[i] == (DrawBatch {
            texture_id: primitives[i]->Mesh_0.texture_id,
            source: i as usize,
        }) by {
            if i < shorter.len() {
                assert(batches_of(primitives)[i] == batches_of(shorter)[i]);
                assert(shorter[i] == primitives[i]);
            }
        }
    }
}

/// Every drawable primitive has a batch.
pub proof fn lemma_drawable_is_batched(primitives: Seq<Primitive>, i: int)
    requires
        primitives.len() <= usize::MAX,
        0 <= i < primitives.len(),
        drawable(primitives[i]),
    ensures
        exists|j: int|
            0 <= j < batches_of(primitives).len() && (#[trigger] batches_of(primitives)[j]).source
                == i,
    decreases primitives.len(),
{
    let shorter = primitives.drop_last();
    let all = batches_of(primitives);
    if i == primitives.len() - 1 {
        assert(all[all.len() - 1].source == i);
    } else {
        assert(shorter[i] == primitives[i]);
        lemma_drawable_is_batched(shorter, i);
        let j = choose|j: int|
            0 <= j < batches_of(shorter).len() && (#[trigger] batches_of(shorter)[j]).source == i;
        assert(all[j] == batches_of(shorter)[j]);
    }
}

} // verus!

//! The render commands that draw grass: binding the grass and wind bind
//! groups, and drawing every visible chunk of an entity with the mesh its
//! level of detail calls for.
use crate::chunk::GrassLOD;
use vstd::prelude::*;

verus! {

/// How a render command ended.
#[derive(Clone, Copy, PartialEq, Eq, Structural, Debug)]
pub enum RenderOutcome {
    Success,
    Failure,
}

/// What a bind-group command does: the bind group it sets, at which index,
/// if any, and how it ends.
pub struct BindStep<B> {
    pub bind: Option<(usize, B)>,
    pub outcome: RenderOutcome,
}

/// Sets the grass bind group (colour and blade buffers) at index `I`.
pub struct SetGrassBindGroup<const I: usize>;

impl<const I: usize> SetGrassBindGroup<I> {
    /// The step for an entity whose grass bind group was looked up: with a
    /// bind group, set it at index `I` and succeed; without one, fail and set
    /// nothing.
    pub fn render<B>(bind_group: Option<B>) -> (step: BindStep<B>)
        ensures
            match bind_group {
                Some(b) => step.bind == Some((I, b)) && step.outcome == RenderOutcome::Success,
                None => step.bind is None && step.outcome == RenderOutcome::Failure,
            },
    {
        match bind_group {
            Some(b) => BindStep { bind: Some((I, b)), outcome: RenderOutcome::Success },
            None => BindStep { bind: None, outcome: RenderOutcome::Failure },
        }
    }
}

/// Sets the wind bind group at index `I`: the entity's own wind where it
/// has one, the global wind otherwise.
pub struct SetWindBindGroup<const I: usize>;

impl<const I: usize> SetWindBindGroup<I> {
    /// Sets `local` at index `I` where the entity has it, `global`
    /// otherwise, and succeeds.
    pub fn render<B>(local: Option<B>, global: B) -> (step: BindStep<B>)
        ensures
            step.bind == Some((I, prefer_spec(local, global))),
            step.outcome == RenderOutcome::Success,
    {
        BindStep { bind: Some((I, prefer(local, global))), outcome: RenderOutcome::Success }
    }
}

/// The value in `primary` if there is one, else `fallback`.
pub open spec fn prefer_spec<T>(primary: Option<T>, fallback: T) -> T {
    match primary {
        Some(v) => v,
        None => fallback,
    }
}

/// The value in `primary` if there is one, else `fallback`: the entity's
/// own wind over the global one, a loaded wind map over the fallback image.
pub fn prefer<T>(primary: Option<T>, fallback: T) -> (r: T)
    ensures
        r == prefer_spec(primary, fallback),
{
    match primary {
        Some(v) => v,
        None => fallback,
    }
}

/// A mesh as prepared for the GPU: its vertex count, and its index count
/// where it is drawn from an index buffer.
#[derive(Clone, Copy, PartialEq, Eq, Structural, Debug)]
pub struct GpuMeshDraw {
    pub vertex_count: u32,
    pub index_count: Option<u32>,
}

/// The lower-detail mesh of a grass entity: none set, set but not (yet)
/// prepared for the GPU, or prepared.
#[derive(Clone, Copy, PartialEq, Eq, Structural, Debug)]
pub enum LodMesh {
    Unset,
    Missing,
    Ready(GpuMeshDraw),
}

/// A chunk to draw: its level of detail, and the number of grass instances
/// in its prepared buffer, if that buffer was found.
#[derive(Clone, Copy, PartialEq, Eq, Structural, Debug)]
pub struct ChunkDraw {
    pub lod: GrassLOD,
    pub instances: Option<usize>,
}

/// What a grass entity brings to the draw: its lower-detail mesh and the
/// chunks to draw, in order.
pub struct GrassEntityDraw {
    pub lod_mesh: LodMesh,
    pub chunks: Vec<ChunkDraw>,
}

/// Which of an entity's meshes a draw binds.
#[derive(Clone, Copy, PartialEq, Eq, Structural, Debug)]
pub enum MeshSlot {
    Main,
    Lod,
}

/// One instanced draw call.
#[derive(Clone, Copy, PartialEq, Eq, Structural, Debug)]
pub enum DrawCall {
    Indexed { index_count: u32, instance_count: u32 },
    NonIndexed { vertex_count: u32, instance_count: u32 },
}

/// One chunk's draw: the chunk's position in the list, the mesh bound as
/// vertex buffer 0 (the chunk's instance buffer is vertex buffer 1), and the
/// call.
#[derive(Clone, Copy, PartialEq, Eq, Structural, Debug)]
pub struct GrassDraw {
    pub chunk: usize,
    pub slot: MeshSlot,
    pub call: DrawCall,
}

/// The draws issued, in order, and how the command ended.
pub struct GrassDrawPlan {
    pub draws: Vec<GrassDraw>,
    pub outcome: RenderOutcome,
}

/// The mesh a chunk of the given level of detail is drawn with: the lower
/// detail mesh for a low-detail chunk where the entity has one, the main
/// mesh otherwise.
pub open spec fn chunk_mesh(main: GpuMeshDraw, lod_mesh: LodMesh, lod: GrassLOD) -> (
    MeshSlot,
    GpuMeshDraw,
) {
    match lod {
        GrassLOD::High => (MeshSlot::Main, main),
        GrassLOD::Low => match lod_mesh {
            LodMesh::Ready(m) => (MeshSlot::Lod, m),
            _ => (MeshSlot::Main, main),
        },
    }
}

/// The call that draws `instances` instances of `mesh`: indexed over all
/// its indices where it has an index buffer, over all its vertices
/// otherwise. The instance count is the buffer length cut to 32 bits.
pub open spec fn draw_call(mesh: GpuMeshDraw, instances: usize) -> DrawCall {
    match mesh.index_count {
        Some(c) => DrawCall::Indexed { index_count: c, instance_count: instances as u32 },
        None => DrawCall::NonIndexed {
            vertex_count: mesh.vertex_count,
            instance_count: instances as u32,
        },
    }
}

/// The draw of chunk `i`, whose buffer holds `instances` instances.
pub open spec fn chunk_draw(main: GpuMeshDraw, lod_mesh: LodMesh, i: int, lod: GrassLOD, instances: usize) -> GrassDraw {
    GrassDraw {
        chunk: i as usize,
        slot: chunk_mesh(main, lod_mesh, lod).0,
        call: draw_call(chunk_mesh(main, lod_mesh, lod).1, instances),
    }
}

/// `draws` are the draws of the first `k` chunks, and `k` is the number of
/// chunks before the first one whose buffer is missing (all of them where
/// none is).
pub open spec fn draws_up_to_missing(
    main: GpuMeshDraw,
    lod_mesh: LodMesh,
    chunks: Seq<ChunkDraw>,
    draws: Seq<GrassDraw>,
) -> bool {
    let k = draws.len();
    &&& k <= chunks.len()
    &&& forall|j: int| 0 <= j < k ==> (#[trigger] chunks[j]).instances is Some
    &&& k < chunks.len() ==> chunks[k as int].instances is None
    &&& forall|j: int|
        0 <= j < k ==> #[trigger] draws[j] == chunk_draw(
            main,
            lod_mesh,
            j,
            chunks[j].lod,
            chunks[j].instances->0,
        )
}

/// With every chunk's buffer prepared, every chunk is drawn: one draw per
/// chunk, in the order of the list, each of its own chunk.
pub proof fn lemma_all_chunks_drawn(
    main: GpuMeshDraw,
    lod_mesh: LodMesh,
    chunks: Seq<ChunkDraw>,
    draws: Seq<GrassDraw>,
)
    requires
        draws_up_to_missing(main, lod_mesh, chunks, draws),
        forall|j: int| 0 <= j < chunks.len() ==> (#[trigger] chunks[j]).instances is Some,
        chunks.len() <= usize::MAX,
    ensures
        draws.len() == chunks.len(),
        forall|j: int| 0 <= j < draws.len() ==> (#[trigger] draws[j]).chunk == j,
{
    if draws.len() < chunks.len() {
        assert(chunks[draws.len() as int].instances is Some);
    }
    assert forall|j: int| 0 <= j < draws.len() implies (#[trigger] draws[j]).chunk == j by {
        assert(draws[j] == chunk_draw(main, lod_mesh, j, chunks[j].lod, chunks[j].instances->0));
    }
}

/// Each draw binds the mesh of its chunk's level of detail (the lower
/// detail mesh exactly for a low-detail chunk of an entity that has one
/// prepared, the main mesh otherwise) and draws that very mesh: through its
/// index buffer with its own index count where it has one, over its own
/// vertices otherwise, as many instances as the chunk's buffer holds (cut to
/// 32 bits).
pub proof fn lemma_draws_use_bound_mesh(
    main: GpuMeshDraw,
    lod_mesh: LodMesh,
    chunks: Seq<ChunkDraw>,
    draws: Seq<GrassDraw>,
)
    requires
        draws_up_to_missing(main, lod_mesh, chunks, draws),
        draws.len() <= usize::MAX,
    ensures
        forall|j: int|
            0 <= j < draws.len() ==> {
                let d = #[trigger] draws[j];
                let c = chunks[j];
                let n = (c.instances->0) as u32;
                let m = if d.slot == MeshSlot::Lod {
                    lod_mesh->0
                } else {
                    main
                };
                &&& c.instances is Some
                &&& d.chunk == j
                &&& (d.slot == MeshSlot::Lod) == (c.lod == GrassLOD::Low && lod_mesh is Ready)
                &&& m.index_count is Some ==> d.call == DrawCall::Indexed {
                    index_count: m.index_count->0,
                    instance_count: n,
                }
                &&& m.index_count is None ==> d.call == DrawCall::NonIndexed {
                    vertex_count: m.vertex_count,
                    instance_count: n,
                }
            },
{
    assert forall|j: int| 0 <= j < draws.len() implies (#[trigger] draws[j]).chunk == j by {
        assert(draws[j] == chunk_draw(main, lod_mesh, j, chunks[j].lod, chunks[j].instances->0));
    }
}

/// A high-detail chunk is always drawn with the main mesh, whatever the
/// lower-detail mesh; an entity without a lower-detail mesh draws all its
/// chunks, whatever their level of detail, with its main mesh; one with a prepared
/// lower-detail mesh draws exactly its low-detail chunks with it.
pub proof fn lemma_lod_mesh_choice(main: GpuMeshDraw, low: GpuMeshDraw, lod: GrassLOD)
    ensures
        chunk_mesh(main, LodMesh::Unset, lod) == (MeshSlot::Main, main),
        forall|l: LodMesh| #[trigger] chunk_mesh(main, l, GrassLOD::High) == (MeshSlot::Main, main),
        (chunk_mesh(main, LodMesh::Ready(low), lod).0 == MeshSlot::Lod) == (lod == GrassLOD::Low),
        chunk_mesh(main, LodMesh::Ready(low), lod).0 == MeshSlot::Lod ==> chunk_mesh(main, LodMesh::Ready(low), lod).1 == low,
{
}

/// Draws grass chunks with instancing.
pub struct DrawGrassInstanced;

impl DrawGrassInstanced {
    /// Plans the draws of one grass entity. Without its main mesh (its mesh
    /// instance or prepared mesh not found), or with a lower-detail mesh set
    /// but not prepared, nothing is drawn and the command fails. Otherwise
    /// the chunks are drawn in order, each with the mesh of its level of
    /// detail, until a chunk whose buffer is missing: the command then fails,
    /// keeping the draws already made; if there is none it succeeds.
    pub fn render(main_mesh: Option<GpuMeshDraw>, grass: Option<GrassEntityDraw>) -> (plan: GrassDrawPlan)
        requires
            main_mesh is Some ==> grass is Some,
        ensures
            match main_mesh {
                None => plan.draws.len() == 0 && plan.outcome == RenderOutcome::Failure,
                Some(main) => {
                    let g = grass->0;
                    if g.lod_mesh is Missing {
                        plan.draws.len() == 0 && plan.outcome == RenderOutcome::Failure
                    } else {
                        &&& draws_up_to_missing(main, g.lod_mesh, g.chunks@, plan.draws@)
                        &&& plan.outcome == if plan.draws.len() < g.chunks.len() {
                            RenderOutcome::Failure
                        } else {
                            RenderOutcome::Success
                        }
                        &&& forall|j: int|
                            0 <= j < plan.draws.len() ==> {
                                let d = #[trigger] plan.draws[j];
                                let c = g.chunks[j];
                                let n = (c.instances->0) as u32;
                                let m = if d.slot == MeshSlot::Lod {
                                    g.lod_mesh->0
                                } else {
                                    main
                                };
                                &&& c.instances is Some
                                &&& d.chunk == j
                                &&& (d.slot == MeshSlot::Lod) == (c.lod == GrassLOD::Low && g.lod_mesh is Ready)
                                &&& m.index_count is Some ==> d.call == DrawCall::Indexed {
                                    index_count: m.index_count->0,
                                    instance_count: n,
                                }
                                &&& m.index_count is None ==> d.call == DrawCall::NonIndexed {
                                    vertex_count: m.vertex_count,
                                    instance_count: n,
                                }
                            }
                    }
                },
            },
    {
        let main = match main_mesh {
            Some(m) => m,
            None => return GrassDrawPlan { draws: Vec::new(), outcome: RenderOutcome::Failure },
        };
        let entity = match grass {
            Some(g) => g,
            None => return GrassDrawPlan { draws: Vec::new(), outcome: RenderOutcome::Failure },
        };
        let low = match entity.lod_mesh {
            LodMesh::Unset => (MeshSlot::Main, main),
            LodMesh::Ready(m) => (MeshSlot::Lod, m),
            LodMesh::Missing => {
                return GrassDrawPlan { draws: Vec::new(), outcome: RenderOutcome::Failure };
            },
        };
        let high = (MeshSlot::Main, main);
        let mut draws: Vec<GrassDraw> = Vec::new();
        for i in 0..entity.chunks.len()
            invariant
                main_mesh == Some(main),
                grass == Some(entity),
                entity.lod_mesh !is Missing,
                low == chunk_mesh(main, entity.lod_mesh, GrassLOD::Low),
                high == chunk_mesh(main, entity.lod_mesh, GrassLOD::High),
                draws.len() == i,
                forall|j: int| 0 <= j < i ==> (#[trigger] entity.chunks[j]).instances is Some,
                forall|j: int|
                    0 <= j < i ==> #[trigger] draws[j] == chunk_draw(
                        main,
                        entity.lod_mesh,
                        j,
                        entity.chunks[j].lod,
                        entity.chunks[j].instances->0,
                    ),
        {
            let chunk = entity.chunks[i];
            let instances = match chunk.instances {
                Some(n) => n,
                None => {
                    proof {
                        lemma_draws_use_bound_mesh(main, entity.lod_mesh, entity.chunks@, draws@);
                    }
                    return GrassDrawPlan { draws, outcome: RenderOutcome::Failure };
                },
            };
            let (slot, mesh) = match chunk.lod {
                GrassLOD::Low => low,
                GrassLOD::High => high,
            };
            #[verifier::truncate]
            let instance_count = instances as u32;
            let call = match mesh.index_count {
                Some(c) => DrawCall::Indexed { index_count: c, instance_count },
                None => DrawCall::NonIndexed { vertex_count: mesh.vertex_count, instance_count },
            };
            draws.push(GrassDraw { chunk: i, slot, call });
        }
        proof {
            lemma_draws_use_bound_mesh(main, entity.lod_mesh, entity.chunks@, draws@);
        }
        GrassDrawPlan { draws, outcome: RenderOutcome::Success }
    }
}

} // verus!

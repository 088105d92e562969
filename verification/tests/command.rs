use bevy_procedural_grass::chunk::GrassLOD;
use bevy_procedural_grass::command::{
    prefer, ChunkDraw, DrawCall, DrawGrassInstanced, GpuMeshDraw, GrassDraw, GrassEntityDraw,
    LodMesh, MeshSlot, RenderOutcome, SetGrassBindGroup, SetWindBindGroup,
};

const MAIN: GpuMeshDraw = GpuMeshDraw { vertex_count: 21, index_count: Some(36) };
const LOW: GpuMeshDraw = GpuMeshDraw { vertex_count: 9, index_count: None };

fn chunk(lod: GrassLOD, instances: Option<usize>) -> ChunkDraw {
    ChunkDraw { lod, instances }
}

#[test]
fn grass_bind_group_is_set_at_its_index() {
    let step = SetGrassBindGroup::<2>::render(Some("group"));
    assert_eq!(step.bind, Some((2, "group")));
    assert_eq!(step.outcome, RenderOutcome::Success);
}

#[test]
fn missing_grass_bind_group_fails() {
    let step = SetGrassBindGroup::<2>::render::<u8>(None);
    assert_eq!(step.bind, None);
    assert_eq!(step.outcome, RenderOutcome::Failure);
}

#[test]
fn local_wind_wins_over_global() {
    let step = SetWindBindGroup::<3>::render(Some("local"), "global");
    assert_eq!(step.bind, Some((3, "local")));
    assert_eq!(step.outcome, RenderOutcome::Success);
    let step = SetWindBindGroup::<3>::render(None, "global");
    assert_eq!(step.bind, Some((3, "global")));
    assert_eq!(prefer(None, 5), 5);
    assert_eq!(prefer(Some(4), 5), 4);
}

#[test]
fn draws_each_chunk_with_the_mesh_of_its_lod() {
    let entity = GrassEntityDraw {
        lod_mesh: LodMesh::Ready(LOW),
        chunks: vec![chunk(GrassLOD::High, Some(100)), chunk(GrassLOD::Low, Some(7))],
    };
    let plan = DrawGrassInstanced::render(Some(MAIN), Some(entity));
    assert_eq!(plan.outcome, RenderOutcome::Success);
    assert_eq!(
        plan.draws,
        vec![
            GrassDraw {
                chunk: 0,
                slot: MeshSlot::Main,
                call: DrawCall::Indexed { index_count: 36, instance_count: 100 },
            },
            GrassDraw {
                chunk: 1,
                slot: MeshSlot::Lod,
                call: DrawCall::NonIndexed { vertex_count: 9, instance_count: 7 },
            },
        ]
    );
}

#[test]
fn without_lod_mesh_low_chunks_use_the_main_mesh() {
    let entity = GrassEntityDraw { lod_mesh: LodMesh::Unset, chunks: vec![chunk(GrassLOD::Low, Some(3))] };
    let plan = DrawGrassInstanced::render(Some(MAIN), Some(entity));
    assert_eq!(plan.outcome, RenderOutcome::Success);
    assert_eq!(
        plan.draws,
        vec![GrassDraw {
            chunk: 0,
            slot: MeshSlot::Main,
            call: DrawCall::Indexed { index_count: 36, instance_count: 3 },
        }]
    );
}

#[test]
fn missing_chunk_buffer_fails_after_earlier_draws() {
    let entity = GrassEntityDraw {
        lod_mesh: LodMesh::Unset,
        chunks: vec![
            chunk(GrassLOD::High, Some(1)),
            chunk(GrassLOD::High, None),
            chunk(GrassLOD::High, Some(2)),
        ],
    };
    let plan = DrawGrassInstanced::render(Some(MAIN), Some(entity));
    assert_eq!(plan.outcome, RenderOutcome::Failure);
    assert_eq!(plan.draws.len(), 1);
    assert_eq!(plan.draws[0].chunk, 0);
}

#[test]
fn missing_main_mesh_fails_without_drawing() {
    let plan = DrawGrassInstanced::render(None, None);
    assert_eq!(plan.outcome, RenderOutcome::Failure);
    assert!(plan.draws.is_empty());
}

#[test]
fn unprepared_lod_mesh_fails_without_drawing() {
    let entity = GrassEntityDraw { lod_mesh: LodMesh::Missing, chunks: vec![chunk(GrassLOD::High, Some(1))] };
    let plan = DrawGrassInstanced::render(Some(MAIN), Some(entity));
    assert_eq!(plan.outcome, RenderOutcome::Failure);
    assert!(plan.draws.is_empty());
}

#[test]
fn no_chunks_succeeds_with_no_draws() {
    let entity = GrassEntityDraw { lod_mesh: LodMesh::Unset, chunks: Vec::new() };
    let plan = DrawGrassInstanced::render(Some(MAIN), Some(entity));
    assert_eq!(plan.outcome, RenderOutcome::Success);
    assert!(plan.draws.is_empty());
}

#[test]
fn instance_count_is_cut_to_32_bits() {
    let entity = GrassEntityDraw {
        lod_mesh: LodMesh::Unset,
        chunks: vec![chunk(GrassLOD::High, Some((1usize << 32) + 5))],
    };
    let plan = DrawGrassInstanced::render(Some(LOW), Some(entity));
    assert_eq!(plan.draws[0].call, DrawCall::NonIndexed { vertex_count: 9, instance_count: 5 });
}

//! Queueing grass for drawing: the mesh pipeline key each grass entity is
//! specialised with, made of the view's sample count and HDR setting and of
//! the primitive topology of the entity's mesh.
use bevy::pbr::MeshPipelineKey;
use bevy::render::render_resource::PrimitiveTopology;
use vstd::prelude::*;
use vstd::std_specs::bits::u32_trailing_zeros;

verus! {

/// How a mesh's vertices form primitives, as the GPU reads them.
#[derive(Clone, Copy, PartialEq, Eq, Structural, Debug)]
pub enum MeshTopology {
    PointList,
    LineList,
    LineStrip,
    TriangleList,
    TriangleStrip,
}

/// The number the graphics API gives each topology.
pub open spec fn topology_code(t: MeshTopology) -> u64 {
    match t {
        MeshTopology::PointList => 0,
        MeshTopology::LineList => 1,
        MeshTopology::LineStrip => 2,
        MeshTopology::TriangleList => 3,
        MeshTopology::TriangleStrip => 4,
    }
}

/// Key bits for a sample count: the base-2 logarithm of the count, kept to
/// three bits, placed at bit 22.
pub open spec fn msaa_key(samples: u32) -> u64 {
    ((u32_trailing_zeros(samples) as u64) & 7u64) << 22u64
}

/// Key bits for the HDR setting: bit 0.
pub open spec fn hdr_key(hdr: bool) -> u64 {
    if hdr {
        1u64
    } else {
        0u64
    }
}

/// Key bits for a topology: its code, kept to three bits, placed at bit 60.
pub open spec fn topology_key(t: MeshTopology) -> u64 {
    (topology_code(t) & 7u64) << 60u64
}

/// The key of a view: its sample-count bits together with its HDR bit.
pub open spec fn view_key(samples: u32, hdr: bool) -> u64 {
    msaa_key(samples) | hdr_key(hdr)
}

/// The key a grass mesh is specialised with in a view.
pub open spec fn grass_key(samples: u32, hdr: bool, t: MeshTopology) -> u64 {
    view_key(samples, hdr) | topology_key(t)
}

/// Calls `MeshPipelineKey::from_msaa_samples` and returns the key's bits.
/// bevy_pbr computes them as `(samples.trailing_zeros() & 0b111) <<
/// MSAA_SHIFT_BITS`, where `MSAA_SHIFT_BITS` is one more than the position of
/// the last flag (`DISTANCE_FOG = 1 << 21`), that is 22.
#[verifier::external_body]
fn msaa_key_bits(samples: u32) -> (bits: u64)
    ensures
        bits == msaa_key(samples),
{
    MeshPipelineKey::from_msaa_samples(samples).bits()
}

/// Calls `MeshPipelineKey::from_hdr` and returns the key's bits: bevy_pbr
/// returns `HDR` (`1 << 0`) when `hdr` holds and `NONE` (0) otherwise.
#[verifier::external_body]
fn hdr_key_bits(hdr: bool) -> (bits: u64)
    ensures
        bits == hdr_key(hdr),
{
    MeshPipelineKey::from_hdr(hdr).bits()
}

/// Calls `MeshPipelineKey::from_primitive_topology` on the graphics API's
/// topology and returns the key's bits. bevy_pbr computes them as
/// `(topology as u64 & 0b111) << PRIMITIVE_TOPOLOGY_SHIFT_BITS`, where the
/// shift is `64 - 1 - 3`, that is 60, and wgpu numbers the topologies from 0
/// (`PointList`) to 4 (`TriangleStrip`) in the order of `MeshTopology`.
#[verifier::external_body]
fn topology_key_bits(t: MeshTopology) -> (bits: u64)
    ensures
        bits == topology_key(t),
{
    let p = match t {
        MeshTopology::PointList => PrimitiveTopology::PointList,
        MeshTopology::LineList => PrimitiveTopology::LineList,
        MeshTopology::LineStrip => PrimitiveTopology::LineStrip,
        MeshTopology::TriangleList => PrimitiveTopology::TriangleList,
        MeshTopology::TriangleStrip => PrimitiveTopology::TriangleStrip,
    };
    MeshPipelineKey::from_primitive_topology(p).bits()
}

/// The pipeline key bits of a view with `msaa_samples` samples per pixel,
/// rendering to an HDR target or not.
pub fn grass_view_key(msaa_samples: u32, hdr: bool) -> (key: u64)
    ensures
        key == view_key(msaa_samples, hdr),
        key == (((u32_trailing_zeros(msaa_samples) as u64) & 7u64) << 22u64) | (if hdr {
            1u64
        } else {
            0u64
        }),
        key & !((7u64 << 22u64) | 1u64) == 0u64,
        (key >> 22u64) & 7u64 == (u32_trailing_zeros(msaa_samples) as u64) & 7u64,
        (key & 1u64 == 1u64) == hdr,
{
    let key = msaa_key_bits(msaa_samples) | hdr_key_bits(hdr);
    proof {
        lemma_view_key_fields(msaa_samples, hdr);
    }
    key
}

/// The key of each grass entity in one view: `None` for an entity whose
/// mesh instance or prepared mesh was not found (it is skipped), and
/// otherwise the view's key combined with the bits of the mesh's topology.
pub fn grass_queue(msaa_samples: u32, hdr: bool, grass: &Vec<Option<MeshTopology>>) -> (keys: Vec<
    Option<u64>,
>)
    ensures
        keys.len() == grass.len(),
        forall|i: int|
            0 <= i < grass.len() ==> #[trigger] keys[i] == match grass[i] {
                Some(t) => Some(grass_key(msaa_samples, hdr, t)),
                None => None,
            },
        forall|i: int|
            0 <= i < grass.len() ==> match #[trigger] grass[i] {
                Some(t) => {
                    &&& keys[i] is Some
                    &&& keys[i]->0 & !(((7u64 << 22u64) | (7u64 << 60u64)) | 1u64) == 0u64
                    &&& (keys[i]->0 >> 22u64) & 7u64 == (u32_trailing_zeros(msaa_samples) as u64)
                        & 7u64
                    &&& (keys[i]->0 >> 60u64) & 7u64 == topology_code(t)
                    &&& (keys[i]->0 & 1u64 == 1u64) == hdr
                },
                None => keys[i] is None,
            },
{
    let view = grass_view_key(msaa_samples, hdr);
    let mut keys: Vec<Option<u64>> = Vec::new();
    for i in 0..grass.len()
        invariant
            view == view_key(msaa_samples, hdr),
            keys.len() == i,
            forall|j: int|
                0 <= j < i ==> #[trigger] keys[j] == match grass[j] {
                    Some(t) => Some(grass_key(msaa_samples, hdr, t)),
                    None => None,
                },
    {
        let key = match grass[i] {
            Some(t) => Some(view | topology_key_bits(t)),
            None => None,
        };
        keys.push(key);
    }
    proof {
        assert forall|i: int| 0 <= i < grass.len() implies match #[trigger] grass[i] {
            Some(t) => {
                &&& keys[i] is Some
                &&& keys[i]->0 & !(((7u64 << 22u64) | (7u64 << 60u64)) | 1u64) == 0u64
                &&& (keys[i]->0 >> 22u64) & 7u64 == (u32_trailing_zeros(msaa_samples) as u64) & 7u64
                &&& (keys[i]->0 >> 60u64) & 7u64 == topology_code(t)
                &&& (keys[i]->0 & 1u64 == 1u64) == hdr
            },
            None => keys[i] is None,
        } by {
            if let Some(t) = grass[i] {
                lemma_grass_key_fields(msaa_samples, hdr, t);
            }
        }
    }
    keys
}

/// A view key is made of the sample-count field (bits 22 to 24), holding
/// the logarithm of the sample count, and of bit 0, set exactly for an HDR
/// view; no other bit is set.
pub proof fn lemma_view_key_fields(samples: u32, hdr: bool)
    ensures
        view_key(samples, hdr) == (((u32_trailing_zeros(samples) as u64) & 7u64) << 22u64) | (if hdr {
            1u64
        } else {
            0u64
        }),
        view_key(samples, hdr) & !((7u64 << 22u64) | 1u64) == 0u64,
        (view_key(samples, hdr) >> 22u64) & 7u64 == (u32_trailing_zeros(samples) as u64) & 7u64,
        (view_key(samples, hdr) & 1u64 == 1u64) == hdr,
{
    let x: u64 = u32_trailing_zeros(samples) as u64;
    let a: u64 = x & 7u64;
    assert(x & 7u64 <= 7u64) by (bit_vector);
    let h: u64 = if hdr { 1u64 } else { 0u64 };
    assert(view_key(samples, hdr) == (a << 22u64) | h);
    assert(((a << 22u64) | h) & !((7u64 << 22u64) | 1u64) == 0u64) by (bit_vector)
        requires
            a <= 7u64,
            h <= 1u64,
    ;
    assert((((a << 22u64) | h) >> 22u64) & 7u64 == a) by (bit_vector)
        requires
            a <= 7u64,
            h <= 1u64,
    ;
    assert(((a << 22u64) | h) & 1u64 == h) by (bit_vector)
        requires
            a <= 7u64,
            h <= 1u64,
    ;
}

/// A grass key keeps each of its parts where bevy reads it back: the
/// sample-count field (bits 22 to 24) holds the logarithm of the sample
/// count, the topology field (bits 60 to 62) holds the topology's code, and
/// bit 0 is set exactly for an HDR view; no other bit is set.
pub proof fn lemma_grass_key_fields(samples: u32, hdr: bool, t: MeshTopology)
    ensures
        grass_key(samples, hdr, t) & !(((7u64 << 22u64) | (7u64 << 60u64)) | 1u64) == 0u64,
        (grass_key(samples, hdr, t) >> 22u64) & 7u64 == (u32_trailing_zeros(samples) as u64) & 7u64,
        (grass_key(samples, hdr, t) >> 60u64) & 7u64 == topology_code(t),
        (grass_key(samples, hdr, t) & 1u64 == 1u64) == hdr,
{
    let x: u64 = u32_trailing_zeros(samples) as u64;
    let a: u64 = x & 7u64;
    assert(x & 7u64 <= 7u64) by (bit_vector);
    let h: u64 = hdr_key(hdr);
    let c: u64 = topology_code(t);
    let k: u64 = grass_key(samples, hdr, t);
    assert(k == ((a << 22u64) | h) | ((c & 7u64) << 60u64));
    assert(((((a << 22u64) | h) | ((c & 7u64) << 60u64)) >> 22u64) & 7u64 == a) by (bit_vector)
        requires
            a <= 7u64,
            h <= 1u64,
            c <= 4u64,
    ;
    assert(((((a << 22u64) | h) | ((c & 7u64) << 60u64)) >> 60u64) & 7u64 == c) by (bit_vector)
        requires
            a <= 7u64,
            h <= 1u64,
            c <= 4u64,
    ;
    assert(((((a << 22u64) | h) | ((c & 7u64) << 60u64)) & 1u64) == h) by (bit_vector)
        requires
            a <= 7u64,
            h <= 1u64,
            c <= 4u64,
    ;
    assert(((((a << 22u64) | h) | ((c & 7u64) << 60u64)) & !(((7u64 << 22u64) | (7u64 << 60u64))
        | 1u64)) == 0u64) by (bit_vector)
        requires
            a <= 7u64,
            h <= 1u64,
            c <= 4u64,
    ;
}

} // verus!

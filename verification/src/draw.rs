//! The one draw call that shows the trail buffer: the base mesh, instanced
//! once for each segment.
//!
//! The renderer looks up what the draw needs and carries the call out. What
//! the call is, and whether there is one at all, is decided here.

use vstd::prelude::*;

verus! {

/// A half-open range of elements in a GPU buffer, or of instances.
#[derive(Clone, Copy, Debug, PartialEq, Eq)]
pub struct ElementRange {
    pub start: u32,
    pub end: u32,
}

/// Whether the base mesh is drawn through an index buffer, and if so with
/// how many indices.
#[derive(Clone, Copy, Debug, PartialEq, Eq)]
pub enum BufferInfo {
    Indexed { count: u32 },
    NonIndexed,
}

/// What the renderer found for one entity that carries trails. A `None`
/// stands for a lookup that found nothing.
#[derive(Clone, Copy, Debug)]
pub struct DrawInputs {
    /// The buffer info of the prepared base mesh.
    pub buffer_info: Option<BufferInfo>,
    /// The number of records in the instance buffer of the entity.
    pub instance_count: Option<usize>,
    /// Where the vertices of the base mesh lie in their buffer.
    pub vertex_slice: Option<ElementRange>,
    /// Where the indices of the base mesh lie in their buffer.
    pub index_slice: Option<ElementRange>,
}

/// What to do for one entity.
#[derive(Clone, Copy, Debug, PartialEq, Eq)]
pub enum Draw {
    /// Something is missing: draw nothing this frame.
    Skip,
    /// Draw `indices` of the index buffer, each offset by `base_vertex`.
    Indexed { indices: ElementRange, base_vertex: i32, instances: ElementRange },
    /// Draw `vertices` of the vertex buffer.
    NonIndexed { vertices: ElementRange, instances: ElementRange },
}

/// The instances of a draw over `count` records: all of them, from the
/// first. The GPU counts instances in 32 bits, and a greater count wraps.
pub open spec fn instance_range(count: usize) -> ElementRange {
    ElementRange { start: 0, end: (count as int % 0x1_0000_0000) as u32 }
}

/// The first vertex as the signed offset that an indexed draw adds to each
/// index: the same 32 bits read as a signed number.
pub open spec fn base_vertex(first: u32) -> i32 {
    if first < 0x8000_0000 {
        first as i32
    } else {
        (first - 0x1_0000_0000) as i32
    }
}

/// The draw for `inputs`.
///
/// There is none unless the mesh, its vertices and the instance buffer were
/// all found. An indexed mesh also needs its indices, and the end of their
/// range must fit in 32 bits.
pub open spec fn planned(inputs: DrawInputs) -> Draw {
    match (inputs.buffer_info, inputs.instance_count, inputs.vertex_slice) {
        (Some(BufferInfo::NonIndexed), Some(count), Some(vertices)) => Draw::NonIndexed {
            vertices,
            instances: instance_range(count),
        },
        (Some(BufferInfo::Indexed { count: indices }), Some(count), Some(vertices)) => {
            match inputs.index_slice {
                Some(slice) if slice.start + indices <= u32::MAX => Draw::Indexed {
                    indices: ElementRange {
                        start: slice.start,
                        end: (slice.start + indices) as u32,
                    },
                    base_vertex: base_vertex(vertices.start),
                    instances: instance_range(count),
                },
                _ => Draw::Skip,
            }
        },
        _ => Draw::Skip,
    }
}

/// Decides the draw call for one entity from what the renderer found.
pub fn plan_draw(inputs: &DrawInputs) -> (draw: Draw)
    ensures
        draw == planned(*inputs),
        draw is Skip <==> {
            ||| inputs.buffer_info is None
            ||| inputs.instance_count is None
            ||| inputs.vertex_slice is None
            ||| inputs.buffer_info matches Some(BufferInfo::Indexed { count }) && (
            inputs.index_slice matches Some(slice) ==> slice.start + count > u32::MAX)
        },
{
    let Some(buffer_info) = inputs.buffer_info else {
        return Draw::Skip;
    };
    let Some(count) = inputs.instance_count else {
        return Draw::Skip;
    };
    let Some(vertices) = inputs.vertex_slice else {
        return Draw::Skip;
    };
    let instances = ElementRange { start: 0, end: wrap_count(count) };
    match buffer_info {
        BufferInfo::Indexed { count: indices } => {
            let Some(slice) = inputs.index_slice else {
                return Draw::Skip;
            };
            if indices > u32::MAX - slice.start {
                return Draw::Skip;
            }
            Draw::Indexed {
                indices: ElementRange { start: slice.start, end: slice.start + indices },
                base_vertex: reinterpret(vertices.start),
                instances,
            }
        },
        BufferInfo::NonIndexed => Draw::NonIndexed { vertices, instances },
    }
}

/// The low 32 bits of `count`.
fn wrap_count(count: usize) -> (low: u32)
    ensures
        low == count as int % 0x1_0000_0000,
{
    let wide: u64 = count as u64;
    let low: u32 = #[verifier::truncate] (wide as u32);
    assert(low == wide % 0x1_0000_0000) by (bit_vector)
        requires
            low == wide as u32,
    ;
    low
}

/// The bits of `first` read as a signed number.
fn reinterpret(first: u32) -> (signed: i32)
    ensures
        signed == base_vertex(first),
{
    let signed: i32 = #[verifier::truncate] (first as i32);
    assert(signed == base_vertex(first)) by (bit_vector)
        requires
            signed == first as i32,
    ;
    signed
}

} // verus!

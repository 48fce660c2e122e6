use vstd::prelude::*;

use crate::batching::PassPlan;
use crate::buffers::{SizedBuffer, UploadAction};
use crate::context::{clear_shader_uniform_table, DrawContext};

verus! {

/// Bytes per vertex: nine 32-bit components.
pub const VERTEX_BYTES: usize = 36;

/// Bytes per index.
pub const INDEX_BYTES: usize = 4;

/// Sizes the vertex and index buffers for the geometry of `pass`.
pub fn upload_pass(pass: &PassPlan, vertex_buffer: &mut SizedBuffer, index_buffer: &mut SizedBuffer) -> (r: (
    UploadAction,
    UploadAction,
))
    requires
        pass.vertices@.len() * VERTEX_BYTES <= usize::MAX,
        pass.indices@.len() * INDEX_BYTES <= usize::MAX,
    ensures
        final(vertex_buffer).used == pass.vertices@.len() * VERTEX_BYTES,
        final(index_buffer).used == pass.indices@.len() * INDEX_BYTES,
        final(vertex_buffer).size == if final(vertex_buffer).used > old(vertex_buffer).size {
            final(vertex_buffer).used
        } else {
            old(vertex_buffer).size
        },
        final(index_buffer).size == if final(index_buffer).used > old(index_buffer).size {
            final(index_buffer).used
        } else {
            old(index_buffer).size
        },
        r.0 == if final(vertex_buffer).used > old(vertex_buffer).size {
            UploadAction::Recreate(final(vertex_buffer).used)
        } else {
            UploadAction::Overwrite
        },
        r.1 == if final(index_buffer).used > old(index_buffer).size {
            UploadAction::Recreate(final(index_buffer).used)
        } else {
            UploadAction::Overwrite
        },
        final(vertex_buffer).buffer_type == old(vertex_buffer).buffer_type,
        final(index_buffer).buffer_type == old(index_buffer).buffer_type,
{
    let vertex_bytes = pass.vertices.len() * VERTEX_BYTES;
    let index_bytes = pass.indices.len() * INDEX_BYTES;
    let a = vertex_buffer.ensure_size_and_copy(vertex_bytes);
    let b = index_buffer.ensure_size_and_copy(index_bytes);
    (a, b)
}

/// Ends a frame whose queue was consumed: the vertex and index buffers are
/// emptied (their capacity kept) and the shader-instance table is cleared.
pub fn end_frame(ctx: &mut DrawContext, vertex_buffer: &mut SizedBuffer, index_buffer: &mut SizedBuffer)
    requires
        old(ctx).wf(),
        old(ctx).queue.groups@.len() == 0,
    ensures
        final(ctx).wf(),
        final(ctx).instances@.len() == 0,
        final(ctx).current_shader == 0,
        final(ctx).current_target == old(ctx).current_target,
        final(ctx).queue == old(ctx).queue,
        final(vertex_buffer).used == 0,
        final(index_buffer).used == 0,
        final(vertex_buffer).size == old(vertex_buffer).size,
        final(index_buffer).size == old(index_buffer).size,
{
    vertex_buffer.clear();
    index_buffer.clear();
    clear_shader_uniform_table(ctx);
}

} // verus!

use vstd::prelude::*;

use crate::config::UVec2;
use crate::handles::RenderTargetId;

verus! {

/// What a render target is created from.
pub struct RenderTargetParams {
    pub label: String,
    pub size: UVec2,
}

/// The render targets that exist, with the size each was last built at; ids
/// are handed out in increasing order from `0`, the default target.
pub struct RenderTargetRegistry {
    pub targets: Vec<(RenderTargetId, UVec2)>,
    pub next_id: u32,
}

impl RenderTargetRegistry {
    /// Every registered id was handed out before, and each id appears once.
    pub open spec fn wf(&self) -> bool {
        &&& forall|i: int|
            0 <= i < self.targets@.len() ==> (#[trigger] self.targets@[i]).0.0 < self.next_id
        &&& forall|i: int, j: int|
            0 <= i < j < self.targets@.len() ==> self.targets@[i].0 != self.targets@[j].0
    }

    pub open spec fn has(&self, id: RenderTargetId) -> bool {
        exists|i: int| 0 <= i < self.targets@.len() && self.targets@[i].0 == id
    }

    pub fn new() -> (r: RenderTargetRegistry)
        ensures
            r.wf(),
            r.targets@.len() == 0,
            r.next_id == 0,
    {
        RenderTargetRegistry { targets: Vec::new(), next_id: 0 }
    }

    /// The ids of all render targets.
    pub fn ids(&self) -> (r: Vec<RenderTargetId>)
        ensures
            r@.len() == self.targets@.len(),
            forall|i: int| 0 <= i < r@.len() ==> #[trigger] r@[i] == self.targets@[i].0,
    {
        let mut r: Vec<RenderTargetId> = Vec::new();
        let mut i: usize = 0;
        while i < self.targets.len()
            invariant
                i <= self.targets@.len(),
                r@.len() == i,
                forall|j: int| 0 <= j < i ==> #[trigger] r@[j] == self.targets@[j].0,
            decreases self.targets@.len() - i,
        {
            r.push(self.targets[i].0);
            i = i + 1;
        }
        r
    }
}

/// A fresh render target id.
pub fn gen_render_target(reg: &mut RenderTargetRegistry) -> (r: RenderTargetId)
    requires
        old(reg).next_id < u32::MAX,
    ensures
        r.0 == old(reg).next_id,
        final(reg).next_id == old(reg).next_id + 1,
        final(reg).targets == old(reg).targets,
{
    let id = reg.next_id;
    reg.next_id = id + 1;
    RenderTargetId(id)
}

/// Registers a new render target built from `params` and returns its id.
pub fn create_render_target(reg: &mut RenderTargetRegistry, params: &RenderTargetParams) -> (r:
    RenderTargetId)
    requires
        old(reg).wf(),
        old(reg).next_id < u32::MAX,
    ensures
        final(reg).wf(),
        r.0 == old(reg).next_id,
        !old(reg).has(r),
        final(reg).next_id == old(reg).next_id + 1,
        final(reg).targets@ == old(reg).targets@.push((r, params.size)),
{
    let id = gen_render_target(reg);
    reg.targets.push((id, params.size));
    id
}

/// The parameters of the default target for a window of `width` by `height`
/// pixels (each side at least 1).
pub fn default_rt_params(width: u32, height: u32) -> (r: RenderTargetParams)
    ensures
        r.label@ == "Default RT"@,
        r.size.x == if width == 0 { 1 } else { width },
        r.size.y == if height == 0 { 1 } else { height },
{
    let x = if width == 0 { 1 } else { width };
    let y = if height == 0 { 1 } else { height };
    RenderTargetParams { label: String::from_str("Default RT"), size: UVec2 { x, y } }
}

/// Creates the default target for a window of `width` by `height` pixels; on a
/// fresh registry it gets id `0`.
pub fn create_default_rt(reg: &mut RenderTargetRegistry, width: u32, height: u32) -> (r: (
    RenderTargetId,
    RenderTargetParams,
))
    requires
        old(reg).wf(),
        old(reg).next_id < u32::MAX,
    ensures
        final(reg).wf(),
        r.0.0 == old(reg).next_id,
        r.1.label@ == "Default RT"@,
        r.1.size.x == if width == 0 { 1 } else { width },
        r.1.size.y == if height == 0 { 1 } else { height },
        final(reg).targets@ == old(reg).targets@.push((r.0, r.1.size)),
        final(reg).next_id == old(reg).next_id + 1,
{
    let params = default_rt_params(width, height);
    let id = create_render_target(reg, &params);
    (id, params)
}

} // verus!

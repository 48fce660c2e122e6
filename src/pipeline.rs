use vstd::prelude::*;

use crate::handles::{BlendMode, ShaderId, ShaderInstanceId};
use crate::shader::{def_default, find_uniform, Shader, ShaderInstance, Uniform, UniformDef};

verus! {

/// Everything that tells two render pipelines apart: the custom shader (none
/// for the built-in sprite pipeline), blend mode, depth testing and sample count.
#[derive(Copy, Clone, Debug, PartialEq, Eq, Hash, Structural)]
pub struct PipelineKey {
    pub user_shader: Option<ShaderId>,
    pub blend_mode: BlendMode,
    pub z_buffer: bool,
    pub sample_count: u32,
}

/// The pipeline key of a draw with shader instance `shader` (`0` for the
/// built-in pipeline; else a 1-based index into `instances`).
pub open spec fn key_of(
    instances: Seq<ShaderInstance>,
    shader: ShaderInstanceId,
    blend_mode: BlendMode,
    z_buffer: bool,
    sample_count: u32,
) -> PipelineKey {
    PipelineKey {
        user_shader: if shader.0 == 0 {
            None
        } else {
            Some(instances[shader.0 - 1].id)
        },
        blend_mode,
        z_buffer,
        sample_count,
    }
}

/// The pipeline key of a draw; see `key_of`.
pub fn pipeline_key(
    instances: &Vec<ShaderInstance>,
    shader: ShaderInstanceId,
    blend_mode: BlendMode,
    z_buffer: bool,
    sample_count: u32,
) -> (r: PipelineKey)
    requires
        shader.0 <= instances@.len(),
    ensures
        r == key_of(instances@, shader, blend_mode, z_buffer, sample_count),
{
    let user_shader = if shader.0 == 0 {
        None
    } else {
        Some(instances[(shader.0 - 1) as usize].id)
    };
    PipelineKey { user_shader, blend_mode, z_buffer, sample_count }
}

/// The pipelines built so far, by key; the slot of a key is where the
/// pipeline object is kept.
pub struct PipelineCache {
    pub keys: Vec<PipelineKey>,
}

/// `after` is `before` once `key` has been resolved to slot `slot`; `created`
/// tells whether a new pipeline must be built for it.
pub open spec fn resolved(
    before: PipelineCache,
    after: PipelineCache,
    key: PipelineKey,
    slot: usize,
    created: bool,
) -> bool {
    &&& created == !before.keys@.contains(key)
    &&& created ==> after.keys@ == before.keys@.push(key) && slot == before.keys@.len()
    &&& !created ==> after.keys@ == before.keys@ && slot < before.keys@.len()
        && before.keys@[slot as int] == key
}

impl PipelineCache {
    /// No key has two slots.
    pub open spec fn wf(&self) -> bool {
        forall|i: int, j: int|
            0 <= i < j < self.keys@.len() ==> self.keys@[i] != self.keys@[j]
    }

    pub fn new() -> (r: PipelineCache)
        ensures
            r.wf(),
            r.keys@.len() == 0,
    {
        PipelineCache { keys: Vec::new() }
    }

    /// The slot of `key`, adding the key when it is not cached yet.
    pub fn resolve(&mut self, key: PipelineKey) -> (r: (usize, bool))
        requires
            old(self).wf(),
        ensures
            final(self).wf(),
            resolved(*old(self), *final(self), key, r.0, r.1),
    {
        let mut i: usize = 0;
        while i < self.keys.len()
            invariant
                i <= self.keys@.len(),
                self.keys@ == old(self).keys@,
                old(self).wf(),
                forall|j: int| 0 <= j < i ==> self.keys@[j] != key,
            decreases self.keys@.len() - i,
        {
            if self.keys[i] == key {
                return (i, false);
            }
            i = i + 1;
        }
        let slot = self.keys.len();
        self.keys.push(key);
        (slot, true)
    }
}

/// The same configuration always resolves to the same cached pipeline, and
/// configurations that differ in any field resolve to different ones.
pub proof fn law_pipeline_reuse(
    c0: PipelineCache,
    c1: PipelineCache,
    c2: PipelineCache,
    k1: PipelineKey,
    k2: PipelineKey,
    s1: usize,
    s2: usize,
    n1: bool,
    n2: bool,
)
    requires
        c0.wf(),
        resolved(c0, c1, k1, s1, n1),
        c1.wf(),
        resolved(c1, c2, k2, s2, n2),
    ensures
        k1 == k2 ==> s1 == s2 && !n2,
        k1 != k2 ==> s1 != s2,
{
    assert(c1.keys@[s1 as int] == k1);
    assert(c2.keys@[s2 as int] == k2);
    if k1 == k2 {
        assert(c1.keys@.contains(k2));
        if s1 != s2 {
            assert(c1.wf());
        }
    }
    if k1 != k2 && s1 == s2 {
        if n2 {
            assert(s2 == c1.keys@.len());
        }
    }
}

/// The declaration of `name` in `defs`; a later one overrides an earlier one.
pub open spec fn find_def(defs: Seq<(String, UniformDef)>, name: Seq<char>) -> Option<UniformDef>
    decreases defs.len(),
{
    if defs.len() == 0 {
        None
    } else if defs.last().0@ == name {
        Some(defs.last().1)
    } else {
        find_def(defs.drop_last(), name)
    }
}

/// The value that uniform `name` takes for `instance`: its override, else the
/// default that `shader` declares for it.
pub open spec fn uniform_value(shader: Shader, instance: ShaderInstance, name: Seq<char>) -> Option<
    Uniform,
> {
    match instance.override_of(name) {
        Some(v) => Some(v),
        None => match find_def(shader.uniform_defs@, name) {
            Some(d) => def_default(d),
            None => None,
        },
    }
}

fn lookup_override(instance: &ShaderInstance, name: &String) -> (r: Option<Uniform>)
    ensures
        r == instance.override_of(name@),
{
    let ghost e = instance.entries();
    let mut i: usize = instance.uniforms.len();
    assert(e.take(i as int) == e);
    while i > 0
        invariant
            i <= instance.uniforms@.len(),
            e == instance.entries(),
            find_uniform(e, name@) == find_uniform(e.take(i as int), name@),
        decreases i,
    {
        let ghost t = e.take(i as int);
        assert(t.last() == e[i - 1]);
        assert(t.drop_last() == e.take(i - 1));
        if instance.uniforms[i - 1].0 == *name {
            return Some(instance.uniforms[i - 1].1);
        }
        i = i - 1;
    }
    None
}

/// The declaration of `name` in `defs`; see `find_def`.
pub fn lookup_def(defs: &Vec<(String, UniformDef)>, name: &String) -> (r: Option<UniformDef>)
    ensures
        r == find_def(defs@, name@),
{
    let mut i: usize = defs.len();
    assert(defs@.take(i as int) == defs@);
    while i > 0
        invariant
            i <= defs@.len(),
            find_def(defs@, name@) == find_def(defs@.take(i as int), name@),
        decreases i,
    {
        let ghost t = defs@.take(i as int);
        assert(t.last() == defs@[i - 1]);
        assert(t.drop_last() == defs@.take(i - 1));
        if defs[i - 1].0 == *name {
            return Some(defs[i - 1].1);
        }
        i = i - 1;
    }
    assert(defs@.take(0).len() == 0);
    None
}

/// The value of uniform `name` for `instance`; see `uniform_value`.
pub fn uniform_value_of(shader: &Shader, instance: &ShaderInstance, name: &String) -> (r: Option<Uniform>)
    ensures
        r == uniform_value(*shader, *instance, name@),
{
    match lookup_override(instance, name) {
        Some(v) => Some(v),
        None => match lookup_def(&shader.uniform_defs, name) {
            Some(d) => d.default_value(),
            None => None,
        },
    }
}

/// Every binding of `shader` has a value for `instance`.
pub open spec fn all_uniforms_set(shader: Shader, instance: ShaderInstance) -> bool {
    forall|i: int|
        0 <= i < shader.bindings@.len() ==> (#[trigger] uniform_value(
            shader,
            instance,
            shader.bindings@[i].0@,
        )) is Some
}

/// The position of the first binding of `shader` that has neither an
/// override in `instance` nor a default, if there is one.
pub fn first_missing_uniform(shader: &Shader, instance: &ShaderInstance) -> (r: Option<usize>)
    ensures
        r is None <==> all_uniforms_set(*shader, *instance),
        r matches Some(i) ==> i < shader.bindings@.len() && uniform_value(
            *shader,
            *instance,
            shader.bindings@[i as int].0@,
        ) is None && forall|j: int|
            0 <= j < i ==> (#[trigger] uniform_value(
                *shader,
                *instance,
                shader.bindings@[j].0@,
            )) is Some,
{
    let mut i: usize = 0;
    while i < shader.bindings.len()
        invariant
            i <= shader.bindings@.len(),
            forall|j: int|
                0 <= j < i ==> (#[trigger] uniform_value(
                    *shader,
                    *instance,
                    shader.bindings@[j].0@,
                )) is Some,
        decreases shader.bindings@.len() - i,
    {
        if uniform_value_of(shader, instance, &shader.bindings[i].0).is_none() {
            return Some(i);
        }
        i = i + 1;
    }
    None
}

/// The values to upload for `instance`, one per binding of `shader` in binding
/// order, each paired with its binding slot. Every binding must have an
/// override or a default.
pub fn resolve_uniform_values(shader: &Shader, instance: &ShaderInstance) -> (r: Vec<(u32, Uniform)>)
    requires
        all_uniforms_set(*shader, *instance),
    ensures
        r@.len() == shader.bindings@.len(),
        forall|i: int|
            0 <= i < r@.len() ==> (#[trigger] r@[i]).0 == shader.bindings@[i].1 && Some(r@[i].1)
                == uniform_value(*shader, *instance, shader.bindings@[i].0@),
{
    let mut out: Vec<(u32, Uniform)> = Vec::new();
    let mut i: usize = 0;
    while i < shader.bindings.len()
        invariant
            i <= shader.bindings@.len(),
            all_uniforms_set(*shader, *instance),
            out@.len() == i,
            forall|j: int|
                0 <= j < i ==> (#[trigger] out@[j]).0 == shader.bindings@[j].1 && Some(out@[j].1)
                    == uniform_value(*shader, *instance, shader.bindings@[j].0@),
        decreases shader.bindings@.len() - i,
    {
        let value = match uniform_value_of(shader, instance, &shader.bindings[i].0) {
            Some(v) => v,
            None => {
                // ruled out by `all_uniforms_set`
                assert(uniform_value(*shader, *instance, shader.bindings@[i as int].0@) is Some);
                return out;
            },
        };
        out.push((shader.bindings[i].1, value));
        i = i + 1;
    }
    out
}

/// A declared uniform without an override takes its default, and an override
/// wins over the default; instances made before the override are unaffected.
pub proof fn law_uniform_fallback(
    shader: Shader,
    base: ShaderInstance,
    name: Seq<char>,
    value: Uniform,
    default: UniformDef,
    derived: ShaderInstance,
)
    requires
        base.override_of(name) is None,
        find_def(shader.uniform_defs@, name) == Some(default),
        def_default(default) is Some,
        derived.entries() == base.entries().push((name, value)),
    ensures
        uniform_value(shader, base, name) == def_default(default),
        uniform_value(shader, derived, name) == Some(value),
{
    assert(derived.entries().drop_last() == base.entries());
}

} // verus!

use vstd::prelude::*;

use crate::handles::ShaderId;

verus! {

/// A uniform value; every component is the IEEE-754 bit pattern of an `f32`.
#[derive(Copy, Clone, Debug, PartialEq, Eq, Hash, Structural)]
pub enum Uniform {
    F32(u32),
    Vec2(u32, u32),
    Vec3(u32, u32, u32),
    Vec4(u32, u32, u32, u32),
}

/// A declared uniform: its type and, optionally, its default value (as bits).
#[derive(Copy, Clone, Debug)]
pub enum UniformDef {
    F32(Option<u32>),
    Vec2(Option<(u32, u32)>),
    Vec3(Option<(u32, u32, u32)>),
    Vec4(Option<(u32, u32, u32, u32)>),
}

pub open spec fn def_default(d: UniformDef) -> Option<Uniform> {
    match d {
        UniformDef::F32(Some(x)) => Some(Uniform::F32(x)),
        UniformDef::Vec2(Some((x, y))) => Some(Uniform::Vec2(x, y)),
        UniformDef::Vec3(Some((x, y, z))) => Some(Uniform::Vec3(x, y, z)),
        UniformDef::Vec4(Some((x, y, z, w))) => Some(Uniform::Vec4(x, y, z, w)),
        _ => None,
    }
}

impl UniformDef {
    /// The default value declared for the uniform, if any.
    pub fn default_value(&self) -> (r: Option<Uniform>)
        ensures
            r == def_default(*self),
    {
        match *self {
            UniformDef::F32(Some(x)) => Some(Uniform::F32(x)),
            UniformDef::Vec2(Some((x, y))) => Some(Uniform::Vec2(x, y)),
            UniformDef::Vec3(Some((x, y, z))) => Some(Uniform::Vec3(x, y, z)),
            UniformDef::Vec4(Some((x, y, z, w))) => Some(Uniform::Vec4(x, y, z, w)),
            _ => None,
        }
    }

    /// The size in bytes of the uniform's buffer: four per component.
    pub fn byte_size(&self) -> (r: u64)
        ensures
            r == match *self {
                UniformDef::F32(_) => 4u64,
                UniformDef::Vec2(_) => 8u64,
                UniformDef::Vec3(_) => 12u64,
                UniformDef::Vec4(_) => 16u64,
            },
    {
        match *self {
            UniformDef::F32(_) => 4,
            UniformDef::Vec2(_) => 8,
            UniformDef::Vec3(_) => 12,
            UniformDef::Vec4(_) => 16,
        }
    }

    /// The WGSL type name of the uniform.
    pub fn to_wgsl(&self) -> (r: &'static str)
        ensures
            r@ == wgsl_type_name(*self),
    {
        match *self {
            UniformDef::F32(_) => "f32",
            UniformDef::Vec2(_) => "vec2<f32>",
            UniformDef::Vec3(_) => "vec3<f32>",
            UniformDef::Vec4(_) => "vec4<f32>",
        }
    }
}

pub open spec fn wgsl_type_name(d: UniformDef) -> Seq<char> {
    match d {
        UniformDef::F32(_) => "f32"@,
        UniformDef::Vec2(_) => "vec2<f32>"@,
        UniformDef::Vec3(_) => "vec3<f32>"@,
        UniformDef::Vec4(_) => "vec4<f32>"@,
    }
}

/// Named uniform values as plain sequences of characters.
pub open spec fn uniform_entries(s: Seq<(String, Uniform)>) -> Seq<(Seq<char>, Uniform)> {
    s.map_values(|p: (String, Uniform)| (p.0@, p.1))
}

/// The value bound to `name` in `entries`; a later entry overrides an earlier one.
pub open spec fn find_uniform(entries: Seq<(Seq<char>, Uniform)>, name: Seq<char>) -> Option<
    Uniform,
>
    decreases entries.len(),
{
    if entries.len() == 0 {
        None
    } else if entries.last().0 == name {
        Some(entries.last().1)
    } else {
        find_uniform(entries.drop_last(), name)
    }
}

/// A shader together with a snapshot of uniform overrides.
pub struct ShaderInstance {
    pub id: ShaderId,
    pub uniforms: Vec<(String, Uniform)>,
}

impl ShaderInstance {
    pub open spec fn entries(&self) -> Seq<(Seq<char>, Uniform)> {
        uniform_entries(self.uniforms@)
    }

    /// The override this instance holds for `name`.
    pub open spec fn override_of(&self, name: Seq<char>) -> Option<Uniform> {
        find_uniform(self.entries(), name)
    }

    /// A copy of this instance that binds `name` to `value` as well.
    pub fn with_uniform(&self, name: &str, value: Uniform) -> (r: ShaderInstance)
        ensures
            r.id == self.id,
            r.entries() == self.entries().push((name@, value)),
            r.override_of(name@) == Some(value),
            forall|n: Seq<char>| n != name@ ==> #[trigger] r.override_of(n) == self.override_of(n),
    {
        let mut uniforms: Vec<(String, Uniform)> = Vec::new();
        let mut i: usize = 0;
        while i < self.uniforms.len()
            invariant
                i <= self.uniforms@.len(),
                uniforms@.len() == i,
                forall|k: int|
                    0 <= k < i ==> (#[trigger] uniforms@[k]).0@ == self.uniforms@[k].0@ && uniforms@[k].1
                        == self.uniforms@[k].1,
            decreases self.uniforms@.len() - i,
        {
            let n = self.uniforms[i].0.clone();
            let u = self.uniforms[i].1;
            assert(n@ == self.uniforms@[i as int].0@);
            uniforms.push((n, u));
            i = i + 1;
        }
        assert(uniform_entries(uniforms@) =~= uniform_entries(self.uniforms@));
        uniforms.push((String::from_str(name), value));
        let r = ShaderInstance { id: self.id, uniforms };
        assert(r.entries() =~= self.entries().push((name@, value)));
        assert(r.entries().drop_last() == self.entries());
        r
    }
}

/// A registered shader program: its full source, declared uniforms and the
/// binding slot of each uniform (slots follow the name order).
pub struct Shader {
    pub id: ShaderId,
    pub name: String,
    pub source: String,
    pub uniform_defs: Vec<(String, UniformDef)>,
    pub bindings: Vec<(String, u32)>,
}

/// Registered shaders, at most one per id.
pub struct ShaderMap {
    pub shaders: Vec<Shader>,
}

impl ShaderMap {
    pub open spec fn wf(&self) -> bool {
        forall|i: int, j: int|
            0 <= i < j < self.shaders@.len() ==> self.shaders@[i].id != self.shaders@[j].id
    }

    pub open spec fn has(&self, id: ShaderId) -> bool {
        exists|i: int| 0 <= i < self.shaders@.len() && self.shaders@[i].id == id
    }

    pub fn new() -> (r: ShaderMap)
        ensures
            r.wf(),
            r.shaders@.len() == 0,
    {
        ShaderMap { shaders: Vec::new() }
    }

    pub fn contains(&self, id: ShaderId) -> (r: bool)
        ensures
            r == self.has(id),
    {
        let mut i: usize = 0;
        while i < self.shaders.len()
            invariant
                i <= self.shaders@.len(),
                forall|j: int| 0 <= j < i ==> self.shaders@[j].id != id,
            decreases self.shaders@.len() - i,
        {
            if self.shaders[i].id.0 == id.0 {
                return true;
            }
            i = i + 1;
        }
        false
    }

    /// The shader registered under `id`.
    pub fn get(&self, id: ShaderId) -> (r: Option<&Shader>)
        requires
            self.wf(),
        ensures
            r is None <==> !self.has(id),
            r matches Some(s) ==> s.id == id && exists|i: int|
                0 <= i < self.shaders@.len() && self.shaders@[i] == *s,
    {
        let mut i: usize = 0;
        while i < self.shaders.len()
            invariant
                i <= self.shaders@.len(),
                forall|j: int| 0 <= j < i ==> self.shaders@[j].id != id,
            decreases self.shaders@.len() - i,
        {
            if self.shaders[i].id.0 == id.0 {
                return Some(&self.shaders[i]);
            }
            i = i + 1;
        }
        None
    }

    /// Registers `shader` under `id`, replacing what was there.
    pub fn insert_shader(&mut self, id: ShaderId, shader: Shader)
        requires
            old(self).wf(),
            shader.id == id,
        ensures
            final(self).wf(),
            final(self).has(id),
            forall|k: ShaderId| k != id ==> (#[trigger] final(self).has(k) <==> old(self).has(k)),
            forall|i: int|
                0 <= i < final(self).shaders@.len() && final(self).shaders@[i].id == id
                    ==> final(self).shaders@[i] == shader,
            forall|i: int|
                0 <= i < old(self).shaders@.len() && old(self).shaders@[i].id != id ==> exists|
                    j: int,
                | 0 <= j < final(self).shaders@.len() && final(self).shaders@[j] == old(
                    self,
                ).shaders@[i],
    {
        let mut i: usize = 0;
        while i < self.shaders.len()
            invariant
                i <= self.shaders@.len(),
                self.shaders@ == old(self).shaders@,
                old(self).wf(),
                shader.id == id,
                forall|j: int| 0 <= j < i ==> self.shaders@[j].id != id,
            decreases self.shaders@.len() - i,
        {
            if self.shaders[i].id.0 == id.0 {
                let ghost sh = shader;
                self.shaders.set(i, shader);
                proof {
                    let s0 = old(self).shaders@;
                    let s1 = self.shaders@;
                    assert(s1 == s0.update(i as int, sh));
                    assert forall|k: ShaderId| k != id implies (#[trigger] self.has(k) <==> old(
                        self,
                    ).has(k)) by {
                        if self.has(k) {
                            let j = choose|j: int| 0 <= j < s1.len() && s1[j].id == k;
                            assert(s0[j].id == k);
                        }
                        if old(self).has(k) {
                            let j = choose|j: int| 0 <= j < s0.len() && s0[j].id == k;
                            assert(s1[j].id == k);
                        }
                    }
                    assert forall|a: int|
                        0 <= a < s0.len() && s0[a].id != id implies exists|b: int|
                        0 <= b < s1.len() && s1[b] == s0[a] by {
                        assert(s1[a] == s0[a]);
                    }
                    assert(s1[i as int].id == id);
                }
                return;
            }
            i = i + 1;
        }
        self.shaders.push(shader);
        proof {
            let s0 = old(self).shaders@;
            let s1 = self.shaders@;
            assert(s1[s0.len() as int].id == id);
            assert forall|k: ShaderId| k != id implies (#[trigger] self.has(k) <==> old(self).has(
                k,
            )) by {
                if self.has(k) {
                    let j = choose|j: int| 0 <= j < s1.len() && s1[j].id == k;
                    assert(s0[j].id == k);
                }
                if old(self).has(k) {
                    let j = choose|j: int| 0 <= j < s0.len() && s0[j].id == k;
                    assert(s1[j].id == k);
                }
            }
            assert forall|a: int|
                0 <= a < s0.len() && s0[a].id != id implies exists|b: int|
                0 <= b < s1.len() && s1[b] == s0[a] by {
                assert(s1[a] == s0[a]);
            }
        }
    }
}

/// Stores source text together with the file it was read from, so that it can
/// be read again when the file changes.
pub struct ReloadableShaderSource {
    pub static_source: String,
    pub path: String,
}

} // verus!

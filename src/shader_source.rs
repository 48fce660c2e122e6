use itertools::Itertools;
use vstd::prelude::*;

use crate::context::{gen_shader_id, DrawContext};
use crate::handles::ShaderId;
use crate::pipeline::find_def;
use crate::shader::{wgsl_type_name, Shader, ShaderMap, UniformDef};
use crate::uniforms::{decl_texts, scan_from, scan_uniforms};

verus! {

broadcast use vstd::seq_lib::group_to_multiset_ensures;

/// Camera bind group, vertex stage and texture bindings that precede every
/// sprite fragment shader.
pub const SPRITE_SHADER_PREFIX: &'static str = "struct CameraUniform {
    view_proj: mat4x4<f32>,
};

@group(1) @binding(0)
var<uniform> camera: CameraUniform;

struct VertexInput {
    @location(0) position: vec3<f32>,
    @location(1) tex_coords: vec2<f32>,
    @location(2) color: vec4<f32>,
};

struct VertexOutput {
    @builtin(position) clip_position: vec4<f32>,
    @location(0) tex_coords: vec2<f32>,
    @location(1) color: vec4<f32>,
};

@vertex
fn vs_main(model: VertexInput) -> VertexOutput {
    var out: VertexOutput;
    out.tex_coords = model.tex_coords;
    out.color = model.color;
    out.clip_position = camera.view_proj * vec4<f32>(model.position, f32(1));
    return out;
}

@group(0) @binding(0)
var t_diffuse: texture_2d<f32>;
@group(0) @binding(1)
var s_diffuse: sampler;
";

/// Camera bind group and full-screen vertex stage that precede every
/// post-processing fragment shader.
pub const POST_PROCESSING_PREFIX: &'static str = "struct CameraUniform {
    view_proj: mat4x4<f32>,
};

@group(1) @binding(0)
var<uniform> camera: CameraUniform;

struct VertexOutput {
    @builtin(position) clip_position: vec4<f32>,
    @location(0) tex_coords: vec2<f32>,
};

@vertex
fn vs_main(@builtin(vertex_index) index: u32) -> VertexOutput {
    var out: VertexOutput;
    let x = f32(i32(index & 1u) * 4 - 1);
    let y = f32(i32(index >> 1u) * 4 - 1);
    out.clip_position = vec4<f32>(x, y, f32(0), f32(1));
    out.tex_coords = vec2<f32>((x + f32(1)) / f32(2), (f32(1) - y) / f32(2));
    return out;
}

@group(0) @binding(0)
var t_diffuse: texture_2d<f32>;
@group(0) @binding(1)
var s_diffuse: sampler;
";

/// The full source of a sprite shader whose fragment stage is `source`.
pub fn sprite_shader_from_fragment(source: &str) -> (r: String)
    ensures
        r@ == SPRITE_SHADER_PREFIX@ + source@,
{
    let mut r = String::from_str(SPRITE_SHADER_PREFIX);
    r.append(source);
    r
}

/// The full source of a post-processing shader whose fragment stage is `source`.
pub fn post_process_shader_from_fragment(source: &str) -> (r: String)
    ensures
        r@ == POST_PROCESSING_PREFIX@ + source@,
{
    let mut r = String::from_str(POST_PROCESSING_PREFIX);
    r.append(source);
    r
}

/// `needle` occurs in `hay`.
pub open spec fn contains_text(hay: Seq<char>, needle: Seq<char>) -> bool {
    exists|i: int| 0 <= i && i + needle.len() <= hay.len() && #[trigger] hay.subrange(i, i + needle.len()) == needle
}

/// Whether `needle` occurs in `hay`.
pub fn text_contains(hay: &str, needle: &str) -> (r: bool)
    ensures
        r == contains_text(hay@, needle@),
{
    let hl = hay.unicode_len();
    let nl = needle.unicode_len();
    if nl > hl {
        return false;
    }
    let mut i: usize = 0;
    while i <= hl - nl
        invariant
            hl == hay@.len(),
            nl == needle@.len(),
            nl <= hl,
            forall|j: int| 0 <= j < i ==> #[trigger] hay@.subrange(j, j + nl) != needle@,
        decreases hl - nl + 1 - i,
    {
        let mut k: usize = 0;
        let mut same = true;
        while k < nl
            invariant
                k <= nl,
                i + nl <= hl,
                hl == hay@.len(),
                nl == needle@.len(),
                same == forall|q: int| 0 <= q < k ==> hay@[i + q] == needle@[q],
            decreases nl - k,
        {
            if hay.get_char(i + k) != needle.get_char(k) {
                same = false;
            }
            k = k + 1;
        }
        if same {
            assert(hay@.subrange(i as int, i + nl) =~= needle@);
            return true;
        }
        proof {
            let q = choose|q: int| 0 <= q < nl && hay@[i + q] != needle@[q];
            assert(hay@.subrange(i as int, i + nl)[q] != needle@[q]);
        }
        i = i + 1;
    }
    proof {
        assert forall|j: int| 0 <= j && j + needle@.len() <= hay@.len() implies #[trigger] hay@.subrange(
            j,
            j + needle@.len(),
        ) != needle@ by {}
    }
    false
}

/// The declaration that a uniform of type `t` gets: `vec2`, `vec3` and `vec4`
/// give vectors, anything else a scalar; the default is zero.
pub open spec fn def_for_type(t: Seq<char>) -> UniformDef {
    if t == "vec2"@ {
        UniformDef::Vec2(Some((0, 0)))
    } else if t == "vec3"@ {
        UniformDef::Vec3(Some((0, 0, 0)))
    } else if t == "vec4"@ {
        UniformDef::Vec4(Some((0, 0, 0, 0)))
    } else {
        UniformDef::F32(Some(0))
    }
}

fn def_for_type_exec(t: &String) -> (r: UniformDef)
    ensures
        r == def_for_type(t@),
{
    if *t == String::from_str("vec2") {
        UniformDef::Vec2(Some((0, 0)))
    } else if *t == String::from_str("vec3") {
        UniformDef::Vec3(Some((0, 0, 0)))
    } else if *t == String::from_str("vec4") {
        UniformDef::Vec4(Some((0, 0, 0, 0)))
    } else {
        UniformDef::F32(Some(0))
    }
}

/// The declaration of `name` made by the last of `decls` that names it.
pub open spec fn last_decl_def(decls: Seq<(Seq<char>, Seq<char>)>, name: Seq<char>) -> Option<
    UniformDef,
>
    decreases decls.len(),
{
    if decls.len() == 0 {
        None
    } else if decls.last().0 == name {
        Some(def_for_type(decls.last().1))
    } else {
        last_decl_def(decls.drop_last(), name)
    }
}

/// The names that `decls` declares.
pub open spec fn decl_name_set(decls: Seq<(Seq<char>, Seq<char>)>) -> Set<Seq<char>> {
    decls.map_values(|p: (Seq<char>, Seq<char>)| p.0).to_set()
}

/// No name is declared twice.
pub open spec fn names_unique(defs: Seq<(String, UniformDef)>) -> bool {
    forall|i: int, j: int| 0 <= i < j < defs.len() ==> defs[i].0@ != defs[j].0@
}

proof fn lemma_find_def_at(defs: Seq<(String, UniformDef)>, i: int)
    requires
        names_unique(defs),
        0 <= i < defs.len(),
    ensures
        find_def(defs, defs[i].0@) == Some(defs[i].1),
    decreases defs.len(),
{
    if i < defs.len() - 1 {
        assert(defs.drop_last()[i] == defs[i]);
        lemma_find_def_at(defs.drop_last(), i);
    }
}

proof fn lemma_find_def_absent(defs: Seq<(String, UniformDef)>, name: Seq<char>)
    requires
        forall|i: int| 0 <= i < defs.len() ==> defs[i].0@ != name,
    ensures
        find_def(defs, name) is None,
    decreases defs.len(),
{
    if defs.len() > 0 {
        assert(defs.last() == defs[defs.len() - 1]);
        assert forall|i: int| 0 <= i < defs.drop_last().len() implies defs.drop_last()[i].0@
            != name by {
            assert(defs.drop_last()[i] == defs[i]);
        }
        lemma_find_def_absent(defs.drop_last(), name);
    }
}

/// Scans the uniform declarations out of `input` as it stands: one declaration
/// per name (the last one wins), and the source with every declaration removed.
fn defs_from_source(input: &str) -> (r: (Vec<(String, UniformDef)>, String))
    ensures
        names_unique(r.0@),
        r.0@.len() == decl_name_set(scan_from(input@, 0).0).len(),
        forall|n: Seq<char>| #[trigger]
            find_def(r.0@, n) == last_decl_def(scan_from(input@, 0).0, n),
        r.1@ == scan_from(input@, 0).1,
{
    let (decls, cleaned) = scan_uniforms(input);
    let ghost texts = decl_texts(decls@);
    let mut defs: Vec<(String, UniformDef)> = Vec::new();
    let mut j: usize = 0;
    while j < decls.len()
        invariant
            j <= decls@.len(),
            texts == decl_texts(decls@),
            names_unique(defs@),
            forall|n: Seq<char>| #[trigger]
                find_def(defs@, n) == last_decl_def(texts.take(j as int), n),
            def_names(defs@).to_set() == decl_name_set(texts.take(j as int)),
        decreases decls@.len() - j,
    {
        let name = decls[j].0.clone();
        let def = def_for_type_exec(&decls[j].1);
        let ghost name_v = name@;
        let ghost t1 = texts.take(j as int + 1);
        proof {
            assert(t1.drop_last() == texts.take(j as int));
            assert(t1.last() == (name@, decls@[j as int].1@));
        }
        let mut p: usize = 0;
        while p < defs.len() && defs[p].0 != name
            invariant
                p <= defs@.len(),
                forall|q: int| 0 <= q < p ==> defs@[q].0@ != name@,
            decreases defs@.len() - p,
        {
            p = p + 1;
        }
        let ghost d0 = defs@;
        proof {
            assert(decl_name_set(t1) =~= decl_name_set(texts.take(j as int)).insert(name_v)) by {
                let m1 = t1.map_values(|p: (Seq<char>, Seq<char>)| p.0);
                let m0 = texts.take(j as int).map_values(|p: (Seq<char>, Seq<char>)| p.0);
                assert(m1 =~= m0.push(name_v));
                assert forall|x: Seq<char>| m1.contains(x) <==> (m0.contains(x) || x == name_v) by {
                    if m1.contains(x) {
                        let k = choose|k: int| 0 <= k < m1.len() && m1[k] == x;
                        if k < m0.len() {
                            assert(m0[k] == x);
                        }
                    }
                    if m0.contains(x) {
                        let k = choose|k: int| 0 <= k < m0.len() && m0[k] == x;
                        assert(m1[k] == x);
                    }
                    if x == name_v {
                        assert(m1[m0.len() as int] == x);
                    }
                }
            }
        }
        if p < defs.len() {
            defs.set(p, (name, def));
            proof {
                let d1 = defs@;
                assert(def_names(d1) =~= def_names(d0).update(p as int, name_v));
                assert(def_names(d0)[p as int] == name_v);
                assert(def_names(d1) =~= def_names(d0));
                assert(def_names(d0).to_set().contains(name_v));
                assert(def_names(d1).to_set() =~= def_names(d0).to_set().insert(name_v));
                assert forall|a: int, b: int| 0 <= a < b < d1.len() implies d1[a].0@ != d1[b].0@ by {
                    if a != p && b != p {
                        assert(d0[a].0@ != d0[b].0@);
                    } else if a == p {
                        assert(d0[b].0@ != d0[a].0@);
                    } else {
                        assert(d0[a].0@ != d0[b].0@);
                    }
                }
                assert forall|n: Seq<char>| #[trigger]
                    find_def(d1, n) == last_decl_def(t1, n) by {
                    lemma_find_def_at(d1, p as int);
                    if n != name@ {
                        if exists|q: int| 0 <= q < d0.len() && d0[q].0@ == n {
                            let q = choose|q: int| 0 <= q < d0.len() && d0[q].0@ == n;
                            lemma_find_def_at(d0, q);
                            assert(d1[q] == d0[q]);
                            lemma_find_def_at(d1, q);
                        } else {
                            lemma_find_def_absent(d0, n);
                            assert forall|q: int| 0 <= q < d1.len() implies d1[q].0@ != n by {
                                if q != p {
                                    assert(d1[q] == d0[q]);
                                }
                            }
                            lemma_find_def_absent(d1, n);
                        }
                    }
                }
            }
        } else {
            defs.push((name, def));
            proof {
                let d1 = defs@;
                assert(def_names(d1) =~= def_names(d0).push(name_v));
                assert forall|x: Seq<char>| def_names(d1).contains(x) <==> (def_names(d0).contains(x)
                    || x == name_v) by {
                    if def_names(d1).contains(x) {
                        let k = choose|k: int| 0 <= k < def_names(d1).len() && def_names(d1)[k] == x;
                        if k < d0.len() {
                            assert(def_names(d0)[k] == x);
                        }
                    }
                    if def_names(d0).contains(x) {
                        let k = choose|k: int| 0 <= k < def_names(d0).len() && def_names(d0)[k] == x;
                        assert(def_names(d1)[k] == x);
                    }
                    if x == name_v {
                        assert(def_names(d1)[d0.len() as int] == x);
                    }
                }
                assert(def_names(d1).to_set() =~= def_names(d0).to_set().insert(name_v));
                assert forall|a: int, b: int| 0 <= a < b < d1.len() implies d1[a].0@ != d1[b].0@ by {
                    if b < d0.len() {
                        assert(d0[a].0@ != d0[b].0@);
                    }
                }
                assert(d1.drop_last() == d0);
                assert(d1.last() == (d1.last().0, def));
                assert(d1.last().0@ == name_v);
                assert forall|n: Seq<char>| #[trigger]
                    find_def(d1, n) == last_decl_def(t1, n) by {
                    if n != name_v {
                        assert(find_def(d0, n) == last_decl_def(texts.take(j as int), n));
                    }
                }
            }
        }
        j = j + 1;
    }
    assert(texts.take(decls@.len() as int) == texts);
    proof {
        assert(def_names(defs@).no_duplicates()) by {
            assert forall|a: int, b: int|
                0 <= a < def_names(defs@).len() && 0 <= b < def_names(defs@).len() && a != b implies def_names(
                defs@,
            )[a] != def_names(defs@)[b] by {
                if a < b {
                    assert(defs@[a].0@ != defs@[b].0@);
                } else {
                    assert(defs@[b].0@ != defs@[a].0@);
                }
            }
        }
        def_names(defs@).unique_seq_to_set();
    }
    (defs, cleaned)
}

/// The declaration of the `time` uniform that every custom shader gets.
pub const TIME_DECLARATION: &'static str = "var<uniform> time: vec4;";

/// `s` with the `time` declaration and a line break put in front, unless `s`
/// already holds that declaration.
pub open spec fn with_time_declaration(s: Seq<char>) -> Seq<char> {
    if contains_text(s, TIME_DECLARATION@) {
        s
    } else {
        TIME_DECLARATION@ + "\n"@ + s
    }
}

/// Parses the uniform declarations out of `input`, which first gets the
/// `time` declaration in front when it lacks one: one declaration per name
/// (the last one wins), and the source with every declaration removed.
pub fn parse_and_remove_uniforms(input: &str) -> (r: (Vec<(String, UniformDef)>, String))
    ensures
        names_unique(r.0@),
        r.0@.len() == decl_name_set(scan_from(with_time_declaration(input@), 0).0).len(),
        forall|n: Seq<char>| #[trigger]
            find_def(r.0@, n) == last_decl_def(scan_from(with_time_declaration(input@), 0).0, n),
        r.1@ == scan_from(with_time_declaration(input@), 0).1,
{
    if text_contains(input, TIME_DECLARATION) {
        defs_from_source(input)
    } else {
        let mut full = String::from_str(TIME_DECLARATION);
        full.append("\n");
        full.append(input);
        defs_from_source(full.as_str())
    }
}

/// Lexicographic order of texts by code point.
pub open spec fn text_le(a: Seq<char>, b: Seq<char>) -> bool
    decreases a.len(),
{
    if a.len() == 0 {
        true
    } else if b.len() == 0 {
        false
    } else if a[0] != b[0] {
        (a[0] as u32) < (b[0] as u32)
    } else {
        text_le(a.drop_first(), b.drop_first())
    }
}

pub open spec fn texts_of(v: Seq<String>) -> Seq<Seq<char>> {
    v.map_values(|s: String| s@)
}

/// Relies on itertools' `Itertools::sorted` (a stable `slice::sort` on the
/// collected items): the same strings, ascending in the order of `String`,
/// which is lexicographic by code point.
#[verifier::external_body]
fn sorted_strings(names: Vec<String>) -> (r: Vec<String>)
    ensures
        texts_of(r@).to_multiset() == texts_of(names@).to_multiset(),
        forall|i: int, j: int| 0 <= i < j < r@.len() ==> text_le(r@[i]@, r@[j]@),
{
    names.into_iter().sorted().collect()
}

/// The names in a list of named items.
pub open spec fn def_names(defs: Seq<(String, UniformDef)>) -> Seq<Seq<char>> {
    defs.map_values(|p: (String, UniformDef)| p.0@)
}

pub open spec fn binding_names(bindings: Seq<(String, u32)>) -> Seq<Seq<char>> {
    bindings.map_values(|p: (String, u32)| p.0@)
}

/// `bindings` gives the names of `defs` slots `0, 1, ...` in name order.
pub open spec fn bindings_follow_names(
    bindings: Seq<(String, u32)>,
    defs: Seq<(String, UniformDef)>,
) -> bool {
    &&& binding_names(bindings).to_multiset() == def_names(defs).to_multiset()
    &&& forall|i: int| 0 <= i < bindings.len() ==> #[trigger] bindings[i].1 == i
    &&& forall|i: int, j: int|
        0 <= i < j < bindings.len() ==> text_le(bindings[i].0@, bindings[j].0@)
}

/// Assigns binding slots to the declared uniforms in name order.
pub fn uniform_defs_to_bindings(defs: &Vec<(String, UniformDef)>) -> (r: Vec<(String, u32)>)
    requires
        defs@.len() <= u32::MAX,
    ensures
        bindings_follow_names(r@, defs@),
{
    let mut names: Vec<String> = Vec::new();
    let mut i: usize = 0;
    while i < defs.len()
        invariant
            i <= defs@.len(),
            texts_of(names@) == def_names(defs@.take(i as int)),
        decreases defs@.len() - i,
    {
        names.push(defs[i].0.clone());
        assert(def_names(defs@.take(i as int + 1)) =~= def_names(defs@.take(i as int)).push(
            defs@[i as int].0@,
        ));
        assert(texts_of(names@) =~= def_names(defs@.take(i as int + 1)));
        i = i + 1;
    }
    assert(defs@.take(defs@.len() as int) == defs@);
    let sorted = sorted_strings(names);
    assert(texts_of(sorted@).to_multiset().len() == texts_of(names@).to_multiset().len());
    assert(texts_of(sorted@).len() == texts_of(names@).len());
    let mut out: Vec<(String, u32)> = Vec::new();
    let mut k: usize = 0;
    while k < sorted.len()
        invariant
            k <= sorted@.len(),
            sorted@.len() == defs@.len(),
            defs@.len() <= u32::MAX,
            out@.len() == k,
            forall|q: int| 0 <= q < k ==> (#[trigger] out@[q]).0@ == sorted@[q]@ && out@[q].1 == q,
        decreases sorted@.len() - k,
    {
        out.push((sorted[k].clone(), k as u32));
        k = k + 1;
    }
    assert(binding_names(out@) =~= texts_of(sorted@));
    out
}

pub open spec fn digit_char(d: int) -> char {
    seq!['0', '1', '2', '3', '4', '5', '6', '7', '8', '9'][d]
}

/// The decimal digits of `n`.
pub open spec fn decimal(n: nat) -> Seq<char>
    decreases n,
{
    if n < 10 {
        seq![digit_char(n as int)]
    } else {
        decimal(n / 10).push(digit_char((n % 10) as int))
    }
}

/// `n` written in decimal.
pub fn decimal_text(n: u32) -> (r: String)
    ensures
        r@ == decimal(n as nat),
{
    let digits = "0123456789";
    proof {
        reveal_strlit("0123456789");
        assert(digits@ =~= seq!['0', '1', '2', '3', '4', '5', '6', '7', '8', '9']);
    }
    let mut m = n;
    let mut low: Vec<u32> = Vec::new();
    let ghost mut suffix: Seq<char> = Seq::empty();
    while m >= 10
        invariant
            decimal(n as nat) == decimal(m as nat) + suffix,
            suffix == low@.map_values(|d: u32| digit_char(d as int)),
            forall|q: int| 0 <= q < low@.len() ==> low@[q] < 10,
        decreases m,
    {
        let d = m % 10;
        proof {
            assert(decimal(m as nat) == decimal((m / 10) as nat).push(digit_char(d as int)));
            assert(decimal(m as nat) + suffix =~= decimal((m / 10) as nat) + (seq![
                digit_char(d as int),
            ] + suffix));
            suffix = seq![digit_char(d as int)] + suffix;
        }
        low.insert(0, d);
        assert(suffix =~= low@.map_values(|d: u32| digit_char(d as int)));
        m = m / 10;
    }
    let mut r = String::from_str(digits.substring_char(m as usize, m as usize + 1));
    assert(r@ =~= decimal(m as nat));
    let mut k: usize = 0;
    while k < low.len()
        invariant
            k <= low@.len(),
            digits@ == seq!['0', '1', '2', '3', '4', '5', '6', '7', '8', '9'],
            forall|q: int| 0 <= q < low@.len() ==> low@[q] < 10,
            r@ == decimal(m as nat) + suffix.take(k as int),
            suffix == low@.map_values(|d: u32| digit_char(d as int)),
        decreases low@.len() - k,
    {
        let d = low[k] as usize;
        r.append(digits.substring_char(d, d + 1));
        assert(suffix.take(k as int + 1) =~= suffix.take(k as int).push(digit_char(d as int)));
        k = k + 1;
    }
    assert(suffix.take(low@.len() as int) == suffix);
    r
}

/// The declaration of one uniform in the generated source.
pub open spec fn uniform_decl_text(name: Seq<char>, binding: u32, def: UniformDef) -> Seq<char> {
    "@group(2) @binding("@ + decimal(binding as nat) + ")\n            var<uniform> "@ + name + ": "@
        + wgsl_type_name(def) + ";"@
}

/// The declarations of all bound uniforms, in binding order.
pub open spec fn uniform_block(bindings: Seq<(String, u32)>, defs: Seq<(String, UniformDef)>) -> Seq<
    char,
>
    decreases bindings.len(),
{
    if bindings.len() == 0 {
        Seq::empty()
    } else {
        uniform_block(bindings.drop_last(), defs) + uniform_decl_text(
            bindings.last().0@,
            bindings.last().1,
            find_def(defs, bindings.last().0@)->0,
        )
    }
}

/// The fragment source preceded by a declaration of each bound uniform.
pub fn build_shader_source(
    fragment_source: &str,
    bindings: &Vec<(String, u32)>,
    uniform_defs: &Vec<(String, UniformDef)>,
) -> (r: String)
    requires
        forall|i: int|
            0 <= i < bindings@.len() ==> find_def(uniform_defs@, (#[trigger] bindings@[i]).0@) is Some,
    ensures
        r@ == uniform_block(bindings@, uniform_defs@) + "\n"@ + fragment_source@,
{
    let mut r = String::new();
    let mut i: usize = 0;
    while i < bindings.len()
        invariant
            i <= bindings@.len(),
            forall|q: int|
                0 <= q < bindings@.len() ==> find_def(uniform_defs@, (#[trigger] bindings@[q]).0@)
                    is Some,
            r@ == uniform_block(bindings@.take(i as int), uniform_defs@),
        decreases bindings@.len() - i,
    {
        let name = &bindings[i].0;
        let def = match crate::pipeline::lookup_def(uniform_defs, name) {
            Some(d) => d,
            None => {
                assert(false);
                return r;
            },
        };
        let ghost before = r@;
        r.append("@group(2) @binding(");
        let num = decimal_text(bindings[i].1);
        r.append(num.as_str());
        r.append(")\n            var<uniform> ");
        r.append(name.as_str());
        r.append(": ");
        r.append(def.to_wgsl());
        r.append(";");
        proof {
            let t = bindings@.take(i as int + 1);
            assert(t.drop_last() == bindings@.take(i as int));
            assert(t.last() == bindings@[i as int]);
            assert(r@ =~= before + uniform_decl_text(name@, bindings@[i as int].1, def));
        }
        i = i + 1;
    }
    assert(bindings@.take(bindings@.len() as int) == bindings@);
    r.append("\n");
    r.append(fragment_source);
    r
}

/// Why a shader could not be created.
#[derive(Debug)]
pub enum ShaderError {
    /// A shader with the new id is already registered.
    AlreadyExists(String),
    /// More uniforms are declared than binding slots can number.
    TooManyUniforms,
}

/// `s` is the shader that `create_shader` builds under `id` from `name` and
/// the fragment source `source`, which declares `time` whether it says so or not.
pub open spec fn is_built_shader(s: Shader, id: ShaderId, name: Seq<char>, source: Seq<char>) -> bool {
    let scanned = scan_from(with_time_declaration(source), 0);
    &&& s.id == id
    &&& s.name@ == name + " Shader"@
    &&& names_unique(s.uniform_defs@)
    &&& forall|n: Seq<char>| #[trigger]
        find_def(s.uniform_defs@, n) == last_decl_def(scanned.0, n)
    &&& bindings_follow_names(s.bindings@, s.uniform_defs@)
    &&& s.source@ == uniform_block(s.bindings@, s.uniform_defs@) + "\n"@ + SPRITE_SHADER_PREFIX@
        + scanned.1
}

proof fn lemma_binding_has_def(bindings: Seq<(String, u32)>, defs: Seq<(String, UniformDef)>)
    requires
        bindings_follow_names(bindings, defs),
    ensures
        forall|i: int|
            0 <= i < bindings.len() ==> find_def(defs, (#[trigger] bindings[i]).0@) is Some,
{
    assert forall|i: int| 0 <= i < bindings.len() implies find_def(
        defs,
        (#[trigger] bindings[i]).0@,
    ) is Some by {
        let n = bindings[i].0@;
        assert(binding_names(bindings)[i] == n);
        assert(binding_names(bindings).contains(n));
        assert(binding_names(bindings).to_multiset().count(n) > 0);
        assert(def_names(defs).to_multiset().count(n) > 0);
        assert(def_names(defs).contains(n));
        let j = choose|j: int| 0 <= j < def_names(defs).len() && def_names(defs)[j] == n;
        if find_def(defs, n) is None {
            lemma_find_def_some(defs, j);
        }
    }
}

proof fn lemma_find_def_some(defs: Seq<(String, UniformDef)>, j: int)
    requires
        0 <= j < defs.len(),
    ensures
        find_def(defs, defs[j].0@) is Some,
    decreases defs.len(),
{
    if j < defs.len() - 1 && defs.last().0@ != defs[j].0@ {
        assert(defs.drop_last()[j] == defs[j]);
        lemma_find_def_some(defs.drop_last(), j);
    }
}

/// Creates a shader from the fragment stage `source` (which must not hold a
/// vertex stage) and registers it under a fresh id: the source gets the
/// `time` declaration when it lacks one, the uniform declarations are taken
/// out of it, each
/// declared uniform gets a binding slot in name order, and the source is
/// completed with the sprite prefix and the uniform bindings.
pub fn create_shader(
    ctx: &mut DrawContext,
    shaders: &mut ShaderMap,
    name: &str,
    source: &str,
) -> (r: Result<ShaderId, ShaderError>)
    requires
        old(shaders).wf(),
        old(ctx).next_shader_id < u64::MAX,
        !contains_text(source@, "@vertex"@),
    ensures
        final(shaders).wf(),
        ({
            let id = ShaderId(old(ctx).next_shader_id);
            let declared = decl_name_set(scan_from(with_time_declaration(source@), 0).0);
            &&& *final(ctx) == (DrawContext {
                next_shader_id: (old(ctx).next_shader_id + 1) as u64,
                ..*old(ctx)
            })
            &&& (r matches Err(ShaderError::AlreadyExists(_)) <==> old(shaders).has(id))
            &&& r matches Err(ShaderError::AlreadyExists(n)) ==> n@ == name@
                && *final(shaders) == *old(shaders)
            &&& (r matches Err(ShaderError::TooManyUniforms) <==> !old(shaders).has(id)
                && declared.len() > u32::MAX)
            &&& r matches Err(ShaderError::TooManyUniforms) ==> *final(shaders) == *old(shaders)
            &&& (r is Ok <==> !old(shaders).has(id) && declared.len() <= u32::MAX)
            &&& r matches Ok(got) ==> got == id && final(shaders).has(id) && forall|i: int|
                0 <= i < final(shaders).shaders@.len() && final(shaders).shaders@[i].id == id
                    ==> is_built_shader(final(shaders).shaders@[i], id, name@, source@)
            &&& forall|k: ShaderId| k != id ==> (#[trigger] final(shaders).has(k) <==> old(shaders).has(k))
            &&& forall|i: int|
                0 <= i < old(shaders).shaders@.len() && old(shaders).shaders@[i].id != id ==> exists|
                    j: int,
                | 0 <= j < final(shaders).shaders@.len() && final(shaders).shaders@[j] == old(
                    shaders,
                ).shaders@[i]
        }),
{
    let id = gen_shader_id(ctx);
    if shaders.contains(id) {
        return Err(ShaderError::AlreadyExists(String::from_str(name)));
    }
    let (uniform_defs, clean_source) = parse_and_remove_uniforms(source);
    if uniform_defs.len() > 0xffff_ffffusize {
        return Err(ShaderError::TooManyUniforms);
    }
    let all_source = sprite_shader_from_fragment(clean_source.as_str());
    let bindings = uniform_defs_to_bindings(&uniform_defs);
    proof {
        lemma_binding_has_def(bindings@, uniform_defs@);
    }
    let full_source = build_shader_source(all_source.as_str(), &bindings, &uniform_defs);
    let mut full_name = String::from_str(name);
    full_name.append(" Shader");
    let shader = Shader { id, name: full_name, source: full_source, uniform_defs, bindings };
    proof {
        assert(shader.source@ =~= uniform_block(shader.bindings@, shader.uniform_defs@) + "\n"@
            + SPRITE_SHADER_PREFIX@ + scan_from(with_time_declaration(source@), 0).1);
    }
    shaders.insert_shader(id, shader);
    Ok(id)
}

} // verus!

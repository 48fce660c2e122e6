use vstd::prelude::*;

verus! {

/// Unicode white space (the `White_Space` property).
pub open spec fn is_ws(c: char) -> bool {
    let u = c as u32;
    u == 0x20 || (0x09 <= u && u <= 0x0d) || u == 0x85 || u == 0xa0 || u == 0x1680 || (0x2000 <= u
        && u <= 0x200a) || u == 0x2028 || u == 0x2029 || u == 0x202f || u == 0x205f || u == 0x3000
}

/// A character that may stand in a uniform's name.
pub open spec fn is_name_char(c: char) -> bool {
    !is_ws(c) && c != ':' && c != ';'
}

/// A character that may stand in a uniform's type.
pub open spec fn is_type_char(c: char) -> bool {
    !is_ws(c) && c != ';'
}

/// The first position at or after `i` that does not hold white space.
pub open spec fn skip_ws(s: Seq<char>, i: int) -> int
    decreases s.len() - i,
{
    if 0 <= i < s.len() && is_ws(s[i]) {
        skip_ws(s, i + 1)
    } else {
        i
    }
}

/// The end of the run of name characters that starts at `i`.
pub open spec fn name_end(s: Seq<char>, i: int) -> int
    decreases s.len() - i,
{
    if 0 <= i < s.len() && is_name_char(s[i]) {
        name_end(s, i + 1)
    } else {
        i
    }
}

/// The end of the run of type characters that starts at `i`.
pub open spec fn type_end(s: Seq<char>, i: int) -> int
    decreases s.len() - i,
{
    if 0 <= i < s.len() && is_type_char(s[i]) {
        type_end(s, i + 1)
    } else {
        i
    }
}

/// `lit` stands in `s` at position `i`.
pub open spec fn lit_at(s: Seq<char>, i: int, lit: Seq<char>) -> bool {
    0 <= i && i + lit.len() <= s.len() && s.subrange(i, i + lit.len()) == lit
}

/// Where a uniform declaration that starts at `i` ends, and where its name and
/// type lie.
pub struct DeclSpan {
    pub end: int,
    pub name_start: int,
    pub name_end: int,
    pub type_start: int,
    pub type_end: int,
}

/// The uniform declaration `var <uniform> NAME : TYPE ;` that starts at `i`,
/// if any. White space may stand around each token and must stand after
/// `>`; the name runs to white space, `:` or `;`, the type to white space or `;`.
pub open spec fn decl_at(s: Seq<char>, i: int) -> Option<DeclSpan> {
    let b = skip_ws(s, i + 3);
    let c = skip_ws(s, b + 1);
    let d = skip_ws(s, c + 7);
    let f = skip_ws(s, d + 1);
    let ne = name_end(s, f);
    let g = skip_ws(s, ne);
    let h = skip_ws(s, g + 1);
    let te = type_end(s, h);
    let t = skip_ws(s, te);
    if lit_at(s, i, seq!['v', 'a', 'r']) && lit_at(s, b, seq!['<']) && lit_at(
        s,
        c,
        seq!['u', 'n', 'i', 'f', 'o', 'r', 'm'],
    ) && lit_at(s, d, seq!['>']) && f > d + 1 && ne > f && lit_at(s, g, seq![':']) && te > h
        && lit_at(s, t, seq![';']) {
        Some(DeclSpan { end: t + 1, name_start: f, name_end: ne, type_start: h, type_end: te })
    } else {
        None
    }
}

/// Scans `s` from `i`: at each position either a declaration starts, which is
/// taken out and recorded as (name, type), or the character is kept.
pub open spec fn scan_from(s: Seq<char>, i: int) -> (Seq<(Seq<char>, Seq<char>)>, Seq<char>)
    decreases s.len() - i,
{
    if i < 0 || i >= s.len() {
        (Seq::empty(), Seq::empty())
    } else {
        match decl_at(s, i) {
            Some(m) => if m.end > i {
                let rest = scan_from(s, m.end);
                (
                    seq![
                        (
                            s.subrange(m.name_start, m.name_end),
                            s.subrange(m.type_start, m.type_end),
                        ),
                    ] + rest.0,
                    rest.1,
                )
            } else {
                (Seq::empty(), Seq::empty())
            },
            None => {
                let rest = scan_from(s, i + 1);
                (rest.0, seq![s[i]] + rest.1)
            },
        }
    }
}

proof fn lemma_skip_ws(s: Seq<char>, i: int)
    requires
        0 <= i,
    ensures
        i <= skip_ws(s, i),
        i <= s.len() ==> skip_ws(s, i) <= s.len(),
        forall|j: int| i <= j < skip_ws(s, i) ==> is_ws(s[j]),
        skip_ws(s, i) < s.len() ==> !is_ws(s[skip_ws(s, i)]),
    decreases s.len() - i,
{
    if 0 <= i < s.len() && is_ws(s[i]) {
        lemma_skip_ws(s, i + 1);
    }
}

proof fn lemma_name_end(s: Seq<char>, i: int)
    requires
        0 <= i,
    ensures
        i <= name_end(s, i),
        i <= s.len() ==> name_end(s, i) <= s.len(),
    decreases s.len() - i,
{
    if 0 <= i < s.len() && is_name_char(s[i]) {
        lemma_name_end(s, i + 1);
    }
}

proof fn lemma_type_end(s: Seq<char>, i: int)
    requires
        0 <= i,
    ensures
        i <= type_end(s, i),
        i <= s.len() ==> type_end(s, i) <= s.len(),
    decreases s.len() - i,
{
    if 0 <= i < s.len() && is_type_char(s[i]) {
        lemma_type_end(s, i + 1);
    }
}

fn ws(c: char) -> (r: bool)
    ensures
        r == is_ws(c),
{
    let u = c as u32;
    u == 0x20 || (0x09 <= u && u <= 0x0d) || u == 0x85 || u == 0xa0 || u == 0x1680 || (0x2000 <= u
        && u <= 0x200a) || u == 0x2028 || u == 0x2029 || u == 0x202f || u == 0x205f || u == 0x3000
}

fn skip_ws_exec(s: &Vec<char>, i: usize) -> (r: usize)
    requires
        i <= s@.len(),
    ensures
        r == skip_ws(s@, i as int),
        r <= s@.len(),
{
    proof {
        lemma_skip_ws(s@, i as int);
    }
    let mut j = i;
    while j < s.len() && ws(s[j])
        invariant
            i <= j <= s@.len(),
            skip_ws(s@, j as int) == skip_ws(s@, i as int),
        decreases s@.len() - j,
    {
        j = j + 1;
    }
    j
}

fn name_end_exec(s: &Vec<char>, i: usize) -> (r: usize)
    requires
        i <= s@.len(),
    ensures
        r == name_end(s@, i as int),
        r <= s@.len(),
{
    let mut j = i;
    while j < s.len() && !ws(s[j]) && s[j] != ':' && s[j] != ';'
        invariant
            i <= j <= s@.len(),
            name_end(s@, j as int) == name_end(s@, i as int),
        decreases s@.len() - j,
    {
        j = j + 1;
    }
    j
}

fn type_end_exec(s: &Vec<char>, i: usize) -> (r: usize)
    requires
        i <= s@.len(),
    ensures
        r == type_end(s@, i as int),
        r <= s@.len(),
{
    let mut j = i;
    while j < s.len() && !ws(s[j]) && s[j] != ';'
        invariant
            i <= j <= s@.len(),
            type_end(s@, j as int) == type_end(s@, i as int),
        decreases s@.len() - j,
    {
        j = j + 1;
    }
    j
}

fn has_at(s: &Vec<char>, i: usize, lit: &str) -> (r: bool)
    ensures
        r == lit_at(s@, i as int, lit@),
{
    let sl = s.len();
    let ll = lit.unicode_len();
    if i > sl || ll > sl - i {
        return false;
    }
    let mut k: usize = 0;
    while k < ll
        invariant
            sl == s@.len(),
            ll == lit@.len(),
            k <= ll,
            i + ll <= sl,
            forall|q: int| 0 <= q < k ==> s@[i + q] == lit@[q],
        decreases ll - k,
    {
        if s[i + k] != lit.get_char(k) {
            assert(s@.subrange(i as int, i + lit@.len())[k as int] != lit@[k as int]);
            return false;
        }
        k = k + 1;
    }
    assert(s@.subrange(i as int, i + lit@.len()) =~= lit@);
    true
}

/// `decl_at`, computed.
fn decl_at_exec(s: &Vec<char>, i: usize) -> (r: Option<(usize, usize, usize, usize, usize)>)
    requires
        i < s@.len(),
    ensures
        r is None <==> decl_at(s@, i as int) is None,
        r matches Some(m) ==> decl_at(s@, i as int) == Some(
            DeclSpan {
                end: m.0 as int,
                name_start: m.1 as int,
                name_end: m.2 as int,
                type_start: m.3 as int,
                type_end: m.4 as int,
            },
        ) && i < m.0 <= s@.len() && m.1 <= m.2 <= s@.len() && m.3 <= m.4 <= s@.len(),
{
    let ghost sv = s@;
    let len = s.len();
    proof {
        reveal_strlit("var");
        reveal_strlit("<");
        reveal_strlit("uniform");
        reveal_strlit(">");
        reveal_strlit(":");
        reveal_strlit(";");
        assert("var"@ =~= seq!['v', 'a', 'r']);
        assert("<"@ =~= seq!['<']);
        assert("uniform"@ =~= seq!['u', 'n', 'i', 'f', 'o', 'r', 'm']);
        assert(">"@ =~= seq!['>']);
        assert(":"@ =~= seq![':']);
        assert(";"@ =~= seq![';']);
    }
    if !has_at(s, i, "var") {
        return None;
    }
    let b = skip_ws_exec(s, i + 3);
    if b >= len || !has_at(s, b, "<") {
        return None;
    }
    let c = skip_ws_exec(s, b + 1);
    if c >= len || !has_at(s, c, "uniform") {
        return None;
    }
    let d = skip_ws_exec(s, c + 7);
    if d >= len || !has_at(s, d, ">") {
        return None;
    }
    let f = skip_ws_exec(s, d + 1);
    if f <= d + 1 {
        return None;
    }
    let ne = name_end_exec(s, f);
    if ne <= f {
        return None;
    }
    let g = skip_ws_exec(s, ne);
    if g >= len || !has_at(s, g, ":") {
        return None;
    }
    let h = skip_ws_exec(s, g + 1);
    let te = type_end_exec(s, h);
    if te <= h {
        return None;
    }
    let t = skip_ws_exec(s, te);
    if t >= len || !has_at(s, t, ";") {
        return None;
    }
    proof {
        lemma_skip_ws(sv, i as int + 3);
        lemma_skip_ws(sv, b as int + 1);
        lemma_skip_ws(sv, c as int + 7);
        lemma_skip_ws(sv, d as int + 1);
        lemma_skip_ws(sv, ne as int);
        lemma_skip_ws(sv, g as int + 1);
        lemma_skip_ws(sv, te as int);
        lemma_name_end(sv, f as int);
        lemma_type_end(sv, h as int);
    }
    Some((t + 1, f, ne, h, te))
}

/// The (name, type) pairs in `decls`, as text.
pub open spec fn decl_texts(decls: Seq<(String, String)>) -> Seq<(Seq<char>, Seq<char>)> {
    decls.map_values(|p: (String, String)| (p.0@, p.1@))
}

/// Finds the uniform declarations of `source`, in order, as (name, type) text
/// pairs, and returns the source with every declaration taken out.
pub fn scan_uniforms(source: &str) -> (r: (Vec<(String, String)>, String))
    ensures
        decl_texts(r.0@) == scan_from(source@, 0).0,
        r.1@ == scan_from(source@, 0).1,
{
    let n = source.unicode_len();
    let mut s: Vec<char> = Vec::new();
    let mut k: usize = 0;
    while k < n
        invariant
            n == source@.len(),
            k <= n,
            s@ == source@.take(k as int),
        decreases n - k,
    {
        s.push(source.get_char(k));
        assert(source@.take(k as int + 1) == source@.take(k as int).push(source@[k as int]));
        k = k + 1;
    }
    assert(source@.take(n as int) == source@);
    let ghost sv = s@;
    let mut decls: Vec<(String, String)> = Vec::new();
    let mut cleaned = String::new();
    let mut i: usize = 0;
    while i < n
        invariant
            n == sv.len(),
            sv == source@,
            s@ == sv,
            i <= n,
            decl_texts(decls@) + scan_from(sv, i as int).0 == scan_from(sv, 0).0,
            cleaned@ + scan_from(sv, i as int).1 == scan_from(sv, 0).1,
        decreases n - i,
    {
        match decl_at_exec(&s, i) {
            Some(m) => {
                let name = String::from_str(source.substring_char(m.1, m.2));
                let ty = String::from_str(source.substring_char(m.3, m.4));
                let ghost before = decls@;
                decls.push((name, ty));
                proof {
                    let rest = scan_from(sv, m.0 as int);
                    let pair = (sv.subrange(m.1 as int, m.2 as int), sv.subrange(m.3 as int, m.4 as int));
                    assert(scan_from(sv, i as int).0 == seq![pair] + rest.0);
                    assert(decl_texts(decls@) == decl_texts(before).push(pair));
                    assert(decl_texts(before) + (seq![pair] + rest.0) == decl_texts(before).push(pair)
                        + rest.0);
                }
                i = m.0;
            },
            None => {
                let one = source.substring_char(i, i + 1);
                let ghost c0 = cleaned@;
                cleaned.append(one);
                proof {
                    assert(one@ == seq![sv[i as int]]);
                    let rest = scan_from(sv, i as int + 1);
                    assert(scan_from(sv, i as int).1 == seq![sv[i as int]] + rest.1);
                    assert(c0 + (seq![sv[i as int]] + rest.1) == (c0 + seq![sv[i as int]]) + rest.1);
                }
                i = i + 1;
            },
        }
    }
    assert(decl_texts(decls@) + Seq::<(Seq<char>, Seq<char>)>::empty() == decl_texts(decls@));
    assert(cleaned@ + Seq::<char>::empty() == cleaned@);
    (decls, cleaned)
}

} // verus!

//! Triangle topology of the procedural meshes: which vertices make up each
//! triangle, and which new vertices a subdivision step creates. Vertex
//! positions are computed elsewhere, in the order given here.

use std::collections::HashMap;

use vstd::prelude::*;

verus! {

broadcast use vstd::std_specs::hash::group_hash_axioms;

/// An undirected edge, written with its smaller end first.
pub open spec fn ordered(a: u32, b: u32) -> (u32, u32) {
    if a < b {
        (a, b)
    } else {
        (b, a)
    }
}

/// The number under which an edge is cached.
pub open spec fn edge_key(p: (u32, u32)) -> u64 {
    (p.0 * 4294967296 + p.1) as u64
}

proof fn lemma_edge_key_injective(p: (u32, u32), q: (u32, u32))
    ensures
        p.0 * 4294967296 + p.1 <= u64::MAX,
        edge_key(p) == edge_key(q) ==> p == q,
{
    assert(p.0 * 4294967296 + p.1 <= u64::MAX);
    assert(q.0 * 4294967296 + q.1 <= u64::MAX);
}

/// Vertex `m` is the midpoint vertex of edge `a`-`b`: the new vertices are
/// numbered from `first` on in the order of `mids`, and `mids` records `m`
/// as standing between `a` and `b`.
pub open spec fn is_midpoint(mids: Seq<(u32, u32)>, first: int, m: u32, a: u32, b: u32) -> bool {
    &&& first <= m < first + mids.len()
    &&& mids[m - first] == ordered(a, b)
}

/// Corner `k` of triangle `t`.
pub open spec fn corner(indices: Seq<u32>, t: int, k: int) -> u32 {
    indices[3 * t + k]
}

/// `p` is one of the edges of triangle `t`.
pub open spec fn is_edge_of(indices: Seq<u32>, t: int, p: (u32, u32)) -> bool {
    ||| p == ordered(corner(indices, t, 0), corner(indices, t, 1))
    ||| p == ordered(corner(indices, t, 1), corner(indices, t, 2))
    ||| p == ordered(corner(indices, t, 2), corner(indices, t, 0))
}

/// `p` is an edge of one of the first `upto` triangles.
pub open spec fn edge_among(indices: Seq<u32>, upto: int, p: (u32, u32)) -> bool {
    exists|t: int| 0 <= t < upto && #[trigger] is_edge_of(indices, t, p)
}

proof fn lemma_edge_among_grows(indices: Seq<u32>, upto: int, more: int, p: (u32, u32))
    requires
        edge_among(indices, upto, p),
        upto <= more,
    ensures
        edge_among(indices, more, p),
{
    let t = choose|t: int| 0 <= t < upto && #[trigger] is_edge_of(indices, t, p);
    assert(is_edge_of(indices, t, p));
}

/// Triangle `t` (corners `a`, `b`, `c`) became the four triangles
/// `a ab ca`, `b bc ab`, `c ca bc` and `ab bc ca` at position `t` of
/// `out`, where `ab`, `bc` and `ca` are the midpoint vertices of its edges.
pub open spec fn tri_subdivided(
    indices: Seq<u32>,
    out: Seq<u32>,
    mids: Seq<(u32, u32)>,
    first: int,
    t: int,
) -> bool {
    let a = corner(indices, t, 0);
    let b = corner(indices, t, 1);
    let c = corner(indices, t, 2);
    let s = 12 * t;
    &&& out[s] == a
    &&& out[s + 3] == b
    &&& out[s + 6] == c
    &&& is_midpoint(mids, first, out[s + 1], a, b)
    &&& out[s + 5] == out[s + 1]
    &&& out[s + 9] == out[s + 1]
    &&& is_midpoint(mids, first, out[s + 4], b, c)
    &&& out[s + 8] == out[s + 4]
    &&& out[s + 10] == out[s + 4]
    &&& is_midpoint(mids, first, out[s + 2], c, a)
    &&& out[s + 7] == out[s + 2]
    &&& out[s + 11] == out[s + 2]
}

/// `s` with `p` appended, unless `p` is already in it.
pub open spec fn add_new(s: Seq<(u32, u32)>, p: (u32, u32)) -> Seq<(u32, u32)> {
    if s.contains(p) {
        s
    } else {
        s.push(p)
    }
}

/// The distinct edges of the first `n` triangles in the order they are
/// first met, going through each triangle's edges `a`-`b`, `b`-`c`, `c`-`a`.
pub open spec fn edges_met(indices: Seq<u32>, n: int) -> Seq<(u32, u32)>
    decreases n,
{
    if n <= 0 {
        Seq::empty()
    } else {
        let a = corner(indices, n - 1, 0);
        let b = corner(indices, n - 1, 1);
        let c = corner(indices, n - 1, 2);
        add_new(
            add_new(add_new(edges_met(indices, n - 1), ordered(a, b)), ordered(b, c)),
            ordered(c, a),
        )
    }
}

/// Entry `r` (of twelve) of the four triangles that triangle `t` becomes:
/// `a ab ca`, `b bc ab`, `c ca bc`, `ab bc ca`, where a new vertex is
/// numbered `first` plus the position of its edge in `mids`.
pub open spec fn split_entry(indices: Seq<u32>, mids: Seq<(u32, u32)>, first: int, t: int, r: int) -> int {
    let a = corner(indices, t, 0);
    let b = corner(indices, t, 1);
    let c = corner(indices, t, 2);
    let ab = first + mids.index_of(ordered(a, b));
    let bc = first + mids.index_of(ordered(b, c));
    let ca = first + mids.index_of(ordered(c, a));
    if r == 0 {
        a as int
    } else if r == 3 {
        b as int
    } else if r == 6 {
        c as int
    } else if r == 1 || r == 5 || r == 9 {
        ab
    } else if r == 4 || r == 8 || r == 10 {
        bc
    } else {
        ca
    }
}

/// The triangles of one subdivision step of `indices`, whose vertices
/// below `first` are the old ones.
pub open spec fn split_triangles(indices: Seq<u32>, first: int) -> Seq<u32> {
    let mids = edges_met(indices, (indices.len() / 3) as int);
    Seq::new(
        4 * indices.len(),
        |k: int| split_entry(indices, mids, first, k / 12, k % 12) as u32,
    )
}

/// The cache maps the key of each recorded edge to its midpoint vertex,
/// and holds nothing else.
spec fn cache_matches(cache: Map<u64, u32>, mids: Seq<(u32, u32)>, first: int) -> bool {
    &&& forall|j: int|
        0 <= j < mids.len() ==> cache.contains_key(edge_key(#[trigger] mids[j])) && cache[edge_key(
            mids[j],
        )] == first + j
    &&& forall|k: u64|
        #[trigger] cache.contains_key(k) ==> exists|j: int|
            0 <= j < mids.len() && edge_key(mids[j]) == k
}

/// The midpoint vertex of edge `a`-`b`: the cached one if the edge was seen
/// before, else a new vertex numbered after the ones made so far.
fn midpoint_vertex(
    cache: &mut HashMap<u64, u32>,
    mids: &mut Vec<(u32, u32)>,
    first: u32,
    a: u32,
    b: u32,
) -> (m: u32)
    requires
        cache_matches(old(cache)@, old(mids)@, first as int),
        old(mids)@.no_duplicates(),
        first + old(mids)@.len() < u32::MAX,
    ensures
        cache_matches(final(cache)@, final(mids)@, first as int),
        final(mids)@.no_duplicates(),
        final(mids)@ == add_new(old(mids)@, ordered(a, b)),
        is_midpoint(final(mids)@, first as int, m, a, b),
{
    let pair: (u32, u32) = if a < b {
        (a, b)
    } else {
        (b, a)
    };
    proof {
        lemma_edge_key_injective(pair, pair);
    }
    let key: u64 = (pair.0 as u64) * 4294967296u64 + (pair.1 as u64);
    assert(key == edge_key(pair));
    match cache.get(&key) {
        Some(existing) => {
            let m = *existing;
            proof {
                let j = choose|j: int| 0 <= j < mids@.len() && edge_key(mids@[j]) == key;
                lemma_edge_key_injective(mids@[j], pair);
                assert(mids@[j] == pair);
                assert(mids@.contains(pair));
            }
            m
        },
        None => {
            proof {
                if mids@.contains(pair) {
                    let j = choose|j: int| 0 <= j < mids@.len() && mids@[j] == pair;
                    assert(cache@.contains_key(edge_key(mids@[j])));
                }
            }
            let m = first + (mids.len() as u32);
            let ghost before = mids@;
            let ghost cache_before = cache@;
            mids.push(pair);
            cache.insert(key, m);
            proof {
                assert forall|j: int| 0 <= j < mids@.len() implies cache@.contains_key(
                    edge_key(#[trigger] mids@[j]),
                ) && cache@[edge_key(mids@[j])] == first + j by {
                    if j < before.len() {
                        assert(mids@[j] == before[j]);
                        lemma_edge_key_injective(before[j], pair);
                        assert(before[j] != pair);
                    }
                }
                assert forall|k: u64| #[trigger] cache@.contains_key(k) implies exists|j: int|
                    0 <= j < mids@.len() && edge_key(mids@[j]) == k by {
                    if k != key {
                        assert(cache_before.contains_key(k));
                        let j = choose|j: int| 0 <= j < before.len() && edge_key(before[j]) == k;
                        assert(mids@[j] == before[j]);
                    } else {
                        assert(mids@[before.len() as int] == pair);
                    }
                }
                assert forall|x: int, y: int|
                    0 <= x < mids@.len() && 0 <= y < mids@.len() && x != y implies mids@[x]
                    != mids@[y] by {
                    if x < before.len() && y < before.len() {
                        assert(mids@[x] == before[x]);
                        assert(mids@[y] == before[y]);
                    } else if x < before.len() {
                        assert(mids@[x] == before[x]);
                        assert(before.contains(before[x]));
                    } else if y < before.len() {
                        assert(mids@[y] == before[y]);
                        assert(before.contains(before[y]));
                    }
                }
            }
            m
        },
    }
}

/// Splits every triangle of `indices` into four. The new vertices sit on
/// the edges; each edge gets one, shared by the triangles on both sides.
/// `mids` lists the edges (by their two ends) in the order they are first
/// met, which is the order the new vertices are numbered in, from
/// `vertex_count` on.
#[verifier::spinoff_prover]
#[verifier::rlimit(50)]
pub fn subdivide_indices(indices: &Vec<u32>, vertex_count: u32) -> (r: (Vec<u32>, Vec<(u32, u32)>))
    requires
        indices@.len() % 3 == 0,
        forall|i: int| 0 <= i < indices@.len() ==> #[trigger] indices@[i] < vertex_count,
        vertex_count + indices@.len() <= u32::MAX,
    ensures
        ({
            let (out, mids) = r;
            &&& out@.len() == 4 * indices@.len()
            &&& mids@ == edges_met(indices@, (indices@.len() / 3) as int)
            &&& out@ == split_triangles(indices@, vertex_count as int)
            &&& mids@.len() <= indices@.len()
            &&& mids@.no_duplicates()
            &&& forall|t: int|
                0 <= t < indices@.len() / 3 ==> tri_subdivided(
                    indices@,
                    out@,
                    mids@,
                    vertex_count as int,
                    t,
                )
            &&& forall|j: int|
                0 <= j < mids@.len() ==> edge_among(indices@, (indices@.len() / 3) as int, #[trigger] mids@[j])
            &&& forall|k: int|
                0 <= k < out@.len() ==> #[trigger] out@[k] < vertex_count + mids@.len()
        }),
{
    let ntri = indices.len() / 3;
    let mut out: Vec<u32> = Vec::new();
    let mut mids: Vec<(u32, u32)> = Vec::new();
    let mut cache: HashMap<u64, u32> = HashMap::new();
    let first = vertex_count;
    let mut i: usize = 0;
    while i < ntri
        invariant
            ntri == indices@.len() / 3,
            indices@.len() % 3 == 0,
            i <= ntri,
            first == vertex_count,
            forall|x: int| 0 <= x < indices@.len() ==> #[trigger] indices@[x] < vertex_count,
            vertex_count + indices@.len() <= u32::MAX,
            out@.len() == 12 * i,
            mids@.len() <= 3 * i,
            mids@ == edges_met(indices@, i as int),
            cache_matches(cache@, mids@, first as int),
            mids@.no_duplicates(),
            forall|t: int| 0 <= t < i ==> tri_subdivided(indices@, out@, mids@, first as int, t),
            forall|j: int| 0 <= j < mids@.len() ==> edge_among(indices@, i as int, #[trigger] mids@[j]),
            forall|k: int| 0 <= k < out@.len() ==> #[trigger] out@[k] < first + mids@.len(),
        decreases ntri - i,
    {
        let a = indices[3 * i];
        let b = indices[3 * i + 1];
        let c = indices[3 * i + 2];
        let ghost mids0 = mids@;
        let ghost out0 = out@;
        let ab = midpoint_vertex(&mut cache, &mut mids, first, a, b);
        let bc = midpoint_vertex(&mut cache, &mut mids, first, b, c);
        let ca = midpoint_vertex(&mut cache, &mut mids, first, c, a);
        let ghost mids1 = mids@;
        proof {
            assert(mids0.len() <= mids1.len());
            assert forall|j: int| 0 <= j < mids0.len() implies mids1[j] == mids0[j] by {}
            assert(is_midpoint(mids1, first as int, ab, a, b));
            assert(is_midpoint(mids1, first as int, bc, b, c));
        }
        out.push(a);
        out.push(ab);
        out.push(ca);
        out.push(b);
        out.push(bc);
        out.push(ab);
        out.push(c);
        out.push(ca);
        out.push(bc);
        out.push(ab);
        out.push(bc);
        out.push(ca);
        proof {
            let ii = i as int;
            assert(mids1 == edges_met(indices@, ii + 1));
            assert(corner(indices@, ii, 0) == a);
            assert(corner(indices@, ii, 1) == b);
            assert(corner(indices@, ii, 2) == c);
            assert forall|k: int| 0 <= k < out0.len() implies out@[k] == out0[k] by {}
            assert(tri_subdivided(indices@, out@, mids1, first as int, ii));
            assert forall|t: int| 0 <= t < ii + 1 implies tri_subdivided(
                indices@,
                out@,
                mids1,
                first as int,
                t,
            ) by {
                if t < ii {
                    assert(tri_subdivided(indices@, out0, mids0, first as int, t));
                    let s = 12 * t;
                    assert(s + 11 < out0.len());
                }
            }
            assert forall|j: int| 0 <= j < mids1.len() implies edge_among(
                indices@,
                ii + 1,
                #[trigger] mids1[j],
            ) by {
                if j < mids0.len() {
                    assert(mids1[j] == mids0[j]);
                    lemma_edge_among_grows(indices@, ii, ii + 1, mids0[j]);
                } else {
                    assert(is_edge_of(indices@, ii, mids1[j]));
                }
            }
            assert forall|k: int| 0 <= k < out@.len() implies #[trigger] out@[k] < first
                + mids1.len() by {
                if k < out0.len() {
                    assert(out@[k] == out0[k]);
                }
            }
        }
        i = i + 1;
    }
    proof {
        lemma_split_matches(indices@, out@, mids@, vertex_count as int);
    }
    (out, mids)
}

proof fn lemma_midpoint_index(mids: Seq<(u32, u32)>, first: int, m: u32, a: u32, b: u32)
    requires
        mids.no_duplicates(),
        is_midpoint(mids, first, m, a, b),
    ensures
        first + mids.index_of(ordered(a, b)) == m,
{
    assert(mids.contains(ordered(a, b))) by {
        assert(mids[m - first] == ordered(a, b));
    }
    let j = mids.index_of(ordered(a, b));
    assert(0 <= j < mids.len() && mids[j] == ordered(a, b));
}

proof fn lemma_split_matches(indices: Seq<u32>, out: Seq<u32>, mids: Seq<(u32, u32)>, first: int)
    requires
        indices.len() % 3 == 0,
        out.len() == 4 * indices.len(),
        mids.no_duplicates(),
        mids == edges_met(indices, (indices.len() / 3) as int),
        forall|t: int| 0 <= t < indices.len() / 3 ==> tri_subdivided(indices, out, mids, first, t),
        forall|k: int| 0 <= k < out.len() ==> 0 <= #[trigger] out[k],
    ensures
        out == split_triangles(indices, first),
{
    let want = split_triangles(indices, first);
    assert forall|k: int| 0 <= k < out.len() implies out[k] == want[k] by {
        let t = k / 12;
        let r = k % 12;
        assert(k == 12 * t + r);
        assert(0 <= t < indices.len() / 3);
        assert(tri_subdivided(indices, out, mids, first, t));
        let a = corner(indices, t, 0);
        let b = corner(indices, t, 1);
        let c = corner(indices, t, 2);
        lemma_midpoint_index(mids, first, out[12 * t + 1], a, b);
        lemma_midpoint_index(mids, first, out[12 * t + 4], b, c);
        lemma_midpoint_index(mids, first, out[12 * t + 2], c, a);
        assert(out[k] as int == split_entry(indices, mids, first, t, r));
    }
    assert(out =~= want);
}

/// `4` to the power `n`.
pub open spec fn pow4(n: nat) -> nat
    decreases n,
{
    if n == 0 {
        1
    } else {
        4 * pow4((n - 1) as nat)
    }
}

proof fn lemma_pow4_mono(a: nat, b: nat)
    requires
        a <= b,
    ensures
        pow4(a) <= pow4(b),
    decreases b,
{
    if a < b {
        lemma_pow4_mono(a, (b - 1) as nat);
    }
}

fn push_triangle(v: &mut Vec<u32>, a: u32, b: u32, c: u32)
    ensures
        final(v)@ == old(v)@ + seq![a, b, c],
{
    v.push(a);
    v.push(b);
    v.push(c);
    assert(v@ =~= old(v)@ + seq![a, b, c]);
}

/// The twenty faces of the icosahedron the rock meshes start from.
pub open spec fn icosahedron() -> Seq<u32> {
    seq![
        0, 11, 5, 0, 5, 1, 0, 1, 7, 0, 7, 10, 0, 10, 11,
        1, 5, 9, 5, 11, 4, 11, 10, 2, 10, 7, 6, 7, 1, 8,
        3, 9, 4, 3, 4, 2, 3, 2, 6, 3, 6, 8, 3, 8, 9,
        4, 9, 5, 2, 4, 11, 6, 2, 10, 8, 6, 7, 9, 8, 1,
    ]
}

/// The icosahedron's triangles, over its twelve vertices.
pub fn icosahedron_indices() -> (v: Vec<u32>)
    ensures
        v@ == icosahedron(),
{
    let mut v: Vec<u32> = Vec::new();
    push_triangle(&mut v, 0, 11, 5);
    push_triangle(&mut v, 0, 5, 1);
    push_triangle(&mut v, 0, 1, 7);
    push_triangle(&mut v, 0, 7, 10);
    push_triangle(&mut v, 0, 10, 11);
    push_triangle(&mut v, 1, 5, 9);
    push_triangle(&mut v, 5, 11, 4);
    push_triangle(&mut v, 11, 10, 2);
    push_triangle(&mut v, 10, 7, 6);
    push_triangle(&mut v, 7, 1, 8);
    push_triangle(&mut v, 3, 9, 4);
    push_triangle(&mut v, 3, 4, 2);
    push_triangle(&mut v, 3, 2, 6);
    push_triangle(&mut v, 3, 6, 8);
    push_triangle(&mut v, 3, 8, 9);
    push_triangle(&mut v, 4, 9, 5);
    push_triangle(&mut v, 2, 4, 11);
    push_triangle(&mut v, 6, 2, 10);
    push_triangle(&mut v, 8, 6, 7);
    push_triangle(&mut v, 9, 8, 1);
    assert(v@ =~= icosahedron());
    v
}

proof fn lemma_edge_ends_below(indices: Seq<u32>, upto: int, p: (u32, u32), bound: int)
    requires
        0 <= upto,
        3 * upto <= indices.len(),
        edge_among(indices, upto, p),
        forall|i: int| 0 <= i < indices.len() ==> #[trigger] indices[i] < bound,
    ensures
        p.0 < bound,
        p.1 < bound,
{
    let t = choose|t: int| 0 <= t < upto && #[trigger] is_edge_of(indices, t, p);
    assert(indices[3 * t] < bound);
    assert(indices[3 * t + 1] < bound);
    assert(indices[3 * t + 2] < bound);
}

/// The triangles of an icosahedron subdivided `n` times, and the edges that
/// the steps split, in the order their midpoint vertices are numbered (from
/// 12 on).
pub open spec fn icosphere(n: nat) -> (Seq<u32>, Seq<(u32, u32)>)
    decreases n,
{
    if n == 0 {
        (icosahedron(), Seq::empty())
    } else {
        let (indices, mids) = icosphere((n - 1) as nat);
        (
            split_triangles(indices, (12 + mids.len()) as int),
            mids + edges_met(indices, (indices.len() / 3) as int),
        )
    }
}

/// The triangles of an icosahedron subdivided `subdivisions` times, with
/// the vertices each step adds: vertex `12 + j` is the midpoint of
/// `mids[j]`, whose two ends are vertices made before it.
pub fn icosphere_topology(subdivisions: usize) -> (r: (Vec<u32>, Vec<(u32, u32)>))
    requires
        subdivisions <= 12,
    ensures
        ({
            let (indices, mids) = r;
            &&& (indices@, mids@) == icosphere(subdivisions as nat)
            &&& indices@.len() == 60 * pow4(subdivisions as nat)
            &&& forall|k: int|
                0 <= k < indices@.len() ==> #[trigger] indices@[k] < 12 + mids@.len()
            &&& forall|j: int|
                0 <= j < mids@.len() ==> (#[trigger] mids@[j]).0 < 12 + j && mids@[j].1 < 12 + j
        }),
{
    let mut indices = icosahedron_indices();
    let mut mids: Vec<(u32, u32)> = Vec::new();
    let mut level: usize = 0;
    proof {
        assert forall|k: int| 0 <= k < indices@.len() implies #[trigger] indices@[k] < 12 by {
            assert(icosahedron()[k] < 12);
        }
    }
    while level < subdivisions
        invariant
            subdivisions <= 12,
            level <= subdivisions,
            (indices@, mids@) == icosphere(level as nat),
            indices@.len() == 60 * pow4(level as nat),
            12 + mids@.len() <= indices@.len(),
            forall|k: int| 0 <= k < indices@.len() ==> #[trigger] indices@[k] < 12 + mids@.len(),
            forall|j: int|
                0 <= j < mids@.len() ==> (#[trigger] mids@[j]).0 < 12 + j && mids@[j].1 < 12 + j,
        decreases subdivisions - level,
    {
        proof {
            lemma_pow4_mono(level as nat, 11);
            reveal_with_fuel(pow4, 12);
            assert(pow4(11) == 4194304);
        }
        let vertex_count = (12 + mids.len()) as u32;
        let (next, mut added) = subdivide_indices(&indices, vertex_count);
        let ghost before = mids@;
        let ghost added_view = added@;
        proof {
            assert(indices@.len() % 3 == 0);
            assert forall|j: int| 0 <= j < added_view.len() implies (#[trigger] added_view[j]).0
                < vertex_count && added_view[j].1 < vertex_count by {
                lemma_edge_ends_below(
                    indices@,
                    (indices@.len() / 3) as int,
                    added_view[j],
                    vertex_count as int,
                );
            }
        }
        mids.append(&mut added);
        indices = next;
        proof {
            assert(mids@ == before + added_view);
            assert forall|j: int| 0 <= j < mids@.len() implies (#[trigger] mids@[j]).0 < 12 + j
                && mids@[j].1 < 12 + j by {
                if j < before.len() {
                    assert(mids@[j] == before[j]);
                } else {
                    assert(mids@[j] == added_view[j - before.len()]);
                }
            }
            assert(pow4((level + 1) as nat) == 4 * pow4(level as nat));
        }
        level = level + 1;
    }
    (indices, mids)
}

/// Index `k` of the four triangles of spike `i` of a crystal with `spikes`
/// spikes: a fan triangle from the centre (vertex 0) to this spike's base
/// and the next spike's base, then three triangles over the spike's base,
/// tip and two side vertices (`1 + 4 i` to `4 + 4 i`).
pub open spec fn crystal_index(spikes: int, i: int, k: int) -> int {
    let b = 1 + 4 * i;
    let nb = 1 + 4 * ((i + 1) % spikes);
    if k == 0 {
        0
    } else if k == 1 {
        b
    } else if k == 2 {
        nb
    } else if k == 3 {
        b
    } else if k == 4 {
        b + 1
    } else if k == 5 {
        b + 2
    } else if k == 6 {
        b
    } else if k == 7 {
        b + 2
    } else if k == 8 {
        b + 3
    } else if k == 9 {
        b + 1
    } else if k == 10 {
        b + 2
    } else {
        b + 3
    }
}

/// The triangles of a spiky crystal with `spikes` spikes, over its
/// `1 + 4 spikes` vertices.
pub fn crystal_indices(spikes: usize) -> (v: Vec<u32>)
    requires
        1 + 4 * spikes <= u32::MAX,
    ensures
        v@.len() == 12 * spikes,
        forall|i: int, k: int|
            0 <= i < spikes && 0 <= k < 12 ==> v@[12 * i + k] == crystal_index(spikes as int, i, k),
        forall|x: int| 0 <= x < v@.len() ==> #[trigger] v@[x] < 1 + 4 * spikes,
{
    let mut v: Vec<u32> = Vec::new();
    let mut i: usize = 0;
    while i < spikes
        invariant
            i <= spikes,
            1 + 4 * spikes <= u32::MAX,
            v@.len() == 12 * i,
            forall|j: int, k: int|
                0 <= j < i && 0 <= k < 12 ==> v@[12 * j + k] == crystal_index(spikes as int, j, k),
            forall|x: int| 0 <= x < v@.len() ==> #[trigger] v@[x] < 1 + 4 * spikes,
        decreases spikes - i,
    {
        let b = (1 + i * 4) as u32;
        let nb = (1 + ((i + 1) % spikes) * 4) as u32;
        let ghost before = v@;
        push_triangle(&mut v, 0, b, nb);
        push_triangle(&mut v, b, b + 1, b + 2);
        push_triangle(&mut v, b, b + 2, b + 3);
        push_triangle(&mut v, b + 1, b + 2, b + 3);
        proof {
            let ii = i as int;
            assert forall|j: int, k: int|
                0 <= j < ii + 1 && 0 <= k < 12 implies v@[12 * j + k] == crystal_index(
                spikes as int,
                j,
                k,
            ) by {
                if j < ii {
                    assert(v@[12 * j + k] == before[12 * j + k]);
                }
            }
        }
        i = i + 1;
    }
    v
}

/// Index `k` of the two triangles of the quad between side `side` and the
/// next side, from ring `segment` to the ring above, on a tube whose rings
/// have `sides` vertices each.
pub open spec fn tube_index(sides: int, segment: int, side: int, k: int) -> int {
    let current = segment * sides + side;
    let above = (segment + 1) * sides + side;
    let current_next = segment * sides + (side + 1) % sides;
    let above_next = (segment + 1) * sides + (side + 1) % sides;
    if k == 0 {
        current
    } else if k == 1 {
        above
    } else if k == 2 {
        current_next
    } else if k == 3 {
        current_next
    } else if k == 4 {
        above
    } else {
        above_next
    }
}

proof fn lemma_quad_position(sides: int, s: int, side: int, s2: int, side2: int)
    requires
        0 <= side < sides,
        0 <= side2 < sides,
        0 <= s2,
        s2 < s || (s2 == s && side2 < side),
    ensures
        s2 * sides + side2 < s * sides + side,
{
    if s2 < s {
        assert(s2 * sides + side2 < (s2 + 1) * sides) by (nonlinear_arith)
            requires
                side2 < sides,
        ;
        assert((s2 + 1) * sides <= s * sides) by (nonlinear_arith)
            requires
                s2 + 1 <= s,
                0 <= sides,
        ;
    }
}

/// The triangles of a tube of `segments` segments between `segments + 1`
/// rings of `sides` vertices; ring `r` holds vertices `r sides` to
/// `r sides + sides - 1`.
pub fn tube_indices(segments: usize, sides: usize) -> (v: Vec<u32>)
    requires
        (segments + 1) * sides <= u32::MAX,
    ensures
        v@.len() == 6 * segments * sides,
        forall|s: int, side: int, k: int|
            0 <= s < segments && 0 <= side < sides && 0 <= k < 6 ==> v@[6 * (s * sides + side) + k]
                == tube_index(sides as int, s, side, k),
        forall|x: int| 0 <= x < v@.len() ==> #[trigger] v@[x] < (segments + 1) * sides,
{
    let mut v: Vec<u32> = Vec::new();
    let mut s: usize = 0;
    while s < segments
        invariant
            s <= segments,
            (segments + 1) * sides <= u32::MAX,
            v@.len() == 6 * (s * sides),
            forall|s2: int, side2: int, k: int|
                0 <= s2 < s && 0 <= side2 < sides && 0 <= k < 6 ==> v@[6 * (s2 * sides + side2) + k]
                    == tube_index(sides as int, s2, side2, k),
            forall|x: int| 0 <= x < v@.len() ==> #[trigger] v@[x] < (segments + 1) * sides,
        decreases segments - s,
    {
        proof {
            assert((s + 2) * sides <= (segments + 1) * sides) by (nonlinear_arith)
                requires
                    s + 2 <= segments + 1,
            ;
        }
        let mut side: usize = 0;
        while side < sides
            invariant
                s < segments,
                side <= sides,
                (s + 2) * sides <= (segments + 1) * sides <= u32::MAX,
                v@.len() == 6 * (s * sides + side),
                forall|s2: int, side2: int, k: int|
                    0 <= s2 && 0 <= side2 < sides && 0 <= k < 6 && (s2 < s || (s2 == s && side2
                        < side)) ==> v@[6 * (s2 * sides + side2) + k] == tube_index(
                        sides as int,
                        s2,
                        side2,
                        k,
                    ),
                forall|x: int| 0 <= x < v@.len() ==> #[trigger] v@[x] < (segments + 1) * sides,
            decreases sides - side,
        {
            proof {
                assert((s + 1) * sides + sides == (s + 2) * sides) by (nonlinear_arith);
                assert(s * sides + sides == (s + 1) * sides) by (nonlinear_arith);
            }
            let current = (s * sides + side) as u32;
            let above = ((s + 1) * sides + side) as u32;
            let current_next = (s * sides + (side + 1) % sides) as u32;
            let above_next = ((s + 1) * sides + (side + 1) % sides) as u32;
            let ghost before = v@;
            push_triangle(&mut v, current, above, current_next);
            push_triangle(&mut v, current_next, above, above_next);
            proof {
                let si = s as int;
                let di = side as int;
                assert forall|s2: int, side2: int, k: int|
                    0 <= s2 && 0 <= side2 < sides && 0 <= k < 6 && (s2 < si || (s2 == si && side2
                        < di + 1)) implies v@[6 * (s2 * sides + side2) + k] == tube_index(
                    sides as int,
                    s2,
                    side2,
                    k,
                ) by {
                    if s2 < si || side2 < di {
                        lemma_quad_position(sides as int, si, di, s2, side2);
                        assert(v@[6 * (s2 * sides + side2) + k] == before[6 * (s2 * sides + side2)
                            + k]);
                    }
                }
            }
            side = side + 1;
        }
        proof {
            assert(s * sides + sides == (s + 1) * sides) by (nonlinear_arith);
        }
        s = s + 1;
    }
    proof {
        assert(6 * (segments * sides) == 6 * segments * sides) by (nonlinear_arith);
    }
    v
}

/// The triangles of a worm of `segments` segments, eight vertices round.
pub fn segmented_indices(segments: usize) -> (v: Vec<u32>)
    requires
        (segments + 1) * 8 <= u32::MAX,
    ensures
        v@.len() == 6 * segments * 8,
        forall|s: int, side: int, k: int|
            0 <= s < segments && 0 <= side < 8 && 0 <= k < 6 ==> v@[6 * (s * 8 + side) + k]
                == tube_index(8, s, side, k),
        forall|x: int| 0 <= x < v@.len() ==> #[trigger] v@[x] < (segments + 1) * 8,
{
    tube_indices(segments, 8)
}

/// The triangles of a twisted pillar: eight segments, six vertices round.
pub fn twisted_pillar_indices() -> (v: Vec<u32>)
    ensures
        v@.len() == 288,
        forall|s: int, side: int, k: int|
            0 <= s < 8 && 0 <= side < 6 && 0 <= k < 6 ==> v@[6 * (s * 6 + side) + k] == tube_index(
                6,
                s,
                side,
                k,
            ),
        forall|x: int| 0 <= x < v@.len() ==> #[trigger] v@[x] < 54,
{
    tube_indices(8, 6)
}

/// The triangles of a gem: a top point (vertex 0), a ring of six (1 to 6)
/// and a bottom point (7); six faces up to the top, then six down to the
/// bottom.
pub open spec fn gem() -> Seq<u32> {
    seq![
        0, 1, 2, 0, 2, 3, 0, 3, 4, 0, 4, 5, 0, 5, 6, 0, 6, 1,
        7, 2, 1, 7, 3, 2, 7, 4, 3, 7, 5, 4, 7, 6, 5, 7, 1, 6,
    ]
}

pub fn gem_indices() -> (v: Vec<u32>)
    ensures
        v@ == gem(),
{
    let ring_points: u32 = 6;
    let mut v: Vec<u32> = Vec::new();
    let mut i: u32 = 0;
    while i < ring_points
        invariant
            ring_points == 6,
            i <= 6,
            v@ == gem().take(3 * i),
        decreases 6 - i,
    {
        let next = (i + 1) % ring_points;
        push_triangle(&mut v, 0, i + 1, next + 1);
        proof {
            assert(v@ =~= gem().take(3 * i + 3));
        }
        i = i + 1;
    }
    let mut i: u32 = 0;
    while i < ring_points
        invariant
            ring_points == 6,
            i <= 6,
            v@ == gem().take(18 + 3 * i),
        decreases 6 - i,
    {
        let next = (i + 1) % ring_points;
        push_triangle(&mut v, ring_points + 1, next + 1, i + 1);
        proof {
            assert(v@ =~= gem().take(18 + 3 * i + 3));
        }
        i = i + 1;
    }
    assert(v@ =~= gem());
    v
}

/// The triangles of an angular, octahedron-like body over fourteen
/// vertices: a top pyramid, a middle band and a bottom pyramid.
pub open spec fn angular() -> Seq<u32> {
    seq![
        0, 1, 2, 0, 2, 3, 0, 3, 4, 0, 4, 1,
        1, 5, 2, 2, 6, 3, 3, 7, 4, 4, 8, 1, 5, 6, 2, 6, 7, 3, 7, 8, 4, 8, 5, 1,
        9, 11, 10, 9, 12, 11, 9, 13, 12, 9, 10, 13,
        10, 11, 5, 11, 12, 6, 12, 13, 7, 13, 10, 8, 11, 6, 5, 12, 7, 6, 13, 8, 7, 10, 5, 8,
    ]
}

pub fn angular_indices() -> (v: Vec<u32>)
    ensures
        v@ == angular(),
{
    let mut v: Vec<u32> = Vec::new();
    push_triangle(&mut v, 0, 1, 2);
    push_triangle(&mut v, 0, 2, 3);
    push_triangle(&mut v, 0, 3, 4);
    push_triangle(&mut v, 0, 4, 1);
    push_triangle(&mut v, 1, 5, 2);
    push_triangle(&mut v, 2, 6, 3);
    push_triangle(&mut v, 3, 7, 4);
    push_triangle(&mut v, 4, 8, 1);
    push_triangle(&mut v, 5, 6, 2);
    push_triangle(&mut v, 6, 7, 3);
    push_triangle(&mut v, 7, 8, 4);
    push_triangle(&mut v, 8, 5, 1);
    push_triangle(&mut v, 9, 11, 10);
    push_triangle(&mut v, 9, 12, 11);
    push_triangle(&mut v, 9, 13, 12);
    push_triangle(&mut v, 9, 10, 13);
    push_triangle(&mut v, 10, 11, 5);
    push_triangle(&mut v, 11, 12, 6);
    push_triangle(&mut v, 12, 13, 7);
    push_triangle(&mut v, 13, 10, 8);
    push_triangle(&mut v, 11, 6, 5);
    push_triangle(&mut v, 12, 7, 6);
    push_triangle(&mut v, 13, 8, 7);
    push_triangle(&mut v, 10, 5, 8);
    assert(v@ =~= angular());
    v
}

/// Every fixed body refers only to its own vertices: twelve for the
/// icosahedron, eight for the gem, fourteen for the angular body; and each
/// is a whole number of triangles.
pub proof fn law_fixed_bodies_stay_within_their_vertices()
    ensures
        icosahedron().len() == 60,
        gem().len() == 36,
        angular().len() == 72,
        forall|k: int| 0 <= k < 60 ==> #[trigger] icosahedron()[k] < 12,
        forall|k: int| 0 <= k < 36 ==> #[trigger] gem()[k] < 8,
        forall|k: int| 0 <= k < 72 ==> #[trigger] angular()[k] < 14,
{
}

} // verus!

use rune_arena::mesh::{
    angular_indices, crystal_indices, gem_indices, icosahedron_indices, icosphere_topology,
    segmented_indices, subdivide_indices, tube_indices, twisted_pillar_indices,
};
use std::collections::HashSet;

#[test]
fn subdividing_one_triangle() {
    let (out, mids) = subdivide_indices(&vec![0, 1, 2], 3);
    assert_eq!(mids, vec![(0, 1), (1, 2), (0, 2)]);
    assert_eq!(out, vec![0, 3, 5, 1, 4, 3, 2, 5, 4, 3, 4, 5]);
}

#[test]
fn shared_edges_share_their_midpoint() {
    // Two triangles sharing the edge 1-2.
    let (out, mids) = subdivide_indices(&vec![0, 1, 2, 2, 1, 3], 4);
    assert_eq!(mids.len(), 5);
    let shared = 4 + mids.iter().position(|&p| p == (1, 2)).unwrap() as u32;
    // First triangle: bc is edge 1-2; second triangle: ab is edge 2-1.
    assert_eq!(out[4], shared);
    assert_eq!(out[12 + 1], shared);
}

#[test]
fn icosphere_counts() {
    let (indices, mids) = icosphere_topology(0);
    assert_eq!(indices.len(), 60);
    assert!(mids.is_empty());
    let (indices, mids) = icosphere_topology(1);
    assert_eq!(indices.len(), 240);
    assert_eq!(mids.len(), 30);
    let (indices, mids) = icosphere_topology(2);
    assert_eq!(indices.len(), 960);
    assert_eq!(mids.len(), 30 + 120);
    let n = 12 + mids.len() as u32;
    assert!(indices.iter().all(|&i| i < n));
    let distinct: HashSet<_> = mids.iter().collect();
    assert_eq!(distinct.len(), mids.len());
    assert_eq!(icosahedron_indices().len(), 60);
}

#[test]
fn crystal_fans_and_spikes() {
    let v = crystal_indices(2);
    assert_eq!(
        v,
        vec![0, 1, 5, 1, 2, 3, 1, 3, 4, 2, 3, 4, 0, 5, 1, 5, 6, 7, 5, 7, 8, 6, 7, 8]
    );
    assert!(crystal_indices(0).is_empty());
}

#[test]
fn tube_quads() {
    let v = tube_indices(1, 3);
    assert_eq!(v, vec![0, 3, 1, 1, 3, 4, 1, 4, 2, 2, 4, 5, 2, 5, 0, 0, 5, 3]);
    assert_eq!(segmented_indices(2).len(), 96);
    let p = twisted_pillar_indices();
    assert_eq!(p.len(), 288);
    assert!(p.iter().all(|&i| i < 54));
}

#[test]
fn gem_and_angular_bodies() {
    let g = gem_indices();
    assert_eq!(&g[..6], &[0, 1, 2, 0, 2, 3]);
    assert_eq!(&g[15..18], &[0, 6, 1]);
    assert_eq!(&g[18..21], &[7, 2, 1]);
    assert_eq!(g.len(), 36);
    let a = angular_indices();
    assert_eq!(a.len(), 72);
    assert!(a.iter().all(|&i| i < 14));
    assert_eq!(&a[69..72], &[10, 5, 8]);
}

#[test]
fn icosphere_midpoints_come_from_earlier_vertices() {
    let (indices, mids) = icosphere_topology(3);
    assert_eq!(indices.len(), 60 * 64);
    for (j, &(a, b)) in mids.iter().enumerate() {
        assert!(a < b);
        assert!((b as usize) < 12 + j);
    }
    let (level1, _) = icosphere_topology(1);
    let (again, _) = subdivide_indices(&icosahedron_indices(), 12);
    assert_eq!(level1, again);
}

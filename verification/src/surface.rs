//! The cylinder's mesh as a surface.
//!
//! Side wall and caps do not share vertices: a rim position occurs once with a
//! radial normal and once with an axial one. The triangles nevertheless fit
//! together along their edges once vertices are told apart by position alone.
//! This module states that fit: the mesh is closed and consistently oriented.

use crate::cylinder::{cylinder_mesh, level_at, next_slice, triangle_at, vertex_at};
use crate::cylinder::{Level, Mesh, Normal, Position, Vertex, MAX_SLICES, MIN_SLICES};
use vstd::prelude::*;

verus! {

impl Vertex {
    /// Whether the vertex lies on a rim and carries the radial normal of its
    /// own slice, one of the `n` slices of the cylinder.
    pub open spec fn shaded_radially(self, n: nat) -> bool {
        match (self.position, self.normal) {
            (Position::Rim { slice: at, .. }, Normal::Radial { slice: along }) => at == along
                && at < n,
            _ => false,
        }
    }
}

impl Mesh {
    /// Whether triangle `t` runs from position `p` straight to position `q` in
    /// the order of its corners.
    pub open spec fn has_directed_edge(self, t: int, p: Position, q: Position) -> bool {
        let a = self.vertices[self.triangles[t].a].position;
        let b = self.vertices[self.triangles[t].b].position;
        let c = self.vertices[self.triangles[t].c].position;
        ||| (a == p && b == q)
        ||| (b == p && c == q)
        ||| (c == p && a == q)
    }

    /// Whether triangle `t` has an edge between the positions `p` and `q`.
    pub open spec fn has_edge(self, t: int, p: Position, q: Position) -> bool {
        self.has_directed_edge(t, p, q) || self.has_directed_edge(t, q, p)
    }

    /// The triangles that have an edge between the positions `p` and `q`.
    pub open spec fn edge_triangles(self, p: Position, q: Position) -> Set<int> {
        Set::new(|t: int| 0 <= t < self.triangles.len() && self.has_edge(t, p, q))
    }
}

/// The slice that comes before slice `j` around the axis.
spec fn prev_slice(n: nat, j: int) -> int {
    if j == 0 {
        n - 1
    } else {
        j - 1
    }
}

/// The triangle that runs from `p` straight to `q`, if there is one.
spec fn owner(n: nat, p: Position, q: Position) -> Option<int> {
    match (p, q) {
        (Position::Rim { slice: a, level: la }, Position::Rim { slice: b, level: lb }) => {
            if a >= n || b >= n {
                None
            } else {
                match (la, lb) {
                    (Level::Top, Level::Top) => {
                        if b == next_slice(n, a as int) {
                            Some(2 * a)
                        } else if a == next_slice(n, b as int) {
                            Some(2 * n + 2 * b)
                        } else {
                            None
                        }
                    },
                    (Level::Top, Level::Bottom) => {
                        if a == b {
                            Some(2 * prev_slice(n, a as int) + 1)
                        } else if a == next_slice(n, b as int) {
                            Some(2 * b)
                        } else {
                            None
                        }
                    },
                    (Level::Bottom, Level::Top) => {
                        if a == b {
                            Some(2 * a)
                        } else if b == next_slice(n, a as int) {
                            Some(2 * a + 1)
                        } else {
                            None
                        }
                    },
                    (Level::Bottom, Level::Bottom) => {
                        if a == next_slice(n, b as int) {
                            Some(2 * b + 1)
                        } else if b == next_slice(n, a as int) {
                            Some(2 * n + 2 * a + 1)
                        } else {
                            None
                        }
                    },
                }
            }
        },
        (Position::Rim { slice: a, level: la }, Position::Center { level: lb }) => {
            if a >= n || la != lb {
                None
            } else {
                match la {
                    Level::Top => Some(2 * n + 2 * a),
                    Level::Bottom => Some(2 * n + 2 * prev_slice(n, a as int) + 1),
                }
            }
        },
        (Position::Center { level: la }, Position::Rim { slice: b, level: lb }) => {
            if b >= n || la != lb {
                None
            } else {
                match la {
                    Level::Top => Some(2 * n + 2 * prev_slice(n, b as int)),
                    Level::Bottom => Some(2 * n + 2 * b + 1),
                }
            }
        },
        (Position::Center { .. }, Position::Center { .. }) => None,
    }
}

/// The rim position of slice `j` at `level`.
spec fn rim(j: int, level: Level) -> Position {
    Position::Rim { slice: j as usize, level }
}

/// The positions of the three corners of triangle `t`, in their order.
spec fn corners(n: nat, t: int) -> (Position, Position, Position) {
    let j = if t < 2 * n {
        t / 2
    } else {
        (t - 2 * n) / 2
    };
    let k = next_slice(n, j);
    if t < 2 * n {
        if t % 2 == 0 {
            (rim(j, Level::Top), rim(k, Level::Top), rim(j, Level::Bottom))
        } else {
            (rim(k, Level::Top), rim(k, Level::Bottom), rim(j, Level::Bottom))
        }
    } else {
        if t % 2 == 0 {
            (rim(k, Level::Top), rim(j, Level::Top), Position::Center { level: Level::Top })
        } else {
            (
                rim(j, Level::Bottom),
                rim(k, Level::Bottom),
                Position::Center { level: Level::Bottom },
            )
        }
    }
}

/// Whether `(p, q)` is one of the three directed edges of triangle `t`.
spec fn runs_along(n: nat, t: int, p: Position, q: Position) -> bool {
    let (a, b, c) = corners(n, t);
    ||| (a == p && b == q)
    ||| (b == p && c == q)
    ||| (c == p && a == q)
}

/// `corners` gives the positions that the vertex list holds.
proof fn lemma_corners(n: nat, t: int)
    requires
        MIN_SLICES <= n <= MAX_SLICES,
        0 <= t < 4 * n,
    ensures
        ({
            let mesh = cylinder_mesh(n);
            &&& mesh.vertices[mesh.triangles[t].a].position == corners(n, t).0
            &&& mesh.vertices[mesh.triangles[t].b].position == corners(n, t).1
            &&& mesh.vertices[mesh.triangles[t].c].position == corners(n, t).2
        }),
{
    let mesh = cylinder_mesh(n);
    let tri = triangle_at(n, t);
    assert(mesh.triangles[t] == tri);
    assert(mesh.vertices[tri.a] == vertex_at(n, tri.a));
    assert(mesh.vertices[tri.b] == vertex_at(n, tri.b));
    assert(mesh.vertices[tri.c] == vertex_at(n, tri.c));
}

/// A triangle is the owner of each of its three directed edges.
proof fn lemma_owns(n: nat, t: int)
    requires
        MIN_SLICES <= n <= MAX_SLICES,
        0 <= t < 4 * n,
    ensures
        owner(n, corners(n, t).0, corners(n, t).1) == Some(t),
        owner(n, corners(n, t).1, corners(n, t).2) == Some(t),
        owner(n, corners(n, t).2, corners(n, t).0) == Some(t),
{
}

/// The owner of an edge runs along it.
proof fn lemma_owned(n: nat, p: Position, q: Position)
    requires
        MIN_SLICES <= n <= MAX_SLICES,
        owner(n, p, q) is Some,
    ensures
        runs_along(n, owner(n, p, q).unwrap(), p, q),
{
}

/// A triangle runs from `p` to `q` just when it is the owner of that edge.
proof fn lemma_owner(n: nat, t: int, p: Position, q: Position)
    requires
        MIN_SLICES <= n <= MAX_SLICES,
        0 <= t < 4 * n,
    ensures
        cylinder_mesh(n).has_directed_edge(t, p, q) <==> owner(n, p, q) == Some(t),
{
    lemma_corners(n, t);
    assert(cylinder_mesh(n).has_directed_edge(t, p, q) <==> runs_along(n, t, p, q));
    lemma_owns(n, t);
    if owner(n, p, q) is Some {
        lemma_owned(n, p, q);
    }
}

/// Where an edge has an owner, the reversed edge has another.
proof fn lemma_owner_of_reverse(n: nat, p: Position, q: Position)
    requires
        MIN_SLICES <= n <= MAX_SLICES,
        owner(n, p, q) is Some,
    ensures
        0 <= owner(n, p, q).unwrap() < 4 * n,
        owner(n, q, p) is Some,
        owner(n, q, p) != owner(n, p, q),
{
}

/// The three corners of a triangle of a cylinder lie at three different
/// positions.
pub proof fn lemma_corners_distinct(n: nat, t: int)
    requires
        MIN_SLICES <= n <= MAX_SLICES,
        0 <= t < 4 * n,
    ensures
        ({
            let mesh = cylinder_mesh(n);
            let a = mesh.vertices[mesh.triangles[t].a].position;
            let b = mesh.vertices[mesh.triangles[t].b].position;
            let c = mesh.vertices[mesh.triangles[t].c].position;
            a != b && b != c && c != a
        }),
{
    lemma_corners(n, t);
}

/// Every triangle is shaded by one family of normals: the corners of a
/// side-wall triangle carry the radial normal of the slice they stand on, the
/// corners of a cap triangle the axial normal of their cap.
pub proof fn lemma_flat_shading(n: nat, t: int)
    requires
        MIN_SLICES <= n <= MAX_SLICES,
        0 <= t < 4 * n,
    ensures
        ({
            let mesh = cylinder_mesh(n);
            let a = mesh.vertices[mesh.triangles[t].a];
            let b = mesh.vertices[mesh.triangles[t].b];
            let c = mesh.vertices[mesh.triangles[t].c];
            if t < 2 * n {
                a.shaded_radially(n) && b.shaded_radially(n) && c.shaded_radially(n)
            } else {
                let cap = Normal::Axial { level: level_at(t) };
                a.normal == cap && b.normal == cap && c.normal == cap
            }
        }),
{
    let mesh = cylinder_mesh(n);
    let tri = triangle_at(n, t);
    assert(mesh.triangles[t] == tri);
    assert(mesh.vertices[tri.a] == vertex_at(n, tri.a));
    assert(mesh.vertices[tri.b] == vertex_at(n, tri.b));
    assert(mesh.vertices[tri.c] == vertex_at(n, tri.c));
}

/// The surface of a cylinder is consistently oriented: where a triangle runs
/// from `p` to `q`, no other triangle does, and exactly one triangle runs from
/// `q` to `p`.
pub proof fn lemma_oriented(n: nat, t: int, p: Position, q: Position)
    requires
        MIN_SLICES <= n <= MAX_SLICES,
        0 <= t < 4 * n,
        cylinder_mesh(n).has_directed_edge(t, p, q),
    ensures
        forall|u: int|
            0 <= u < 4 * n && #[trigger] cylinder_mesh(n).has_directed_edge(u, p, q) ==> u == t,
        exists|u: int|
            0 <= u < 4 * n && u != t && #[trigger] cylinder_mesh(n).has_directed_edge(u, q, p),
        forall|u: int, v: int|
            0 <= u < 4 * n && 0 <= v < 4 * n && #[trigger] cylinder_mesh(n).has_directed_edge(
                u,
                q,
                p,
            ) && #[trigger] cylinder_mesh(n).has_directed_edge(v, q, p) ==> u == v,
{
    let mesh = cylinder_mesh(n);
    lemma_owner(n, t, p, q);
    lemma_owner_of_reverse(n, p, q);
    let mate = owner(n, q, p).unwrap();
    lemma_owner_of_reverse(n, q, p);
    lemma_owner(n, mate, q, p);
    assert(mesh.has_directed_edge(mate, q, p));
    assert forall|u: int| 0 <= u < 4 * n && #[trigger] mesh.has_directed_edge(u, p, q) implies u
        == t by {
        lemma_owner(n, u, p, q);
    }
    assert forall|u: int, v: int|
        0 <= u < 4 * n && 0 <= v < 4 * n && #[trigger] mesh.has_directed_edge(u, q, p)
            && #[trigger] mesh.has_directed_edge(v, q, p) implies u == v by {
        lemma_owner(n, u, q, p);
        lemma_owner(n, v, q, p);
    }
}

/// The surface of a cylinder is closed: an edge of one triangle is an edge of
/// exactly two.
pub proof fn lemma_edge_shared_by_two(n: nat, t: int, p: Position, q: Position)
    requires
        MIN_SLICES <= n <= MAX_SLICES,
        0 <= t < 4 * n,
        cylinder_mesh(n).has_edge(t, p, q),
    ensures
        cylinder_mesh(n).edge_triangles(p, q).finite(),
        cylinder_mesh(n).edge_triangles(p, q).len() == 2,
{
    let mesh = cylinder_mesh(n);
    lemma_owner(n, t, p, q);
    lemma_owner(n, t, q, p);
    if owner(n, p, q) is Some {
        lemma_owner_of_reverse(n, p, q);
    } else {
        lemma_owner_of_reverse(n, q, p);
    }
    let forth = owner(n, p, q).unwrap();
    let back = owner(n, q, p).unwrap();
    lemma_owner_of_reverse(n, p, q);
    lemma_owner_of_reverse(n, q, p);
    lemma_owner(n, forth, p, q);
    lemma_owner(n, back, q, p);
    assert forall|u: int| mesh.edge_triangles(p, q).contains(u) implies u == forth || u
        == back by {
        lemma_owner(n, u, p, q);
        lemma_owner(n, u, q, p);
    }
    assert(mesh.edge_triangles(p, q) =~= set![forth, back]);
}

} // verus!

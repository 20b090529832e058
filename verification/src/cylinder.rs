//! The triangle mesh of a capped cylinder.
//!
//! A cylinder with `n` slices has `4 * n + 2` vertices and `4 * n` triangles.
//! The vertices come in three groups, in this order:
//!
//! * the side wall: for each slice its top and its bottom rim vertex, with the
//!   radial normal of the slice;
//! * the cap rims: the same positions again, with the axial normal of their cap;
//! * the two cap centres, top first.
//!
//! The triangles come in two groups: two per slice for the side wall, then two
//! per slice for the caps (top, bottom). Each triangle is wound
//! counter-clockwise as seen from outside the cylinder.

use vstd::arithmetic::div_mod::{lemma_fundamental_div_mod_converse, lemma_small_mod};
use vstd::prelude::*;

verus! {

/// The smallest number of slices that gives a solid.
pub const MIN_SLICES: usize = 3;

/// The largest number of slices whose vertex indices fit in 32 bits.
pub const MAX_SLICES: usize = 1_073_741_823;

/// One of the two ends of the cylinder: `Top` is at half the height above the
/// centre, `Bottom` at half the height below it.
#[derive(Clone, Copy, Debug, PartialEq, Eq, Structural)]
pub enum Level {
    Top,
    Bottom,
}

/// Where a vertex lies, independent of the cylinder's radius and height.
#[derive(Clone, Copy, Debug, PartialEq, Eq, Structural)]
pub enum Position {
    /// On the rim at `level`, at sample `slice` of the unit circle: for radius
    /// `r` and angle `theta` of that sample, the point
    /// `(r * cos(theta), y, r * sin(theta))`.
    Rim { slice: usize, level: Level },
    /// On the axis, in the middle of the cap at `level`: the point `(0, y, 0)`.
    Center { level: Level },
}

/// A unit normal, independent of the cylinder's radius and height.
#[derive(Clone, Copy, Debug, PartialEq, Eq, Structural)]
pub enum Normal {
    /// Away from the axis, at sample `slice` of the unit circle:
    /// `(cos(theta), 0, sin(theta))`.
    Radial { slice: usize },
    /// Along the axis, away from the cap at `level`: `(0, 1, 0)` for the top,
    /// `(0, -1, 0)` for the bottom.
    Axial { level: Level },
}

/// A vertex of the mesh.
#[derive(Clone, Copy, Debug, PartialEq, Eq, Structural)]
pub struct Vertex {
    pub position: Position,
    pub normal: Normal,
}

/// The three corners of a triangle, as indices into the vertex list.
pub struct Triangle {
    pub a: int,
    pub b: int,
    pub c: int,
}

/// A vertex list and a triangle list.
pub struct Mesh {
    pub vertices: Seq<Vertex>,
    pub triangles: Seq<Triangle>,
}

impl Level {
    /// What the level adds to the index of a top vertex: `0` for the top, `1`
    /// for the bottom.
    pub open spec fn spec_offset(self) -> int {
        match self {
            Level::Top => 0,
            Level::Bottom => 1,
        }
    }

    /// What the level adds to the index of a top vertex. It is also the number
    /// of heights by which the level lies below the top.
    pub fn offset(self) -> (offset: u8)
        ensures
            offset == self.spec_offset(),
    {
        match self {
            Level::Top => 0,
            Level::Bottom => 1,
        }
    }
}

/// The level of the vertex at index `k`: top vertices have even indices.
pub open spec fn level_at(k: int) -> Level {
    if k % 2 == 0 {
        Level::Top
    } else {
        Level::Bottom
    }
}

/// The index of the side-wall vertex of slice `j` at `level`.
pub open spec fn side_vertex(j: int, level: Level) -> int {
    2 * j + level.spec_offset()
}

/// The index of the cap-rim vertex of slice `j` at `level`.
pub open spec fn cap_vertex(n: nat, j: int, level: Level) -> int {
    2 * n + 2 * j + level.spec_offset()
}

/// The index of the centre of the cap at `level`.
pub open spec fn center_vertex(n: nat, level: Level) -> int {
    4 * n + level.spec_offset()
}

/// The slice that follows slice `j` around the axis. The last slice is followed
/// by the first.
pub open spec fn next_slice(n: nat, j: int) -> int {
    if j + 1 == n {
        0
    } else {
        j + 1
    }
}

/// The vertex at index `k` of a cylinder with `n` slices.
pub open spec fn vertex_at(n: nat, k: int) -> Vertex {
    let level = level_at(k);
    if k < 2 * n {
        Vertex {
            position: Position::Rim { slice: (k / 2) as usize, level },
            normal: Normal::Radial { slice: (k / 2) as usize },
        }
    } else if k < 4 * n {
        Vertex {
            position: Position::Rim { slice: ((k - 2 * n) / 2) as usize, level },
            normal: Normal::Axial { level },
        }
    } else {
        Vertex { position: Position::Center { level }, normal: Normal::Axial { level } }
    }
}

/// The triangle at index `t` of a cylinder with `n` slices.
///
/// With `j` the slice of the triangle and `k` the slice that follows it:
/// the side wall has `(top j, top k, bottom j)` and `(top k, bottom k,
/// bottom j)`, the top cap `(top k, top j, centre)` and the bottom cap
/// `(bottom j, bottom k, centre)`.
pub open spec fn triangle_at(n: nat, t: int) -> Triangle {
    if t < 2 * n {
        let j = t / 2;
        let k = next_slice(n, j);
        if t % 2 == 0 {
            Triangle {
                a: side_vertex(j, Level::Top),
                b: side_vertex(k, Level::Top),
                c: side_vertex(j, Level::Bottom),
            }
        } else {
            Triangle {
                a: side_vertex(k, Level::Top),
                b: side_vertex(k, Level::Bottom),
                c: side_vertex(j, Level::Bottom),
            }
        }
    } else {
        let j = (t - 2 * n) / 2;
        let k = next_slice(n, j);
        if t % 2 == 0 {
            Triangle {
                a: cap_vertex(n, k, Level::Top),
                b: cap_vertex(n, j, Level::Top),
                c: center_vertex(n, Level::Top),
            }
        } else {
            Triangle {
                a: cap_vertex(n, j, Level::Bottom),
                b: cap_vertex(n, k, Level::Bottom),
                c: center_vertex(n, Level::Bottom),
            }
        }
    }
}

/// The mesh of a cylinder with `n` slices.
pub open spec fn cylinder_mesh(n: nat) -> Mesh {
    Mesh {
        vertices: Seq::new(4 * n + 2, |k: int| vertex_at(n, k)),
        triangles: Seq::new(4 * n, |t: int| triangle_at(n, t)),
    }
}

/// The triangle that an index triple stands for.
pub open spec fn triangle_of(corners: [u32; 3]) -> Triangle {
    Triangle { a: corners[0] as int, b: corners[1] as int, c: corners[2] as int }
}

impl Vertex {
    pub fn new(position: Position, normal: Normal) -> (vertex: Vertex)
        ensures
            vertex.position == position,
            vertex.normal == normal,
    {
        Vertex { position, normal }
    }
}

impl Triangle {
    /// Whether the three corners are indices into a list of `count` vertices.
    pub open spec fn in_bounds(self, count: nat) -> bool {
        &&& 0 <= self.a < count
        &&& 0 <= self.b < count
        &&& 0 <= self.c < count
    }
}

/// The mesh of a capped cylinder: its vertex list and, one triple of vertex
/// indices per triangle, its index list.
pub struct Cylinder {
    vertices: Vec<Vertex>,
    indices: Vec<[u32; 3]>,
}

impl View for Cylinder {
    type V = Mesh;

    closed spec fn view(&self) -> Mesh {
        Mesh {
            vertices: self.vertices@,
            triangles: Seq::new(self.indices@.len(), |t: int| triangle_of(self.indices@[t])),
        }
    }
}

/// Indices below twice the modulus wrap around by one subtraction.
proof fn lemma_wrap(m: int, i: int)
    requires
        0 < m,
        0 <= i < 2 * m,
    ensures
        i % m == if i < m {
            i
        } else {
            i - m
        },
{
    if i < m {
        lemma_small_mod(i as nat, m as nat);
    } else {
        lemma_fundamental_div_mod_converse(i, m, 1, i - m);
    }
}

impl Cylinder {
    /// The number of slices that the cylinder was built with.
    pub closed spec fn slices(&self) -> nat {
        self.indices@.len() / 4
    }

    #[verifier::type_invariant]
    spec fn well_formed(&self) -> bool {
        &&& MIN_SLICES <= self.slices() <= MAX_SLICES
        &&& self@ == cylinder_mesh(self.slices())
    }

    /// The index list: one triple of vertex indices per triangle.
    pub fn get_indices(&self) -> (indices: &Vec<[u32; 3]>)
        ensures
            MIN_SLICES <= self.slices() <= MAX_SLICES,
            self@ == cylinder_mesh(self.slices()),
            indices@.len() == self@.triangles.len(),
            forall|t: int|
                0 <= t < indices@.len() ==> triangle_of(#[trigger] indices@[t])
                    == self@.triangles[t],
    {
        proof {
            use_type_invariant(self);
        }
        &self.indices
    }

    /// The vertex list.
    pub fn get_vertices(&self) -> (vertices: &Vec<Vertex>)
        ensures
            MIN_SLICES <= self.slices() <= MAX_SLICES,
            self@ == cylinder_mesh(self.slices()),
            vertices@ == self@.vertices,
    {
        proof {
            use_type_invariant(self);
        }
        &self.vertices
    }

    /// Builds the mesh of a cylinder with `nb_slices` slices.
    pub fn new(nb_slices: usize) -> (cylinder: Cylinder)
        requires
            MIN_SLICES <= nb_slices <= MAX_SLICES,
        ensures
            cylinder.slices() == nb_slices,
            cylinder@ == cylinder_mesh(nb_slices as nat),
            cylinder@.vertices.len() == 4 * nb_slices + 2,
            cylinder@.triangles.len() == 4 * nb_slices,
            forall|t: int|
                0 <= t < cylinder@.triangles.len() ==> (#[trigger] cylinder@.triangles[t]).in_bounds(
                    cylinder@.vertices.len(),
                ),
    {
        let ghost n: nat = nb_slices as nat;
        let mut vertices: Vec<Vertex> = Vec::new();
        let mut indices: Vec<[u32; 3]> = Vec::new();

        // The side wall. Its vertices are wrapped around the seam by the
        // remainder.
        let side_count: usize = 2 * nb_slices;
        let mut j: usize = 0;
        while j < nb_slices
            invariant
                MIN_SLICES <= nb_slices <= MAX_SLICES,
                n == nb_slices,
                side_count == 2 * nb_slices,
                j <= nb_slices,
                vertices@.len() == 2 * j,
                indices@.len() == 2 * j,
                forall|k: int| 0 <= k < 2 * j ==> vertices@[k] == vertex_at(n, k),
                forall|t: int| 0 <= t < 2 * j ==> triangle_of(indices@[t]) == triangle_at(n, t),
            decreases nb_slices - j,
        {
            let top: usize = 2 * j;
            let bottom: usize = top + 1;
            let next_top: usize = (top + 2) % side_count;
            let next_bottom: usize = (top + 3) % side_count;
            proof {
                lemma_wrap(side_count as int, top + 2);
                lemma_wrap(side_count as int, top + 3);
            }
            indices.push([top as u32, next_top as u32, bottom as u32]);
            indices.push([next_top as u32, next_bottom as u32, bottom as u32]);
            vertices.push(
                Vertex::new(
                    Position::Rim { slice: j, level: Level::Top },
                    Normal::Radial { slice: j },
                ),
            );
            vertices.push(
                Vertex::new(
                    Position::Rim { slice: j, level: Level::Bottom },
                    Normal::Radial { slice: j },
                ),
            );
            j += 1;
        }

        // The caps. Every slice but the last is joined to the one after it.
        let top_center: usize = 2 * side_count;
        let bottom_center: usize = top_center + 1;
        let last: usize = nb_slices - 1;
        let mut j: usize = 0;
        while j < last
            invariant
                MIN_SLICES <= nb_slices <= MAX_SLICES,
                n == nb_slices,
                side_count == 2 * nb_slices,
                top_center == 4 * nb_slices,
                bottom_center == top_center + 1,
                last == nb_slices - 1,
                j <= last,
                vertices@.len() == side_count + 2 * j,
                indices@.len() == side_count + 2 * j,
                forall|k: int| 0 <= k < side_count + 2 * j ==> vertices@[k] == vertex_at(n, k),
                forall|t: int|
                    0 <= t < side_count + 2 * j ==> triangle_of(indices@[t]) == triangle_at(n, t),
            decreases last - j,
        {
            let top: usize = side_count + 2 * j;
            let bottom: usize = top + 1;
            indices.push([(top + 2) as u32, top as u32, top_center as u32]);
            indices.push([bottom as u32, (bottom + 2) as u32, bottom_center as u32]);
            vertices.push(
                Vertex::new(
                    Position::Rim { slice: j, level: Level::Top },
                    Normal::Axial { level: Level::Top },
                ),
            );
            vertices.push(
                Vertex::new(
                    Position::Rim { slice: j, level: Level::Bottom },
                    Normal::Axial { level: Level::Bottom },
                ),
            );
            j += 1;
        }

        // The last slice is joined to the first.
        let first_top: usize = side_count;
        let first_bottom: usize = first_top + 1;
        let last_top: usize = side_count + 2 * last;
        let last_bottom: usize = last_top + 1;
        indices.push([first_top as u32, last_top as u32, top_center as u32]);
        indices.push([last_bottom as u32, first_bottom as u32, bottom_center as u32]);
        vertices.push(
            Vertex::new(
                Position::Rim { slice: last, level: Level::Top },
                Normal::Axial { level: Level::Top },
            ),
        );
        vertices.push(
            Vertex::new(
                Position::Rim { slice: last, level: Level::Bottom },
                Normal::Axial { level: Level::Bottom },
            ),
        );

        // The two centres.
        vertices.push(
            Vertex::new(
                Position::Center { level: Level::Top },
                Normal::Axial { level: Level::Top },
            ),
        );
        vertices.push(
            Vertex::new(
                Position::Center { level: Level::Bottom },
                Normal::Axial { level: Level::Bottom },
            ),
        );

        proof {
            let mesh = Mesh {
                vertices: vertices@,
                triangles: Seq::new(indices@.len(), |t: int| triangle_of(indices@[t])),
            };
            assert(mesh.vertices =~= cylinder_mesh(n).vertices);
            assert(mesh.triangles =~= cylinder_mesh(n).triangles);
            lemma_indices_in_bounds(n);
        }
        Cylinder { vertices, indices }
    }
}

/// Every corner of every triangle of a cylinder is the index of one of its
/// vertices.
pub proof fn lemma_indices_in_bounds(n: nat)
    ensures
        forall|t: int|
            0 <= t < 4 * n ==> (#[trigger] cylinder_mesh(n).triangles[t]).in_bounds(4 * n + 2),
{
}

} // verus!

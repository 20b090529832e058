use cylinders_land::cylinder::{Cylinder, Level, Position};

fn position_key(position: Position, slices: usize) -> usize {
    let (slice, level) = match position {
        Position::Rim { slice, level } => (slice, level),
        Position::Center { level } => (slices, level),
    };
    match level {
        Level::Top => 2 * slice,
        Level::Bottom => 2 * slice + 1,
    }
}

fn directed_edges(cylinder: &Cylinder, slices: usize) -> Vec<(usize, usize)> {
    let vertices = cylinder.get_vertices();
    let mut edges: Vec<(usize, usize)> = Vec::new();
    for triangle in cylinder.get_indices() {
        let a: usize = position_key(vertices[triangle[0] as usize].position, slices);
        let b: usize = position_key(vertices[triangle[1] as usize].position, slices);
        let c: usize = position_key(vertices[triangle[2] as usize].position, slices);
        edges.push((a, b));
        edges.push((b, c));
        edges.push((c, a));
    }
    edges
}

fn occurrences(edges: &[(usize, usize)], edge: (usize, usize)) -> usize {
    edges.iter().filter(|e| **e == edge).count()
}

#[test]
fn each_directed_edge_occurs_once_and_once_reversed() {
    for slices in [3usize, 4, 5, 8, 16, 31] {
        let cylinder = Cylinder::new(slices);
        let edges = directed_edges(&cylinder, slices);
        assert_eq!(edges.len(), 12 * slices);
        for edge in edges.iter() {
            assert_eq!(occurrences(&edges, *edge), 1);
            assert_eq!(occurrences(&edges, (edge.1, edge.0)), 1);
        }
    }
}

#[test]
fn each_edge_lies_in_exactly_two_triangles() {
    for slices in [3usize, 4, 6, 10, 21] {
        let cylinder = Cylinder::new(slices);
        let edges = directed_edges(&cylinder, slices);
        for p in 0..2 * slices + 2 {
            for q in 0..2 * slices + 2 {
                let mut triangles: usize = 0;
                for t in 0..4 * slices {
                    let own = &edges[3 * t..3 * t + 3];
                    if own.contains(&(p, q)) || own.contains(&(q, p)) {
                        triangles += 1;
                    }
                }
                assert!(triangles == 0 || triangles == 2);
            }
        }
    }
}

#[test]
fn edge_count_matches_a_closed_surface() {
    // A closed surface with V positions, E edges and F faces that is a sphere
    // has V - E + F = 2.
    for slices in [3usize, 4, 9, 50] {
        let cylinder = Cylinder::new(slices);
        let mut edges = directed_edges(&cylinder, slices);
        for edge in edges.iter_mut() {
            if edge.0 > edge.1 {
                *edge = (edge.1, edge.0);
            }
        }
        edges.sort();
        edges.dedup();
        let positions: usize = 2 * slices + 2;
        let faces: usize = 4 * slices;
        assert_eq!(edges.len(), 6 * slices);
        assert_eq!(positions + faces, edges.len() + 2);
    }
}

use barnes_hut::body::Body;
use barnes_hut::coordinate::Coordinate;
use barnes_hut::node::Node;
use barnes_hut::quad_tree::QuadTree;
use barnes_hut::quadrant::Quadrant;
use barnes_hut::systems::{BodyForceSystem, BodyQuadTreeSystem, THETA_DEN, THETA_NUM};

/// Lattice points per unit of length used by these tests.
const SCALE: f64 = 1024.0;

fn at(v: f64) -> u32 {
    (v * SCALE) as u32
}

fn back(v: u32) -> f64 {
    v as f64 / SCALE
}

fn body(id: u64, mass: u64, x: f64, y: f64) -> Body {
    Body::new(id, mass, Coordinate::new(at(x), at(y)))
}

fn root_quadrant(length: f64) -> Quadrant {
    Quadrant::new(0, at(length), at(length))
}

#[test]
fn test_insert() {
    let mut quad_tree = QuadTree::new(at(1000.0));
    let body = body(1, 10, 900.0, 600.0);

    quad_tree.insert(body);

    assert!(quad_tree.get_root().get_body().is_some());
}

#[test]
fn insert_on_node_with_no_body() {
    let mut node = Node::new(root_quadrant(1000.0));
    let body = body(1, 10, 400.0, 600.0);
    node.insert(body);

    assert_eq!(node.body.unwrap().get_mass(), 10);
    assert_eq!(back(node.body.unwrap().get_coordinate().get_x()), 400.0);
    assert_eq!(back(node.body.unwrap().get_coordinate().get_y()), 600.0);
}

#[test]
fn insert_on_node_single_level() {
    let mut node = Node::new(root_quadrant(1000.0));
    let body_1 = body(1, 10, 400.0, 600.0);
    let body_2 = body(2, 10, 900.0, 600.0);
    node.insert(body_1);
    node.insert(body_2);

    assert_eq!(node.body.unwrap().get_mass(), 20);
    assert_eq!(back(node.body.unwrap().get_coordinate().get_x()), 650.0);
    assert_eq!(back(node.body.unwrap().get_coordinate().get_y()), 600.0);

    let children = node.children.unwrap();
    let sw_body = children.sw.body;
    let se_body = children.se.body;
    let nw_body = children.nw.body;
    let ne_body = children.ne.body;

    assert_eq!(sw_body.unwrap().get_mass(), 10);
    assert_eq!(back(sw_body.unwrap().get_coordinate().get_x()), 400.0);
    assert_eq!(back(sw_body.unwrap().get_coordinate().get_y()), 600.0);

    assert_eq!(se_body.unwrap().get_mass(), 10);
    assert_eq!(back(se_body.unwrap().get_coordinate().get_x()), 900.0);
    assert_eq!(back(se_body.unwrap().get_coordinate().get_y()), 600.0);

    assert!(nw_body.is_none());
    assert!(ne_body.is_none());
}

#[test]
fn insert_on_node_multiple_level() {
    let mut node = Node::new(root_quadrant(1000.0));
    let body_1 = body(1, 10, 200.0, 200.0);
    let body_2 = body(2, 10, 270.0, 200.0);
    node.insert(body_1);
    node.insert(body_2);

    assert_eq!(node.body.unwrap().get_mass(), 20);
    assert_eq!(back(node.body.unwrap().get_coordinate().get_x()), 235.0);
    assert_eq!(back(node.body.unwrap().get_coordinate().get_y()), 200.0);

    let children = node.children.unwrap();

    assert!(children.ne.body.is_none());
    assert!(children.se.body.is_none());
    assert!(children.sw.body.is_none());

    let nw_body = children.nw.body;
    assert_eq!(nw_body.unwrap().get_mass(), 20);
    assert_eq!(back(nw_body.unwrap().get_coordinate().get_x()), 235.0);
    assert_eq!(back(nw_body.unwrap().get_coordinate().get_y()), 200.0);

    let nw_children = children.nw.children.unwrap();
    assert!(nw_children.nw.body.is_some());
    assert!(nw_children.ne.body.is_some());

    assert_eq!(nw_children.nw.body.unwrap().get_mass(), 10);
    assert_eq!(back(nw_children.nw.body.unwrap().get_coordinate().get_x()), 200.0);
    assert_eq!(back(nw_children.nw.body.unwrap().get_coordinate().get_y()), 200.0);

    assert_eq!(nw_children.ne.body.unwrap().get_mass(), 10);
    assert_eq!(back(nw_children.ne.body.unwrap().get_coordinate().get_x()), 270.0);
    assert_eq!(back(nw_children.ne.body.unwrap().get_coordinate().get_y()), 200.0);
}

#[test]
fn out_of_bounds_body_is_dropped() {
    let mut tree = QuadTree::new(at(1000.0));
    tree.insert(body(1, 10, 900.0, 1100.0));
    assert!(tree.get_root().get_body().is_none());
    let mut node = Node::new(root_quadrant(1000.0));
    node.insert(body(1, 10, 1200.0, 10.0));
    assert!(node.get_body().is_none());
    assert_eq!(node.get_total().mass, 0);
}

#[test]
fn overflowing_mass_is_dropped() {
    let mut tree = QuadTree::new(100);
    tree.insert(Body::new(1, u64::MAX, Coordinate::new(10, 10)));
    tree.insert(Body::new(2, 1, Coordinate::new(20, 20)));
    assert_eq!(tree.get_root().get_total().mass, u64::MAX);
    assert!(tree.get_root().get_children().is_none());
}

#[test]
fn boundary_point_goes_to_first_child_in_order() {
    // (8, 8) lies on the corner shared by all four children of (0, 16, 16).
    let mut node = Node::new(Quadrant::new(0, 16, 16));
    node.insert(Body::new(1, 1, Coordinate::new(0, 16)));
    node.insert(Body::new(2, 1, Coordinate::new(8, 8)));
    let children = node.get_children().as_ref().unwrap();
    assert_eq!(children.ne.body.unwrap().get_id(), Some(2));
    assert_eq!(children.sw.body.unwrap().get_id(), Some(1));
    assert!(children.nw.body.is_none());
    assert!(children.se.body.is_none());
}

#[test]
fn coincident_bodies_merge_in_the_smallest_cell() {
    let mut node = Node::new(Quadrant::new(0, 4, 4));
    node.insert(Body::new(1, 2, Coordinate::new(1, 1)));
    node.insert(Body::new(2, 2, Coordinate::new(1, 1)));
    assert_eq!(node.get_total().mass, 4);
    let children = node.get_children().as_ref().unwrap();
    // (0, 4, 4) -> NW (0, 2, 2) -> NE (1, 1, 1) -> SW (1, 1, 0): one point.
    let nw = children.nw.get_children().as_ref().unwrap();
    let ne = nw.ne.get_children().as_ref().unwrap();
    let cell = &ne.sw;
    assert_eq!(cell.get_quadrant().get_length(), 0);
    assert!(cell.get_children().is_none());
    let agg = cell.get_body().unwrap();
    assert_eq!(agg.get_id(), None);
    assert_eq!(agg.get_mass(), 4);
    assert_eq!(agg.get_coordinate(), Coordinate::new(1, 1));
}

#[test]
fn odd_side_leaf_splits() {
    let mut tree = QuadTree::new(999);
    let a = Body::new(1, 3, Coordinate::new(0, 0));
    let b = Body::new(2, 5, Coordinate::new(999, 999));
    tree.insert(a);
    tree.insert(b);
    let root = tree.get_root();
    let children = root.get_children().as_ref().unwrap();
    assert_eq!(children.ne.get_quadrant(), &Quadrant::new(500, 499, 499));
    assert_eq!(children.sw.get_quadrant(), &Quadrant::new(0, 999, 499));
    assert_eq!(children.nw.get_body().unwrap().get_id(), Some(1));
    assert_eq!(children.se.get_body().unwrap().get_id(), Some(2));
    assert_eq!(tree.force_sources(&a, 0, 1), vec![b]);
    assert_eq!(tree.force_sources(&b, 0, 1), vec![a]);
}

#[test]
fn neighbouring_lattice_points_are_separated() {
    let mut tree = QuadTree::new(1000);
    let a = Body::new(1, 1, Coordinate::new(200, 200));
    let b = Body::new(2, 1, Coordinate::new(210, 200));
    let c = Body::new(3, 1, Coordinate::new(201, 200));
    tree.insert(a);
    tree.insert(b);
    tree.insert(c);
    let mut ids: Vec<u64> = tree.force_sources(&a, 0, 1).iter().map(|s| s.get_id().unwrap()).collect();
    ids.sort();
    assert_eq!(ids, vec![2, 3]);
    let mut ids: Vec<u64> = tree.force_sources(&c, 0, 1).iter().map(|s| s.get_id().unwrap()).collect();
    ids.sort();
    assert_eq!(ids, vec![1, 2]);
}

#[test]
fn mass_is_conserved_through_insertion() {
    let mut tree = QuadTree::new(1 << 20);
    let mut sum = 0u64;
    for i in 0..50u64 {
        let m = 1 + (i * 7) % 13;
        let x = ((i * 7919) % 1000) as u32 * 1000;
        let y = ((i * 104729) % 1000) as u32 * 1000;
        tree.insert(Body::new(i, m, Coordinate::new(x, y)));
        sum += m;
    }
    assert_eq!(tree.get_root().get_body().unwrap().get_mass(), sum);
    assert_eq!(tree.get_root().get_total().mass, sum);
}

#[test]
fn self_is_excluded() {
    let mut tree = QuadTree::new(at(1000.0));
    let b = body(1, 10, 500.0, 500.0);
    tree.insert(b);
    assert!(tree.force_sources(&b, 1, 2).is_empty());
    assert!(tree.force_sources(&b, 0, 1).is_empty());
}

#[test]
fn reset_tree_behaves_as_fresh() {
    let mut tree = QuadTree::new(at(1000.0));
    tree.insert(body(1, 10, 100.0, 100.0));
    tree.insert(body(2, 10, 900.0, 900.0));
    tree.reset_root();
    let fresh = QuadTree::new(at(1000.0));
    assert_eq!(format!("{:?}", tree), format!("{:?}", fresh));
    let probe = body(3, 1, 500.0, 500.0);
    assert!(tree.force_sources(&probe, 1, 2).is_empty());
    let q = *fresh.get_root().get_quadrant();
    assert_eq!(format!("{:?}", QuadTree::new_with_quadrant(q)), format!("{:?}", fresh));
}

fn sample_bodies() -> Vec<Body> {
    let mut v = Vec::new();
    let mut id = 1u64;
    for &(x, y, m) in [
        (100.0, 120.0, 5u64),
        (130.0, 110.0, 8),
        (800.0, 150.0, 3),
        (820.0, 170.0, 9),
        (150.0, 850.0, 4),
        (700.0, 700.0, 6),
        (720.0, 690.0, 2),
        (480.0, 520.0, 7),
        (30.0, 40.0, 1),
        (950.0, 950.0, 10),
    ]
    .iter()
    {
        v.push(body(id, m, x, y));
        id += 1;
    }
    v
}

fn force(src: &Body, on: &Body) -> (f64, f64) {
    let dx = src.coordinate.x as f64 - on.coordinate.x as f64;
    let dy = src.coordinate.y as f64 - on.coordinate.y as f64;
    let d2 = dx * dx + dy * dy;
    let d = d2.sqrt();
    let mag = src.mass as f64 * on.mass as f64 / d2;
    (mag * dx / d, mag * dy / d)
}

fn net(sources: &[Body], on: &Body) -> (f64, f64) {
    sources.iter().fold((0.0, 0.0), |acc, s| {
        let f = force(s, on);
        (acc.0 + f.0, acc.1 + f.1)
    })
}

fn build(bodies: &[Body]) -> QuadTree {
    let mut tree = QuadTree::new(at(1000.0));
    for b in bodies {
        tree.insert(*b);
    }
    tree
}

#[test]
fn zero_theta_gives_the_pairwise_sum() {
    let bodies = sample_bodies();
    let tree = build(&bodies);
    for b in &bodies {
        let sources = tree.force_sources(b, 0, 1);
        assert_eq!(sources.len(), bodies.len() - 1);
        let mut ids: Vec<u64> = sources.iter().map(|s| s.get_id().unwrap()).collect();
        ids.sort();
        let expected: Vec<u64> =
            bodies.iter().filter(|o| o.get_id() != b.get_id()).map(|o| o.get_id().unwrap()).collect();
        assert_eq!(ids, expected);
        let others: Vec<Body> = bodies.iter().filter(|o| o.get_id() != b.get_id()).copied().collect();
        let (fx, fy) = net(&sources, b);
        let (ex, ey) = net(&others, b);
        assert!((fx - ex).abs() <= 1e-9 * ex.abs().max(1e-12));
        assert!((fy - ey).abs() <= 1e-9 * ey.abs().max(1e-12));
    }
}

#[test]
fn larger_theta_approximates_more() {
    let bodies = sample_bodies();
    let tree = build(&bodies);
    let thetas: [(u16, u16); 4] = [(0, 1), (1, 4), (1, 2), (2, 1)];
    for b in &bodies {
        let others: Vec<Body> = bodies.iter().filter(|o| o.get_id() != b.get_id()).copied().collect();
        let (ex, ey) = net(&others, b);
        let mut last_len = usize::MAX;
        let mut last_err = -1.0f64;
        for &(n, d) in thetas.iter() {
            let sources = tree.force_sources(b, n, d);
            assert!(sources.len() <= last_len);
            last_len = sources.len();
            let total: u64 = sources.iter().map(|s| s.get_mass()).sum();
            assert!(total <= 55);
            let (fx, fy) = net(&sources, b);
            let err = ((fx - ex).powi(2) + (fy - ey).powi(2)).sqrt();
            if n == 0 {
                assert!(err <= 1e-9 * (ex.abs() + ey.abs()));
            }
            last_err = last_err.max(err);
        }
        assert!(last_err >= 0.0);
    }
}

#[test]
fn far_cluster_is_taken_whole() {
    let mut tree = QuadTree::new(at(1000.0));
    tree.insert(body(1, 4, 900.0, 100.0));
    tree.insert(body(2, 4, 910.0, 110.0));
    let probe = body(3, 1, 10.0, 990.0);
    tree.insert(probe);
    // The NE child (side 500) seen from about 1250 away passes s/d < 1/2.
    let sources = tree.force_sources(&probe, 1, 2);
    assert_eq!(sources.len(), 1);
    assert_eq!(sources[0].get_id(), None);
    assert_eq!(sources[0].get_mass(), 8);
    assert_eq!(back(sources[0].get_coordinate().get_x()), 905.0);
    assert_eq!(back(sources[0].get_coordinate().get_y()), 105.0);
    // With a zero threshold both bodies act one by one.
    let exact = tree.force_sources(&probe, 0, 1);
    assert_eq!(exact.len(), 2);
    let mut ids = vec![exact[0].get_id(), exact[1].get_id()];
    ids.sort();
    assert_eq!(ids, vec![Some(1), Some(2)]);
}

fn child_index(q: &Quadrant, b: &Body) -> usize {
    let (ne, nw, se, sw) = q.get_child_quadrants();
    let c = b.get_coordinate();
    if ne.contains(&c) {
        0
    } else if nw.contains(&c) {
        1
    } else if se.contains(&c) {
        2
    } else {
        assert!(sw.contains(&c));
        3
    }
}

#[test]
fn merged_subtrees_match_direct_insertion() {
    let bodies = sample_bodies();
    let direct = build(&bodies);
    let root_q = *direct.get_root().get_quadrant();
    let (ne, nw, se, sw) = root_q.get_child_quadrants();
    let mut trees: Vec<QuadTree> = vec![
        QuadTree::new_with_quadrant(ne),
        QuadTree::new_with_quadrant(nw),
        QuadTree::new_with_quadrant(se),
        QuadTree::new_with_quadrant(sw),
    ];
    for b in &bodies {
        let i = child_index(&root_q, b);
        trees[i].insert(*b);
    }
    let mut merged = QuadTree::new(at(1000.0));
    merged.merge(&mut trees);
    assert_eq!(trees.len(), 4);
    for t in &trees {
        assert!(t.get_root().get_body().is_none());
        assert_eq!(t.get_root().get_quadrant().get_length(), 0);
    }
    assert_eq!(format!("{:?}", merged), format!("{:?}", direct));
    for b in &bodies {
        for &(n, d) in [(0u16, 1u16), (1, 2), (1, 1)].iter() {
            assert_eq!(merged.force_sources(b, n, d), direct.force_sources(b, n, d));
        }
    }
}

#[test]
fn merge_of_empty_subtrees_weighs_nothing() {
    let mut root = Node::new(Quadrant::new(0, 8, 8));
    let q = *root.get_quadrant();
    let (ne, nw, se, sw) = q.get_child_quadrants();
    let mut nodes = vec![
        Box::new(Node::new(ne)),
        Box::new(Node::new(nw)),
        Box::new(Node::new(se)),
        Box::new(Node::new(sw)),
    ];
    let mut filled = Node::new(se);
    filled.insert(Body::new(4, 6, Coordinate::new(6, 6)));
    nodes[2] = Box::new(filled);
    root.merge(&mut nodes);
    assert!(nodes.is_empty());
    let agg = root.get_body().unwrap();
    assert_eq!(agg.get_mass(), 6);
    assert_eq!(agg.get_coordinate(), Coordinate::new(6, 6));
    assert_eq!(agg.get_id(), None);
    assert!(root.get_children().is_some());
}

#[test]
fn node_reset_keeps_square() {
    let mut node = Node::new(Quadrant::new(0, 8, 8));
    node.insert(Body::new(1, 1, Coordinate::new(1, 1)));
    node.insert(Body::new(2, 1, Coordinate::new(7, 7)));
    node.reset();
    assert!(node.get_body().is_none());
    assert!(node.get_children().is_none());
    assert_eq!(*node.get_quadrant(), Quadrant::new(0, 8, 8));
}

#[test]
fn systems_rebuild_and_select() {
    let bodies = sample_bodies();
    let mut tree = QuadTree::new(at(1000.0));
    tree.insert(body(99, 1, 1.0, 1.0));
    let mut rebuild = BodyQuadTreeSystem;
    rebuild.run(&mut tree, &bodies);
    let direct = build(&bodies);
    assert_eq!(format!("{:?}", tree), format!("{:?}", direct));
    let per_body = BodyForceSystem.run(&tree, &bodies);
    assert_eq!(per_body.len(), bodies.len());
    for (i, b) in bodies.iter().enumerate() {
        assert_eq!(per_body[i], tree.force_sources(b, THETA_NUM, THETA_DEN));
    }
}

#[test]
fn containing_child_is_lent_out() {
    let mut node = Node::new(Quadrant::new(0, 16, 16));
    node.insert(Body::new(1, 1, Coordinate::new(2, 2)));
    node.insert(Body::new(2, 1, Coordinate::new(14, 14)));
    let mut children = node.children.take().unwrap();
    {
        let child = children.get_containing_child_node(&Coordinate::new(12, 12)).unwrap();
        assert_eq!(child.get_quadrant(), &Quadrant::new(8, 16, 8));
        child.insert(Body::new(3, 2, Coordinate::new(12, 12)));
    }
    assert_eq!(children.se.get_total().mass, 3);
    assert!(children.get_containing_child_node(&Coordinate::new(17, 3)).is_none());
    let ne = children.get_containing_child_node(&Coordinate::new(8, 8)).unwrap();
    assert_eq!(ne.get_quadrant(), &Quadrant::new(8, 8, 8));
}

use oni2_assets::bound::{parse_bound, Oni2SubBound};
use oni2_assets::graph::{graph_names, parse_graph_content};
use oni2_assets::loco::parse_loco_content;

/// Verbatim shape of `Entity/TestConveyor/Bound.bnd`: two materials
/// (`default` non-conveyor, `rbPhysMat1SG` conveyor @ speed 1.0) and a
/// single quad selecting material index 1.
const CONVEYOR_BND: &str = "\
version: 1.10
type: geometry
verts: 4
materials: 2
edges: 4
polys: 1
readedgenormals: 1

v 2.985560 0.044274 -26.047058
v -2.985560 0.044274 -26.047058
v 2.985560 0.044274 26.047058
v -2.985560 0.044274 26.047058

type: rbPhysMat
mtl default {
\telasticity: 0.099998
\tfriction: 0.500000
\tConveyor: 0
\tConveyorSpeed: 0.000000
}

type: rbPhysMat
mtl rbPhysMat1SG {
\telasticity: 0.010000
\tfriction: 1.000000
\tConveyor: 1
\tConveyorSpeed: 1.000000
}

edge 2 0 0.0 1.0 0.0
edge 0 1 0.0 1.0 0.0
edge 1 3 0.0 1.0 0.0
edge 3 2 0.0 1.0 0.0

quad 0 1 3 2 1 1 2 3 0
";

/// The fastest positive conveyor speed among a bound's polygons.
fn conveyor_speed(sub: &Oni2SubBound) -> Option<f32> {
    sub.conveyor_speeds
        .iter()
        .filter_map(|t| t.parse::<f32>().ok())
        .filter(|s| *s > 0.0)
        .fold(None, |acc: Option<f32>, s| Some(acc.map_or(s, |a| a.max(s))))
}

#[test]
fn conveyor_material_index_resolves_to_speed() {
    let bound = parse_bound(CONVEYOR_BND);
    assert_eq!(bound.sub_bounds.len(), 1);
    let sub = &bound.sub_bounds[0];
    assert_eq!(sub.quads.len(), 1);
    // The quad selects material index 1 (rbPhysMat1SG), so the sub-bound
    // is a conveyor running at speed 1.0.
    assert_eq!(conveyor_speed(sub), Some(1.0));
}

#[test]
fn non_conveyor_quad_has_no_speed() {
    // Same geometry but the quad selects material 0 (Conveyor: 0).
    let bnd = CONVEYOR_BND.replace("quad 0 1 3 2 1 1 2 3 0", "quad 0 1 3 2 0 1 2 3 0");
    let bound = parse_bound(&bnd);
    assert_eq!(conveyor_speed(&bound.sub_bounds[0]), None);
}

#[test]
fn bound_geometry_and_types() {
    let bound = parse_bound(CONVEYOR_BND);
    let sub = &bound.sub_bounds[0];
    assert_eq!(sub.bound_type, Some("geometry".to_string()));
    assert_eq!(sub.material_type, Some("rbPhysMat".to_string()));
    assert_eq!(sub.vertices.len(), 4);
    assert_eq!(sub.vertices[1][0], "-2.985560");
    assert_eq!(sub.edges[0], [2, 0]);
    assert_eq!(sub.quads[0], [0, 1, 3, 2]);
    assert_eq!(sub.conveyor_speeds, vec!["1.000000".to_string()]);
    assert_eq!(bound.centroid, ["0".to_string(), "0".to_string(), "0".to_string()]);
}

#[test]
fn composite_bounds_split_at_headers() {
    let text = "centroid: 1 2 3\nbound: 0\ntype: box\ncentroid: 4 5 6\nv 0 0 0\nbound: 1\ntri 0 1 2\n";
    let b = parse_bound(text);
    assert_eq!(b.centroid, ["1".to_string(), "2".to_string(), "3".to_string()]);
    assert_eq!(b.sub_bounds.len(), 2);
    assert_eq!(b.sub_bounds[0].centroid[2], "6");
    assert_eq!(b.sub_bounds[0].vertices.len(), 1);
    assert_eq!(b.sub_bounds[1].tris, vec![[0, 1, 2]]);
    assert!(b.sub_bounds[1].conveyor_speeds.is_empty());
}

#[test]
fn graph_names_skip_the_count() {
    assert_eq!(graph_names("2\n\npatrol\n  guard  \n"), vec!["patrol", "guard"]);
    assert!(graph_names("").is_empty());
}

#[test]
fn graph_points_and_edges() {
    let text = "NumPoints 2\n{\n{ 1.5 0 -2 0 7 \"door way\" }\n{ 1 2 }\n}\nNumEdges 1\n\
        { 0 1 3.5 0 2 9 }\nPreCalcData\n{ 5 5 5 5 5 }\n";
    let g = parse_graph_content("patrol", text);
    assert_eq!(g.name, "patrol");
    assert_eq!(g.points.len(), 1);
    assert_eq!(g.points[0].position, ["1.5".to_string(), "0".to_string(), "-2".to_string()]);
    assert_eq!(g.points[0].flags, 7);
    assert_eq!(g.points[0].name, "door way");
    assert_eq!(g.edges.len(), 1);
    assert_eq!((g.edges[0].a, g.edges[0].b), (0, 1));
    assert_eq!(g.edges[0].cost, "3.5");
    assert_eq!(g.edges[0].subgraph, 9);
}

#[test]
fn loco_gaits_and_transitions() {
    let text = "locodata {\n  walk {\n    min_throttle 0.1\n    independant_phase 1\n  }\n  \
        locodata {\n    strafe_l\n    {\n      max_throttle x\n    }\n  }\n}\n\
        transitiondata {\n  STOP {\n    channel legs\n    final_anim idle\n    numchannelsdisabled 2\n  }\n  \
        STOP {\n    stackaction push\n  }\n}\n";
    let c = parse_loco_content(text);
    assert_eq!(c.forward_gaits.len(), 1);
    assert_eq!(c.forward_gaits[0].anim, "walk");
    assert_eq!(c.forward_gaits[0].min_throttle, "0.1");
    assert!(c.forward_gaits[0].independent_phase);
    assert_eq!(c.strafe_gaits.len(), 1);
    assert_eq!(c.strafe_gaits[0].anim, "strafe_l");
    assert_eq!(c.strafe_gaits[0].max_throttle, "0");
    assert_eq!(c.transitions.len(), 1);
    assert_eq!(c.transitions[0].0, "STOP");
    assert_eq!(c.transitions[0].1.len(), 2);
    assert_eq!(c.transitions[0].1[0].channel, "legs");
    assert_eq!(c.transitions[0].1[0].final_anim, Some("idle".to_string()));
    assert_eq!(c.transitions[0].1[0].num_channels_disabled, 2);
    assert_eq!(c.transitions[0].1[1].stack_action, Some("push".to_string()));
}

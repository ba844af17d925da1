use oni2_assets::mesh::parse_mesh;

fn floats<const N: usize>(a: &[String; N]) -> [f32; N] {
    let mut out = [0.0f32; N];
    for (o, t) in out.iter_mut().zip(a.iter()) {
        *o = t.parse().unwrap();
    }
    out
}

/// Smallest plausible `.mesh`: one position, one normal, one color,
/// one uv, one adjunct, one material with one primitive (degenerate
/// 3-index strip).
#[test]
fn parses_minimal_mesh() {
    let text = "{
\tSkinned 0
\tPosSkin 0
\tPos 3 {
\t\t0.0\t0.0\t0.0
\t\t1.0\t0.0\t0.0
\t\t0.0\t1.0\t0.0
\t}
\tNrm 3 {
\t\t0.0\t1.0\t0.0
\t\t0.0\t1.0\t0.0
\t\t0.0\t1.0\t0.0
\t}
\tCpv 3 {
\t\t1.0\t1.0\t1.0\t1.0
\t\t1.0\t1.0\t1.0\t1.0
\t\t1.0\t1.0\t1.0\t1.0
\t}
\tTex0 3 {
\t\t0.0\t0.0
\t\t1.0\t0.0
\t\t0.0\t1.0
\t}
\tTex1 0
\tAdj 3 {
\t\tP 0
\t\tN 0
\t\tC0 0
\t\tT0 0
\t\tP 1
\t\tN 1
\t\tC0 1
\t\tT0 1
\t\tP 2
\t\tN 2
\t\tC0 2
\t\tT0 2
\t}
\tMtl 1 {
\t\t{
\t\t\tName \"test_mat\"
\t\t\tPriority 32
\t\t\tPrim 1 {
\t\t\t\t{
\t\t\t\t\tType TRISTRIP
\t\t\t\t\tPriority 32
\t\t\t\t\tIdx 3 { 0 1 2 }
\t\t\t\t}
\t\t\t}
\t\t}
\t}
\tOffset 0
}
";
    let m = parse_mesh(text, "").expect("parse_mesh accepts the top-level brace");
    assert_eq!(m.vertices.len(), 3);
    assert_eq!(m.normals.len(), 3);
    assert_eq!(m.colors.len(), 3);
    assert_eq!(m.tex_coords.len(), 3);
    assert_eq!(m.materials.len(), 1);
    assert_eq!(m.materials[0].name, "test_mat");
    assert_eq!(m.materials[0].primitive_count, 1);
    assert_eq!(m.packets.len(), 1);
    assert_eq!(m.packets[0].strips.len(), 1);
    assert_eq!(m.packets[0].strips[0], vec![0, 1, 2]);
    assert_eq!(m.packets[0].adjuncts.len(), 3);
    // First adjunct's index pointers
    let a = &m.packets[0].adjuncts[0];
    assert_eq!(a.vertex_idx, 0);
    assert_eq!(a.normal_idx, 0);
    assert_eq!(a.color_idx, 0);
    assert_eq!(a.tex1_idx, 0);
    // Identity bone for unskinned FX mesh
    let bw: Vec<[f32; 3]> = m.bone_world_positions.iter().map(floats).collect();
    let br: Vec<[f32; 4]> = m.bone_rotations.iter().map(floats).collect();
    assert_eq!(bw, vec![[0.0, 0.0, 0.0]]);
    assert_eq!(br, vec![[0.0, 0.0, 0.0, 1.0]]);
    assert!(!m.world_space_verts);
}

#[test]
fn rejects_non_mesh_files() {
    // A `.mod` v1.10 header should not parse as a .mesh.
    assert!(parse_mesh("version: 1.10\nverts: 3\n", "").is_none());
}

#[test]
fn mesh_rows_and_strips_across_lines() {
    let text = "  {\nPos 2 {\n1 x 3\n4 5\n}\nAdj 1 {\nP 7\nN 1\nC0 1\nT0 -2\n}\nMtl 1 {\n{\nName plain\nPrim 1\n{\nIdx 4 { 1 2\n3 4\n}\n}\n}\n}\n}\n";
    let m = parse_mesh(text, "dir").unwrap();
    assert_eq!(m.vertices, vec![["1".to_string(), "0".to_string(), "3".to_string()]]);
    assert_eq!(m.packets[0].adjuncts[0].vertex_idx, 7);
    assert_eq!(m.packets[0].adjuncts[0].tex1_idx, -2);
    assert_eq!(m.materials[0].name, "plain");
    assert_eq!(m.packets[0].strips[0], vec![1, 2, 3, 4]);
    assert_eq!(m.packets[0].strip_types, vec![1]);
}

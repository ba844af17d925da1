use oni2_assets::blocks::parse_blocks;
use oni2_assets::model::{mod_binary_would_fault, parse_mod_binary, parse_shader};
use oni2_assets::model_text::{mod_text_would_fault, parse_mod};

fn push_u32(v: &mut Vec<u8>, x: u32) {
    v.extend_from_slice(&x.to_le_bytes());
}

fn push_f32(v: &mut Vec<u8>, x: f32) {
    v.extend_from_slice(&x.to_le_bytes());
}

/// A binary model with one vertex, one texture coordinate, one material
/// ("body", texture "skin") and one packet.
fn sample_binary() -> Vec<u8> {
    let mut v: Vec<u8> = Vec::new();
    v.extend_from_slice(b"version: 2.10\0");
    // verts, normals, colors, tex1s, tex2s, tangents, materials, adjuncts,
    // primitives, matrices, reskins
    for c in [1u32, 0, 0, 1, 0, 0, 1, 1, 1, 1, 0] {
        push_u32(&mut v, c);
    }
    assert_eq!(v.len(), 58);
    push_f32(&mut v, 1.5);
    push_f32(&mut v, -2.0);
    push_f32(&mut v, 0.25);
    push_f32(&mut v, 0.5);
    push_f32(&mut v, 0.75);
    // material
    v.extend_from_slice(b"body ");
    for c in [1u32, 2, 1, 0] {
        push_u32(&mut v, c);
    }
    for x in [0.1f32, 0.1, 0.1, 0.5, 0.25, 1.0, 0.0, 0.0, 0.0] {
        push_f32(&mut v, x);
    }
    v.extend_from_slice(b"skin\0\0\0\0");
    // packet: 1 adjunct, 1 strip, 1 matrix, 0 reskins
    for c in [1u32, 1, 1, 0] {
        push_u32(&mut v, c);
    }
    for c in [0u32, 0, 0, 0, 0, 3] {
        push_u32(&mut v, c);
    }
    push_u32(&mut v, 1);
    push_u32(&mut v, 3);
    for c in [0u32, 1, 2] {
        push_u32(&mut v, c);
    }
    push_u32(&mut v, 7);
    v.extend_from_slice(b"mtxv");
    push_u32(&mut v, 0);
    v
}

#[test]
fn binary_model_reads_geometry_materials_and_packets() {
    let data = sample_binary();
    assert!(!mod_binary_would_fault(&data));
    let m = parse_mod_binary(&data).expect("model");
    assert!(m.world_space_verts);
    assert_eq!(m.vertices.len(), 1);
    assert_eq!(f32::from_bits(m.vertices[0][0]), 1.5);
    assert_eq!(f32::from_bits(m.vertices[0][1]), -2.0);
    assert_eq!(f32::from_bits(m.vertices[0][2]), 0.25);
    assert_eq!(m.tex_coords.len(), 1);
    assert_eq!(f32::from_bits(m.tex_coords[0][1]), 0.75);
    assert!(m.normals.is_empty());
    assert!(m.colors.is_empty());
    assert_eq!(m.materials.len(), 1);
    let mat = &m.materials[0];
    assert_eq!(mat.name, "body");
    assert_eq!(mat.texture_name.as_deref(), Some("skin"));
    assert_eq!(mat.packet_count, 1);
    assert_eq!(mat.primitive_count, 2);
    assert_eq!(f32::from_bits(mat.diffuse[0]), 0.5);
    assert_eq!(f32::from_bits(mat.diffuse[1]), 0.25);
    assert_eq!(f32::from_bits(mat.diffuse[2]), 1.0);
    assert!(mat.passes.is_empty());
    assert_eq!(m.packets.len(), 1);
    let p = &m.packets[0];
    assert_eq!(p.material_index, 0);
    assert_eq!(p.adjuncts.len(), 1);
    assert_eq!(p.adjuncts[0].bone_idx, 3);
    assert_eq!(p.strips, vec![vec![0, 1, 2]]);
    assert_eq!(p.strip_types, vec![1]);
    assert_eq!(p.bone_map, vec![7]);
}

#[test]
fn binary_model_rejects_short_or_foreign_files() {
    assert!(parse_mod_binary(&[0u8; 10]).is_none());
    let mut data = sample_binary();
    data[8] = b'3';
    assert!(parse_mod_binary(&data).is_none());
}

#[test]
fn binary_model_faults_when_materials_start_past_the_end() {
    let mut data = sample_binary();
    // 1000 second texture coordinates push the materials past the end
    data[30..34].copy_from_slice(&1000u32.to_le_bytes());
    assert!(mod_binary_would_fault(&data));
}

#[test]
fn binary_model_stops_vertices_at_end_of_file() {
    let mut v: Vec<u8> = Vec::new();
    v.extend_from_slice(b"version: 2.10\0");
    for c in [5u32, 0, 0, 0, 0, 0, 0, 0, 0, 0, 0] {
        push_u32(&mut v, c);
    }
    push_f32(&mut v, 1.0);
    push_f32(&mut v, 2.0);
    push_f32(&mut v, 3.0);
    push_f32(&mut v, 4.0);
    let m = parse_mod_binary(&v).expect("model");
    assert_eq!(m.vertices.len(), 1);
    assert!(m.packets.is_empty());
}

#[test]
fn shader_passes_split_on_nextpass() {
    let src = "texture \"rock.tga\"\nLighting on\nnextpass\nBLENDSET add\ntexsrc 2\nalphafunc gt\n";
    let passes = parse_shader(src);
    assert_eq!(passes.len(), 2);
    assert_eq!(passes[0].texture_name.as_deref(), Some("rock.tga"));
    assert_eq!(passes[0].lighting.as_deref(), Some("on"));
    assert_eq!(passes[1].blendset.as_deref(), Some("add"));
    assert_eq!(passes[1].texsrc, Some(2));
    assert_eq!(passes[1].alphafunc.as_deref(), Some("gt"));
    assert!(passes[1].texture_name.is_none());
}

#[test]
fn empty_shader_has_one_empty_pass() {
    let passes = parse_shader("");
    assert_eq!(passes.len(), 1);
    assert!(passes[0].texture_name.is_none());
    assert!(passes[0].texsrc.is_none());
}

const TEXT_MODEL: &str = "v 1.0 2.0 3.0
v x 2 3
n 0 1 0
c 1 0.5 0.25 1
t1 0.5 0.5
mtl skin {
  diffuse: 0.2 0.3 0.4
  texture: 0 \"skin.tga\"
  primitives: 4
  packets: 2
}
mtl hair {
  packets: 1
}
packet 1 1 1 {
  adj 0 0 0 -1 0 2
  str 3 0 1 2
  mtx 4 5
}
packet 1 1 0 {
  adj 1 1 0 0
  tri 0 1 2
}
packet 0 0 0 {
  stp 2 5 6
}
";

#[test]
fn text_model_reads_records_materials_and_packets() {
    assert!(!mod_text_would_fault(TEXT_MODEL));
    let m = parse_mod(TEXT_MODEL);
    assert!(!m.world_space_verts);
    assert_eq!(m.vertices.len(), 2);
    assert_eq!(m.vertices[0], ["1.0".to_string(), "2.0".to_string(), "3.0".to_string()]);
    // unparsable coordinates take the default 0
    assert_eq!(m.vertices[1][0], "0");
    assert_eq!(m.normals.len(), 1);
    assert_eq!(m.colors.len(), 1);
    assert_eq!(m.colors[0][1], "0.5");
    assert_eq!(m.tex_coords.len(), 1);
    assert_eq!(m.materials.len(), 2);
    assert_eq!(m.materials[0].name, "skin");
    assert_eq!(m.materials[0].diffuse[2], "0.4");
    assert_eq!(m.materials[0].texture_name.as_deref(), Some("skin.tga"));
    assert_eq!(m.materials[0].primitive_count, 4);
    assert_eq!(m.materials[1].diffuse[0], "0.8");
    assert_eq!(m.packets.len(), 3);
    // "skin" owns two packets, "hair" one
    assert_eq!(m.packets[0].material_index, 0);
    assert_eq!(m.packets[1].material_index, 0);
    assert_eq!(m.packets[2].material_index, 1);
    assert_eq!(m.packets[0].adjuncts[0].tex1_idx, -1);
    assert_eq!(m.packets[0].adjuncts[0].bone_idx, 2);
    assert_eq!(m.packets[0].strips, vec![vec![0, 1, 2]]);
    assert_eq!(m.packets[0].strip_types, vec![1]);
    assert_eq!(m.packets[0].bone_map, vec![4, 5]);
    assert_eq!(m.packets[1].strip_types, vec![1]);
    assert_eq!(m.packets[2].strip_types, vec![2]);
    assert_eq!(m.packets[2].strips, vec![vec![5, 6]]);
}

#[test]
fn text_model_strip_count_past_its_words_faults() {
    assert!(mod_text_would_fault("packet 0 1 0 {\nstr 5 1 2\n}\n"));
}

#[test]
fn block_walk_reads_one_block() {
    let mut v: Vec<u8> = Vec::new();
    for c in [1u32, 0, 0, 0] {
        push_u32(&mut v, c);
    }
    for c in [4u32, 5, 0, 6, 0, 1] {
        push_u32(&mut v, c);
    }
    for c in [0u32, 0, 0, 0] {
        push_u32(&mut v, c);
    }
    let blocks = parse_blocks(&v, 0, v.len());
    assert_eq!(blocks.len(), 1);
    let b = &blocks[0];
    assert_eq!(b.offset, 0);
    assert_eq!(b.header, [1, 0, 0, 0]);
    assert_eq!(b.table1.len(), 1);
    assert_eq!(b.table1[0].f0, 4);
    assert_eq!(b.table1[0].f5, 1);
    assert_eq!(b.sub_header, vec![0, 0, 0, 0]);
    assert!(b.table2.is_empty());
    assert_eq!(b.end_offset, 56);
}

#[test]
fn block_walk_skips_to_next_plausible_header() {
    let mut v: Vec<u8> = Vec::new();
    push_u32(&mut v, 5000); // implausible
    for c in [1u32, 0, 0, 0] {
        push_u32(&mut v, c);
    }
    for c in [4u32, 5, 0, 6, 0, 1] {
        push_u32(&mut v, c);
    }
    for c in [0u32, 0, 0, 0] {
        push_u32(&mut v, c);
    }
    let blocks = parse_blocks(&v, 0, v.len());
    assert_eq!(blocks.len(), 1);
    assert_eq!(blocks[0].offset, 4);
}

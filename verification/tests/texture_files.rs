use oni2_assets::texture::{
    decode_tex, decode_tga, shader_texture_redirect, tex_would_fault, texture_file_names,
};

fn header(w: u16, h: u16, t: u16) -> Vec<u8> {
    let mut d = vec![0u8; 14];
    d[0..2].copy_from_slice(&w.to_le_bytes());
    d[2..4].copy_from_slice(&h.to_le_bytes());
    d[4..6].copy_from_slice(&t.to_le_bytes());
    d
}

#[test]
fn rgba8888_rows_are_flipped() {
    let mut d = header(1, 2, 0x12);
    d.extend_from_slice(&[1, 2, 3, 255]); // bottom row
    d.extend_from_slice(&[4, 5, 6, 7]); // top row
    let (w, h, px, alpha) = decode_tex(&d).unwrap();
    assert_eq!((w, h), (1, 2));
    assert_eq!(px, vec![4, 5, 6, 7, 1, 2, 3, 255]);
    assert!(alpha);
}

#[test]
fn rgb888_is_opaque() {
    let mut d = header(2, 1, 0x11);
    d.extend_from_slice(&[10, 20, 30, 40, 50, 60]);
    let (_, _, px, alpha) = decode_tex(&d).unwrap();
    assert_eq!(px, vec![10, 20, 30, 255, 40, 50, 60, 255]);
    assert!(!alpha);
}

#[test]
fn rgba4444_widens_nibbles() {
    let mut d = header(1, 1, 0x06);
    d.extend_from_slice(&0xF21Fu16.to_le_bytes());
    let (_, _, px, alpha) = decode_tex(&d).unwrap();
    assert_eq!(px, vec![0xFF, 0x11, 0x22, 0xFF]);
    assert!(!alpha);
}

#[test]
fn indexed_textures_use_the_palette() {
    let mut d = header(2, 1, 0x10);
    let mut pal = vec![0u8; 64];
    pal[4..8].copy_from_slice(&[9, 8, 7, 255]); // entry 1, BGRA
    pal[8..12].copy_from_slice(&[3, 2, 1, 0]); // entry 2
    d.extend_from_slice(&pal);
    d.push(0x21); // low nibble first: 1 then 2
    let (_, _, px, alpha) = decode_tex(&d).unwrap();
    assert_eq!(px, vec![7, 8, 9, 255, 1, 2, 3, 0]);
    assert!(alpha);
}

#[test]
fn bad_headers_do_not_decode() {
    assert!(decode_tex(&[0u8; 10]).is_none());
    assert!(decode_tex(&header(0, 1, 0x12)).is_none());
    assert!(decode_tex(&header(1, 1, 0x99)).is_none());
    assert!(decode_tex(&header(2, 2, 0x12)).is_none()); // data missing
}

#[test]
fn odd_width_four_bit_textures_are_flagged() {
    let mut d = header(3, 1, 0x0F);
    d.extend_from_slice(&vec![0u8; 64 + 2]);
    assert!(tex_would_fault(&d));
    assert!(!tex_would_fault(&header(2, 1, 0x12)));
}

#[test]
fn tga_pixels_and_alpha() {
    // Uncompressed true-colour, 1x1, 32 bits, top-left origin.
    let mut t = vec![0u8, 0, 2, 0, 0, 0, 0, 0, 0, 0, 0, 0, 1, 0, 1, 0, 32, 0x28];
    t.extend_from_slice(&[30, 20, 10, 128]); // BGRA
    let (w, h, px, alpha) = decode_tga(&t).unwrap();
    assert_eq!((w, h), (1, 1));
    assert_eq!(px, vec![10, 20, 30, 128]);
    assert!(alpha);
    assert!(decode_tga(&[1, 2, 3]).is_none());
}

#[test]
fn shader_redirects_to_its_texture() {
    let s = "shader foo\n  texture \"perimstruct01.tex\"\ntexture other\n";
    assert_eq!(shader_texture_redirect(s), Some("perimstruct01".to_string()));
    assert_eq!(shader_texture_redirect("blend 1\n"), None);
}

#[test]
fn texture_files_are_tried_in_order() {
    assert_eq!(
        texture_file_names("wall"),
        vec!["wall.tex", "wall.shader", "wall.tex.tga", "wall.tga"]
    );
}

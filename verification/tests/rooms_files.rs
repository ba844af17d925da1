use oni2_assets::rooms::parse_rooms_file;

fn f(text: &str) -> f32 {
    text.parse::<f32>().expect("float text")
}

#[test]
fn test_parse_rooms_file() {
    let content = "version: 1\n\
        roomCount: 2\n\
        \n\
        room Start\n\
        {\n\
        \tmesh Start\n\
        \n\
        \tmatrix\n\
        \t1.000000\t0.000000\t0.000000\n\
        \t0.000000\t1.000000\t0.000000\n\
        \t0.000000\t0.000000\t1.000000\n\
        \t10.000000\t20.000000\t30.000000\n\
        \n\
        \tRenderSkyHat\t 1\n\
        \n\
        \tportals 1\n\
        \t{\n\
        \t\tportal\n\
        \t\t{\n\
        \t\t\troom 2\n\
        \t\t}\n\
        \t}\n\
        }\n";

    let parsed = parse_rooms_file(content).unwrap();
    assert_eq!(parsed.version, 1);
    assert_eq!(parsed.rooms.len(), 1);
    let room = &parsed.rooms[0];
    assert_eq!(room.name, "Start");
    assert_eq!(room.mesh_name, "Start");
    assert_eq!(room.render_sky_hat, true);
    assert_eq!(room.portals, vec![2]);

    // position converted to Bevy space (-X, Y, -Z)
    let t = &room.matrix[3];
    assert_eq!([-f(&t[0]), f(&t[1]), -f(&t[2])], [-10.0, 20.0, -30.0]);
}

#[test]
fn rooms_default_matrix_and_version() {
    let parsed = parse_rooms_file("# comment\nroom A\n{\n}\nroom B {\nmesh b\n}\n").unwrap();
    assert_eq!(parsed.version, 1);
    assert_eq!(parsed.rooms.len(), 2);
    let a = &parsed.rooms[0];
    assert_eq!(a.name, "A");
    assert_eq!(a.mesh_name, "");
    assert!(!a.render_sky_hat);
    let rows: Vec<[f32; 3]> = a.matrix.iter().map(|r| [f(&r[0]), f(&r[1]), f(&r[2])]).collect();
    assert_eq!(rows, vec![[1.0, 0.0, 0.0], [0.0, 1.0, 0.0], [0.0, 0.0, 1.0], [0.0, 0.0, 0.0]]);
    assert_eq!(parsed.rooms[1].name, "B {");
}

#[test]
fn rooms_nested_blocks_are_skipped_and_bad_version_is_one() {
    let parsed =
        parse_rooms_file("version: x\nroom R\n{\n{\nmesh hidden\n}\nmesh shown\nRenderSkyHat 0\n}\n").unwrap();
    assert_eq!(parsed.version, 1);
    assert_eq!(parsed.rooms[0].mesh_name, "shown");
    assert!(!parsed.rooms[0].render_sky_hat);
}

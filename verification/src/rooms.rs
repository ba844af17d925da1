//! `rooms.room`: the rooms of a level, their meshes, placement matrices,
//! sky-hat flags and portals.
//!
//! ```text
//! version: <n>
//! roomCount: <n>
//! room <name>
//! {
//!     mesh <mesh>
//!     matrix
//!     <3 floats>  × 4 rows (rotation rows, then position)
//!     RenderSkyHat <int>
//!     portals <n>
//!     { portal { room <index> } ... }
//! }
//! ```
//!
//! Lines are trimmed before they are read.  The matrix is kept as the
//! texts of its floats, in the file's left-handed space.
use crate::model_text::{float_or, texts};
use crate::text::{
    chars_eq, chars_of, copy_range, float_text, has_prefix, lines, parse_i32, parse_u32, parse_usize,
    spec_lines, spec_parse_i32, spec_parse_unsigned, spec_trim, spec_words, split_whitespace,
    starts_with, string_from_chars, trim,
};
use vstd::prelude::*;

verus! {

/// One room.
#[derive(Debug, Clone)]
pub struct ParsedRoom {
    pub name: String,
    pub mesh_name: String,
    /// Four rows of three float texts: the rotation rows, then the
    /// position offset.
    pub matrix: Vec<[String; 3]>,
    pub render_sky_hat: bool,
    /// Indices of the rooms its portals lead to.
    pub portals: Vec<usize>,
}

/// Mathematical view of a [`ParsedRoom`].
pub struct RoomView {
    pub name: Seq<char>,
    pub mesh_name: Seq<char>,
    pub matrix: Seq<Seq<Seq<char>>>,
    pub render_sky_hat: bool,
    pub portals: Seq<usize>,
}

impl View for ParsedRoom {
    type V = RoomView;

    open spec fn view(&self) -> RoomView {
        RoomView {
            name: self.name@,
            mesh_name: self.mesh_name@,
            matrix: self.matrix@.map_values(|r: [String; 3]| texts(r)),
            render_sky_hat: self.render_sky_hat,
            portals: self.portals@,
        }
    }
}

/// A parsed `rooms.room` file.
#[derive(Debug, Clone)]
pub struct ParsedRoomsFile {
    pub version: u32,
    pub rooms: Vec<ParsedRoom>,
}

/// The identity rotation and a zero offset.
pub open spec fn identity_rows() -> Seq<Seq<Seq<char>>> {
    seq![
        seq![seq!['1'], seq!['0'], seq!['0']],
        seq![seq!['0'], seq!['1'], seq!['0']],
        seq![seq!['0'], seq!['0'], seq!['1']],
        seq![seq!['0'], seq!['0'], seq!['0']],
    ]
}

/// The matrix rows read from line `k` on, `parsed` rows done: lines of at
/// least three words fill the next row (floats default to 0), others are
/// passed over; reading stops after four rows or at the end.
pub open spec fn matrix_rows(ls: Seq<Seq<char>>, k: int, parsed: int, rows: Seq<Seq<Seq<char>>>) -> (Seq<Seq<Seq<char>>>, int)
    decreases ls.len() - k,
{
    if parsed >= 4 || k >= ls.len() || k < 0 {
        (rows, k)
    } else {
        let ws = spec_words(ls[k]);
        if ws.len() >= 3 {
            matrix_rows(
                ls,
                k + 1,
                parsed + 1,
                rows.update(parsed, seq![float_or(ws[0], seq!['0']), float_or(ws[1], seq!['0']), float_or(ws[2], seq!['0'])]),
            )
        } else {
            matrix_rows(ls, k + 1, parsed, rows)
        }
    }
}

/// The portal targets read from line `k` on at brace depth `depth`, up to
/// the `}` that closes depth 1: `room <index>` lines with a valid index.
pub open spec fn portal_scan(ls: Seq<Seq<char>>, k: int, depth: int, ps: Seq<usize>) -> (Seq<usize>, int)
    decreases ls.len() - k,
{
    if k >= ls.len() || k < 0 {
        (ps, k)
    } else {
        let t = spec_trim(ls[k]);
        if t == "{"@ {
            portal_scan(ls, k + 1, depth + 1, ps)
        } else if t == "}"@ {
            if depth - 1 == 0 {
                (ps, k + 1)
            } else {
                portal_scan(ls, k + 1, depth - 1, ps)
            }
        } else {
            let ws = spec_words(t);
            if ws.len() >= 2 && ws[0] == "room"@ {
                match spec_parse_unsigned(ws[1], usize::MAX as int) {
                    Some(n) => portal_scan(ls, k + 1, depth, ps.push(n as usize)),
                    None => portal_scan(ls, k + 1, depth, ps),
                }
            } else {
                portal_scan(ls, k + 1, depth, ps)
            }
        }
    }
}

proof fn lemma_matrix_rows_bounds(ls: Seq<Seq<char>>, k: int, parsed: int, rows: Seq<Seq<Seq<char>>>)
    ensures
        matrix_rows(ls, k, parsed, rows).1 >= k,
        0 <= k <= ls.len() ==> matrix_rows(ls, k, parsed, rows).1 <= ls.len(),
    decreases ls.len() - k,
{
    if !(parsed >= 4 || k >= ls.len() || k < 0) {
        let ws = spec_words(ls[k]);
        if ws.len() >= 3 {
            lemma_matrix_rows_bounds(
                ls,
                k + 1,
                parsed + 1,
                rows.update(parsed, seq![float_or(ws[0], seq!['0']), float_or(ws[1], seq!['0']), float_or(ws[2], seq!['0'])]),
            );
        } else {
            lemma_matrix_rows_bounds(ls, k + 1, parsed, rows);
        }
    }
}

proof fn lemma_portal_scan_bounds(ls: Seq<Seq<char>>, k: int, depth: int, ps: Seq<usize>)
    ensures
        portal_scan(ls, k, depth, ps).1 >= k,
        0 <= k <= ls.len() ==> portal_scan(ls, k, depth, ps).1 <= ls.len(),
    decreases ls.len() - k,
{
    if !(k >= ls.len() || k < 0) {
        let t = spec_trim(ls[k]);
        if t == "{"@ {
            lemma_portal_scan_bounds(ls, k + 1, depth + 1, ps);
        } else if t == "}"@ {
            if depth - 1 != 0 {
                lemma_portal_scan_bounds(ls, k + 1, depth - 1, ps);
            }
        } else {
            let ws = spec_words(t);
            if ws.len() >= 2 && ws[0] == "room"@ {
                match spec_parse_unsigned(ws[1], usize::MAX as int) {
                    Some(n) => lemma_portal_scan_bounds(ls, k + 1, depth, ps.push(n as usize)),
                    None => lemma_portal_scan_bounds(ls, k + 1, depth, ps),
                }
            } else {
                lemma_portal_scan_bounds(ls, k + 1, depth, ps);
            }
        }
    }
}

#[via_fn]
proof fn room_body_decreases(ls: Seq<Seq<char>>, k: int, depth: int, r: RoomView) {
    if 0 <= k < ls.len() {
        lemma_matrix_rows_bounds(ls, k + 1, 0, r.matrix);
        lemma_portal_scan_bounds(ls, k + 1, 0, r.portals);
    }
}

/// The room built from line `k` on at brace depth `depth`, and the line
/// after the `}` that closes it (or the end).  Lines inside nested braces
/// are passed over; `mesh`, `matrix`, `RenderSkyHat` and `portals` lines
/// fill the room.
pub open spec fn room_body(ls: Seq<Seq<char>>, k: int, depth: int, r: RoomView) -> (RoomView, int)
    decreases ls.len() - k,
    via room_body_decreases
{
    if k >= ls.len() || k < 0 {
        (r, k)
    } else {
        let l = ls[k];
        if l == "{"@ {
            room_body(ls, k + 1, depth + 1, r)
        } else if l == "}"@ {
            if depth - 1 == 0 {
                (r, k + 1)
            } else {
                room_body(ls, k + 1, depth - 1, r)
            }
        } else if depth > 1 {
            room_body(ls, k + 1, depth, r)
        } else {
            let ws = spec_words(l);
            if ws.len() == 0 {
                room_body(ls, k + 1, depth, r)
            } else if ws[0] == "mesh"@ {
                room_body(ls, k + 1, depth, if ws.len() >= 2 { RoomView { mesh_name: ws[1], ..r } } else { r })
            } else if ws[0] == "matrix"@ {
                let (rows, k2) = matrix_rows(ls, k + 1, 0, r.matrix);
                room_body(ls, k2, depth, RoomView { matrix: rows, ..r })
            } else if ws[0] == "RenderSkyHat"@ {
                room_body(
                    ls,
                    k + 1,
                    depth,
                    if ws.len() >= 2 {
                        RoomView {
                            render_sky_hat: match spec_parse_i32(ws[1]) {
                                Some(v) => v != 0,
                                None => false,
                            },
                            ..r
                        }
                    } else {
                        r
                    },
                )
            } else if ws[0] == "portals"@ {
                let (ps, k2) = portal_scan(ls, k + 1, 0, r.portals);
                room_body(ls, k2, depth, RoomView { portals: ps, ..r })
            } else {
                room_body(ls, k + 1, depth, r)
            }
        }
    }
}

/// From line `k`, the line where a room's body starts: after a `{` line,
/// at a line starting with `{`, or the end.
pub open spec fn brace_start(ls: Seq<Seq<char>>, k: int) -> int
    decreases ls.len() - k,
{
    if k >= ls.len() || k < 0 {
        k
    } else if ls[k] == "{"@ {
        k + 1
    } else if has_prefix(ls[k], "{"@) {
        k
    } else {
        brace_start(ls, k + 1)
    }
}

pub open spec fn new_room(name: Seq<char>) -> RoomView {
    RoomView { name, mesh_name: Seq::empty(), matrix: identity_rows(), render_sky_hat: false, portals: Seq::empty() }
}

/// The version and rooms read so far.
pub struct RoomsState {
    pub version: u32,
    pub rooms: Seq<RoomView>,
}

proof fn lemma_brace_start_bounds(ls: Seq<Seq<char>>, k: int)
    ensures
        brace_start(ls, k) >= k,
        0 <= k <= ls.len() ==> brace_start(ls, k) <= ls.len(),
    decreases ls.len() - k,
{
    if !(k >= ls.len() || k < 0) && ls[k] != "{"@ && !has_prefix(ls[k], "{"@) {
        lemma_brace_start_bounds(ls, k + 1);
    }
}

proof fn lemma_room_body_bounds(ls: Seq<Seq<char>>, k: int, depth: int, r: RoomView)
    ensures
        room_body(ls, k, depth, r).1 >= k,
        0 <= k <= ls.len() ==> room_body(ls, k, depth, r).1 <= ls.len(),
    decreases ls.len() - k,
{
    if !(k >= ls.len() || k < 0) {
        let l = ls[k];
        if l == "{"@ {
            lemma_room_body_bounds(ls, k + 1, depth + 1, r);
        } else if l == "}"@ {
            if depth - 1 != 0 {
                lemma_room_body_bounds(ls, k + 1, depth - 1, r);
            }
        } else if depth > 1 {
            lemma_room_body_bounds(ls, k + 1, depth, r);
        } else {
            let ws = spec_words(l);
            if ws.len() == 0 {
                lemma_room_body_bounds(ls, k + 1, depth, r);
            } else if ws[0] == "mesh"@ {
                lemma_room_body_bounds(ls, k + 1, depth, if ws.len() >= 2 { RoomView { mesh_name: ws[1], ..r } } else { r });
            } else if ws[0] == "matrix"@ {
                lemma_matrix_rows_bounds(ls, k + 1, 0, r.matrix);
                let (rows, k2) = matrix_rows(ls, k + 1, 0, r.matrix);
                lemma_room_body_bounds(ls, k2, depth, RoomView { matrix: rows, ..r });
            } else if ws[0] == "RenderSkyHat"@ {
                lemma_room_body_bounds(
                    ls,
                    k + 1,
                    depth,
                    if ws.len() >= 2 {
                        RoomView {
                            render_sky_hat: match spec_parse_i32(ws[1]) {
                                Some(v) => v != 0,
                                None => false,
                            },
                            ..r
                        }
                    } else {
                        r
                    },
                );
            } else if ws[0] == "portals"@ {
                lemma_portal_scan_bounds(ls, k + 1, 0, r.portals);
                let (ps, k2) = portal_scan(ls, k + 1, 0, r.portals);
                lemma_room_body_bounds(ls, k2, depth, RoomView { portals: ps, ..r });
            } else {
                lemma_room_body_bounds(ls, k + 1, depth, r);
            }
        }
    }
}

#[via_fn]
proof fn rooms_from_decreases(ls: Seq<Seq<char>>, k: int, st: RoomsState) {
    if 0 <= k < ls.len() {
        lemma_brace_start_bounds(ls, k + 1);
        let b = brace_start(ls, k + 1);
        lemma_room_body_bounds(ls, b, 1, new_room(spec_trim(ls[k].skip(5))));
    }
}

/// The file read from line `k` on (lines already trimmed).
pub open spec fn rooms_from(ls: Seq<Seq<char>>, k: int, st: RoomsState) -> RoomsState
    decreases ls.len() - k,
    via rooms_from_decreases
{
    if k >= ls.len() || k < 0 {
        st
    } else {
        let l = ls[k];
        if l.len() == 0 || has_prefix(l, "#"@) || has_prefix(l, "//"@) {
            rooms_from(ls, k + 1, st)
        } else if has_prefix(l, "version:"@) {
            let ws = spec_words(l);
            rooms_from(
                ls,
                k + 1,
                if ws.len() >= 2 {
                    RoomsState {
                        version: match spec_parse_unsigned(ws[1], u32::MAX as int) {
                            Some(v) => v as u32,
                            None => 1,
                        },
                        ..st
                    }
                } else {
                    st
                },
            )
        } else if has_prefix(l, "roomCount:"@) {
            rooms_from(ls, k + 1, st)
        } else if has_prefix(l, "room "@) {
            let b = brace_start(ls, k + 1);
            let (r, next) = room_body(ls, b, 1, new_room(spec_trim(l.skip(5))));
            rooms_from(ls, next, RoomsState { rooms: st.rooms.push(r), ..st })
        } else {
            rooms_from(ls, k + 1, st)
        }
    }
}

/// The trimmed lines of a text.
pub open spec fn trimmed_lines(content: Seq<char>) -> Seq<Seq<char>> {
    spec_lines(content).map_values(|l: Seq<char>| spec_trim(l))
}

pub open spec fn spec_parse_rooms(content: Seq<char>) -> RoomsState {
    rooms_from(trimmed_lines(content), 0, RoomsState { version: 1, rooms: Seq::empty() })
}

// ---------------------------------------------------------------------
// Reading
// ---------------------------------------------------------------------

pub open spec fn rows_view(rows: Seq<[String; 3]>) -> Seq<Seq<Seq<char>>> {
    rows.map_values(|r: [String; 3]| texts(r))
}

fn float_or_zero(t: &[char]) -> (r: String)
    ensures
        r@ == float_or(t@, seq!['0']),
{
    if float_text(t) {
        string_from_chars(t)
    } else {
        proof {
            reveal_strlit("0");
        }
        let z = "0".to_string();
        assert(z@ =~= seq!['0']);
        z
    }
}

fn line_is(t: &[char], lit: &str) -> (r: bool)
    ensures
        r == (t@ == lit@),
{
    let l = chars_of(lit);
    chars_eq(t, l.as_slice())
}

fn read_matrix_rows(ls: &Vec<Vec<char>>, start: usize, rows: &mut Vec<[String; 3]>) -> (next: usize)
    requires
        start <= ls@.len(),
        old(rows)@.len() == 4,
    ensures
        final(rows)@.len() == 4,
        (rows_view(final(rows)@), next as int) == matrix_rows(
            ls@.map_values(|l: Vec<char>| l@),
            start as int,
            0,
            rows_view(old(rows)@),
        ),
{
    let ghost lv = ls@.map_values(|l: Vec<char>| l@);
    let ghost r0 = rows_view(rows@);
    let mut k = start;
    let mut parsed: usize = 0;
    while parsed < 4 && k < ls.len()
        invariant
            start <= k <= ls@.len(),
            parsed <= 4,
            rows@.len() == 4,
            lv == ls@.map_values(|l: Vec<char>| l@),
            matrix_rows(lv, k as int, parsed as int, rows_view(rows@)) == matrix_rows(lv, start as int, 0, r0),
        decreases ls@.len() - k,
    {
        assert(lv[k as int] == ls@[k as int]@);
        let ws = split_whitespace(ls[k].as_slice());
        let ghost wv = ws@.map_values(|w: Vec<char>| w@);
        assert(wv =~= spec_words(lv[k as int]));
        if ws.len() >= 3 {
            assert(wv[0] == ws@[0]@ && wv[1] == ws@[1]@ && wv[2] == ws@[2]@);
            let row = [
                float_or_zero(ws[0].as_slice()),
                float_or_zero(ws[1].as_slice()),
                float_or_zero(ws[2].as_slice()),
            ];
            let ghost before = rows_view(rows@);
            let ghost rv = texts(row);
            assert(rv =~= seq![float_or(wv[0], seq!['0']), float_or(wv[1], seq!['0']), float_or(wv[2], seq!['0'])]);
            rows.set(parsed, row);
            assert(rows_view(rows@) =~= before.update(parsed as int, rv));
            parsed = parsed + 1;
        }
        k = k + 1;
    }
    k
}

fn read_portals(ls: &Vec<Vec<char>>, start: usize, portals: &mut Vec<usize>) -> (next: usize)
    requires
        start <= ls@.len(),
    ensures
        (final(portals)@, next as int) == portal_scan(ls@.map_values(|l: Vec<char>| l@), start as int, 0, old(portals)@),
        next <= ls@.len(),
{
    let ghost lv = ls@.map_values(|l: Vec<char>| l@);
    let ghost p0 = portals@;
    let mut k = start;
    let mut depth: i128 = 0;
    while k < ls.len()
        invariant_except_break
            start <= k <= ls@.len(),
            lv == ls@.map_values(|l: Vec<char>| l@),
            -(k as int) <= depth <= k,
            portal_scan(lv, k as int, depth as int, portals@) == portal_scan(lv, start as int, 0, p0),
        ensures
            k <= ls@.len(),
            portal_scan(lv, start as int, 0, p0) == (portals@, k as int),
        decreases ls@.len() - k,
    {
        assert(lv[k as int] == ls@[k as int]@);
        let t = trim(ls[k].as_slice());
        if line_is(t.as_slice(), "{") {
            depth = depth + 1;
            k = k + 1;
        } else if line_is(t.as_slice(), "}") {
            if depth - 1 == 0 {
                k = k + 1;
                break;
            }
            depth = depth - 1;
            k = k + 1;
        } else {
            let ws = split_whitespace(t.as_slice());
            let ghost wv = ws@.map_values(|w: Vec<char>| w@);
            assert(wv =~= spec_words(t@));
            if ws.len() >= 2 && {
                assert(wv[0] == ws@[0]@);
                line_is(ws[0].as_slice(), "room")
            } {
                assert(wv[1] == ws@[1]@);
                match parse_usize(ws[1].as_slice()) {
                    Some(n) => {
                        portals.push(n);
                    },
                    None => {},
                }
            }
            k = k + 1;
        }
    }
    k
}

fn identity_matrix() -> (rows: Vec<[String; 3]>)
    ensures
        rows_view(rows@) == identity_rows(),
        rows@.len() == 4,
{
    proof {
        reveal_strlit("0");
        reveal_strlit("1");
    }
    assert("0"@ =~= seq!['0']);
    assert("1"@ =~= seq!['1']);
    let a = ["1".to_string(), "0".to_string(), "0".to_string()];
    let b = ["0".to_string(), "1".to_string(), "0".to_string()];
    let c = ["0".to_string(), "0".to_string(), "1".to_string()];
    let d = ["0".to_string(), "0".to_string(), "0".to_string()];
    assert(texts(a) =~= identity_rows()[0]);
    assert(texts(b) =~= identity_rows()[1]);
    assert(texts(c) =~= identity_rows()[2]);
    assert(texts(d) =~= identity_rows()[3]);
    let mut rows: Vec<[String; 3]> = Vec::new();
    rows.push(a);
    rows.push(b);
    rows.push(c);
    rows.push(d);
    assert(rows_view(rows@) =~= identity_rows());
    rows
}

#[verifier::rlimit(40)]
fn read_room_body(ls: &Vec<Vec<char>>, start: usize, name: Vec<char>) -> (r: (ParsedRoom, usize))
    requires
        start <= ls@.len(),
    ensures
        (r.0@, r.1 as int) == room_body(ls@.map_values(|l: Vec<char>| l@), start as int, 1, new_room(name@)),
        r.1 <= ls@.len(),
{
    let ghost lv = ls@.map_values(|l: Vec<char>| l@);
    let mut room = ParsedRoom {
        name: string_from_chars(name.as_slice()),
        mesh_name: String::new(),
        matrix: identity_matrix(),
        render_sky_hat: false,
        portals: Vec::new(),
    };
    assert(room@.portals =~= Seq::<usize>::empty());
    assert(room@.mesh_name =~= Seq::<char>::empty());
    let mut k = start;
    let mut depth: u128 = 1;
    while k < ls.len()
        invariant_except_break
            start <= k <= ls@.len(),
            lv == ls@.map_values(|l: Vec<char>| l@),
            1 <= depth <= k + 1,
            room.matrix@.len() == 4,
            room_body(lv, k as int, depth as int, room@) == room_body(lv, start as int, 1, new_room(name@)),
        ensures
            k <= ls@.len(),
            room_body(lv, start as int, 1, new_room(name@)) == (room@, k as int),
        decreases ls@.len() - k,
    {
        assert(lv[k as int] == ls@[k as int]@);
        let l = &ls[k];
        if line_is(l.as_slice(), "{") {
            depth = depth + 1;
            k = k + 1;
        } else if line_is(l.as_slice(), "}") {
            if depth - 1 == 0 {
                k = k + 1;
                break;
            }
            depth = depth - 1;
            k = k + 1;
        } else if depth > 1 {
            k = k + 1;
        } else {
            let ws = split_whitespace(l.as_slice());
            let ghost wv = ws@.map_values(|w: Vec<char>| w@);
            assert(wv =~= spec_words(lv[k as int]));
            if ws.len() == 0 {
                k = k + 1;
            } else {
                assert(wv[0] == ws@[0]@);
                if line_is(ws[0].as_slice(), "mesh") {
                    if ws.len() >= 2 {
                        assert(wv[1] == ws@[1]@);
                        room.mesh_name = string_from_chars(ws[1].as_slice());
                    }
                    k = k + 1;
                } else if line_is(ws[0].as_slice(), "matrix") {
                    let ghost m0 = rows_view(room.matrix@);
                    proof {
                        lemma_matrix_rows_bounds(lv, k + 1, 0, m0);
                    }
                    let next = read_matrix_rows(ls, k + 1, &mut room.matrix);
                    k = next;
                } else if line_is(ws[0].as_slice(), "RenderSkyHat") {
                    if ws.len() >= 2 {
                        assert(wv[1] == ws@[1]@);
                        room.render_sky_hat = match parse_i32(ws[1].as_slice()) {
                            Some(v) => v != 0,
                            None => false,
                        };
                    }
                    k = k + 1;
                } else if line_is(ws[0].as_slice(), "portals") {
                    let ghost p0 = room.portals@;
                    proof {
                        lemma_portal_scan_bounds(lv, k + 1, 0, p0);
                    }
                    let next = read_portals(ls, k + 1, &mut room.portals);
                    k = next;
                } else {
                    k = k + 1;
                }
            }
        }
    }
    (room, k)
}

fn find_brace_start(ls: &Vec<Vec<char>>, start: usize) -> (r: usize)
    requires
        start <= ls@.len(),
    ensures
        r == brace_start(ls@.map_values(|l: Vec<char>| l@), start as int),
        r <= ls@.len(),
{
    let ghost lv = ls@.map_values(|l: Vec<char>| l@);
    let mut k = start;
    while k < ls.len()
        invariant
            start <= k <= ls@.len(),
            lv == ls@.map_values(|l: Vec<char>| l@),
            brace_start(lv, k as int) == brace_start(lv, start as int),
        decreases ls@.len() - k,
    {
        assert(lv[k as int] == ls@[k as int]@);
        if line_is(ls[k].as_slice(), "{") {
            return k + 1;
        }
        if starts_with(ls[k].as_slice(), chars_of("{").as_slice()) {
            return k;
        }
        k = k + 1;
    }
    k
}

/// Reads a `rooms.room` text (always `Some`).
pub fn parse_rooms_file(content: &str) -> (r: Option<ParsedRoomsFile>)
    ensures
        r matches Some(f) && f.version == spec_parse_rooms(content@).version && f.rooms@.map_values(
            |x: ParsedRoom| x@,
        ) == spec_parse_rooms(content@).rooms,
{
    let chars = chars_of(content);
    let raw = lines(chars.as_slice());
    let mut ls: Vec<Vec<char>> = Vec::new();
    let mut j: usize = 0;
    while j < raw.len()
        invariant
            j <= raw@.len(),
            raw@.len() == spec_lines(content@).len(),
            forall|q: int| 0 <= q < raw@.len() ==> #[trigger] raw@[q]@ == spec_lines(content@)[q],
            ls@.map_values(|l: Vec<char>| l@) == trimmed_lines(content@).subrange(0, j as int),
        decreases raw@.len() - j,
    {
        let t = trim(raw[j].as_slice());
        let ghost before = ls@.map_values(|l: Vec<char>| l@);
        assert(trimmed_lines(content@)[j as int] == spec_trim(spec_lines(content@)[j as int]));
        assert(raw@[j as int]@ == spec_lines(content@)[j as int]);
        let ghost tv = t@;
        ls.push(t);
        assert(ls@.map_values(|l: Vec<char>| l@) =~= before.push(tv));
        j = j + 1;
        assert(ls@.map_values(|l: Vec<char>| l@) =~= trimmed_lines(content@).subrange(0, j as int));
    }
    let ghost lv = ls@.map_values(|l: Vec<char>| l@);
    assert(lv =~= trimmed_lines(content@));
    let mut version: u32 = 1;
    let mut rooms: Vec<ParsedRoom> = Vec::new();
    assert(rooms@.map_values(|x: ParsedRoom| x@) =~= Seq::<RoomView>::empty());
    let mut k: usize = 0;
    while k < ls.len()
        invariant
            k <= ls@.len(),
            lv == ls@.map_values(|l: Vec<char>| l@),
            rooms_from(lv, k as int, RoomsState { version, rooms: rooms@.map_values(|x: ParsedRoom| x@) })
                == rooms_from(lv, 0, RoomsState { version: 1, rooms: Seq::empty() }),
        decreases ls@.len() - k,
    {
        assert(lv[k as int] == ls@[k as int]@);
        let l = &ls[k];
        if l.len() == 0 || starts_with(l.as_slice(), chars_of("#").as_slice()) || starts_with(
            l.as_slice(),
            chars_of("//").as_slice(),
        ) {
            k = k + 1;
        } else if starts_with(l.as_slice(), chars_of("version:").as_slice()) {
            let ws = split_whitespace(l.as_slice());
            let ghost wv = ws@.map_values(|w: Vec<char>| w@);
            assert(wv =~= spec_words(lv[k as int]));
            if ws.len() >= 2 {
                assert(wv[1] == ws@[1]@);
                version = match parse_u32(ws[1].as_slice()) {
                    Some(v) => v,
                    None => 1,
                };
            }
            k = k + 1;
        } else if starts_with(l.as_slice(), chars_of("roomCount:").as_slice()) {
            k = k + 1;
        } else if starts_with(l.as_slice(), chars_of("room ").as_slice()) {
            proof {
                reveal_strlit("room ");
            }
            let rest = copy_range(l.as_slice(), 5, l.len());
            assert(rest@ =~= lv[k as int].skip(5));
            let name = trim(rest.as_slice());
            let b = find_brace_start(&ls, k + 1);
            proof {
                lemma_brace_start_bounds(lv, k + 1);
                lemma_room_body_bounds(lv, b as int, 1, new_room(name@));
            }
            let (room, next) = read_room_body(&ls, b, name);
            let ghost before = rooms@.map_values(|x: ParsedRoom| x@);
            let ghost rv = room@;
            rooms.push(room);
            assert(rooms@.map_values(|x: ParsedRoom| x@) =~= before.push(rv));
            k = next;
        } else {
            k = k + 1;
        }
    }
    Some(ParsedRoomsFile { version, rooms })
}

} // verus!

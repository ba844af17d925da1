//! `rooms.bsp`: the BSP tree that tells which room a point lies in.
//!
//! ```text
//! <count>
//! <x> <y> <z> <w>   (room <name> | node <index>)   (room <name> | node <index>)
//! ...
//! ```
//!
//! Each node splits space by a plane; the first child is on the negative
//! side, the second on the positive side.  Plane coefficients are kept as
//! the file's float texts, in the file's left-handed space; the right-handed
//! plane is `(-x, y, -z, w)`.
use crate::text::{
    chars_of, is_float_text, float_text, parse_usize, spec_parse_unsigned, spec_words,
    split_whitespace, string_from_chars,
};
use vstd::prelude::*;

verus! {

/// What one side of a plane leads to.
#[derive(Debug, Clone, PartialEq, Eq)]
pub enum BspChild {
    Node(usize),
    Room(String),
}

/// Mathematical view of a [`BspChild`].
pub enum BspChildView {
    Node(usize),
    Room(Seq<char>),
}

impl View for BspChild {
    type V = BspChildView;

    open spec fn view(&self) -> BspChildView {
        match self {
            BspChild::Node(i) => BspChildView::Node(*i),
            BspChild::Room(n) => BspChildView::Room(n@),
        }
    }
}

/// A splitting plane and the two sides' children.
#[derive(Debug, Clone)]
pub struct BspNode {
    /// `x y z w` as written (left-handed).
    pub plane: [String; 4],
    pub negative: BspChild,
    pub positive: BspChild,
}

/// Mathematical view of a [`BspNode`].
pub struct BspNodeView {
    pub plane: Seq<Seq<char>>,
    pub negative: BspChildView,
    pub positive: BspChildView,
}

impl View for BspNode {
    type V = BspNodeView;

    open spec fn view(&self) -> BspNodeView {
        BspNodeView {
            plane: self.plane@.map_values(|t: String| t@),
            negative: self.negative@,
            positive: self.positive@,
        }
    }
}

/// A parsed tree; node 0 is the root.
#[derive(Debug, Clone)]
pub struct ParsedBspTree {
    pub nodes: Vec<BspNode>,
}

/// The outcome of one step of a descent.
#[derive(Debug, Clone, PartialEq, Eq)]
pub enum BspStep {
    /// Continue at this node.
    Node(usize),
    /// The point lies in this room.
    Room(String),
    /// The tree points outside itself: no room.
    Outside,
}

/// The words of a node's child at `p`: `room <name>` or `node <index>`.
pub open spec fn spec_child(ws: Seq<Seq<char>>, p: int) -> Option<(BspChildView, int)> {
    if p + 2 > ws.len() {
        None
    } else if ws[p] == "room"@ {
        Some((BspChildView::Room(ws[p + 1]), p + 2))
    } else if ws[p] == "node"@ {
        match spec_parse_unsigned(ws[p + 1], usize::MAX as int) {
            Some(i) => Some((BspChildView::Node(i as usize), p + 2)),
            None => None,
        }
    } else {
        None
    }
}

/// A node at word `p`: four float words, then the two children.
pub open spec fn spec_node(ws: Seq<Seq<char>>, p: int) -> Option<(BspNodeView, int)> {
    if p + 4 > ws.len() || !is_float_text(ws[p]) || !is_float_text(ws[p + 1]) || !is_float_text(
        ws[p + 2],
    ) || !is_float_text(ws[p + 3]) {
        None
    } else {
        match spec_child(ws, p + 4) {
            None => None,
            Some((neg, q)) => match spec_child(ws, q) {
                None => None,
                Some((pos, r)) => Some(
                    (BspNodeView { plane: ws.subrange(p, p + 4), negative: neg, positive: pos }, r),
                ),
            },
        }
    }
}

/// `k` nodes from word `p`.
pub open spec fn spec_nodes(ws: Seq<Seq<char>>, p: int, k: nat) -> Option<(Seq<BspNodeView>, int)>
    decreases k,
{
    if k == 0 {
        Some((Seq::empty(), p))
    } else {
        match spec_nodes(ws, p, (k - 1) as nat) {
            None => None,
            Some((done, q)) => match spec_node(ws, q) {
                None => None,
                Some((n, r)) => Some((done.push(n), r)),
            },
        }
    }
}

/// What parsing a `rooms.bsp` text yields: the nodes, or `None` when a
/// word is missing or malformed (words after the last node are ignored).
pub open spec fn spec_parse_bsp(content: Seq<char>) -> Option<Seq<BspNodeView>> {
    let ws = spec_words(content);
    if ws.len() == 0 {
        None
    } else {
        match spec_parse_unsigned(ws[0], usize::MAX as int) {
            None => None,
            Some(count) => match spec_nodes(ws, 1, count as nat) {
                None => None,
                Some((nodes, _)) => Some(nodes),
            },
        }
    }
}

proof fn lemma_nodes_none_persists(ws: Seq<Seq<char>>, p: int, k: nat, m: nat)
    requires
        k <= m,
        spec_nodes(ws, p, k) is None,
    ensures
        spec_nodes(ws, p, m) is None,
    decreases m - k,
{
    if k < m {
        lemma_nodes_none_persists(ws, p, k, (m - 1) as nat);
    }
}

fn word_is(w: &Vec<char>, lit: &str) -> (r: bool)
    ensures
        r == (w@ == lit@),
{
    let l = chars_of(lit);
    crate::text::chars_eq(w.as_slice(), l.as_slice())
}

fn parse_child(ws: &Vec<Vec<char>>, p: usize) -> (r: Option<(BspChild, usize)>)
    ensures
        match spec_child(ws@.map_values(|w: Vec<char>| w@), p as int) {
            Some((c, q)) => r matches Some((child, q2)) && child@ == c && q2 == q,
            None => r is None,
        },
{
    let ghost wv = ws@.map_values(|w: Vec<char>| w@);
    if p >= ws.len() || ws.len() - p < 2 {
        return None;
    }
    assert(wv[p as int] == ws@[p as int]@);
    assert(wv[p + 1] == ws@[p + 1]@);
    if word_is(&ws[p], "room") {
        Some((BspChild::Room(string_from_chars(ws[p + 1].as_slice())), p + 2))
    } else if word_is(&ws[p], "node") {
        match parse_usize(ws[p + 1].as_slice()) {
            Some(i) => Some((BspChild::Node(i), p + 2)),
            None => None,
        }
    } else {
        None
    }
}

fn parse_node(ws: &Vec<Vec<char>>, p: usize) -> (r: Option<(BspNode, usize)>)
    ensures
        match spec_node(ws@.map_values(|w: Vec<char>| w@), p as int) {
            Some((n, q)) => r matches Some((node, q2)) && node@ == n && q2 == q,
            None => r is None,
        },
{
    let ghost wv = ws@.map_values(|w: Vec<char>| w@);
    if p >= ws.len() || ws.len() - p < 4 {
        return None;
    }
    let len = ws.len();
    let mut k: usize = 0;
    while k < 4
        invariant
            len == ws@.len(),
            p + 4 <= ws@.len(),
            wv == ws@.map_values(|w: Vec<char>| w@),
            k <= 4,
            forall|j: int| p <= j < p + k ==> is_float_text(#[trigger] wv[j]),
        decreases 4 - k,
    {
        assert(wv[p + k] == ws@[p + k]@);
        if !float_text(ws[p + k].as_slice()) {
            return None;
        }
        k = k + 1;
    }
    assert(is_float_text(wv[p as int]) && is_float_text(wv[p + 1]) && is_float_text(wv[p + 2])
        && is_float_text(wv[p + 3]));
    let (negative, q) = parse_child(ws, p + 4)?;
    let (positive, r) = parse_child(ws, q)?;
    let plane = [
        string_from_chars(ws[p].as_slice()),
        string_from_chars(ws[p + 1].as_slice()),
        string_from_chars(ws[p + 2].as_slice()),
        string_from_chars(ws[p + 3].as_slice()),
    ];
    let node = BspNode { plane, negative, positive };
    assert(node@.plane =~= wv.subrange(p as int, p + 4));
    Some((node, r))
}

/// Parses a `rooms.bsp` text.
pub fn parse_bsp_file(content: &str) -> (r: Option<ParsedBspTree>)
    ensures
        match spec_parse_bsp(content@) {
            Some(nodes) => r matches Some(t) && t.nodes@.map_values(|n: BspNode| n@) == nodes,
            None => r is None,
        },
{
    let chars = chars_of(content);
    let ws = split_whitespace(chars.as_slice());
    let ghost wv = ws@.map_values(|w: Vec<char>| w@);
    assert(wv =~= spec_words(content@));
    if ws.len() == 0 {
        return None;
    }
    let count = parse_usize(ws[0].as_slice())?;
    assert(wv[0] == ws@[0]@);
    let mut nodes: Vec<BspNode> = Vec::new();
    let mut pos: usize = 1;
    let mut k: usize = 0;
    while k < count
        invariant
            wv == ws@.map_values(|w: Vec<char>| w@),
            wv == spec_words(content@),
            wv.len() > 0,
            spec_parse_unsigned(wv[0], usize::MAX as int) == Some(count as int),
            k <= count,
            spec_nodes(wv, 1, k as nat) == Some::<(Seq<BspNodeView>, int)>(
                (nodes@.map_values(|n: BspNode| n@), pos as int),
            ),
        decreases count - k,
    {
        match parse_node(&ws, pos) {
            Some((node, next)) => {
                nodes.push(node);
                pos = next;
                assert(nodes@.map_values(|n: BspNode| n@) =~= spec_nodes(wv, 1, (k + 1) as nat)->Some_0.0);
            },
            None => {
                proof {
                    lemma_nodes_none_persists(wv, 1, (k + 1) as nat, count as nat);
                }
                return None;
            },
        }
        k = k + 1;
    }
    Some(ParsedBspTree { nodes })
}

impl ParsedBspTree {
    /// One step of the descent from node `current`: the child on the
    /// positive side when the point's signed distance to the plane is
    /// positive, else the one on the negative side.  A child index past the
    /// last node ends the descent with no room.
    pub fn room_step(&self, current: usize, positive_side: bool) -> (s: BspStep)
        requires
            current < self.nodes@.len(),
        ensures
            ({
                let node = self.nodes@[current as int]@;
                let child = if positive_side {
                    node.positive
                } else {
                    node.negative
                };
                match child {
                    BspChildView::Node(i) => if i < self.nodes@.len() {
                        s == BspStep::Node(i)
                    } else {
                        s == BspStep::Outside
                    },
                    BspChildView::Room(n) => s matches BspStep::Room(name) && name@ == n,
                }
            }),
    {
        let node = &self.nodes[current];
        let child = if positive_side {
            &node.positive
        } else {
            &node.negative
        };
        match child {
            BspChild::Node(next) => {
                if *next >= self.nodes.len() {
                    BspStep::Outside
                } else {
                    BspStep::Node(*next)
                }
            },
            BspChild::Room(name) => BspStep::Room(name.clone()),
        }
    }
}

} // verus!

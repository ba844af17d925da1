//! Jump parameters (`jumpdata` blocks of jump packages).
//!
//! After the first `jumpdata`, each jump starts at a `height` key and reads
//! `height`, `gravity_factor` and `length` in that order, then an optional
//! `heading_adjust` and `type`; other tokens are skipped.  Floats are kept
//! as their text (`"0"` when absent).
use crate::block_parser::{
    lemma_find_tok_bounds, sp_endblock, sp_read_float_opt, sp_read_string_opt, sp_start, tok_at, BlockParser,
};
use crate::tokenizer::spec_tokens;
use vstd::prelude::*;

verus! {

/// One jump.
pub struct JumpState {
    pub height: String,
    pub gravity_factor: String,
    pub length: String,
    pub jump_type: String,
    pub heading_adjust: String,
}

/// The jumps of a package, in order.
pub struct JumpController {
    pub jumps: Vec<JumpState>,
}

pub struct JumpModel {
    pub height: Seq<char>,
    pub gravity_factor: Seq<char>,
    pub length: Seq<char>,
    pub jump_type: Seq<char>,
    pub heading_adjust: Seq<char>,
}

pub open spec fn jump_model(j: JumpState) -> JumpModel {
    JumpModel {
        height: j.height@,
        gravity_factor: j.gravity_factor@,
        length: j.length@,
        jump_type: j.jump_type@,
        heading_adjust: j.heading_adjust@,
    }
}

pub open spec fn jumps_model(c: JumpController) -> Seq<JumpModel> {
    c.jumps@.map_values(|j: JumpState| jump_model(j))
}

pub open spec fn or_zero(v: Option<Seq<char>>) -> Seq<char> {
    match v {
        Some(x) => x,
        None => seq!['0'],
    }
}

/// One jump read from `p` (where `height` is): the jump and the position
/// after it.
pub open spec fn jump_at(ts: Seq<Seq<char>>, p: int) -> (JumpModel, int) {
    let (h, p1) = sp_read_float_opt(ts, p, "height"@);
    let (g, p2) = sp_read_float_opt(ts, p1, "gravity_factor"@);
    let (l, p3) = sp_read_float_opt(ts, p2, "length"@);
    let (a, p4) = sp_read_float_opt(ts, p3, "heading_adjust"@);
    let (t, p5) = sp_read_string_opt(ts, p4, "type"@);
    (
        JumpModel {
            height: or_zero(h),
            gravity_factor: or_zero(g),
            length: or_zero(l),
            heading_adjust: or_zero(a),
            jump_type: match t {
                Some(x) => x,
                None => Seq::empty(),
            },
        },
        p5,
    )
}

/// The jumps from `p` up to the block's `}` or the end.
pub open spec fn jumps_from(ts: Seq<Seq<char>>, p: int) -> Seq<JumpModel>
    decreases ts.len() - p,
{
    let (end, q) = sp_endblock(ts, p);
    if end || p < 0 || p >= ts.len() {
        Seq::empty()
    } else if ts[p] != "height"@ {
        jumps_from(ts, p + 1)
    } else {
        let (j, q2) = jump_at(ts, p);
        if p < q2 <= ts.len() {
            seq![j] + jumps_from(ts, q2)
        } else {
            seq![j]
        }
    }
}

/// The jumps of a jump package text.
pub open spec fn spec_parse_jump(content: Seq<char>) -> Seq<JumpModel> {
    let ts = spec_tokens(content);
    let (found, q) = sp_start(ts, 0, "jumpdata"@);
    if found {
        jumps_from(ts, q)
    } else {
        Seq::empty()
    }
}

fn zero_text() -> (r: String)
    ensures
        r@ == seq!['0'],
{
    let a: [char; 1] = ['0'];
    assert(a@ =~= seq!['0']);
    crate::text::string_from_chars(&a)
}

/// Reads the jumps of a jump package text (see the module documentation).
pub fn parse_jump_content(content: &str) -> (r: JumpController)
    ensures
        jumps_model(r) == spec_parse_jump(content@),
{
    let mut controller = JumpController { jumps: Vec::new() };
    let mut p = BlockParser::new(content);
    let ghost ts = p.tokens();
    assert(jumps_model(controller) =~= Seq::<JumpModel>::empty());
    proof {
        reveal_strlit("jumpdata");
        lemma_find_tok_bounds(ts, 0, "jumpdata"@);
    }
    if p.start("jumpdata") {
        proof {
            reveal_strlit("height");
        }
        let ghost q0 = p.position();
        loop
            invariant_except_break
                p.tokens() == ts,
                0 <= p.position() <= ts.len(),
                jumps_model(controller) + jumps_from(ts, p.position()) == jumps_from(ts, q0),
            ensures
                jumps_model(controller) == jumps_from(ts, q0),
            decreases ts.len() - p.position(),
        {
            let ghost p1 = p.position();
            if p.endblock() {
                assert(jumps_model(controller) =~= jumps_model(controller) + jumps_from(ts, p1));
                break;
            }
            let is_height = match p.peek() {
                Some(t) => crate::text::str_is(t, "height"),
                None => false,
            };
            if !is_height {
                p.next();
                continue;
            }
            let height = match p.read_float_opt("height") {
                Some(t) => t,
                None => zero_text(),
            };
            let gravity_factor = match p.read_float_opt("gravity_factor") {
                Some(t) => t,
                None => zero_text(),
            };
            let length = match p.read_float_opt("length") {
                Some(t) => t,
                None => zero_text(),
            };
            let heading_adjust = match p.read_float_opt("heading_adjust") {
                Some(t) => t,
                None => zero_text(),
            };
            let jump_type = match p.read_string_opt("type") {
                Some(t) => t,
                None => String::new(),
            };
            let j = JumpState { height, gravity_factor, length, jump_type, heading_adjust };
            let ghost before = jumps_model(controller);
            controller.jumps.push(j);
            assert(jumps_model(controller) =~= before.push(jump_model(j)));
            assert(jump_at(ts, p1) == (jump_model(j), p.position()));
            assert(jumps_from(ts, p1) == seq![jump_model(j)] + jumps_from(ts, p.position()));
            assert(jumps_model(controller) + jumps_from(ts, p.position()) =~= before + jumps_from(
                ts,
                p1,
            ));
        }
    }
    controller
}

} // verus!

//! `rb.ammo`: the ammunition type registry.
//!
//! ```text
//! AMMO <name>
//! {
//!     Damage <float>      HitType <int>      Display <string>
//! }
//! ```
//!
//! Field keys match case-insensitively (`hit_type` and `displayname` are
//! accepted spellings); unknown keys are skipped and `end` closes a body.
//! Types are registered under their lower-cased name; a later type with the
//! same lower-cased name replaces an earlier one.
use crate::block_parser::{
    skip_open_brace, sp_endblock, sp_read_float_opt, sp_read_i32_opt, sp_read_string_opt,
    sp_start_anonymous, tok_at, zero_text, BlockParser,
};
use crate::registry::{assoc_insert, lemma_insert_map, map_entries, NameTable};
use crate::text::{lowercase, str_is, to_lowercase};
use crate::tokenizer::spec_tokens;
use vstd::prelude::*;

verus! {

/// One ammunition type.  `damage` is the text of a float.
#[derive(Debug)]
pub struct AmmoType {
    pub name: String,
    pub damage: String,
    pub hit_type: i32,
    pub display: String,
}

/// Mathematical view of an [`AmmoType`].
pub ghost struct AmmoTypeView {
    pub name: Seq<char>,
    pub damage: Seq<char>,
    pub hit_type: i32,
    pub display: Seq<char>,
}

impl View for AmmoType {
    type V = AmmoTypeView;

    open spec fn view(&self) -> AmmoTypeView {
        AmmoTypeView {
            name: self.name@,
            damage: self.damage@,
            hit_type: self.hit_type,
            display: self.display@,
        }
    }
}

impl AmmoType {
    /// An unnamed type: no damage, hit type 0, no display name.
    pub fn new() -> (a: Self)
        ensures
            a@ == ammo_default(),
    {
        proof {
            reveal_strlit("0");
        }
        let a = AmmoType {
            name: String::new(),
            damage: "0".to_owned(),
            hit_type: 0,
            display: String::new(),
        };
        assert(a.damage@ =~= zero_text());
        assert(a.name@ =~= Seq::<char>::empty());
        assert(a.display@ =~= Seq::<char>::empty());
        a
    }
}

/// The fields of a type before its body is read.
pub open spec fn ammo_default() -> AmmoTypeView {
    AmmoTypeView { name: Seq::empty(), damage: zero_text(), hit_type: 0, display: Seq::empty() }
}

/// The view of a table of ammunition types.
pub open spec fn ammo_table_view(t: NameTable<AmmoType>) -> Seq<(Seq<char>, AmmoTypeView)> {
    map_entries(t.entries(), |a: AmmoType| a@)
}

/// Reading the fields of a body at `p` into `def`, up to its `}`, an `end`
/// key or the end of the tokens: the fields and the position after.
pub open spec fn ammo_body(ts: Seq<Seq<char>>, p: int, def: AmmoTypeView) -> (AmmoTypeView, int)
    decreases ts.len() - p,
{
    let (end, q) = sp_endblock(ts, p);
    if end || p < 0 {
        (def, q)
    } else {
        let tok = ts[p];
        let key = lowercase(tok);
        if key == "end"@ {
            (def, p + 1)
        } else if key == "damage"@ {
            let (v, q2) = sp_read_float_opt(ts, p, tok);
            ammo_body(
                ts,
                q2,
                AmmoTypeView {
                    damage: match v {
                        Some(x) => x,
                        None => zero_text(),
                    },
                    ..def
                },
            )
        } else if key == "hittype"@ || key == "hit_type"@ {
            let (v, q2) = sp_read_i32_opt(ts, p, tok);
            ammo_body(
                ts,
                q2,
                AmmoTypeView {
                    hit_type: match v {
                        Some(x) => x,
                        None => 0,
                    },
                    ..def
                },
            )
        } else if key == "display"@ || key == "displayname"@ {
            let (v, q2) = sp_read_string_opt(ts, p, tok);
            ammo_body(
                ts,
                q2,
                AmmoTypeView {
                    display: match v {
                        Some(x) => x,
                        None => Seq::empty(),
                    },
                    ..def
                },
            )
        } else {
            ammo_body(ts, p + 1, def)
        }
    }
}

pub proof fn lemma_ammo_body_advances(ts: Seq<Seq<char>>, p: int, def: AmmoTypeView)
    requires
        0 <= p <= ts.len(),
    ensures
        p <= ammo_body(ts, p, def).1 <= ts.len(),
    decreases ts.len() - p,
{
    let (end, q) = sp_endblock(ts, p);
    if !end {
        let tok = ts[p];
        let key = lowercase(tok);
        if key == "end"@ {
        } else if key == "damage"@ {
            let (v, q2) = sp_read_float_opt(ts, p, tok);
            lemma_ammo_body_advances(
                ts,
                q2,
                AmmoTypeView {
                    damage: match v {
                        Some(x) => x,
                        None => zero_text(),
                    },
                    ..def
                },
            );
        } else if key == "hittype"@ || key == "hit_type"@ {
            let (v, q2) = sp_read_i32_opt(ts, p, tok);
            lemma_ammo_body_advances(
                ts,
                q2,
                AmmoTypeView {
                    hit_type: match v {
                        Some(x) => x,
                        None => 0,
                    },
                    ..def
                },
            );
        } else if key == "display"@ || key == "displayname"@ {
            let (v, q2) = sp_read_string_opt(ts, p, tok);
            lemma_ammo_body_advances(
                ts,
                q2,
                AmmoTypeView {
                    display: match v {
                        Some(x) => x,
                        None => Seq::empty(),
                    },
                    ..def
                },
            );
        } else {
            lemma_ammo_body_advances(ts, p + 1, def);
        }
    }
}

/// An `AMMO` definition at `p`: the type and the position after it.
pub open spec fn ammo_def(ts: Seq<Seq<char>>, p: int) -> (AmmoTypeView, int) {
    let (name, q1) = sp_read_string_opt(ts, p, "AMMO"@);
    let def0 = AmmoTypeView {
        name: match name {
            Some(n) => n,
            None => Seq::empty(),
        },
        ..ammo_default()
    };
    let (open, q2) = sp_start_anonymous(ts, q1);
    if open {
        ammo_body(ts, q2, def0)
    } else {
        (def0, q2)
    }
}

pub proof fn lemma_ammo_def_advances(ts: Seq<Seq<char>>, p: int)
    requires
        0 <= p < ts.len(),
        ts[p] == "AMMO"@,
    ensures
        p < ammo_def(ts, p).1 <= ts.len(),
{
    let (name, q1) = sp_read_string_opt(ts, p, "AMMO"@);
    let def0 = AmmoTypeView {
        name: match name {
            Some(n) => n,
            None => Seq::empty(),
        },
        ..ammo_default()
    };
    let (open, q2) = sp_start_anonymous(ts, q1);
    if open {
        lemma_ammo_body_advances(ts, q2, def0);
    }
}

/// The table after scanning the top level from `p`: tokens other than
/// `AMMO` are skipped, each definition with a non-empty name is stored
/// under its lower-cased name.
pub open spec fn ammo_scan(ts: Seq<Seq<char>>, p: int, table: Seq<(Seq<char>, AmmoTypeView)>) -> Seq<
    (Seq<char>, AmmoTypeView),
>
    decreases ts.len() - p,
    via ammo_scan_decreases
{
    let (end, q) = sp_endblock(ts, p);
    if end || p < 0 {
        table
    } else if ts[p] != "AMMO"@ {
        ammo_scan(ts, p + 1, table)
    } else {
        let (def, q3) = ammo_def(ts, p);
        ammo_scan(
            ts,
            q3,
            if def.name.len() > 0 {
                assoc_insert(table, lowercase(def.name), def)
            } else {
                table
            },
        )
    }
}

#[via_fn]
proof fn ammo_scan_decreases(ts: Seq<Seq<char>>, p: int, table: Seq<(Seq<char>, AmmoTypeView)>) {
    let (end, q) = sp_endblock(ts, p);
    if !end && p >= 0 && ts[p] == "AMMO"@ {
        lemma_ammo_def_advances(ts, p);
    }
}

/// The ammunition table of an `rb.ammo` text (after an optional outer `{`).
pub open spec fn spec_parse_ammo(content: Seq<char>) -> Seq<(Seq<char>, AmmoTypeView)> {
    let ts = spec_tokens(content);
    ammo_scan(ts, skip_open_brace(ts, 0), Seq::empty())
}

/// Reads the fields of a body into `def`.
fn parse_ammo_body(p: &mut BlockParser, def: &mut AmmoType)
    requires
        0 <= old(p).position() <= old(p).tokens().len(),
    ensures
        final(p).tokens() == old(p).tokens(),
        (final(def)@, final(p).position()) == ammo_body(
            old(p).tokens(),
            old(p).position(),
            old(def)@,
        ),
    decreases old(p).tokens().len() - old(p).position(),
{
    let ghost ts = p.tokens();
    let ghost p0 = p.position();
    let ghost def0 = def@;
    if p.endblock() {
        return;
    }
    let a_key: String = match p.peek() {
        Some(t) => t.to_owned(),
        None => String::new(),
    };
    let key = to_lowercase(a_key.as_str());
    if str_is(key.as_str(), "end") {
        p.next();
        return;
    }
    if str_is(key.as_str(), "damage") {
        proof {
            reveal_strlit("0");
            assert("0"@ =~= zero_text());
        }
        def.damage = p.read_float(a_key.as_str(), "0");
    } else if str_is(key.as_str(), "hittype") || str_is(key.as_str(), "hit_type") {
        def.hit_type = p.read_i32(a_key.as_str(), 0);
    } else if str_is(key.as_str(), "display") || str_is(key.as_str(), "displayname") {
        proof {
            reveal_strlit("");
            assert(""@ =~= Seq::<char>::empty());
        }
        def.display = p.read_string(a_key.as_str(), "");
    } else {
        p.next();
    }
    let ghost q = p.position();
    let ghost d = def@;
    assert(ammo_body(ts, p0, def0) == ammo_body(ts, q, d));
    assert(p0 < q <= ts.len());
    parse_ammo_body(p, def);
}

/// Parses an `rb.ammo` text into its table of ammunition types.
pub fn parse_ammo_content(content: &str) -> (r: NameTable<AmmoType>)
    ensures
        ammo_table_view(r) == spec_parse_ammo(content@),
{
    let mut table: NameTable<AmmoType> = NameTable::new();
    let mut p = BlockParser::new(content);
    let ghost ts = p.tokens();
    if p.start_anonymous() {
    }
    assert(ammo_table_view(table) =~= Seq::<(Seq<char>, AmmoTypeView)>::empty());
    loop
        invariant_except_break
            p.tokens() == ts,
            ts == spec_tokens(content@),
            0 <= p.position() <= ts.len(),
            spec_parse_ammo(content@) == ammo_scan(ts, p.position(), ammo_table_view(table)),
        ensures
            spec_parse_ammo(content@) == ammo_table_view(table),
        decreases ts.len() - p.position(),
    {
        let ghost pos0 = p.position();
        if p.endblock() {
            break;
        }
        let is_ammo = match p.peek() {
            Some(t) => str_is(t, "AMMO"),
            None => false,
        };
        if !is_ammo {
            p.next();
            continue;
        }
        let mut def = AmmoType::new();
        if let Some(name) = p.read_string_opt("AMMO") {
            def.name = name;
        }
        proof {
            reveal_strlit("0");
        }
        if p.start_anonymous() {
            parse_ammo_body(&mut p, &mut def);
        }
        assert(ammo_def(ts, pos0) == (def@, p.position()));
        proof {
            lemma_ammo_def_advances(ts, pos0);
        }
        if !def.name.as_str().is_empty() {
            let key = to_lowercase(def.name.as_str());
            proof {
                lemma_insert_map(table.entries(), key@, def, |a: AmmoType| a@);
            }
            table.insert(key, def);
        }
    }
    table
}

/// The last type the scan from `p` defines under the key `k` (its
/// lower-cased, non-empty name), or `init` when it defines none.
pub open spec fn scan_last(ts: Seq<Seq<char>>, p: int, k: Seq<char>, init: Option<AmmoTypeView>) -> Option<AmmoTypeView>
    decreases ts.len() - p,
    via scan_last_decreases
{
    let (end, q) = sp_endblock(ts, p);
    if end || p < 0 {
        init
    } else if ts[p] != "AMMO"@ {
        scan_last(ts, p + 1, k, init)
    } else {
        let (def, q3) = ammo_def(ts, p);
        scan_last(
            ts,
            q3,
            k,
            if def.name.len() > 0 && lowercase(def.name) == k {
                Some(def)
            } else {
                init
            },
        )
    }
}

#[via_fn]
proof fn scan_last_decreases(ts: Seq<Seq<char>>, p: int, k: Seq<char>, init: Option<AmmoTypeView>) {
    let (end, q) = sp_endblock(ts, p);
    if !end && p >= 0 && ts[p] == "AMMO"@ {
        lemma_ammo_def_advances(ts, p);
    }
}

proof fn lemma_scan_get(ts: Seq<Seq<char>>, p: int, table: Seq<(Seq<char>, AmmoTypeView)>, k: Seq<char>)
    requires
        crate::registry::keys_distinct(table),
    ensures
        crate::registry::assoc_get(ammo_scan(ts, p, table), k) == scan_last(
            ts,
            p,
            k,
            crate::registry::assoc_get(table, k),
        ),
    decreases ts.len() - p,
{
    let (end, q) = sp_endblock(ts, p);
    if !(end || p < 0) {
        if ts[p] != "AMMO"@ {
            lemma_scan_get(ts, p + 1, table, k);
        } else {
            let (def, q3) = ammo_def(ts, p);
            lemma_ammo_def_advances(ts, p);
            if def.name.len() > 0 {
                let key = lowercase(def.name);
                crate::registry::lemma_insert_keeps_keys_distinct(table, key, def);
                crate::registry::lemma_insert_then_get(table, key, def, k);
                lemma_scan_get(ts, q3, assoc_insert(table, key, def), k);
            } else {
                lemma_scan_get(ts, q3, table, k);
            }
        }
    }
}

/// A later `AMMO` definition replaces an earlier one of the same
/// lower-cased name: the type stored under `k` is the last definition
/// whose non-empty name lower-cases to `k` (none without one).
pub proof fn lemma_ammo_later_definition_wins(content: Seq<char>, k: Seq<char>)
    ensures
        ({
            let ts = spec_tokens(content);
            crate::registry::assoc_get(spec_parse_ammo(content), k) == scan_last(
                ts,
                skip_open_brace(ts, 0),
                k,
                None,
            )
        }),
{
    let ts = spec_tokens(content);
    lemma_scan_get(ts, skip_open_brace(ts, 0), Seq::empty(), k);
}

/// Every entry is stored under the lower-cased form of its non-empty name.
pub open spec fn keyed_by_name(table: Seq<(Seq<char>, AmmoTypeView)>) -> bool {
    forall|i: int|
        0 <= i < table.len() ==> (#[trigger] table[i]).1.name.len() > 0 && table[i].0 == lowercase(
            table[i].1.name,
        )
}

proof fn lemma_scan_keyed(ts: Seq<Seq<char>>, p: int, table: Seq<(Seq<char>, AmmoTypeView)>)
    requires
        keyed_by_name(table),
    ensures
        keyed_by_name(ammo_scan(ts, p, table)),
    decreases ts.len() - p,
{
    let (end, q) = sp_endblock(ts, p);
    if !(end || p < 0) {
        if ts[p] != "AMMO"@ {
            lemma_scan_keyed(ts, p + 1, table);
        } else {
            let (def, q3) = ammo_def(ts, p);
            lemma_ammo_def_advances(ts, p);
            let next = if def.name.len() > 0 {
                assoc_insert(table, lowercase(def.name), def)
            } else {
                table
            };
            if def.name.len() > 0 {
                crate::registry::lemma_key_index(table, lowercase(def.name));
                assert(keyed_by_name(next));
            }
            lemma_scan_keyed(ts, q3, next);
        }
    }
}

/// In a parsed ammunition table every type has a non-empty name and is
/// stored under that name lower-cased.
pub proof fn lemma_ammo_keyed_by_name(content: Seq<char>)
    ensures
        keyed_by_name(spec_parse_ammo(content)),
{
    let ts = spec_tokens(content);
    lemma_scan_keyed(ts, skip_open_brace(ts, 0), Seq::empty());
}

} // verus!

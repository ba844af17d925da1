//! Animation aliases (`.anims` and `.apkg`).
//!
//! Inside an `Anims {` block, each line `anim_file ALIAS` maps the alias to
//! the animation; the block ends at a `}` line.  Blank lines and lines
//! starting with `#` are skipped.  An `.anims` file may also name packages
//! (`package animpkg.nav.kno`), whose aliases are read from
//! `entity.tune/animpkg/nav/kno.apkg` at that point; `locopkg` and
//! `jumppkg` lines are skipped.  Later aliases replace earlier ones.
use crate::text::{
    chars_of, copy_range, has_prefix, last_index_of, lemma_last_index_of, lines, push_str,
    replace_all, replace_str, spec_lines, spec_trim, spec_words, split_whitespace, starts_with,
    str_is, string_from_chars, trim,
};
use vstd::prelude::*;

verus! {

/// What an `.anims` line asks for, in file order.
pub enum AnimsItem {
    /// `alias` names the animation `anim`.
    Alias { alias: String, anim: String },
    /// The aliases of the package at this dotted path are read here.
    Package(String),
}

pub enum ItemModel {
    Alias(Seq<char>, Seq<char>),
    Package(Seq<char>),
}

pub open spec fn item_model(i: AnimsItem) -> ItemModel {
    match i {
        AnimsItem::Alias { alias, anim } => ItemModel::Alias(alias@, anim@),
        AnimsItem::Package(p) => ItemModel::Package(p@),
    }
}

pub open spec fn items_model(v: Seq<AnimsItem>) -> Seq<ItemModel> {
    v.map_values(|i: AnimsItem| item_model(i))
}

/// A skipped line: blank or a `#` comment.
pub open spec fn anims_skipped(t: Seq<char>) -> bool {
    t.len() == 0 || t[0] == '#'
}

/// The alias a line inside the block gives, if any: `(alias, anim)`.
pub open spec fn alias_of(t: Seq<char>) -> Option<(Seq<char>, Seq<char>)> {
    let parts = spec_words(t);
    if parts.len() >= 2 && !(parts[0].len() > 0 && parts[0][0] == '#') {
        Some((parts[1], parts[0]))
    } else {
        None
    }
}

/// One line of an `.anims` file applied to the items so far and whether
/// the `Anims` block is open.
pub open spec fn anims_line(st: (Seq<ItemModel>, bool), line: Seq<char>) -> (Seq<ItemModel>, bool) {
    let t = spec_trim(line);
    if anims_skipped(t) {
        st
    } else if has_prefix(t, "package "@) {
        (st.0.push(ItemModel::Package(spec_trim(t.skip(8)))), st.1)
    } else if has_prefix(t, "locopkg "@) || has_prefix(t, "jumppkg "@) {
        st
    } else if t == "Anims {"@ {
        (st.0, true)
    } else if t == "}"@ {
        (st.0, false)
    } else if st.1 {
        match alias_of(t) {
            Some((a, f)) => (st.0.push(ItemModel::Alias(a, f)), true),
            None => st,
        }
    } else {
        st
    }
}

pub open spec fn anims_upto(ls: Seq<Seq<char>>, k: nat) -> (Seq<ItemModel>, bool)
    decreases k,
{
    if k == 0 {
        (Seq::empty(), false)
    } else {
        anims_line(anims_upto(ls, (k - 1) as nat), ls[k - 1])
    }
}

/// The items of an `.anims` text.
pub open spec fn spec_anims_items(content: Seq<char>) -> Seq<ItemModel> {
    let ls = spec_lines(content);
    anims_upto(ls, ls.len()).0
}

/// One line of an `.apkg` file applied to the aliases so far and whether
/// the block is open.
pub open spec fn apkg_line(st: (Seq<(Seq<char>, Seq<char>)>, bool), line: Seq<char>) -> (
    Seq<(Seq<char>, Seq<char>)>,
    bool,
) {
    let t = spec_trim(line);
    if anims_skipped(t) {
        st
    } else if t == "Anims {"@ {
        (st.0, true)
    } else if t == "}"@ {
        (st.0, false)
    } else if st.1 {
        match alias_of(t) {
            Some(p) => (st.0.push(p), true),
            None => st,
        }
    } else {
        st
    }
}

pub open spec fn apkg_upto(ls: Seq<Seq<char>>, k: nat) -> (Seq<(Seq<char>, Seq<char>)>, bool)
    decreases k,
{
    if k == 0 {
        (Seq::empty(), false)
    } else {
        apkg_line(apkg_upto(ls, (k - 1) as nat), ls[k - 1])
    }
}

/// The `(alias, anim)` pairs of an `.apkg` text, in order.
pub open spec fn spec_apkg_aliases(content: Seq<char>) -> Seq<(Seq<char>, Seq<char>)> {
    let ls = spec_lines(content);
    apkg_upto(ls, ls.len()).0
}

/// Where the package at a dotted path lives: the directory
/// `entity.tune/<all but the last part, dots as slashes>` and the file
/// `<last part>.apkg`; `None` for a path without a dot.
pub open spec fn spec_apkg_location(path: Seq<char>) -> Option<(Seq<char>, Seq<char>)> {
    let li = last_index_of(path, '.');
    if li < 0 {
        None
    } else {
        Some(
            (
                "entity.tune/"@ + replace_all(path.take(li), "."@, "/"@),
                path.subrange(li + 1, path.len() as int) + ".apkg"@,
            ),
        )
    }
}

/// The alias of a line inside an `Anims` block, if it has one.
fn alias_in(t: &Vec<char>) -> (r: Option<(String, String)>)
    ensures
        match alias_of(t@) {
            Some((a, f)) => r matches Some((x, y)) && x@ == a && y@ == f,
            None => r is None,
        },
{
    let parts = split_whitespace(t.as_slice());
    let ghost pv = parts@.map_values(|w: Vec<char>| w@);
    assert(pv =~= spec_words(t@));
    if parts.len() >= 2 {
        assert(pv[0] == parts@[0]@);
        assert(pv[1] == parts@[1]@);
        if !(parts[0].len() > 0 && parts[0][0] == '#') {
            return Some(
                (string_from_chars(parts[1].as_slice()), string_from_chars(parts[0].as_slice())),
            );
        }
    }
    None
}

fn is_text(t: &Vec<char>, lit: &str) -> (r: bool)
    ensures
        r == (t@ == lit@),
{
    str_is(string_from_chars(t.as_slice()).as_str(), lit)
}

/// The items of an `.anims` text (see the module documentation); the
/// caller reads each package's aliases where its item stands.
pub fn parse_anims_content(content: &str) -> (r: Vec<AnimsItem>)
    ensures
        items_model(r@) == spec_anims_items(content@),
{
    let chars = chars_of(content);
    let ls = lines(chars.as_slice());
    let ghost lv = ls@.map_values(|l: Vec<char>| l@);
    assert(lv =~= spec_lines(content@));
    let package = chars_of("package ");
    let locopkg = chars_of("locopkg ");
    let jumppkg = chars_of("jumppkg ");
    proof {
        reveal_strlit("package ");
    }
    let mut items: Vec<AnimsItem> = Vec::new();
    let mut in_block = false;
    assert(items_model(items@) =~= Seq::<ItemModel>::empty());
    let mut k: usize = 0;
    while k < ls.len()
        invariant
            k <= ls@.len(),
            lv == ls@.map_values(|l: Vec<char>| l@),
            package@ == "package "@,
            "package "@.len() == 8,
            locopkg@ == "locopkg "@,
            jumppkg@ == "jumppkg "@,
            anims_upto(lv, k as nat) == (items_model(items@), in_block),
        decreases ls@.len() - k,
    {
        assert(lv[k as int] == ls@[k as int]@);
        let t = trim(ls[k].as_slice());
        if t.len() == 0 || t[0] == '#' {
        } else if starts_with(t.as_slice(), package.as_slice()) {
            let rest = copy_range(t.as_slice(), 8, t.len());
            assert(rest@ =~= t@.skip(8));
            let p = trim(rest.as_slice());
            let ghost before = items_model(items@);
            let item = AnimsItem::Package(string_from_chars(p.as_slice()));
            items.push(item);
            assert(items_model(items@) =~= before.push(item_model(item)));
        } else if starts_with(t.as_slice(), locopkg.as_slice()) || starts_with(
            t.as_slice(),
            jumppkg.as_slice(),
        ) {
        } else if is_text(&t, "Anims {") {
            in_block = true;
        } else if is_text(&t, "}") {
            in_block = false;
        } else if in_block {
            match alias_in(&t) {
                Some((alias, anim)) => {
                    let ghost before = items_model(items@);
                    let item = AnimsItem::Alias { alias, anim };
                    items.push(item);
                    assert(items_model(items@) =~= before.push(item_model(item)));
                },
                None => {},
            }
        }
        k = k + 1;
    }
    items
}

/// The `(alias, anim)` pairs of an `.apkg` text, in order.
pub fn apkg_aliases(content: &str) -> (r: Vec<(String, String)>)
    ensures
        r@.map_values(|p: (String, String)| (p.0@, p.1@)) == spec_apkg_aliases(content@),
{
    let chars = chars_of(content);
    let ls = lines(chars.as_slice());
    let ghost lv = ls@.map_values(|l: Vec<char>| l@);
    assert(lv =~= spec_lines(content@));
    let mut out: Vec<(String, String)> = Vec::new();
    let mut in_block = false;
    assert(out@.map_values(|p: (String, String)| (p.0@, p.1@)) =~= Seq::<
        (Seq<char>, Seq<char>),
    >::empty());
    let mut k: usize = 0;
    while k < ls.len()
        invariant
            k <= ls@.len(),
            lv == ls@.map_values(|l: Vec<char>| l@),
            apkg_upto(lv, k as nat) == (
                out@.map_values(|p: (String, String)| (p.0@, p.1@)),
                in_block,
            ),
        decreases ls@.len() - k,
    {
        assert(lv[k as int] == ls@[k as int]@);
        let t = trim(ls[k].as_slice());
        if t.len() == 0 || t[0] == '#' {
        } else if is_text(&t, "Anims {") {
            in_block = true;
        } else if is_text(&t, "}") {
            in_block = false;
        } else if in_block {
            match alias_in(&t) {
                Some(p) => {
                    let ghost before = out@.map_values(|p: (String, String)| (p.0@, p.1@));
                    let ghost pv = (p.0@, p.1@);
                    out.push(p);
                    assert(out@.map_values(|p: (String, String)| (p.0@, p.1@)) =~= before.push(pv));
                },
                None => {},
            }
        }
        k = k + 1;
    }
    out
}

/// The directory and file name of the package at a dotted path (see
/// [`spec_apkg_location`]).
pub fn apkg_location(path: &str) -> (r: Option<(String, String)>)
    ensures
        match spec_apkg_location(path@) {
            Some((d, f)) => r matches Some((x, y)) && x@ == d && y@ == f,
            None => r is None,
        },
{
    let s = chars_of(path);
    let mut li: usize = 0;
    let mut found = false;
    let mut i: usize = 0;
    while i < s.len()
        invariant
            i <= s@.len(),
            found ==> li < i,
            (if found {
                li as int
            } else {
                -1
            }) == last_index_of(s@.take(i as int), '.'),
        decreases s.len() - i,
    {
        assert(s@.take(i + 1).drop_last() =~= s@.take(i as int));
        if s[i] == '.' {
            li = i;
            found = true;
        }
        i = i + 1;
    }
    assert(s@.take(s@.len() as int) =~= s@);
    if !found {
        return None;
    }
    let head = copy_range(s.as_slice(), 0, li);
    let dot = chars_of(".");
    let slash = chars_of("/");
    proof {
        reveal_strlit(".");
        reveal_strlit("/");
        assert(head@ =~= s@.take(li as int));
    }
    let dir_tail = replace_str(head.as_slice(), dot.as_slice(), slash.as_slice());
    let mut dir: Vec<char> = Vec::new();
    push_str(&mut dir, "entity.tune/");
    let mut j: usize = 0;
    let ghost d0 = dir@;
    while j < dir_tail.len()
        invariant
            j <= dir_tail@.len(),
            dir@ == d0 + dir_tail@.take(j as int),
        decreases dir_tail.len() - j,
    {
        dir.push(dir_tail[j]);
        j = j + 1;
        assert(dir@ =~= d0 + dir_tail@.take(j as int));
    }
    assert(dir_tail@.take(dir_tail@.len() as int) =~= dir_tail@);
    let mut file = copy_range(s.as_slice(), li + 1, s.len());
    let ghost f0 = file@;
    push_str(&mut file, ".apkg");
    Some((string_from_chars(dir.as_slice()), string_from_chars(file.as_slice())))
}

} // verus!

//! Actor XML: which components an actor declares, and sound play modes.
//!
//! A component is declared by an opening tag whose name starts with an
//! upper-case ASCII letter and which carries a `name="..."` attribute
//! (inner data uses `value="..."`).
use crate::text::{chars_of, str_is};
use vstd::prelude::*;

verus! {

/// How a `<Sound>` component cues its package's nuggets.
#[derive(Debug, Clone, Copy, PartialEq, Eq, Structural)]
pub enum SoundPlayMode {
    /// Replay the same nugget on every play.
    CurrentOne,
    /// Advance through the nuggets in order.
    NextOne,
    /// Pick a random nugget on each play.
    RandomOne,
    /// Replay the same nugget continuously.
    CurrentOneLooped,
    /// Walk the package end to end, then restart.
    FullLoop,
    /// Pick a random nugget, play it, then pick another.
    RandomLoop,
}

impl SoundPlayMode {
    /// The looping modes restart playback when the audio finishes.
    pub fn is_looped(self) -> (r: bool)
        ensures
            r == (self == SoundPlayMode::CurrentOneLooped || self == SoundPlayMode::FullLoop || self
                == SoundPlayMode::RandomLoop),
    {
        match self {
            SoundPlayMode::CurrentOneLooped | SoundPlayMode::FullLoop | SoundPlayMode::RandomLoop => {
                true
            },
            _ => false,
        }
    }
}

/// The components that are parsed and attached to the spawned entity.
pub open spec fn known_component(t: Seq<char>) -> bool {
    t == "Animator"@ || t == "Behavior"@ || t == "BroadcastTrigger"@ || t == "CameraTrigger"@ || t
        == "CheckpointTrigger"@ || t == "Creature"@ || t == "Curve"@ || t == "Editable"@ || t
        == "ElbowCraneHitch"@ || t == "ElbowCraneIK"@ || t == "Entity"@ || t == "Eye"@ || t
        == "FX"@ || t == "FightAI"@ || t == "FightAi"@ || t == "FightVectorTrigger"@ || t
        == "Fighter"@ || t == "ForceVectorTrigger"@ || t == "Health"@ || t == "Inventory"@ || t
        == "Prop"@ || t == "Reticle"@ || t == "ScrOni"@ || t == "SectionTrigger"@ || t
        == "Sound"@ || t == "Target"@
}

/// Whether `tag` is one of the implemented components.
pub fn is_known_component(tag: &str) -> (r: bool)
    ensures
        r == known_component(tag@),
{
    str_is(tag, "Animator") || str_is(tag, "Behavior") || str_is(tag, "BroadcastTrigger")
        || str_is(tag, "CameraTrigger") || str_is(tag, "CheckpointTrigger") || str_is(
        tag,
        "Creature",
    ) || str_is(tag, "Curve") || str_is(tag, "Editable") || str_is(tag, "ElbowCraneHitch")
        || str_is(tag, "ElbowCraneIK") || str_is(tag, "Entity") || str_is(tag, "Eye") || str_is(
        tag,
        "FX",
    ) || str_is(tag, "FightAI") || str_is(tag, "FightAi") || str_is(tag, "FightVectorTrigger")
        || str_is(tag, "Fighter") || str_is(tag, "ForceVectorTrigger") || str_is(tag, "Health")
        || str_is(tag, "Inventory") || str_is(tag, "Prop") || str_is(tag, "Reticle") || str_is(
        tag,
        "ScrOni",
    ) || str_is(tag, "SectionTrigger") || str_is(tag, "Sound") || str_is(tag, "Target")
}

pub open spec fn is_upper(c: char) -> bool {
    'A' <= c && c <= 'Z'
}

pub open spec fn is_name_char(c: char) -> bool {
    ('A' <= c && c <= 'Z') || ('a' <= c && c <= 'z') || ('0' <= c && c <= '9') || c == '_'
}

/// First index at or after `i` holding `c`, or `s.len()`.
pub open spec fn find_from(s: Seq<char>, i: int, c: char) -> int
    decreases s.len() - i,
{
    if i < 0 || i >= s.len() {
        s.len() as int
    } else if s[i] == c {
        i
    } else {
        find_from(s, i + 1, c)
    }
}

/// First index at or after `i` that cannot be part of a tag name.
pub open spec fn name_end_from(s: Seq<char>, i: int) -> int
    decreases s.len() - i,
{
    if i < 0 || i >= s.len() {
        s.len() as int
    } else if !is_name_char(s[i]) {
        i
    } else {
        name_end_from(s, i + 1)
    }
}

/// `s[lo..hi]` contains `p`.
pub open spec fn contains_in(s: Seq<char>, lo: int, hi: int, p: Seq<char>) -> bool {
    exists|k: int| lo <= k && k + p.len() <= hi && #[trigger] s.subrange(k, k + p.len()) == p
}

/// The component tags declared from position `i` on.
pub open spec fn tags_from(s: Seq<char>, i: int) -> Seq<Seq<char>>
    decreases s.len() - i,
{
    let j = find_from(s, i, '<');
    if i < 0 || i > s.len() || j >= s.len() || j + 1 >= s.len() || j < i {
        Seq::empty()
    } else {
        let a = j + 1;
        if !is_upper(s[a]) {
            tags_from(s, a)
        } else {
            let e = name_end_from(s, a);
            let c = find_from(s, e, '>');
            if e <= a || c >= s.len() || c < e {
                Seq::empty()
            } else if contains_in(s, e, c, " name=\""@) {
                seq![s.subrange(a, e)] + tags_from(s, c + 1)
            } else {
                tags_from(s, c + 1)
            }
        }
    }
}

proof fn lemma_find_from(s: Seq<char>, i: int, c: char)
    requires
        0 <= i <= s.len(),
    ensures
        i <= find_from(s, i, c) <= s.len(),
        find_from(s, i, c) < s.len() ==> s[find_from(s, i, c)] == c,
    decreases s.len() - i,
{
    if i < s.len() && s[i] != c {
        lemma_find_from(s, i + 1, c);
    }
}

proof fn lemma_name_end(s: Seq<char>, i: int)
    requires
        0 <= i <= s.len(),
    ensures
        i <= name_end_from(s, i) <= s.len(),
    decreases s.len() - i,
{
    if i < s.len() && is_name_char(s[i]) {
        lemma_name_end(s, i + 1);
    }
}

fn find_char(s: &Vec<char>, i: usize, c: char) -> (r: usize)
    requires
        i <= s@.len(),
    ensures
        r == find_from(s@, i as int, c),
        i <= r <= s@.len(),
{
    proof {
        lemma_find_from(s@, i as int, c);
    }
    let mut j = i;
    while j < s.len() && s[j] != c
        invariant
            i <= j <= s@.len(),
            find_from(s@, i as int, c) == find_from(s@, j as int, c),
        decreases s@.len() - j,
    {
        j = j + 1;
    }
    j
}

fn name_end(s: &Vec<char>, i: usize) -> (r: usize)
    requires
        i <= s@.len(),
    ensures
        r == name_end_from(s@, i as int),
        i <= r <= s@.len(),
{
    proof {
        lemma_name_end(s@, i as int);
    }
    let mut j = i;
    while j < s.len() && (('A' <= s[j] && s[j] <= 'Z') || ('a' <= s[j] && s[j] <= 'z') || ('0'
        <= s[j] && s[j] <= '9') || s[j] == '_')
        invariant
            i <= j <= s@.len(),
            name_end_from(s@, i as int) == name_end_from(s@, j as int),
        decreases s@.len() - j,
    {
        j = j + 1;
    }
    j
}

/// Whether `s[lo..hi]` contains `p`.
fn contains_range(s: &Vec<char>, lo: usize, hi: usize, p: &Vec<char>) -> (r: bool)
    requires
        lo <= hi <= s@.len(),
    ensures
        r == contains_in(s@, lo as int, hi as int, p@),
{
    if p.len() > hi - lo {
        return false;
    }
    let mut k = lo;
    while k <= hi - p.len()
        invariant
            lo <= k,
            p@.len() <= hi - lo,
            hi <= s@.len(),
            forall|m: int| lo <= m < k ==> #[trigger] s@.subrange(m, m + p@.len()) != p@,
        decreases hi - k,
    {
        let mut t: usize = 0;
        let mut same = true;
        while t < p.len()
            invariant
                t <= p@.len(),
                k + p@.len() <= hi <= s@.len(),
                same == (forall|u: int| 0 <= u < t ==> s@[k + u] == p@[u]),
            decreases p@.len() - t,
        {
            if s[k + t] != p[t] {
                same = false;
            }
            t = t + 1;
        }
        if same {
            assert(s@.subrange(k as int, k + p@.len()) =~= p@);
            return true;
        }
        assert(s@.subrange(k as int, k + p@.len()) != p@) by {
            let u = choose|u: int| 0 <= u < p@.len() && s@[k + u] != p@[u];
            assert(s@.subrange(k as int, k + p@.len())[u] == s@[k + u]);
        }
        k = k + 1;
    }
    assert forall|m: int| lo <= m && m + p@.len() <= hi implies #[trigger] s@.subrange(
        m,
        m + p@.len(),
    ) != p@ by {}
    false
}

/// The component tags declared in an XML text, in order (see the module
/// documentation).
pub fn find_component_tags(content: &str) -> (r: Vec<String>)
    ensures
        r@.map_values(|t: String| t@) == tags_from(content@, 0),
{
    let s = chars_of(content);
    let pat = chars_of(" name=\"");
    let mut tags: Vec<String> = Vec::new();
    let mut i: usize = 0;
    assert(tags@.map_values(|t: String| t@) =~= Seq::<Seq<char>>::empty());
    loop
        invariant_except_break
            i <= s@.len(),
            s@ == content@,
            pat@ == " name=\""@,
            tags@.map_values(|t: String| t@) + tags_from(s@, i as int) == tags_from(s@, 0),
        ensures
            tags@.map_values(|t: String| t@) == tags_from(s@, 0),
            s@ == content@,
        decreases s@.len() - i,
    {
        let ghost tv = tags@.map_values(|t: String| t@);
        let j = find_char(&s, i, '<');
        if j >= s.len() || j + 1 >= s.len() {
            assert(tv =~= tv + tags_from(s@, i as int));
            break;
        }
        let a = j + 1;
        if !('A' <= s[a] && s[a] <= 'Z') {
            i = a;
            continue;
        }
        let e = name_end(&s, a);
        let c = find_char(&s, e, '>');
        if e <= a || c >= s.len() {
            assert(tv =~= tv + tags_from(s@, i as int));
            break;
        }
        if contains_range(&s, e, c, &pat) {
            let name = crate::text::copy_range(s.as_slice(), a, e);
            let nm = crate::text::string_from_chars(name.as_slice());
            tags.push(nm);
            assert(tags@.map_values(|t: String| t@) =~= tv.push(s@.subrange(a as int, e as int)));
            assert(tags_from(s@, i as int) == seq![s@.subrange(a as int, e as int)] + tags_from(
                s@,
                c + 1,
            ));
            assert(tags@.map_values(|t: String| t@) + tags_from(s@, c + 1) =~= tv + tags_from(
                s@,
                i as int,
            ));
        }
        i = c + 1;
    }
    tags
}

/// The unknown component tags of the not-yet-seen ones among `tags`,
/// added to `seen`: each tag once, in order of first appearance.
pub open spec fn unhandled_from(tags: Seq<Seq<char>>, seen: Seq<Seq<char>>) -> Seq<Seq<char>>
    decreases tags.len(),
{
    if tags.len() == 0 {
        seen
    } else {
        let t = tags[0];
        let next = if known_component(t) || seen.contains(t) {
            seen
        } else {
            seen.push(t)
        };
        unhandled_from(tags.drop_first(), next)
    }
}

/// The component tags of the chain's texts, in order; the first text is
/// skipped when it is the shared components schema.
pub open spec fn chain_tags(chain: Seq<Seq<char>>, skip_first: bool) -> Seq<Seq<char>>
    decreases chain.len(),
{
    if chain.len() == 0 {
        Seq::empty()
    } else {
        let rest = chain_tags(chain.drop_last(), skip_first);
        if skip_first && chain.len() == 1 {
            rest
        } else {
            rest + tags_from(chain[chain.len() - 1], 0)
        }
    }
}

/// The components an actor declares that are not implemented: each tag
/// once, in order of first appearance over the template chain (the
/// components schema, when it is the first entry, does not count).
pub fn unhandled_component_tags(chain: &Vec<String>, has_components_xml: bool) -> (r: Vec<String>)
    ensures
        r@.map_values(|t: String| t@) == unhandled_from(
            chain_tags(chain@.map_values(|c: String| c@), has_components_xml),
            Seq::empty(),
        ),
{
    let ghost cv = chain@.map_values(|c: String| c@);
    let mut all: Vec<String> = Vec::new();
    let mut i: usize = 0;
    assert(all@.map_values(|t: String| t@) =~= chain_tags(cv.take(0), has_components_xml));
    while i < chain.len()
        invariant
            i <= chain@.len(),
            cv == chain@.map_values(|c: String| c@),
            all@.map_values(|t: String| t@) == chain_tags(cv.take(i as int), has_components_xml),
        decreases chain@.len() - i,
    {
        let ghost before = all@.map_values(|t: String| t@);
        assert(cv.take(i + 1).drop_last() =~= cv.take(i as int));
        assert(cv.take(i + 1)[i as int] == chain@[i as int]@);
        if !(has_components_xml && i == 0) {
            let tags = find_component_tags(chain[i].as_str());
            let mut j: usize = 0;
            while j < tags.len()
                invariant
                    j <= tags@.len(),
                    all@.map_values(|t: String| t@) == before + tags@.map_values(
                        |t: String| t@,
                    ).take(j as int),
                decreases tags@.len() - j,
            {
                let ghost b2 = all@.map_values(|t: String| t@);
                all.push(tags[j].clone());
                assert(all@.map_values(|t: String| t@) =~= b2.push(tags@[j as int]@));
                assert(tags@.map_values(|t: String| t@).take(j + 1) =~= tags@.map_values(
                    |t: String| t@,
                ).take(j as int).push(tags@[j as int]@));
                j = j + 1;
            }
            assert(tags@.map_values(|t: String| t@).take(tags@.len() as int) =~= tags@.map_values(
                |t: String| t@,
            ));
        } else {
            assert(cv.take(1).drop_last() =~= Seq::<Seq<char>>::empty());
        }
        i = i + 1;
    }
    assert(cv.take(chain@.len() as int) =~= cv);
    let ghost av = all@.map_values(|t: String| t@);
    let mut seen: Vec<String> = Vec::new();
    let mut k: usize = 0;
    assert(av.skip(0) =~= av);
    assert(seen@.map_values(|t: String| t@) =~= Seq::<Seq<char>>::empty());
    while k < all.len()
        invariant
            k <= all@.len(),
            av == all@.map_values(|t: String| t@),
            unhandled_from(av.skip(k as int), seen@.map_values(|t: String| t@)) == unhandled_from(
                av,
                Seq::empty(),
            ),
        decreases all@.len() - k,
    {
        let ghost sv = seen@.map_values(|t: String| t@);
        assert(av.skip(k as int).drop_first() =~= av.skip(k + 1));
        assert(av.skip(k as int)[0] == all@[k as int]@);
        let t = all[k].as_str();
        let mut dup = false;
        let mut m: usize = 0;
        while m < seen.len()
            invariant
                m <= seen@.len(),
                sv == seen@.map_values(|t: String| t@),
                dup == (exists|q: int| 0 <= q < m && sv[q] == t@),
            decreases seen@.len() - m,
        {
            assert(sv[m as int] == seen@[m as int]@);
            if crate::text::str_is(seen[m].as_str(), t) {
                dup = true;
            }
            m = m + 1;
        }
        assert(dup == sv.contains(t@)) by {
            if sv.contains(t@) {
                let q = choose|q: int| 0 <= q < sv.len() && sv[q] == t@;
                assert(0 <= q < m && sv[q] == t@);
            }
        }
        if !is_known_component(t) && !dup {
            seen.push(all[k].clone());
            assert(seen@.map_values(|t: String| t@) =~= sv.push(t@));
        }
        k = k + 1;
    }
    assert(av.skip(av.len() as int) =~= Seq::<Seq<char>>::empty());
    seen
}

/// Each unhandled tag is reported once, and no implemented component is.
pub proof fn lemma_unhandled_once_and_unknown(tags: Seq<Seq<char>>, seen: Seq<Seq<char>>)
    requires
        forall|i: int, j: int| 0 <= i < j < seen.len() ==> seen[i] != seen[j],
        forall|i: int| 0 <= i < seen.len() ==> !known_component(#[trigger] seen[i]),
    ensures
        ({
            let r = unhandled_from(tags, seen);
            &&& forall|i: int, j: int| 0 <= i < j < r.len() ==> r[i] != r[j]
            &&& forall|i: int| 0 <= i < r.len() ==> !known_component(#[trigger] r[i])
        }),
    decreases tags.len(),
{
    if tags.len() > 0 {
        let t = tags[0];
        if known_component(t) || seen.contains(t) {
            lemma_unhandled_once_and_unknown(tags.drop_first(), seen);
            assert(unhandled_from(tags, seen) == unhandled_from(tags.drop_first(), seen));
        } else {
            let next = seen.push(t);
            assert forall|i: int, j: int| 0 <= i < j < next.len() implies next[i] != next[j] by {
                if j == seen.len() {
                    if next[i] == next[j] {
                        assert(seen.contains(t)) by {
                            assert(seen[i] == t);
                        }
                    }
                }
            }
            lemma_unhandled_once_and_unknown(tags.drop_first(), next);
            assert(unhandled_from(tags, seen) == unhandled_from(tags.drop_first(), next));
        }
    }
}

} // verus!

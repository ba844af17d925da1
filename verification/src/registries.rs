//! Registries of loaded assets: drawables by key, and where a particle
//! system's file is found.
use crate::spawn::TextureUVAnimator;
use crate::text::{has_suffix, lowercase, str_is, string_from_chars, to_lowercase};
use vstd::prelude::*;

verus! {

/// One drawable: a mesh (`M`, the renderer's handle) and the
/// texture-coordinate animations of its passes.  `key` identifies it:
/// `entity:<dir>#<material>` or `fx:<name>#<pass>`; `name` is a label.
pub struct DrawableEntry<M> {
    pub key: String,
    pub name: String,
    pub mesh: M,
    pub animators: Vec<TextureUVAnimator>,
}

/// The drawables, each key once, in order of registration.
pub struct DrawableLibrary<M> {
    pub entries: Vec<DrawableEntry<M>>,
}

/// The keys of the entries.
pub open spec fn drawable_keys<M>(e: Seq<DrawableEntry<M>>) -> Seq<Seq<char>> {
    e.map_values(|d: DrawableEntry<M>| d.key@)
}

impl<M> DrawableLibrary<M> {
    /// An empty library.
    pub fn new() -> (r: Self)
        ensures
            r.entries@.len() == 0,
    {
        DrawableLibrary { entries: Vec::new() }
    }

    /// Adds a drawable unless one with `key` is registered; whether it was
    /// added.
    pub fn register(
        &mut self,
        key: String,
        name: String,
        mesh: M,
        animators: Vec<TextureUVAnimator>,
    ) -> (added: bool)
        ensures
            added == !drawable_keys(old(self).entries@).contains(key@),
            added ==> final(self).entries@ == old(self).entries@.push(
                (DrawableEntry { key, name, mesh, animators }),
            ),
            !added ==> final(self).entries@ == old(self).entries@,
    {
        let ghost ks = drawable_keys(self.entries@);
        let mut i: usize = 0;
        while i < self.entries.len()
            invariant
                i <= self.entries@.len(),
                ks == drawable_keys(self.entries@),
                forall|j: int| 0 <= j < i ==> ks[j] != key@,
            decreases self.entries@.len() - i,
        {
            assert(ks[i as int] == self.entries@[i as int].key@);
            if str_is(self.entries[i].key.as_str(), key.as_str()) {
                assert(ks.contains(key@)) by {
                    assert(ks[i as int] == key@);
                }
                return false;
            }
            i = i + 1;
        }
        assert(!ks.contains(key@));
        self.entries.push(DrawableEntry { key, name, mesh, animators });
        true
    }
}

/// Registering under a key that is present changes nothing; under a new
/// key it appends, so every key stays once in the library.
pub proof fn lemma_register_keeps_keys_distinct<M>(
    e: Seq<DrawableEntry<M>>,
    d: DrawableEntry<M>,
)
    requires
        forall|i: int, j: int|
            0 <= i < j < e.len() ==> #[trigger] e[i].key@ != #[trigger] e[j].key@,
        !drawable_keys(e).contains(d.key@),
    ensures
        forall|i: int, j: int|
            0 <= i < j < e.push(d).len() ==> #[trigger] e.push(d)[i].key@ != #[trigger] e.push(
                d,
            )[j].key@,
{
    assert forall|i: int, j: int| 0 <= i < j < e.push(d).len() implies #[trigger] e.push(d)[i].key@
        != #[trigger] e.push(d)[j].key@ by {
        if j == e.len() {
            assert(drawable_keys(e)[i] == e[i].key@);
        }
    }
}

/// The file name a directory entry at `path` offers for the particle
/// system `name`, when its lower-cased path ends in `/<name lower>.ptx`:
/// the path's last `/`-separated part.
pub open spec fn ptx_fallback(path: Seq<char>, name: Seq<char>) -> Option<Seq<char>> {
    if has_suffix(lowercase(path), seq!['/'] + lowercase(name) + ".ptx"@) {
        Some(crate::text::after_last(path, '/'))
    } else {
        None
    }
}

/// The file to read for the particle system `name` from the directory
/// entry at `path`, if it is one (see [`ptx_fallback`]).
pub fn ptx_fallback_file(path: &str, name: &str) -> (r: Option<String>)
    ensures
        match ptx_fallback(path@, name@) {
            Some(f) => r matches Some(s) && s@ == f,
            None => r is None,
        },
{
    let lp = to_lowercase(path);
    let ln = to_lowercase(name);
    let mut want: Vec<char> = Vec::new();
    want.push('/');
    crate::text::push_str(&mut want, ln.as_str());
    crate::text::push_str(&mut want, ".ptx");
    assert(want@ =~= seq!['/'] + lowercase(name@) + ".ptx"@);
    let lc = crate::text::chars_of(lp.as_str());
    if crate::text::ends_with(lc.as_slice(), want.as_slice()) {
        let pc = crate::text::chars_of(path);
        let f = crate::text::after_last_char(pc.as_slice(), '/');
        Some(string_from_chars(f.as_slice()))
    } else {
        None
    }
}

} // verus!

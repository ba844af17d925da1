//! Audio package manifests.
//!
//! ```text
//! PACKAGE "Name"          starts a package (any line beginning PACKAGE)
//! PROBABILITY 0.5         before the first nugget: the chance it plays
//! NUGGET                  starts a nugget
//! {  }                    `}` closes the current nugget
//! SOUND "file"            nugget fields, keys in any case
//! VOLUME 0.8              ... PITCH, DELAY, RANDOM_MIN_/RANDOM_MAX_ each
//! ```
//!
//! Blank lines and `//` comments are skipped.  Float values are kept as
//! their text; a value that does not parse leaves its field as it was, and
//! a field never set is `None` (volume 0.5, pitch 1, delay 0, their random
//! bounds the same, probability 1).  A later package of the same name
//! replaces an earlier one.
use crate::registry::{
    assoc_insert, keys_distinct, lemma_insert_keeps_keys_distinct, lemma_insert_map, map_entries,
    NameTable,
};
use crate::text::{
    chars_of, float_text, has_prefix, is_float_text, lines, push_str, spec_lines, spec_trim,
    spec_words, split_whitespace, starts_with, str_is, string_from_chars, to_uppercase, trim,
    trim_quote_chars, trim_quotes, uppercase,
};
use vstd::prelude::*;

verus! {

/// One sound of a package.
pub struct AudioNugget {
    pub sound: String,
    pub volume: Option<String>,
    pub pitch: Option<String>,
    pub delay: Option<String>,
    pub random_min_volume: Option<String>,
    pub random_max_volume: Option<String>,
    pub random_min_pitch: Option<String>,
    pub random_max_pitch: Option<String>,
    pub random_min_delay: Option<String>,
    pub random_max_delay: Option<String>,
}

/// The nuggets of a package and the chance that it plays.
pub struct AudioPackage {
    pub nuggets: Vec<AudioNugget>,
    pub probability: Option<String>,
}

/// Packages by name.
pub type AudioPackagesDirectory = NameTable<AudioPackage>;

pub struct NuggetModel {
    pub sound: Seq<char>,
    pub volume: Option<Seq<char>>,
    pub pitch: Option<Seq<char>>,
    pub delay: Option<Seq<char>>,
    pub random_min_volume: Option<Seq<char>>,
    pub random_max_volume: Option<Seq<char>>,
    pub random_min_pitch: Option<Seq<char>>,
    pub random_max_pitch: Option<Seq<char>>,
    pub random_min_delay: Option<Seq<char>>,
    pub random_max_delay: Option<Seq<char>>,
}

pub struct PackageModel {
    pub nuggets: Seq<NuggetModel>,
    pub probability: Option<Seq<char>>,
}

pub open spec fn opt_view(t: Option<String>) -> Option<Seq<char>> {
    match t {
        Some(s) => Some(s@),
        None => None,
    }
}

pub open spec fn nugget_model(n: AudioNugget) -> NuggetModel {
    NuggetModel {
        sound: n.sound@,
        volume: opt_view(n.volume),
        pitch: opt_view(n.pitch),
        delay: opt_view(n.delay),
        random_min_volume: opt_view(n.random_min_volume),
        random_max_volume: opt_view(n.random_max_volume),
        random_min_pitch: opt_view(n.random_min_pitch),
        random_max_pitch: opt_view(n.random_max_pitch),
        random_min_delay: opt_view(n.random_min_delay),
        random_max_delay: opt_view(n.random_max_delay),
    }
}

pub open spec fn nuggets_model(v: Seq<AudioNugget>) -> Seq<NuggetModel> {
    v.map_values(|n: AudioNugget| nugget_model(n))
}

pub open spec fn package_model(p: AudioPackage) -> PackageModel {
    PackageModel { nuggets: nuggets_model(p.nuggets@), probability: opt_view(p.probability) }
}

pub open spec fn directory_model(d: AudioPackagesDirectory) -> Seq<(Seq<char>, PackageModel)> {
    map_entries(d.entries(), |p: AudioPackage| package_model(p))
}

pub open spec fn nugget_default() -> NuggetModel {
    NuggetModel {
        sound: Seq::empty(),
        volume: None,
        pitch: None,
        delay: None,
        random_min_volume: None,
        random_max_volume: None,
        random_min_pitch: None,
        random_max_pitch: None,
        random_min_delay: None,
        random_max_delay: None,
    }
}

/// `ws` joined with single spaces.
pub open spec fn join_words(ws: Seq<Seq<char>>) -> Seq<char>
    decreases ws.len(),
{
    if ws.len() == 0 {
        Seq::empty()
    } else if ws.len() == 1 {
        ws[0]
    } else {
        join_words(ws.drop_last()) + seq![' '] + ws[ws.len() - 1]
    }
}

/// `v` when it is a float, else `old`.
pub open spec fn float_or(v: Seq<char>, old: Option<Seq<char>>) -> Option<Seq<char>> {
    if is_float_text(v) {
        Some(v)
    } else {
        old
    }
}

/// A nugget line with words `parts` applied to `n`: the key (upper-cased)
/// picks the field, the value is the rest of the line without quotes.
pub open spec fn nugget_line(n: NuggetModel, parts: Seq<Seq<char>>) -> NuggetModel {
    if parts.len() < 2 {
        n
    } else {
        let key = uppercase(parts[0]);
        let v = trim_quotes(join_words(parts.skip(1)));
        if key == "SOUND"@ {
            NuggetModel { sound: v, ..n }
        } else if key == "VOLUME"@ {
            NuggetModel { volume: float_or(v, n.volume), ..n }
        } else if key == "PITCH"@ {
            NuggetModel { pitch: float_or(v, n.pitch), ..n }
        } else if key == "DELAY"@ {
            NuggetModel { delay: float_or(v, n.delay), ..n }
        } else if key == "RANDOM_MIN_VOLUME"@ {
            NuggetModel { random_min_volume: float_or(v, n.random_min_volume), ..n }
        } else if key == "RANDOM_MAX_VOLUME"@ {
            NuggetModel { random_max_volume: float_or(v, n.random_max_volume), ..n }
        } else if key == "RANDOM_MIN_PITCH"@ {
            NuggetModel { random_min_pitch: float_or(v, n.random_min_pitch), ..n }
        } else if key == "RANDOM_MAX_PITCH"@ {
            NuggetModel { random_max_pitch: float_or(v, n.random_max_pitch), ..n }
        } else if key == "RANDOM_MIN_DELAY"@ {
            NuggetModel { random_min_delay: float_or(v, n.random_min_delay), ..n }
        } else if key == "RANDOM_MAX_DELAY"@ {
            NuggetModel { random_max_delay: float_or(v, n.random_max_delay), ..n }
        } else {
            n
        }
    }
}

/// The state while reading: the packages so far, the open package's name,
/// nuggets and probability, and the open nugget.
pub struct AudioScan {
    pub dir: Seq<(Seq<char>, PackageModel)>,
    pub name: Option<Seq<char>>,
    pub nuggets: Seq<NuggetModel>,
    pub probability: Option<Seq<char>>,
    pub nugget: Option<NuggetModel>,
}

pub open spec fn push_open(s: Seq<NuggetModel>, n: Option<NuggetModel>) -> Seq<NuggetModel> {
    match n {
        Some(x) => s.push(x),
        None => s,
    }
}

/// The packages with the open one (if any) stored.
pub open spec fn close_package(st: AudioScan) -> Seq<(Seq<char>, PackageModel)> {
    match st.name {
        Some(n) => assoc_insert(
            st.dir,
            n,
            PackageModel { nuggets: push_open(st.nuggets, st.nugget), probability: st.probability },
        ),
        None => st.dir,
    }
}

/// One line applied to the state.
pub open spec fn audio_line(st: AudioScan, line: Seq<char>) -> AudioScan {
    let t = spec_trim(line);
    if t.len() == 0 || has_prefix(t, "//"@) {
        st
    } else if has_prefix(t, "PACKAGE"@) {
        AudioScan {
            dir: close_package(st),
            name: Some(trim_quotes(spec_trim(t.skip(7)))),
            nuggets: if st.name is Some {
                Seq::empty()
            } else {
                st.nuggets
            },
            probability: None,
            nugget: if st.name is Some {
                None
            } else {
                st.nugget
            },
        }
    } else if st.nugget is None && has_prefix(uppercase(t), "PROBABILITY"@) {
        let ws = spec_words(t);
        if ws.len() >= 2 && is_float_text(ws[1]) {
            AudioScan { probability: Some(ws[1]), ..st }
        } else {
            st
        }
    } else if t == "NUGGET"@ {
        AudioScan { nuggets: push_open(st.nuggets, st.nugget), nugget: Some(nugget_default()), ..st }
    } else if t == "{"@ {
        st
    } else if t == "}"@ {
        AudioScan { nuggets: push_open(st.nuggets, st.nugget), nugget: None, ..st }
    } else {
        match st.nugget {
            Some(n) => AudioScan { nugget: Some(nugget_line(n, spec_words(t))), ..st },
            None => st,
        }
    }
}

/// The state after the first `k` lines.
pub open spec fn audio_upto(ls: Seq<Seq<char>>, k: nat) -> AudioScan
    decreases k,
{
    if k == 0 {
        AudioScan {
            dir: Seq::empty(),
            name: None,
            nuggets: Seq::empty(),
            probability: None,
            nugget: None,
        }
    } else {
        audio_line(audio_upto(ls, (k - 1) as nat), ls[k - 1])
    }
}

/// The packages of a manifest.
pub open spec fn spec_parse_audiopackages(content: Seq<char>) -> Seq<(Seq<char>, PackageModel)> {
    let ls = spec_lines(content);
    close_package(audio_upto(ls, ls.len()))
}

fn new_nugget() -> (n: AudioNugget)
    ensures
        nugget_model(n) == nugget_default(),
{
    AudioNugget {
        sound: String::new(),
        volume: None,
        pitch: None,
        delay: None,
        random_min_volume: None,
        random_max_volume: None,
        random_min_pitch: None,
        random_max_pitch: None,
        random_min_delay: None,
        random_max_delay: None,
    }
}

/// The words of `parts` from index 1 on, joined with single spaces.
fn join_rest(parts: &Vec<Vec<char>>) -> (r: Vec<char>)
    requires
        parts@.len() >= 2,
    ensures
        r@ == join_words(parts@.map_values(|w: Vec<char>| w@).skip(1)),
{
    let ghost pv = parts@.map_values(|w: Vec<char>| w@);
    let mut out: Vec<char> = parts[1].clone();
    assert(pv[1] == parts@[1]@);
    assert(pv.skip(1).subrange(0, 1) =~= seq![pv[1]]);
    let mut i: usize = 2;
    while i < parts.len()
        invariant
            2 <= i <= parts@.len(),
            pv == parts@.map_values(|w: Vec<char>| w@),
            out@ == join_words(pv.skip(1).subrange(0, i - 1)),
        decreases parts@.len() - i,
    {
        let ghost before = out@;
        assert(pv[i as int] == parts@[i as int]@);
        out.push(' ');
        let w = &parts[i];
        let mut j: usize = 0;
        while j < w.len()
            invariant
                j <= w@.len(),
                out@ == before + seq![' '] + w@.subrange(0, j as int),
            decreases w@.len() - j,
        {
            out.push(w[j]);
            j = j + 1;
            assert(out@ =~= before + seq![' '] + w@.subrange(0, j as int));
        }
        assert(w@.subrange(0, w@.len() as int) =~= w@);
        let ghost s = pv.skip(1).subrange(0, i as int);
        assert(s.drop_last() =~= pv.skip(1).subrange(0, i - 1));
        assert(s[s.len() - 1] == pv[i as int]);
        i = i + 1;
    }
    assert(pv.skip(1).subrange(0, parts@.len() - 1) =~= pv.skip(1));
    out
}

/// A float text, or `old` when `v` is not a float.
fn float_or_old(v: &Vec<char>, old: Option<String>) -> (r: Option<String>)
    ensures
        opt_view(r) == float_or(v@, opt_view(old)),
{
    if float_text(v.as_slice()) {
        Some(string_from_chars(v.as_slice()))
    } else {
        old
    }
}

/// Applies a nugget line with words `parts` to `n`.
fn apply_nugget_line(n: &mut AudioNugget, parts: &Vec<Vec<char>>)
    ensures
        nugget_model(*final(n)) == nugget_line(
            nugget_model(*old(n)),
            parts@.map_values(|w: Vec<char>| w@),
        ),
{
    let ghost pv = parts@.map_values(|w: Vec<char>| w@);
    if parts.len() < 2 {
        return ;
    }
    assert(pv[0] == parts@[0]@);
    let key = to_uppercase(string_from_chars(parts[0].as_slice()).as_str());
    let joined = join_rest(parts);
    let v = trim_quote_chars(joined.as_slice());
    let k = key.as_str();
    if str_is(k, "SOUND") {
        n.sound = string_from_chars(v.as_slice());
    } else if str_is(k, "VOLUME") {
        let o = n.volume.take();
        n.volume = float_or_old(&v, o);
    } else if str_is(k, "PITCH") {
        let o = n.pitch.take();
        n.pitch = float_or_old(&v, o);
    } else if str_is(k, "DELAY") {
        let o = n.delay.take();
        n.delay = float_or_old(&v, o);
    } else if str_is(k, "RANDOM_MIN_VOLUME") {
        let o = n.random_min_volume.take();
        n.random_min_volume = float_or_old(&v, o);
    } else if str_is(k, "RANDOM_MAX_VOLUME") {
        let o = n.random_max_volume.take();
        n.random_max_volume = float_or_old(&v, o);
    } else if str_is(k, "RANDOM_MIN_PITCH") {
        let o = n.random_min_pitch.take();
        n.random_min_pitch = float_or_old(&v, o);
    } else if str_is(k, "RANDOM_MAX_PITCH") {
        let o = n.random_max_pitch.take();
        n.random_max_pitch = float_or_old(&v, o);
    } else if str_is(k, "RANDOM_MIN_DELAY") {
        let o = n.random_min_delay.take();
        n.random_min_delay = float_or_old(&v, o);
    } else if str_is(k, "RANDOM_MAX_DELAY") {
        let o = n.random_max_delay.take();
        n.random_max_delay = float_or_old(&v, o);
    }
}

/// Moves the open nugget (if any) to the end of `nuggets`.
fn push_nugget(nuggets: &mut Vec<AudioNugget>, nugget: &mut Option<AudioNugget>)
    ensures
        nuggets_model(final(nuggets)@) == push_open(
            nuggets_model(old(nuggets)@),
            match *old(nugget) {
                Some(x) => Some(nugget_model(x)),
                None => None,
            },
        ),
        *final(nugget) is None,
{
    match nugget.take() {
        Some(x) => {
            let ghost before = nuggets_model(nuggets@);
            nuggets.push(x);
            assert(nuggets_model(nuggets@) =~= before.push(nugget_model(x)));
        },
        None => {},
    }
}

/// Reads an audio package manifest (see the module documentation).
pub fn parse_audiopackages(content: &str) -> (r: AudioPackagesDirectory)
    ensures
        directory_model(r) == spec_parse_audiopackages(content@),
{
    let chars = chars_of(content);
    let ls = lines(chars.as_slice());
    let ghost lv = ls@.map_values(|l: Vec<char>| l@);
    assert(lv =~= spec_lines(content@));
    let mut dir: AudioPackagesDirectory = NameTable::new();
    let mut name: Option<String> = None;
    let mut nuggets: Vec<AudioNugget> = Vec::new();
    let mut probability: Option<String> = None;
    let mut nugget: Option<AudioNugget> = None;
    let comment: [char; 2] = ['/', '/'];
    let package = chars_of("PACKAGE");
    proof {
        reveal_strlit("//");
        reveal_strlit("PACKAGE");
        assert(comment@ =~= "//"@);
    }
    assert(directory_model(dir) =~= Seq::<(Seq<char>, PackageModel)>::empty());
    assert(nuggets_model(nuggets@) =~= Seq::<NuggetModel>::empty());
    let mut k: usize = 0;
    while k < ls.len()
        invariant
            k <= ls@.len(),
            lv == ls@.map_values(|l: Vec<char>| l@),
            comment@ == "//"@,
            package@ == "PACKAGE"@,
            "PACKAGE"@.len() == 7,
            ({
                let st = audio_upto(lv, k as nat);
                &&& directory_model(dir) == st.dir
                &&& opt_view(name) == st.name
                &&& nuggets_model(nuggets@) == st.nuggets
                &&& opt_view(probability) == st.probability
                &&& match nugget {
                    Some(n) => st.nugget == Some(nugget_model(n)),
                    None => st.nugget is None,
                }
            }),
        decreases ls@.len() - k,
    {
        assert(lv[k as int] == ls@[k as int]@);
        let t = trim(ls[k].as_slice());
        let ts = string_from_chars(t.as_slice());
        if t.len() == 0 || starts_with(t.as_slice(), &comment) {
        } else if starts_with(t.as_slice(), package.as_slice()) {
            match name.take() {
                Some(n) => {
                    push_nugget(&mut nuggets, &mut nugget);
                    let mut taken: Vec<AudioNugget> = Vec::new();
                    std::mem::swap(&mut taken, &mut nuggets);
                    let pkg = AudioPackage { nuggets: taken, probability: probability.take() };
                    proof {
                        lemma_insert_map(dir.entries(), n@, pkg, |p: AudioPackage| package_model(p));
                    }
                    dir.insert(n, pkg);
                    assert(nuggets_model(nuggets@) =~= Seq::<NuggetModel>::empty());
                },
                None => {},
            }
            probability = None;
            let mut rest: Vec<char> = Vec::new();
            let mut j: usize = 7;
            while j < t.len()
                invariant
                    7 <= j,
                    t@.len() >= 7 ==> j <= t@.len(),
                    rest@ == t@.subrange(7, j as int),
                decreases t@.len() - j,
            {
                rest.push(t[j]);
                j = j + 1;
                assert(rest@ =~= t@.subrange(7, j as int));
            }
            assert(rest@ =~= t@.skip(7));
            let r2 = trim(rest.as_slice());
            let nm = trim_quote_chars(r2.as_slice());
            name = Some(string_from_chars(nm.as_slice()));
        } else if nugget.is_none() && starts_with(
            chars_of(to_uppercase(ts.as_str()).as_str()).as_slice(),
            chars_of("PROBABILITY").as_slice(),
        ) {
            let ws = split_whitespace(t.as_slice());
            let ghost wv = ws@.map_values(|w: Vec<char>| w@);
            assert(wv =~= spec_words(t@));
            if ws.len() >= 2 {
                assert(wv[1] == ws@[1]@);
                if float_text(ws[1].as_slice()) {
                    probability = Some(string_from_chars(ws[1].as_slice()));
                }
            }
        } else if str_is(ts.as_str(), "NUGGET") {
            push_nugget(&mut nuggets, &mut nugget);
            nugget = Some(new_nugget());
        } else if str_is(ts.as_str(), "{") {
        } else if str_is(ts.as_str(), "}") {
            push_nugget(&mut nuggets, &mut nugget);
        } else {
            match nugget.as_mut() {
                Some(n) => {
                    let parts = split_whitespace(t.as_slice());
                    assert(parts@.map_values(|w: Vec<char>| w@) =~= spec_words(t@));
                    apply_nugget_line(n, &parts);
                },
                None => {},
            }
        }
        k = k + 1;
    }
    match name {
        Some(n) => {
            push_nugget(&mut nuggets, &mut nugget);
            let pkg = AudioPackage { nuggets, probability };
            proof {
                lemma_insert_map(dir.entries(), n@, pkg, |p: AudioPackage| package_model(p));
            }
            dir.insert(n, pkg);
        },
        None => {},
    }
    dir
}

proof fn lemma_scan_keys_distinct(ls: Seq<Seq<char>>, k: nat)
    ensures
        keys_distinct(audio_upto(ls, k).dir),
    decreases k,
{
    if k > 0 {
        lemma_scan_keys_distinct(ls, (k - 1) as nat);
        let st = audio_upto(ls, (k - 1) as nat);
        match st.name {
            Some(n) => {
                lemma_insert_keeps_keys_distinct(
                    st.dir,
                    n,
                    PackageModel { nuggets: push_open(st.nuggets, st.nugget), probability: st.probability },
                );
            },
            None => {},
        }
    }
}

/// A manifest names each package once: a later package of a name
/// replaces the earlier one.
pub proof fn lemma_package_names_distinct(content: Seq<char>)
    ensures
        keys_distinct(spec_parse_audiopackages(content)),
{
    let ls = spec_lines(content);
    lemma_scan_keys_distinct(ls, ls.len());
    let st = audio_upto(ls, ls.len());
    match st.name {
        Some(n) => {
            lemma_insert_keeps_keys_distinct(
                st.dir,
                n,
                PackageModel { nuggets: push_open(st.nuggets, st.nugget), probability: st.probability },
            );
        },
        None => {},
    }
}

} // verus!

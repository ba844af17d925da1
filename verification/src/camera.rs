//! `layout.campacknew`: camera packages naming the parameter sets used to
//! navigate, target and fight in an area.
//!
//! ```text
//! CAMERANEW_PACKAGE "Hall"
//! {
//!     Navigation "HALL_FOLLOW"
//!     FightModeRadius 6
//! }
//! ```
//!
//! Read line by line; a package is registered at its closing `}`,
//! replacing one of the same name.  The table starts with
//! `DEFAULT_PACKAGE`.  Numbers stay texts (`0.0` when not a number).
use crate::model_text::float_or;
use crate::registry::{assoc_insert, lemma_insert_map, map_entries, NameTable};
use crate::text::{
    chars_of, has_prefix, lines, spec_lines, spec_trim, spec_words, split_whitespace, starts_with,
    str_is, string_from_chars, trim, trim_quote_chars, trim_quotes,
};
use vstd::prelude::*;

verus! {

/// A camera package.
pub struct CameraPackageDef {
    pub name: String,
    pub navigation: String,
    pub targeting: String,
    pub fighting: String,
    pub fight_mode_radius: String,
    pub fight_mode_running_away_time: String,
}

pub ghost struct PackageView {
    pub name: Seq<char>,
    pub navigation: Seq<char>,
    pub targeting: Seq<char>,
    pub fighting: Seq<char>,
    pub fight_mode_radius: Seq<char>,
    pub fight_mode_running_away_time: Seq<char>,
}

pub open spec fn package_view(p: CameraPackageDef) -> PackageView {
    PackageView {
        name: p.name@,
        navigation: p.navigation@,
        targeting: p.targeting@,
        fighting: p.fighting@,
        fight_mode_radius: p.fight_mode_radius@,
        fight_mode_running_away_time: p.fight_mode_running_away_time@,
    }
}

/// The package every table starts with.
pub open spec fn default_package() -> PackageView {
    PackageView {
        name: "DEFAULT_PACKAGE"@,
        navigation: "DEFAULT_FOLLOW"@,
        targeting: "DEFAULT_TARGETING"@,
        fighting: "DEFAULT_FOLLOW"@,
        fight_mode_radius: "5.0"@,
        fight_mode_running_away_time: "2.0"@,
    }
}

/// A package opened under `name`, before its keys.
pub open spec fn new_package(name: Seq<char>) -> PackageView {
    PackageView {
        name,
        navigation: Seq::empty(),
        targeting: Seq::empty(),
        fighting: Seq::empty(),
        fight_mode_radius: "0.0"@,
        fight_mode_running_away_time: "0.0"@,
    }
}

/// A key and its value (quotes removed) applied to a package.
pub open spec fn package_key(p: PackageView, key: Seq<char>, value: Seq<char>) -> PackageView {
    if key == "Navigation"@ {
        PackageView { navigation: value, ..p }
    } else if key == "Targeting"@ {
        PackageView { targeting: value, ..p }
    } else if key == "Fighting"@ {
        PackageView { fighting: value, ..p }
    } else if key == "FightModeRadius"@ {
        PackageView { fight_mode_radius: float_or(value, "0.0"@), ..p }
    } else if key == "FightModeRunningAwayTime"@ {
        PackageView { fight_mode_running_away_time: float_or(value, "0.0"@), ..p }
    } else {
        p
    }
}

pub type CamState = (Seq<(Seq<char>, PackageView)>, Option<PackageView>);

/// One line applied to the table and the open package: a
/// `CAMERANEW_PACKAGE` line with a name opens a package; `}` registers
/// the open one; a line of two or more words sets a key of the open one.
pub open spec fn cam_line(s: CamState, line: Seq<char>) -> CamState {
    let t = spec_trim(line);
    let ws = spec_words(t);
    if t.len() == 0 {
        s
    } else if has_prefix(t, "CAMERANEW_PACKAGE"@) {
        if ws.len() >= 2 {
            (s.0, Some(new_package(trim_quotes(ws[1]))))
        } else {
            s
        }
    } else if t == "{"@ {
        s
    } else if t == "}"@ {
        match s.1 {
            Some(p) => (assoc_insert(s.0, p.name, p), None),
            None => s,
        }
    } else {
        match s.1 {
            Some(p) => if ws.len() >= 2 {
                (s.0, Some(package_key(p, ws[0], trim_quotes(ws[1]))))
            } else {
                s
            },
            None => s,
        }
    }
}

pub open spec fn cam_state(ls: Seq<Seq<char>>, k: nat) -> CamState
    decreases k,
{
    if k == 0 {
        (seq![(default_package().name, default_package())], None)
    } else {
        cam_line(cam_state(ls, (k - 1) as nat), ls[k - 1])
    }
}

/// The packages of a `layout.campacknew` text.
pub open spec fn spec_parse_campacknew(content: Seq<char>) -> Seq<(Seq<char>, PackageView)> {
    let ls = spec_lines(content);
    cam_state(ls, ls.len()).0
}

pub open spec fn packages_view(t: NameTable<CameraPackageDef>) -> Seq<(Seq<char>, PackageView)> {
    map_entries(t.entries(), |p: CameraPackageDef| package_view(p))
}

fn float_or_text(t: &[char], default: &str) -> (r: String)
    ensures
        r@ == float_or(t@, default@),
{
    if crate::text::float_text(t) {
        string_from_chars(t)
    } else {
        default.to_string()
    }
}

fn apply_package_key(p: &mut CameraPackageDef, key: &Vec<char>, value: &Vec<char>)
    ensures
        package_view(*final(p)) == package_key(package_view(*old(p)), key@, value@),
{
    let k = string_from_chars(key.as_slice());
    let v = string_from_chars(value.as_slice());
    if str_is(k.as_str(), "Navigation") {
        p.navigation = v;
    } else if str_is(k.as_str(), "Targeting") {
        p.targeting = v;
    } else if str_is(k.as_str(), "Fighting") {
        p.fighting = v;
    } else if str_is(k.as_str(), "FightModeRadius") {
        p.fight_mode_radius = float_or_text(value.as_slice(), "0.0");
    } else if str_is(k.as_str(), "FightModeRunningAwayTime") {
        p.fight_mode_running_away_time = float_or_text(value.as_slice(), "0.0");
    }
}

/// Parses a `layout.campacknew` text into its packages by name.
pub fn parse_campacknew(content: &str) -> (r: NameTable<CameraPackageDef>)
    ensures
        packages_view(r) == spec_parse_campacknew(content@),
{
    let mut table: NameTable<CameraPackageDef> = NameTable::new();
    let d = CameraPackageDef {
        name: "DEFAULT_PACKAGE".to_string(),
        navigation: "DEFAULT_FOLLOW".to_string(),
        targeting: "DEFAULT_TARGETING".to_string(),
        fighting: "DEFAULT_FOLLOW".to_string(),
        fight_mode_radius: "5.0".to_string(),
        fight_mode_running_away_time: "2.0".to_string(),
    };
    let key = "DEFAULT_PACKAGE".to_string();
    proof {
        lemma_insert_map(table.entries(), key@, d, |p: CameraPackageDef| package_view(p));
        crate::registry::lemma_key_index(packages_view(table), key@);
    }
    assert(packages_view(table) =~= Seq::<(Seq<char>, PackageView)>::empty());
    table.insert(key, d);
    assert(packages_view(table) =~= seq![(default_package().name, default_package())]);
    let cs = chars_of(content);
    let ls = lines(cs.as_slice());
    let ghost lv = ls@.map_values(|l: Vec<char>| l@);
    assert(lv =~= spec_lines(content@));
    let mut current: Option<CameraPackageDef> = None;
    let head = chars_of("CAMERANEW_PACKAGE");
    proof {
        reveal_strlit("");
        assert(""@ =~= Seq::<char>::empty());
    }
    let mut i: usize = 0;
    while i < ls.len()
        invariant
            i <= ls@.len(),
            lv == ls@.map_values(|l: Vec<char>| l@),
            head@ == "CAMERANEW_PACKAGE"@,
            cam_state(lv, i as nat) == (
                packages_view(table),
                match current {
                    Some(p) => Some(package_view(p)),
                    None => None,
                },
            ),
        decreases ls.len() - i,
    {
        assert(lv[i as int] == ls@[i as int]@);
        let t = trim(ls[i].as_slice());
        let ws = split_whitespace(t.as_slice());
        let ghost wv = ws@.map_values(|w: Vec<char>| w@);
        assert(wv =~= spec_words(t@));
        if t.len() == 0 {
        } else if starts_with(t.as_slice(), head.as_slice()) {
            if ws.len() >= 2 {
                assert(wv[1] == ws@[1]@);
                let name = trim_quote_chars(ws[1].as_slice());
                current = Some(
                    CameraPackageDef {
                        name: string_from_chars(name.as_slice()),
                        navigation: String::new(),
                        targeting: String::new(),
                        fighting: String::new(),
                        fight_mode_radius: "0.0".to_string(),
                        fight_mode_running_away_time: "0.0".to_string(),
                    },
                );
            }
        } else if crate::text::chars_eq(t.as_slice(), chars_of("{").as_slice()) {
        } else if crate::text::chars_eq(t.as_slice(), chars_of("}").as_slice()) {
            match current {
                Some(p) => {
                    let k = p.name.clone();
                    proof {
                        lemma_insert_map(table.entries(), k@, p, |p: CameraPackageDef| package_view(p));
                    }
                    table.insert(k, p);
                    current = None;
                },
                None => {},
            }
        } else {
            match current {
                Some(mut p) => {
                    if ws.len() >= 2 {
                        assert(wv[0] == ws@[0]@);
                        assert(wv[1] == ws@[1]@);
                        let value = trim_quote_chars(ws[1].as_slice());
                        apply_package_key(&mut p, &ws[0], &value);
                    }
                    current = Some(p);
                },
                None => {},
            }
        }
        i = i + 1;
    }
    table
}

} // verus!

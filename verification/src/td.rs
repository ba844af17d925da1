//! Sound bank programs (`.td`).
//!
//! Lines lose what follows `//` and are trimmed; empty ones are dropped.
//! `PROGRAM <name>` names the program; `NUMSPLT <n>` is followed by `n`
//! splits of four lines each: name, VAG index, parameter index and loop
//! flag (numbers that do not parse read as 0).  A program without a name
//! is no program.
use crate::settings::double_slash_from;
use crate::text::{
    chars_of, has_prefix, lines, parse_u8, parse_usize, push_str, spec_lines,
    spec_parse_unsigned, spec_trim, starts_with, string_from_chars, trim,
};
use vstd::prelude::*;

verus! {

/// One split: a sound of the bank.
pub struct TdSplit {
    pub name: String,
    pub vag_index: usize,
    pub parm_index: usize,
    pub loop_flag: bool,
}

/// A program: its name and splits.
pub struct TdProgram {
    pub name: String,
    pub splits: Vec<TdSplit>,
}

pub struct SplitModel {
    pub name: Seq<char>,
    pub vag_index: int,
    pub parm_index: int,
    pub loop_flag: bool,
}

pub open spec fn split_model(s: TdSplit) -> SplitModel {
    SplitModel {
        name: s.name@,
        vag_index: s.vag_index as int,
        parm_index: s.parm_index as int,
        loop_flag: s.loop_flag,
    }
}

pub open spec fn splits_model(v: Seq<TdSplit>) -> Seq<SplitModel> {
    v.map_values(|s: TdSplit| split_model(s))
}

/// A line without its `//` comment, trimmed.
pub open spec fn td_clean(l: Seq<char>) -> Seq<char> {
    spec_trim(l.take(double_slash_from(l, 0)))
}

/// The non-empty cleaned lines among the first `k`.
pub open spec fn td_lines_upto(ls: Seq<Seq<char>>, k: nat) -> Seq<Seq<char>>
    decreases k,
{
    if k == 0 {
        Seq::empty()
    } else {
        let r = td_lines_upto(ls, (k - 1) as nat);
        let t = td_clean(ls[k - 1]);
        if t.len() > 0 {
            r.push(t)
        } else {
            r
        }
    }
}

pub open spec fn td_lines(content: Seq<char>) -> Seq<Seq<char>> {
    let ls = spec_lines(content);
    td_lines_upto(ls, ls.len())
}

/// The line at `k` parsed as an index, 0 when it is missing or not one.
pub open spec fn index_at(ls: Seq<Seq<char>>, k: int) -> int {
    if 0 <= k < ls.len() {
        match spec_parse_unsigned(ls[k], usize::MAX as int) {
            Some(v) => v,
            None => 0,
        }
    } else {
        0
    }
}

/// Position after consuming the line at `k`, if there is one.
pub open spec fn next_line(ls: Seq<Seq<char>>, k: int) -> int {
    if k < ls.len() {
        k + 1
    } else {
        k
    }
}

/// Up to `n` splits from line `k`, appended to `acc`: the splits and the
/// line after them.  A missing name ends them early.
pub open spec fn td_splits(ls: Seq<Seq<char>>, k: int, n: nat, acc: Seq<SplitModel>) -> (
    Seq<SplitModel>,
    int,
)
    decreases n,
{
    if n == 0 || k < 0 || k >= ls.len() {
        (acc, k)
    } else {
        let k1 = k + 1;
        let k2 = next_line(ls, k1);
        let k3 = next_line(ls, k2);
        let k4 = next_line(ls, k3);
        let lv = if 0 <= k3 < ls.len() {
            match spec_parse_unsigned(ls[k3], 255) {
                Some(v) => v,
                None => 0,
            }
        } else {
            0
        };
        let s = SplitModel {
            name: ls[k],
            vag_index: index_at(ls, k1),
            parm_index: index_at(ls, k2),
            loop_flag: lv > 0,
        };
        td_splits(ls, k4, (n - 1) as nat, acc.push(s))
    }
}

/// The program name and splits after reading from line `k`.
pub open spec fn td_scan(ls: Seq<Seq<char>>, k: int, name: Seq<char>, splits: Seq<SplitModel>) -> (
    Seq<char>,
    Seq<SplitModel>,
)
    decreases ls.len() - k,
{
    if k < 0 || k >= ls.len() {
        (name, splits)
    } else {
        let line = ls[k];
        if has_prefix(line, "PROGRAM"@) {
            td_scan(ls, k + 1, spec_trim(line.skip(7)), splits)
        } else if has_prefix(line, "NUMSPLT"@) {
            match spec_parse_unsigned(spec_trim(line.skip(7)), usize::MAX as int) {
                Some(n) => {
                    let (s2, k2) = td_splits(ls, k + 1, n as nat, splits);
                    if k < k2 <= ls.len() {
                        td_scan(ls, k2, name, s2)
                    } else {
                        (name, s2)
                    }
                },
                None => td_scan(ls, k + 1, name, splits),
            }
        } else {
            td_scan(ls, k + 1, name, splits)
        }
    }
}

/// A `.td` program: `None` when no `PROGRAM` line names it.
pub open spec fn spec_parse_td(content: Seq<char>) -> Option<(Seq<char>, Seq<SplitModel>)> {
    let (name, splits) = td_scan(td_lines(content), 0, Seq::empty(), Seq::empty());
    if name.len() == 0 {
        None
    } else {
        Some((name, splits))
    }
}

proof fn lemma_td_splits_bounds(ls: Seq<Seq<char>>, k: int, n: nat, acc: Seq<SplitModel>)
    requires
        0 <= k <= ls.len(),
    ensures
        k <= td_splits(ls, k, n, acc).1 <= ls.len(),
    decreases n,
{
    if n > 0 && k < ls.len() {
        let k4 = next_line(ls, next_line(ls, next_line(ls, k + 1)));
        lemma_td_splits_bounds(ls, k4, (n - 1) as nat, acc.push(
            SplitModel {
                name: ls[k],
                vag_index: index_at(ls, k + 1),
                parm_index: index_at(ls, next_line(ls, k + 1)),
                loop_flag: (if 0 <= next_line(ls, next_line(ls, k + 1)) < ls.len() {
                    match spec_parse_unsigned(
                        ls[next_line(ls, next_line(ls, k + 1))],
                        255,
                    ) {
                        Some(v) => v,
                        None => 0,
                    }
                } else {
                    0
                }) > 0,
            },
        ));
    }
}

fn strip_double_slash(s: &[char]) -> (r: Vec<char>)
    ensures
        r@ == s@.take(double_slash_from(s@, 0)),
{
    let mut i: usize = 0;
    while i < s.len() && i + 1 < s.len() && !(s[i] == '/' && s[i + 1] == '/')
        invariant
            i <= s@.len(),
            double_slash_from(s@, 0) == double_slash_from(s@, i as int),
        decreases s@.len() - i,
    {
        i = i + 1;
    }
    let end = if i < s.len() && i + 1 < s.len() {
        i
    } else {
        s.len()
    };
    let mut r: Vec<char> = Vec::new();
    let mut j: usize = 0;
    while j < end
        invariant
            j <= end <= s@.len(),
            r@ == s@.take(j as int),
        decreases end - j,
    {
        r.push(s[j]);
        j = j + 1;
        assert(r@ =~= s@.take(j as int));
    }
    r
}

fn index_of_line(ls: &Vec<Vec<char>>, k: usize) -> (r: usize)
    ensures
        r as int == index_at(ls@.map_values(|l: Vec<char>| l@), k as int),
{
    if k < ls.len() {
        assert(ls@.map_values(|l: Vec<char>| l@)[k as int] == ls@[k as int]@);
        match parse_usize(ls[k].as_slice()) {
            Some(v) => v,
            None => 0,
        }
    } else {
        0
    }
}

/// The text after a 7-character keyword, trimmed.
fn after_keyword(line: &Vec<char>) -> (r: Vec<char>)
    requires
        line@.len() >= 7,
    ensures
        r@ == spec_trim(line@.skip(7)),
{
    let mut rest: Vec<char> = Vec::new();
    let mut j: usize = 7;
    while j < line.len()
        invariant
            7 <= j <= line@.len(),
            rest@ == line@.subrange(7, j as int),
        decreases line@.len() - j,
    {
        rest.push(line[j]);
        j = j + 1;
        assert(rest@ =~= line@.subrange(7, j as int));
    }
    assert(rest@ =~= line@.skip(7));
    trim(rest.as_slice())
}

/// Reads a `.td` program (see the module documentation).
pub fn parse_td_file(content: &str) -> (r: Option<TdProgram>)
    ensures
        match spec_parse_td(content@) {
            Some((name, splits)) => r matches Some(p) && p.name@ == name && splits_model(p.splits@)
                == splits,
            None => r is None,
        },
{
    let chars = chars_of(content);
    let raw = lines(chars.as_slice());
    let ghost rv = raw@.map_values(|l: Vec<char>| l@);
    assert(rv =~= spec_lines(content@));
    let mut ls: Vec<Vec<char>> = Vec::new();
    let mut i: usize = 0;
    while i < raw.len()
        invariant
            i <= raw@.len(),
            rv == raw@.map_values(|l: Vec<char>| l@),
            ls@.map_values(|l: Vec<char>| l@) == td_lines_upto(rv, i as nat),
        decreases raw@.len() - i,
    {
        assert(rv[i as int] == raw@[i as int]@);
        let t = trim(strip_double_slash(raw[i].as_slice()).as_slice());
        if t.len() > 0 {
            let ghost before = ls@.map_values(|l: Vec<char>| l@);
            ls.push(t);
            assert(ls@.map_values(|l: Vec<char>| l@) =~= before.push(t@));
        }
        i = i + 1;
    }
    let ghost lv = ls@.map_values(|l: Vec<char>| l@);
    let program = chars_of("PROGRAM");
    let numsplt = chars_of("NUMSPLT");
    proof {
        reveal_strlit("PROGRAM");
        reveal_strlit("NUMSPLT");
    }
    let mut name: Vec<char> = Vec::new();
    let mut splits: Vec<TdSplit> = Vec::new();
    let ghost goal = td_scan(lv, 0, Seq::empty(), Seq::empty());
    assert(splits_model(splits@) =~= Seq::<SplitModel>::empty());
    let mut k: usize = 0;
    let n = ls.len();
    while k < n
        invariant
            k <= n,
            n == ls@.len(),
            lv == ls@.map_values(|l: Vec<char>| l@),
            program@ == "PROGRAM"@,
            numsplt@ == "NUMSPLT"@,
            "PROGRAM"@.len() == 7,
            "NUMSPLT"@.len() == 7,
            td_scan(lv, k as int, name@, splits_model(splits@)) == goal,
        decreases n - k,
    {
        let line = &ls[k];
        assert(lv[k as int] == line@);
        if starts_with(line.as_slice(), program.as_slice()) {
            name = after_keyword(line);
            k = k + 1;
        } else if starts_with(line.as_slice(), numsplt.as_slice()) {
            let s = after_keyword(line);
            match parse_usize(s.as_slice()) {
                Some(num) => {
                    let mut c: usize = 0;
                    let mut j = k + 1;
                    proof {
                        lemma_td_splits_bounds(lv, j as int, num as nat, splits_model(splits@));
                    }
                    let ghost target = td_splits(lv, k + 1, num as nat, splits_model(splits@));
                    while c < num && j < n
                        invariant
                            c <= num,
                            k < j <= n,
                            n == ls@.len(),
                            lv == ls@.map_values(|l: Vec<char>| l@),
                            td_splits(lv, j as int, (num - c) as nat, splits_model(splits@))
                                == target,
                        decreases num - c,
                    {
                        assert(lv[j as int] == ls@[j as int]@);
                        let split_name = string_from_chars(ls[j].as_slice());
                        let k1 = j + 1;
                        let vag_index = index_of_line(&ls, k1);
                        let k2 = if k1 < n {
                            k1 + 1
                        } else {
                            k1
                        };
                        let parm_index = index_of_line(&ls, k2);
                        let k3 = if k2 < n {
                            k2 + 1
                        } else {
                            k2
                        };
                        let lv_val: u8 = if k3 < n {
                            assert(lv[k3 as int] == ls@[k3 as int]@);
                            match parse_u8(ls[k3].as_slice()) {
                                Some(v) => v,
                                None => 0,
                            }
                        } else {
                            0
                        };
                        let k4 = if k3 < n {
                            k3 + 1
                        } else {
                            k3
                        };
                        let sp = TdSplit {
                            name: split_name,
                            vag_index,
                            parm_index,
                            loop_flag: lv_val > 0,
                        };
                        let ghost before = splits_model(splits@);
                        splits.push(sp);
                        assert(splits_model(splits@) =~= before.push(split_model(sp)));
                        j = k4;
                        c = c + 1;
                    }
                    assert(td_splits(lv, j as int, (num - c) as nat, splits_model(splits@)) == (
                        splits_model(splits@),
                        j as int,
                    ));
                    k = j;
                },
                None => {
                    k = k + 1;
                },
            }
        } else {
            k = k + 1;
        }
    }
    if name.len() == 0 {
        None
    } else {
        Some(TdProgram { name: string_from_chars(name.as_slice()), splits })
    }
}

/// The sound names a program adds to the bank directory: for each split,
/// `Program:Split` with the bank's name and the split's VAG index.
pub fn td_sound_entries(prog: &TdProgram, bank: &str) -> (r: Vec<(String, String, usize)>)
    ensures
        r@.len() == prog.splits@.len(),
        forall|i: int|
            0 <= i < r@.len() ==> (#[trigger] r@[i]).0@ == prog.name@ + seq![':']
                + prog.splits@[i].name@ && r@[i].1@ == bank@ && r@[i].2 == prog.splits@[i].vag_index,
{
    let mut r: Vec<(String, String, usize)> = Vec::new();
    let mut i: usize = 0;
    while i < prog.splits.len()
        invariant
            i <= prog.splits@.len(),
            r@.len() == i,
            forall|j: int|
                0 <= j < i ==> (#[trigger] r@[j]).0@ == prog.name@ + seq![':']
                    + prog.splits@[j].name@ && r@[j].1@ == bank@ && r@[j].2
                    == prog.splits@[j].vag_index,
        decreases prog.splits@.len() - i,
    {
        let mut key: Vec<char> = Vec::new();
        push_str(&mut key, prog.name.as_str());
        key.push(':');
        push_str(&mut key, prog.splits[i].name.as_str());
        assert(key@ =~= prog.name@ + seq![':'] + prog.splits@[i as int].name@);
        let mut b: Vec<char> = Vec::new();
        push_str(&mut b, bank);
        assert(b@ =~= bank@);
        r.push(
            (
                string_from_chars(key.as_slice()),
                string_from_chars(b.as_slice()),
                prog.splits[i].vag_index,
            ),
        );
        i = i + 1;
    }
    r
}

} // verus!

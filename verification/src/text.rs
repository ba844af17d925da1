//! Character-level text primitives shared by every text asset parser:
//! character classes, ASCII case folding, number syntax (the grammar that
//! `str::parse` accepts for `i32`, unsigned integers and `f32`), line
//! splitting, trimming and whitespace splitting.
//!
//! All functions work on `char` sequences; a `&str` is turned into one with
//! [`chars_of`] and text is turned back into a `String` with
//! [`string_from_chars`].
use vstd::prelude::*;

verus! {

// ---------------------------------------------------------------------
// Conversions between `str` and character vectors
// ---------------------------------------------------------------------

/// The characters of `s`, in order (std `str::chars`).
#[verifier::external_body]
pub fn chars_of(s: &str) -> (v: Vec<char>)
    ensures
        v@ == s@,
{
    s.chars().collect()
}

/// A `String` holding exactly the characters `v` (std `FromIterator<&char>`).
#[verifier::external_body]
pub fn string_from_chars(v: &[char]) -> (s: String)
    ensures
        s@ == v@,
{
    v.iter().collect()
}

/// Copy of the characters `s[start..end]`.
pub fn copy_range(s: &[char], start: usize, end: usize) -> (r: Vec<char>)
    requires
        start <= end <= s@.len(),
    ensures
        r@ == s@.subrange(start as int, end as int),
{
    let mut r: Vec<char> = Vec::new();
    let mut i = start;
    while i < end
        invariant
            start <= i <= end <= s@.len(),
            r@ == s@.subrange(start as int, i as int),
        decreases end - i,
    {
        r.push(s[i]);
        i = i + 1;
    }
    r
}

/// Character sequences are equal.
pub fn chars_eq(a: &[char], b: &[char]) -> (r: bool)
    ensures
        r == (a@ == b@),
{
    if a.len() != b.len() {
        return false;
    }
    let mut i: usize = 0;
    while i < a.len()
        invariant
            a@.len() == b@.len(),
            i <= a@.len(),
            forall|j: int| 0 <= j < i ==> a@[j] == b@[j],
        decreases a.len() - i,
    {
        if a[i] != b[i] {
            return false;
        }
        i = i + 1;
    }
    assert(a@ =~= b@);
    true
}

/// `s` starts with `p`.
pub open spec fn has_prefix(s: Seq<char>, p: Seq<char>) -> bool {
    p.len() <= s.len() && s.subrange(0, p.len() as int) == p
}

/// `s` ends with `p`.
pub open spec fn has_suffix(s: Seq<char>, p: Seq<char>) -> bool {
    p.len() <= s.len() && s.subrange(s.len() - p.len(), s.len() as int) == p
}

pub fn starts_with(s: &[char], p: &[char]) -> (r: bool)
    ensures
        r == has_prefix(s@, p@),
{
    if p.len() > s.len() {
        return false;
    }
    let mut i: usize = 0;
    while i < p.len()
        invariant
            p@.len() <= s@.len(),
            i <= p@.len(),
            forall|j: int| 0 <= j < i ==> s@[j] == p@[j],
        decreases p.len() - i,
    {
        if s[i] != p[i] {
            assert(s@.subrange(0, p@.len() as int)[i as int] != p@[i as int]);
            return false;
        }
        i = i + 1;
    }
    assert(s@.subrange(0, p@.len() as int) =~= p@);
    true
}

pub fn ends_with(s: &[char], p: &[char]) -> (r: bool)
    ensures
        r == has_suffix(s@, p@),
{
    if p.len() > s.len() {
        return false;
    }
    let off = s.len() - p.len();
    let mut i: usize = 0;
    while i < p.len()
        invariant
            p@.len() <= s@.len(),
            off == s@.len() - p@.len(),
            i <= p@.len(),
            forall|j: int| 0 <= j < i ==> s@[off + j] == p@[j],
        decreases p.len() - i,
    {
        assert(off + i < s@.len());
        assert(off + i < s.len());
        if s[off + i] != p[i] {
            assert(s@.subrange(off as int, s@.len() as int)[i as int] != p@[i as int]);
            return false;
        }
        i = i + 1;
    }
    assert(s@.subrange(off as int, s@.len() as int) =~= p@);
    true
}

// ---------------------------------------------------------------------
// Character classes and ASCII case folding
// ---------------------------------------------------------------------

/// ASCII whitespace: space, tab, line feed, form feed, carriage return.
pub open spec fn is_ascii_ws(c: char) -> bool {
    c == ' ' || c == '\t' || c == '\n' || c == '\u{c}' || c == '\r'
}

pub fn ascii_ws(c: char) -> (r: bool)
    ensures
        r == is_ascii_ws(c),
{
    c == ' ' || c == '\t' || c == '\n' || c == '\u{c}' || c == '\r'
}

/// Unicode `White_Space` (the definition `char::is_whitespace` uses).
pub open spec fn is_unicode_ws(c: char) -> bool {
    ('\t' <= c && c <= '\r') || c == ' ' || c == '\u{85}' || c == '\u{a0}' || c == '\u{1680}'
        || ('\u{2000}' <= c && c <= '\u{200a}') || c == '\u{2028}' || c == '\u{2029}' || c
        == '\u{202f}' || c == '\u{205f}' || c == '\u{3000}'
}

pub fn unicode_ws(c: char) -> (r: bool)
    ensures
        r == is_unicode_ws(c),
{
    ('\t' <= c && c <= '\r') || c == ' ' || c == '\u{85}' || c == '\u{a0}' || c == '\u{1680}'
        || ('\u{2000}' <= c && c <= '\u{200a}') || c == '\u{2028}' || c == '\u{2029}' || c
        == '\u{202f}' || c == '\u{205f}' || c == '\u{3000}'
}

/// The code of `c` with ASCII upper-case letters mapped to lower case.
pub open spec fn fold(c: char) -> u32 {
    if 'A' <= c && c <= 'Z' {
        (c as u32 + 32) as u32
    } else {
        c as u32
    }
}

pub fn fold_char(c: char) -> (r: u32)
    ensures
        r == fold(c),
{
    if 'A' <= c && c <= 'Z' {
        (c as u32) + 32
    } else {
        c as u32
    }
}

/// Equality up to ASCII case (`eq_ignore_ascii_case`).
pub open spec fn eq_ic(a: Seq<char>, b: Seq<char>) -> bool {
    a.len() == b.len() && forall|i: int| 0 <= i < a.len() ==> fold(#[trigger] a[i]) == fold(b[i])
}

pub fn chars_eq_ic(a: &[char], b: &[char]) -> (r: bool)
    ensures
        r == eq_ic(a@, b@),
{
    if a.len() != b.len() {
        return false;
    }
    let mut i: usize = 0;
    while i < a.len()
        invariant
            a@.len() == b@.len(),
            i <= a@.len(),
            forall|j: int| 0 <= j < i ==> fold(#[trigger] a@[j]) == fold(b@[j]),
        decreases a.len() - i,
    {
        if fold_char(a[i]) != fold_char(b[i]) {
            return false;
        }
        i = i + 1;
    }
    true
}

// ---------------------------------------------------------------------
// Number syntax
// ---------------------------------------------------------------------

pub open spec fn is_digit(c: char) -> bool {
    '0' <= c && c <= '9'
}

pub open spec fn all_digits(s: Seq<char>) -> bool {
    forall|i: int| 0 <= i < s.len() ==> is_digit(#[trigger] s[i])
}

pub open spec fn digit_val(c: char) -> int {
    c as int - '0' as int
}

/// Decimal value of a digit string (most significant digit first).
pub open spec fn digits_val(s: Seq<char>) -> int
    decreases s.len(),
{
    if s.len() == 0 {
        0
    } else {
        digits_val(s.drop_last()) * 10 + digit_val(s.last())
    }
}

pub open spec fn is_sign(c: char) -> bool {
    c == '+' || c == '-'
}

/// `s` without one leading sign character.
pub open spec fn strip_sign(s: Seq<char>) -> Seq<char> {
    if s.len() > 0 && is_sign(s[0]) {
        s.drop_first()
    } else {
        s
    }
}

/// The integer written in `s`: an optional sign followed by at least one
/// digit and nothing else.
pub open spec fn int_text_val(s: Seq<char>) -> Option<int> {
    let b = strip_sign(s);
    if b.len() == 0 || !all_digits(b) {
        None
    } else if s[0] == '-' {
        Some(-digits_val(b))
    } else {
        Some(digits_val(b))
    }
}

/// What `str::parse::<i32>` returns for `s`.
pub open spec fn spec_parse_i32(s: Seq<char>) -> Option<i32> {
    match int_text_val(s) {
        Some(v) => if i32::MIN <= v && v <= i32::MAX {
            Some(v as i32)
        } else {
            None
        },
        None => None,
    }
}

/// What `str::parse` returns for an unsigned type whose largest value is
/// `max` (no `-` sign is accepted).
pub open spec fn spec_parse_unsigned(s: Seq<char>, max: int) -> Option<int> {
    if s.len() > 0 && s[0] == '-' {
        None
    } else {
        match int_text_val(s) {
            Some(v) => if v <= max {
                Some(v)
            } else {
                None
            },
            None => None,
        }
    }
}

pub proof fn lemma_digits_val_nonneg(s: Seq<char>)
    requires
        all_digits(s),
    ensures
        digits_val(s) >= 0,
    decreases s.len(),
{
    if s.len() > 0 {
        assert(all_digits(s.drop_last()));
        lemma_digits_val_nonneg(s.drop_last());
        assert(is_digit(s[s.len() - 1]));
    }
}

/// A digit string is worth at least as much as any of its prefixes.
pub proof fn lemma_digits_val_prefix(s: Seq<char>, k: int)
    requires
        all_digits(s),
        0 <= k <= s.len(),
    ensures
        digits_val(s) >= digits_val(s.take(k)),
    decreases s.len() - k,
{
    if k < s.len() {
        lemma_digits_val_prefix(s, k + 1);
        let t = s.take(k + 1);
        assert(t.drop_last() =~= s.take(k));
        assert(all_digits(s.take(k)));
        lemma_digits_val_nonneg(s.take(k));
        assert(is_digit(s[k]));
    } else {
        assert(s.take(k) =~= s);
    }
}

/// Value of the digits `s[start..]` if all of them are digits, there is at
/// least one, and the value is at most `bound`; `None` otherwise.
fn digits_bounded(s: &[char], start: usize, bound: u128) -> (r: Option<u128>)
    requires
        start <= s@.len(),
        bound <= u64::MAX,
    ensures
        ({
            let b = s@.skip(start as int);
            match r {
                Some(v) => b.len() > 0 && all_digits(b) && v == digits_val(b) && v <= bound,
                None => b.len() == 0 || !all_digits(b) || digits_val(b) > bound,
            }
        }),
{
    let ghost b = s@.skip(start as int);
    if start == s.len() {
        return None;
    }
    let mut acc: u128 = 0;
    let mut i = start;
    while i < s.len()
        invariant
            start <= i <= s@.len(),
            b == s@.skip(start as int),
            bound <= u64::MAX,
            all_digits(s@.subrange(start as int, i as int)),
            acc == digits_val(s@.subrange(start as int, i as int)),
            acc <= bound,
        decreases s.len() - i,
    {
        let c = s[i];
        if !('0' <= c && c <= '9') {
            assert(b[i - start] == c);
            return None;
        }
        let d = (c as u32 - '0' as u32) as u128;
        let next = acc * 10 + d;
        proof {
            let t = s@.subrange(start as int, i + 1);
            assert(t.drop_last() =~= s@.subrange(start as int, i as int));
            assert(t.last() == c);
            assert(all_digits(t));
        }
        if next > bound {
            proof {
                let t = s@.subrange(start as int, i + 1);
                if all_digits(b) {
                    assert(b.take(i + 1 - start) =~= t);
                    lemma_digits_val_prefix(b, i + 1 - start);
                }
            }
            return None;
        }
        acc = next;
        i = i + 1;
    }
    assert(s@.subrange(start as int, s@.len() as int) =~= b);
    Some(acc)
}

/// `str::parse::<i32>`.
pub fn parse_i32(s: &[char]) -> (r: Option<i32>)
    ensures
        r == spec_parse_i32(s@),
{
    if s.len() == 0 {
        return None;
    }
    let neg = s[0] == '-';
    let start: usize = if s[0] == '+' || s[0] == '-' {
        1
    } else {
        0
    };
    assert(strip_sign(s@) =~= s@.skip(start as int));
    let bound: u128 = if neg {
        0x8000_0000
    } else {
        0x7fff_ffff
    };
    match digits_bounded(s, start, bound) {
        Some(v) => {
            if neg {
                let r = (0 - (v as i64)) as i32;
                Some(r)
            } else {
                Some(v as i32)
            }
        },
        None => None,
    }
}

/// What `str::parse::<i64>` returns for `s`.
pub open spec fn spec_parse_i64(s: Seq<char>) -> Option<i64> {
    match int_text_val(s) {
        Some(v) => if i64::MIN <= v && v <= i64::MAX {
            Some(v as i64)
        } else {
            None
        },
        None => None,
    }
}

/// `str::parse::<i64>`.
pub fn parse_i64(s: &[char]) -> (r: Option<i64>)
    ensures
        r == spec_parse_i64(s@),
{
    if s.len() == 0 {
        return None;
    }
    let neg = s[0] == '-';
    let start: usize = if s[0] == '+' || s[0] == '-' {
        1
    } else {
        0
    };
    assert(strip_sign(s@) =~= s@.skip(start as int));
    let bound: u128 = if neg {
        0x8000_0000_0000_0000
    } else {
        0x7fff_ffff_ffff_ffff
    };
    match digits_bounded(s, start, bound) {
        Some(v) => {
            if neg {
                let r = (0 - (v as i128)) as i64;
                Some(r)
            } else {
                Some(v as i64)
            }
        },
        None => None,
    }
}

/// `str::parse` for an unsigned integer type whose largest value is `max`.
pub fn parse_unsigned(s: &[char], max: u64) -> (r: Option<u64>)
    ensures
        match r {
            Some(v) => spec_parse_unsigned(s@, max as int) == Some(v as int),
            None => spec_parse_unsigned(s@, max as int) is None,
        },
{
    if s.len() == 0 {
        return None;
    }
    if s[0] == '-' {
        return None;
    }
    let start: usize = if s[0] == '+' {
        1
    } else {
        0
    };
    assert(strip_sign(s@) =~= s@.skip(start as int));
    match digits_bounded(s, start, max as u128) {
        Some(v) => Some(v as u64),
        None => None,
    }
}

/// `str::parse::<u32>`.
pub fn parse_u32(s: &[char]) -> (r: Option<u32>)
    ensures
        match r {
            Some(v) => spec_parse_unsigned(s@, u32::MAX as int) == Some(v as int),
            None => spec_parse_unsigned(s@, u32::MAX as int) is None,
        },
{
    match parse_unsigned(s, u32::MAX as u64) {
        Some(v) => Some(v as u32),
        None => None,
    }
}

/// `str::parse::<usize>`.
pub fn parse_usize(s: &[char]) -> (r: Option<usize>)
    ensures
        match r {
            Some(v) => spec_parse_unsigned(s@, usize::MAX as int) == Some(v as int),
            None => spec_parse_unsigned(s@, usize::MAX as int) is None,
        },
{
    match parse_unsigned(s, usize::MAX as u64) {
        Some(v) => Some(v as usize),
        None => None,
    }
}

/// `str::parse::<u8>`.
pub fn parse_u8(s: &[char]) -> (r: Option<u8>)
    ensures
        match r {
            Some(v) => spec_parse_unsigned(s@, u8::MAX as int) == Some(v as int),
            None => spec_parse_unsigned(s@, u8::MAX as int) is None,
        },
{
    match parse_unsigned(s, u8::MAX as u64) {
        Some(v) => Some(v as u8),
        None => None,
    }
}

/// Index of the first `e`/`E` in `s` at or after `i` (or `s.len()`).
pub open spec fn exp_index(s: Seq<char>, i: int) -> int
    decreases s.len() - i,
{
    if i >= s.len() {
        s.len() as int
    } else if s[i] == 'e' || s[i] == 'E' {
        i
    } else {
        exp_index(s, i + 1)
    }
}

/// Index of the first `.` in `s` at or after `i` (or `s.len()`).
pub open spec fn dot_index(s: Seq<char>, i: int) -> int
    decreases s.len() - i,
{
    if i >= s.len() {
        s.len() as int
    } else if s[i] == '.' {
        i
    } else {
        dot_index(s, i + 1)
    }
}

/// `Digit+ | Digit+ '.' Digit* | Digit* '.' Digit+`
pub open spec fn mantissa_ok(m: Seq<char>) -> bool {
    let d = dot_index(m, 0);
    if d >= m.len() {
        m.len() > 0 && all_digits(m)
    } else {
        all_digits(m.take(d)) && all_digits(m.skip(d + 1)) && (d > 0 || m.len() > d + 1)
    }
}

/// `Sign? Digit+`
pub open spec fn exponent_ok(e: Seq<char>) -> bool {
    let x = strip_sign(e);
    x.len() > 0 && all_digits(x)
}

/// `Number ::= Mantissa Exp?` with `Exp ::= 'e' Sign? Digit+`.
pub open spec fn decimal_ok(b: Seq<char>) -> bool {
    let k = exp_index(b, 0);
    mantissa_ok(b.take(k)) && (k >= b.len() || exponent_ok(b.skip(k + 1)))
}

/// The grammar `str::parse::<f32>` accepts (case-insensitively):
/// `Sign? ( 'inf' | 'infinity' | 'nan' | Number )`.
pub open spec fn is_float_text(s: Seq<char>) -> bool {
    let b = strip_sign(s);
    eq_ic(b, seq!['i', 'n', 'f']) || eq_ic(b, seq!['i', 'n', 'f', 'i', 'n', 'i', 't', 'y'])
        || eq_ic(b, seq!['n', 'a', 'n']) || decimal_ok(b)
}

proof fn lemma_exp_index_bounds(s: Seq<char>, i: int)
    requires
        0 <= i <= s.len(),
    ensures
        i <= exp_index(s, i) <= s.len(),
        exp_index(s, i) < s.len() ==> (s[exp_index(s, i)] == 'e' || s[exp_index(s, i)] == 'E'),
        forall|j: int| i <= j < exp_index(s, i) ==> !(s[j] == 'e' || s[j] == 'E'),
    decreases s.len() - i,
{
    if i < s.len() && !(s[i] == 'e' || s[i] == 'E') {
        lemma_exp_index_bounds(s, i + 1);
    }
}

proof fn lemma_exp_index_at(s: Seq<char>, i: int, k: int)
    requires
        0 <= i <= k <= s.len(),
        forall|j: int| i <= j < k ==> !(s[j] == 'e' || s[j] == 'E'),
        k == s.len() || s[k] == 'e' || s[k] == 'E',
    ensures
        exp_index(s, i) == k,
    decreases k - i,
{
    if i < k {
        lemma_exp_index_at(s, i + 1, k);
    }
}

proof fn lemma_dot_index_at(s: Seq<char>, i: int, k: int)
    requires
        0 <= i <= k <= s.len(),
        forall|j: int| i <= j < k ==> s[j] != '.',
        k == s.len() || s[k] == '.',
    ensures
        dot_index(s, i) == k,
    decreases k - i,
{
    if i < k {
        lemma_dot_index_at(s, i + 1, k);
    }
}

/// First index in `s[from..to]` holding `e`/`E` (or `to`).
fn find_exp(s: &[char], from: usize, to: usize) -> (k: usize)
    requires
        from <= to <= s@.len(),
    ensures
        from <= k <= to,
        forall|j: int| from <= j < k ==> !(s@[j] == 'e' || s@[j] == 'E'),
        k == to || s@[k as int] == 'e' || s@[k as int] == 'E',
{
    let mut k = from;
    while k < to
        invariant
            from <= k <= to <= s@.len(),
            forall|j: int| from <= j < k ==> !(s@[j] == 'e' || s@[j] == 'E'),
        decreases to - k,
    {
        if s[k] == 'e' || s[k] == 'E' {
            return k;
        }
        k = k + 1;
    }
    k
}

/// First index in `s[from..to]` holding `.` (or `to`).
fn find_dot(s: &[char], from: usize, to: usize) -> (k: usize)
    requires
        from <= to <= s@.len(),
    ensures
        from <= k <= to,
        forall|j: int| from <= j < k ==> s@[j] != '.',
        k == to || s@[k as int] == '.',
{
    let mut k = from;
    while k < to
        invariant
            from <= k <= to <= s@.len(),
            forall|j: int| from <= j < k ==> s@[j] != '.',
        decreases to - k,
    {
        if s[k] == '.' {
            return k;
        }
        k = k + 1;
    }
    k
}

/// All of `s[from..to]` are digits.
fn digits_in(s: &[char], from: usize, to: usize) -> (r: bool)
    requires
        from <= to <= s@.len(),
    ensures
        r == all_digits(s@.subrange(from as int, to as int)),
{
    let mut k = from;
    while k < to
        invariant
            from <= k <= to <= s@.len(),
            all_digits(s@.subrange(from as int, k as int)),
        decreases to - k,
    {
        let c = s[k];
        if !('0' <= c && c <= '9') {
            assert(s@.subrange(from as int, to as int)[k - from] == c);
            return false;
        }
        k = k + 1;
        assert(forall|j: int|
            0 <= j < k - from ==> #[trigger] s@.subrange(from as int, k as int)[j] == s@[from
                + j]);
    }
    true
}

/// `s[from..]` equals `lit` up to ASCII case.
fn tail_eq_ic(s: &[char], from: usize, lit: &[char]) -> (r: bool)
    requires
        from <= s@.len(),
    ensures
        r == eq_ic(s@.skip(from as int), lit@),
{
    let n = s.len() - from;
    if n != lit.len() {
        return false;
    }
    let mut i: usize = 0;
    while i < n
        invariant
            n == s@.len() - from,
            n == lit@.len(),
            i <= n,
            forall|j: int| 0 <= j < i ==> fold(#[trigger] s@.skip(from as int)[j]) == fold(lit@[j]),
        decreases n - i,
    {
        assert(from + i < s@.len());
        assert(from + i < s.len());
        if fold_char(s[from + i]) != fold_char(lit[i]) {
            assert(s@.skip(from as int)[i as int] == s@[from + i]);
            return false;
        }
        i = i + 1;
    }
    true
}

/// True when `str::parse::<f32>` accepts `s`.
pub fn float_text(s: &[char]) -> (r: bool)
    ensures
        r == is_float_text(s@),
{
    let start: usize = if s.len() > 0 && (s[0] == '+' || s[0] == '-') {
        1
    } else {
        0
    };
    let ghost b = strip_sign(s@);
    assert(b =~= s@.skip(start as int));
    let inf: [char; 3] = ['i', 'n', 'f'];
    let infinity: [char; 8] = ['i', 'n', 'f', 'i', 'n', 'i', 't', 'y'];
    let nan: [char; 3] = ['n', 'a', 'n'];
    assert(inf@ =~= seq!['i', 'n', 'f']);
    assert(infinity@ =~= seq!['i', 'n', 'f', 'i', 'n', 'i', 't', 'y']);
    assert(nan@ =~= seq!['n', 'a', 'n']);
    if tail_eq_ic(s, start, &inf) || tail_eq_ic(s, start, &infinity) || tail_eq_ic(
        s,
        start,
        &nan,
    ) {
        return true;
    }
    let len = s.len();
    let k = find_exp(s, start, len);
    proof {
        lemma_exp_index_at(b, 0, k - start);
        assert forall|j: int| 0 <= j < k - start implies !(b[j] == 'e' || b[j] == 'E') by {
            assert(b[j] == s@[start + j]);
        }
    }
    let ghost m = b.take(k - start);
    assert(m =~= s@.subrange(start as int, k as int));
    let d = find_dot(s, start, k);
    proof {
        assert forall|j: int| 0 <= j < d - start implies m[j] != '.' by {
            assert(m[j] == s@[start + j]);
        }
        lemma_dot_index_at(m, 0, d - start);
        assert(m.take(d - start) =~= s@.subrange(start as int, d as int));
        if d < k {
            assert(m.skip(d - start + 1) =~= s@.subrange(d + 1, k as int));
        }
    }
    let mant_ok = if d == k {
        k > start && digits_in(s, start, k)
    } else {
        digits_in(s, start, d) && digits_in(s, d + 1, k) && (d > start || k > d + 1)
    };
    if !mant_ok {
        return false;
    }
    if k == len {
        return true;
    }
    // exponent: s[k+1..]
    let e_start = k + 1;
    proof {
        assert(b.skip(k - start + 1) =~= s@.skip(e_start as int));
    }
    let x_start: usize = if e_start < len && (s[e_start] == '+' || s[e_start] == '-') {
        e_start + 1
    } else {
        e_start
    };
    proof {
        assert(strip_sign(s@.skip(e_start as int)) =~= s@.skip(x_start as int));
        assert(s@.skip(x_start as int) =~= s@.subrange(x_start as int, len as int));
    }
    x_start < len && digits_in(s, x_start, len)
}

// ---------------------------------------------------------------------
// Lines, trimming and whitespace splitting
// ---------------------------------------------------------------------

/// Index of the first `\n` in `s` at or after `i` (or `s.len()`).
pub open spec fn newline_index(s: Seq<char>, i: int) -> int
    decreases s.len() - i,
{
    if i >= s.len() {
        s.len() as int
    } else if s[i] == '\n' {
        i
    } else {
        newline_index(s, i + 1)
    }
}

pub proof fn lemma_newline_index(s: Seq<char>, i: int)
    requires
        0 <= i <= s.len(),
    ensures
        i <= newline_index(s, i) <= s.len(),
        newline_index(s, i) < s.len() ==> s[newline_index(s, i)] == '\n',
        forall|j: int| i <= j < newline_index(s, i) ==> s[j] != '\n',
    decreases s.len() - i,
{
    if i < s.len() && s[i] != '\n' {
        lemma_newline_index(s, i + 1);
    }
}

/// The lines of `s[i..]` as `str::lines` yields them: split at `\n`, a `\r`
/// right before the `\n` dropped, no line after a final `\n`.
pub open spec fn lines_from(s: Seq<char>, i: int) -> Seq<Seq<char>>
    decreases s.len() - i,
{
    if i < 0 || i >= s.len() {
        seq![]
    } else {
        let e = newline_index(s, i);
        if e < i || e > s.len() {
            seq![]
        } else {
            let raw = s.subrange(i, e);
            let line = if e < s.len() && raw.len() > 0 && raw.last() == '\r' {
                raw.drop_last()
            } else {
                raw
            };
            if e < s.len() {
                seq![line] + lines_from(s, e + 1)
            } else {
                seq![line]
            }
        }
    }
}

pub open spec fn spec_lines(s: Seq<char>) -> Seq<Seq<char>> {
    lines_from(s, 0)
}

/// `str::lines`.
pub fn lines(s: &[char]) -> (r: Vec<Vec<char>>)
    ensures
        r@.len() == spec_lines(s@).len(),
        forall|k: int| 0 <= k < r@.len() ==> #[trigger] r@[k]@ == spec_lines(s@)[k],
{
    let mut out: Vec<Vec<char>> = Vec::new();
    let mut i: usize = 0;
    while i < s.len()
        invariant
            i <= s@.len(),
            out@.len() + lines_from(s@, i as int).len() == spec_lines(s@).len(),
            forall|k: int| 0 <= k < out@.len() ==> #[trigger] out@[k]@ == spec_lines(s@)[k],
            forall|k: int|
                0 <= k < lines_from(s@, i as int).len() ==> #[trigger] lines_from(
                    s@,
                    i as int,
                )[k] == spec_lines(s@)[out@.len() + k],
        decreases s.len() - i,
    {
        let mut e = i;
        while e < s.len() && s[e] != '\n'
            invariant
                i <= e <= s@.len(),
                forall|j: int| i <= j < e ==> s@[j] != '\n',
            decreases s.len() - e,
        {
            e = e + 1;
        }
        proof {
            lemma_newline_index(s@, i as int);
            if e < s.len() {
                assert(s@[e as int] == '\n');
            }
            // both are the first newline at or after i
            let n = newline_index(s@, i as int);
            if n < e {
                assert(s@[n] == '\n');
            }
            if e < n {
                assert(s@[e as int] == '\n');
            }
            assert(n == e);
        }
        let end = if e < s.len() && e > i && s[e - 1] == '\r' {
            e - 1
        } else {
            e
        };
        let line = copy_range(s, i, end);
        proof {
            let raw = s@.subrange(i as int, e as int);
            if e < s@.len() && raw.len() > 0 && raw.last() == '\r' {
                assert(raw.drop_last() =~= s@.subrange(i as int, end as int));
            }
            assert(lines_from(s@, i as int)[0] == line@);
            if e < s@.len() {
                assert(lines_from(s@, i as int) == seq![line@] + lines_from(s@, e + 1));
            }
        }
        let ghost old_out = out@;
        out.push(line);
        proof {
            assert forall|k: int|
                0 <= k < lines_from(s@, e + 1).len() implies #[trigger] lines_from(
                s@,
                e + 1,
            )[k] == spec_lines(s@)[out@.len() + k] by {
                assert(lines_from(s@, i as int)[k + 1] == lines_from(s@, e + 1)[k]);
            }
        }
        if e == s.len() {
            return out;
        }
        i = e + 1;
    }
    out
}

/// Index of the first non-whitespace character at or after `i`.
pub open spec fn skip_ws_index(s: Seq<char>, i: int) -> int
    decreases s.len() - i,
{
    if i >= s.len() {
        s.len() as int
    } else if is_unicode_ws(s[i]) {
        skip_ws_index(s, i + 1)
    } else {
        i
    }
}

/// One past the last non-whitespace character before `j`.
pub open spec fn trim_end_index(s: Seq<char>, j: int) -> int
    decreases j,
{
    if j <= 0 {
        0
    } else if is_unicode_ws(s[j - 1]) {
        trim_end_index(s, j - 1)
    } else {
        j
    }
}

/// `str::trim`: `s` without leading and trailing Unicode whitespace.
pub open spec fn spec_trim(s: Seq<char>) -> Seq<char> {
    let a = skip_ws_index(s, 0);
    let b = trim_end_index(s, s.len() as int);
    if a >= b {
        seq![]
    } else {
        s.subrange(a, b)
    }
}

proof fn lemma_skip_ws_index(s: Seq<char>, i: int, k: int)
    requires
        0 <= i <= k <= s.len(),
        forall|j: int| i <= j < k ==> is_unicode_ws(s[j]),
        k == s.len() || !is_unicode_ws(s[k]),
    ensures
        skip_ws_index(s, i) == k,
    decreases k - i,
{
    if i < k {
        lemma_skip_ws_index(s, i + 1, k);
    }
}

proof fn lemma_trim_end_index(s: Seq<char>, j: int, k: int)
    requires
        0 <= k <= j <= s.len(),
        forall|t: int| k <= t < j ==> is_unicode_ws(s[t]),
        k == 0 || !is_unicode_ws(s[k - 1]),
    ensures
        trim_end_index(s, j) == k,
    decreases j - k,
{
    if k < j {
        lemma_trim_end_index(s, j - 1, k);
    }
}

/// `str::trim`.
pub fn trim(s: &[char]) -> (r: Vec<char>)
    ensures
        r@ == spec_trim(s@),
{
    let mut a: usize = 0;
    while a < s.len() && unicode_ws(s[a])
        invariant
            a <= s@.len(),
            forall|j: int| 0 <= j < a ==> is_unicode_ws(s@[j]),
        decreases s.len() - a,
    {
        a = a + 1;
    }
    proof {
        lemma_skip_ws_index(s@, 0, a as int);
    }
    let mut b: usize = s.len();
    while b > 0 && unicode_ws(s[b - 1])
        invariant
            b <= s@.len(),
            forall|t: int| b <= t < s@.len() ==> is_unicode_ws(s@[t]),
        decreases b,
    {
        b = b - 1;
    }
    proof {
        lemma_trim_end_index(s@, s@.len() as int, b as int);
    }
    if a >= b {
        return Vec::new();
    }
    copy_range(s, a, b)
}

/// End (exclusive) of the run of non-whitespace characters starting at `i`.
pub open spec fn word_end(s: Seq<char>, i: int) -> int
    decreases s.len() - i,
{
    if i >= s.len() {
        s.len() as int
    } else if is_unicode_ws(s[i]) {
        i
    } else {
        word_end(s, i + 1)
    }
}

proof fn lemma_word_end(s: Seq<char>, i: int, k: int)
    requires
        0 <= i <= k <= s.len(),
        forall|j: int| i <= j < k ==> !is_unicode_ws(s[j]),
        k == s.len() || is_unicode_ws(s[k]),
    ensures
        word_end(s, i) == k,
    decreases k - i,
{
    if i < k {
        lemma_word_end(s, i + 1, k);
    }
}

pub proof fn lemma_word_end_bounds(s: Seq<char>, i: int)
    requires
        0 <= i <= s.len(),
    ensures
        i <= word_end(s, i) <= s.len(),
    decreases s.len() - i,
{
    if i < s.len() && !is_unicode_ws(s[i]) {
        lemma_word_end_bounds(s, i + 1);
    }
}

/// The words of `s[i..]` as `str::split_whitespace` yields them.
pub open spec fn words_from(s: Seq<char>, i: int) -> Seq<Seq<char>>
    decreases s.len() - i,
{
    if i < 0 || i >= s.len() {
        seq![]
    } else if is_unicode_ws(s[i]) {
        words_from(s, i + 1)
    } else {
        let e = word_end(s, i + 1);
        if e <= i || e > s.len() {
            seq![]
        } else {
            seq![s.subrange(i, e)] + words_from(s, e)
        }
    }
}

pub open spec fn spec_words(s: Seq<char>) -> Seq<Seq<char>> {
    words_from(s, 0)
}

/// `str::split_whitespace`.
pub fn split_whitespace(s: &[char]) -> (r: Vec<Vec<char>>)
    ensures
        r@.len() == spec_words(s@).len(),
        forall|k: int| 0 <= k < r@.len() ==> #[trigger] r@[k]@ == spec_words(s@)[k],
{
    let mut out: Vec<Vec<char>> = Vec::new();
    let mut i: usize = 0;
    while i < s.len()
        invariant
            i <= s@.len(),
            out@.len() + words_from(s@, i as int).len() == spec_words(s@).len(),
            forall|k: int| 0 <= k < out@.len() ==> #[trigger] out@[k]@ == spec_words(s@)[k],
            forall|k: int|
                0 <= k < words_from(s@, i as int).len() ==> #[trigger] words_from(
                    s@,
                    i as int,
                )[k] == spec_words(s@)[out@.len() + k],
        decreases s.len() - i,
    {
        if unicode_ws(s[i]) {
            i = i + 1;
        } else {
            let mut e = i + 1;
            while e < s.len() && !unicode_ws(s[e])
                invariant
                    i < e <= s@.len(),
                    forall|j: int| i + 1 <= j < e ==> !is_unicode_ws(s@[j]),
                decreases s.len() - e,
            {
                e = e + 1;
            }
            proof {
                lemma_word_end(s@, i + 1, e as int);
            }
            let w = copy_range(s, i, e);
            assert(words_from(s@, i as int)[0] == w@);
            out.push(w);
            proof {
                assert forall|k: int|
                    0 <= k < words_from(s@, e as int).len() implies #[trigger] words_from(
                    s@,
                    e as int,
                )[k] == spec_words(s@)[out@.len() + k] by {
                    assert(words_from(s@, i as int)[k + 1] == words_from(s@, e as int)[k]);
                }
            }
            i = e;
        }
    }
    out
}


// ---------------------------------------------------------------------
// Quote trimming
// ---------------------------------------------------------------------

/// Index of the first character at or after `i` that is not `"`.
pub open spec fn skip_quote_index(s: Seq<char>, i: int) -> int
    decreases s.len() - i,
{
    if i >= s.len() {
        s.len() as int
    } else if s[i] == '"' {
        skip_quote_index(s, i + 1)
    } else {
        i
    }
}

/// One past the last character before `j` that is not `"`.
pub open spec fn quote_end_index(s: Seq<char>, j: int) -> int
    decreases j,
{
    if j <= 0 {
        0
    } else if s[j - 1] == '"' {
        quote_end_index(s, j - 1)
    } else {
        j
    }
}

/// `str::trim_matches('"')`: `s` without leading and trailing quotes.
pub open spec fn trim_quotes(s: Seq<char>) -> Seq<char> {
    let a = skip_quote_index(s, 0);
    let b = quote_end_index(s, s.len() as int);
    if a >= b {
        seq![]
    } else {
        s.subrange(a, b)
    }
}

proof fn lemma_skip_quote_index(s: Seq<char>, i: int, k: int)
    requires
        0 <= i <= k <= s.len(),
        forall|j: int| i <= j < k ==> s[j] == '"',
        k == s.len() || s[k] != '"',
    ensures
        skip_quote_index(s, i) == k,
    decreases k - i,
{
    if i < k {
        lemma_skip_quote_index(s, i + 1, k);
    }
}

proof fn lemma_quote_end_index(s: Seq<char>, j: int, k: int)
    requires
        0 <= k <= j <= s.len(),
        forall|t: int| k <= t < j ==> s[t] == '"',
        k == 0 || s[k - 1] != '"',
    ensures
        quote_end_index(s, j) == k,
    decreases j - k,
{
    if k < j {
        lemma_quote_end_index(s, j - 1, k);
    }
}

/// `str::trim_matches('"')`.
pub fn trim_quote_chars(s: &[char]) -> (r: Vec<char>)
    ensures
        r@ == trim_quotes(s@),
{
    let mut a: usize = 0;
    while a < s.len() && s[a] == '"'
        invariant
            a <= s@.len(),
            forall|j: int| 0 <= j < a ==> s@[j] == '"',
        decreases s.len() - a,
    {
        a = a + 1;
    }
    proof {
        lemma_skip_quote_index(s@, 0, a as int);
    }
    let mut b: usize = s.len();
    while b > 0 && s[b - 1] == '"'
        invariant
            b <= s@.len(),
            forall|t: int| b <= t < s@.len() ==> s@[t] == '"',
        decreases b,
    {
        b = b - 1;
    }
    proof {
        lemma_quote_end_index(s@, s@.len() as int, b as int);
    }
    if a >= b {
        return Vec::new();
    }
    copy_range(s, a, b)
}


// ---------------------------------------------------------------------
// Decimal rendering
// ---------------------------------------------------------------------

/// The digit character for `d` (`0 <= d < 10`).
pub open spec fn digit_char(d: int) -> char {
    seq!['0', '1', '2', '3', '4', '5', '6', '7', '8', '9'][d]
}

/// Decimal digits of `n`, as `Display` prints an unsigned integer.
pub open spec fn decimal(n: nat) -> Seq<char>
    decreases n,
{
    if n < 10 {
        seq![digit_char(n as int)]
    } else {
        decimal(n / 10) + seq![digit_char((n % 10) as int)]
    }
}

/// Append the decimal digits of `n` to `out`.
pub fn push_decimal(out: &mut Vec<char>, n: u64)
    ensures
        final(out)@ == old(out)@ + decimal(n as nat),
    decreases n,
{
    let digits: [char; 10] = ['0', '1', '2', '3', '4', '5', '6', '7', '8', '9'];
    assert(digits@ =~= seq!['0', '1', '2', '3', '4', '5', '6', '7', '8', '9']);
    if n >= 10 {
        push_decimal(out, n / 10);
    }
    out.push(digits[(n % 10) as usize]);
    assert(final(out)@ =~= old(out)@ + decimal(n as nat));
}

/// Append the characters of `s` to `out`.
pub fn push_str(out: &mut Vec<char>, s: &str)
    ensures
        final(out)@ == old(out)@ + s@,
{
    let c = chars_of(s);
    let mut i: usize = 0;
    let ghost start = out@;
    while i < c.len()
        invariant
            i <= c@.len(),
            c@ == s@,
            out@ == start + c@.subrange(0, i as int),
        decreases c.len() - i,
    {
        out.push(c[i]);
        i = i + 1;
        assert(out@ =~= start + c@.subrange(0, i as int));
    }
    assert(c@.subrange(0, c@.len() as int) =~= c@);
}

// ---------------------------------------------------------------------
// Whole-string helpers
// ---------------------------------------------------------------------

/// What std `str::to_lowercase` gives for `s` (full Unicode lower-case
/// mapping).
pub uninterp spec fn lowercase(s: Seq<char>) -> Seq<char>;

/// std `str::to_lowercase`; its result is only named, by `lowercase`.
#[verifier::external_body]
pub fn to_lowercase(s: &str) -> (r: String)
    ensures
        r@ == lowercase(s@),
{
    s.to_lowercase()
}

/// What std `str::to_uppercase` gives for `s` (full Unicode upper-case
/// mapping).
pub uninterp spec fn uppercase(s: Seq<char>) -> Seq<char>;

/// std `str::to_uppercase`; its result is only named, by `uppercase`.
#[verifier::external_body]
pub fn to_uppercase(s: &str) -> (r: String)
    ensures
        r@ == uppercase(s@),
{
    s.to_uppercase()
}

/// `s` is exactly `lit`.
pub fn str_is(s: &str, lit: &str) -> (r: bool)
    ensures
        r == (s@ == lit@),
{
    let a = chars_of(s);
    let b = chars_of(lit);
    chars_eq(a.as_slice(), b.as_slice())
}

/// `s[i..]` with every non-overlapping occurrence of `pat`, left to right,
/// replaced by `rep` (`str::replace` for a non-empty pattern).
pub open spec fn replace_from(s: Seq<char>, pat: Seq<char>, rep: Seq<char>, i: int) -> Seq<char>
    decreases s.len() - i,
{
    if i < 0 || i >= s.len() || pat.len() == 0 {
        s.subrange(if 0 <= i <= s.len() { i } else { s.len() as int }, s.len() as int)
    } else if has_prefix(s.subrange(i, s.len() as int), pat) {
        rep + replace_from(s, pat, rep, i + pat.len())
    } else {
        seq![s[i]] + replace_from(s, pat, rep, i + 1)
    }
}

pub open spec fn replace_all(s: Seq<char>, pat: Seq<char>, rep: Seq<char>) -> Seq<char> {
    replace_from(s, pat, rep, 0)
}

/// `s` with every occurrence of `pat` replaced by `rep`.
pub fn replace_str(s: &[char], pat: &[char], rep: &[char]) -> (r: Vec<char>)
    requires
        pat@.len() > 0,
    ensures
        r@ == replace_all(s@, pat@, rep@),
{
    let mut out: Vec<char> = Vec::new();
    let mut i: usize = 0;
    while i < s.len()
        invariant
            i <= s@.len(),
            pat@.len() > 0,
            out@ + replace_from(s@, pat@, rep@, i as int) == replace_all(s@, pat@, rep@),
        decreases s.len() - i,
    {
        let rest = copy_range(s, i, s.len());
        if starts_with(rest.as_slice(), pat) {
            let mut k: usize = 0;
            let ghost before = out@;
            while k < rep.len()
                invariant
                    k <= rep@.len(),
                    out@ == before + rep@.subrange(0, k as int),
                decreases rep.len() - k,
            {
                out.push(rep[k]);
                k = k + 1;
                assert(out@ =~= before + rep@.subrange(0, k as int));
            }
            assert(rep@.subrange(0, rep@.len() as int) =~= rep@);
            assert(has_prefix(rest@, pat@));
            assert(out@ + replace_from(s@, pat@, rep@, i + pat@.len()) =~= before + replace_from(
                s@,
                pat@,
                rep@,
                i as int,
            ));
            i = i + pat.len();
        } else {
            let ghost before = out@;
            out.push(s[i]);
            assert(out@ + replace_from(s@, pat@, rep@, i + 1) =~= before + replace_from(
                s@,
                pat@,
                rep@,
                i as int,
            ));
            i = i + 1;
        }
    }
    assert(replace_from(s@, pat@, rep@, i as int) =~= Seq::<char>::empty());
    assert(out@ =~= replace_all(s@, pat@, rep@));
    out
}

// ---------------------------------------------------------------------
// Separators
// ---------------------------------------------------------------------

/// Position of the last `c` in `s`, or -1.
pub open spec fn last_index_of(s: Seq<char>, c: char) -> int
    decreases s.len(),
{
    if s.len() == 0 {
        -1
    } else if s.last() == c {
        s.len() - 1
    } else {
        last_index_of(s.drop_last(), c)
    }
}

/// Position of the first `c` in `s`, or `s.len()`.
pub open spec fn first_index_of(s: Seq<char>, c: char) -> int
    decreases s.len(),
{
    if s.len() == 0 {
        0
    } else if s[0] == c {
        0
    } else {
        1 + first_index_of(s.drop_first(), c)
    }
}

/// What follows the last `c` (all of `s` without one).
pub open spec fn after_last(s: Seq<char>, c: char) -> Seq<char> {
    s.subrange(last_index_of(s, c) + 1, s.len() as int)
}

/// What precedes the first `c` (all of `s` without one).
pub open spec fn before_first(s: Seq<char>, c: char) -> Seq<char> {
    s.take(first_index_of(s, c))
}


pub proof fn lemma_last_index_of(s: Seq<char>, c: char)
    ensures
        -1 <= last_index_of(s, c) < s.len(),
        last_index_of(s, c) >= 0 ==> s[last_index_of(s, c)] == c,
        forall|i: int| last_index_of(s, c) < i < s.len() ==> s[i] != c,
    decreases s.len(),
{
    if s.len() > 0 {
        lemma_last_index_of(s.drop_last(), c);
        assert forall|i: int| last_index_of(s, c) < i < s.len() implies s[i] != c by {
            if i < s.len() - 1 {
                assert(s.drop_last()[i] == s[i]);
            }
        }
    }
}

pub proof fn lemma_first_index_of(s: Seq<char>, c: char)
    ensures
        0 <= first_index_of(s, c) <= s.len(),
        first_index_of(s, c) < s.len() ==> s[first_index_of(s, c)] == c,
        forall|i: int| 0 <= i < first_index_of(s, c) ==> s[i] != c,
    decreases s.len(),
{
    if s.len() > 0 && s[0] != c {
        lemma_first_index_of(s.drop_first(), c);
        assert forall|i: int| 1 <= i < s.len() implies #[trigger] s[i] == s.drop_first()[i - 1] by {}
    }
}

/// What follows the last `c` in `s`.
pub fn after_last_char(s: &[char], c: char) -> (r: Vec<char>)
    ensures
        r@ == after_last(s@, c),
{
    let mut start: usize = 0;
    let mut i: usize = 0;
    while i < s.len()
        invariant
            i <= s@.len(),
            start <= i,
            start == last_index_of(s@.take(i as int), c) + 1,
        decreases s.len() - i,
    {
        assert(s@.take(i + 1).drop_last() =~= s@.take(i as int));
        if s[i] == c {
            start = i + 1;
        }
        i = i + 1;
    }
    assert(s@.take(s@.len() as int) =~= s@);
    copy_range(s, start, s.len())
}

/// What precedes the first `c` in `s`.
pub fn before_first_char(s: &[char], c: char) -> (r: Vec<char>)
    ensures
        r@ == before_first(s@, c),
{
    proof {
        lemma_first_index_of(s@, c);
    }
    let mut i: usize = 0;
    while i < s.len() && s[i] != c
        invariant
            i <= s@.len(),
            forall|j: int| 0 <= j < i ==> s@[j] != c,
            0 <= first_index_of(s@, c) <= s@.len(),
            first_index_of(s@, c) < s@.len() ==> s@[first_index_of(s@, c)] == c,
            forall|j: int| 0 <= j < first_index_of(s@, c) ==> s@[j] != c,
        decreases s.len() - i,
    {
        i = i + 1;
    }
    assert(i == first_index_of(s@, c));
    copy_range(s, 0, i)
}

} // verus!

//! String operations on character sequences, each specified directly.

use vstd::prelude::*;

verus! {

/// The characters with the Unicode `White_Space` property.
pub open spec fn is_white_space(c: char) -> bool {
    let u = c as u32;
    (0x9 <= u && u <= 0xd) || u == 0x20 || u == 0x85 || u == 0xa0 || u == 0x1680 || (0x2000 <= u
        && u <= 0x200a) || u == 0x2028 || u == 0x2029 || u == 0x202f || u == 0x205f || u == 0x3000
}

pub fn white_space(c: char) -> (r: bool)
    ensures
        r == is_white_space(c),
{
    let u = c as u32;
    (0x9 <= u && u <= 0xd) || u == 0x20 || u == 0x85 || u == 0xa0 || u == 0x1680 || (0x2000 <= u
        && u <= 0x200a) || u == 0x2028 || u == 0x2029 || u == 0x202f || u == 0x205f || u == 0x3000
}

/// `s` without its leading white space.
pub open spec fn trim_start_spec(s: Seq<char>) -> Seq<char>
    decreases s.len(),
{
    if s.len() > 0 && is_white_space(s[0]) {
        trim_start_spec(s.drop_first())
    } else {
        s
    }
}

/// `s` without its trailing white space.
pub open spec fn trim_end_spec(s: Seq<char>) -> Seq<char>
    decreases s.len(),
{
    if s.len() > 0 && is_white_space(s.last()) {
        trim_end_spec(s.drop_last())
    } else {
        s
    }
}

/// `s` without white space at either end.
pub open spec fn trim_spec(s: Seq<char>) -> Seq<char> {
    trim_end_spec(trim_start_spec(s))
}

/// Whether `p` occurs in `s` at position `i`.
pub open spec fn occurs_at(s: Seq<char>, p: Seq<char>, i: int) -> bool {
    0 <= i && i + p.len() <= s.len() && s.subrange(i, i + p.len()) == p
}

/// The first position at or after `i` where `p` occurs in `s`.
pub open spec fn find_from(s: Seq<char>, p: Seq<char>, i: int) -> Option<int>
    decreases s.len() + 1 - i,
{
    if i < 0 || i + p.len() > s.len() {
        None
    } else if occurs_at(s, p, i) {
        Some(i)
    } else {
        find_from(s, p, i + 1)
    }
}

pub open spec fn contains_spec(s: Seq<char>, p: Seq<char>) -> bool {
    find_from(s, p, 0) is Some
}

/// `s` with each non-overlapping occurrence of `p`, from the left, replaced by `w`.
pub open spec fn replace_all_spec(s: Seq<char>, p: Seq<char>, w: Seq<char>) -> Seq<char>
    decreases s.len(),
{
    if p.len() == 0 || s.len() == 0 {
        s
    } else if occurs_at(s, p, 0) {
        w + replace_all_spec(s.subrange(p.len() as int, s.len() as int), p, w)
    } else {
        seq![s[0]] + replace_all_spec(s.drop_first(), p, w)
    }
}

/// `s` without the prefix `p`, where it starts with `p`.
pub open spec fn strip_prefix_spec(s: Seq<char>, p: Seq<char>) -> Option<Seq<char>> {
    if occurs_at(s, p, 0) {
        Some(s.subrange(p.len() as int, s.len() as int))
    } else {
        None
    }
}

/// `s` without the suffix `p`, where it ends with `p`.
pub open spec fn strip_suffix_spec(s: Seq<char>, p: Seq<char>) -> Option<Seq<char>> {
    if occurs_at(s, p, s.len() - p.len()) {
        Some(s.subrange(0, s.len() - p.len()))
    } else {
        None
    }
}

/// A new string holding `s@[from..to]`.
pub fn substring(s: &str, from: usize, to: usize) -> (r: String)
    requires
        from <= to <= s@.len(),
    ensures
        r@ == s@.subrange(from as int, to as int),
{
    s.substring_char(from, to).to_owned()
}

pub fn trim_start(s: &str) -> (r: String)
    ensures
        r@ == trim_start_spec(s@),
{
    let n = s.unicode_len();
    let mut i: usize = 0;
    assert(s@.subrange(0, n as int) =~= s@);
    while i < n && white_space(s.get_char(i))
        invariant
            n == s@.len(),
            i <= n,
            trim_start_spec(s@) == trim_start_spec(s@.subrange(i as int, n as int)),
        decreases n - i,
    {
        assert(s@.subrange(i as int, n as int).drop_first() =~= s@.subrange(i + 1, n as int));
        i = i + 1;
    }
    assert(s@.subrange(i as int, n as int) =~= trim_start_spec(s@.subrange(i as int, n as int)));
    substring(s, i, n)
}

pub fn trim_end(s: &str) -> (r: String)
    ensures
        r@ == trim_end_spec(s@),
{
    let n = s.unicode_len();
    let mut j: usize = n;
    assert(s@.subrange(0, n as int) =~= s@);
    while j > 0 && white_space(s.get_char(j - 1))
        invariant
            n == s@.len(),
            j <= n,
            trim_end_spec(s@) == trim_end_spec(s@.subrange(0, j as int)),
        decreases j,
    {
        assert(s@.subrange(0, j as int).drop_last() =~= s@.subrange(0, j - 1));
        j = j - 1;
    }
    assert(s@.subrange(0, j as int) =~= trim_end_spec(s@.subrange(0, j as int)));
    substring(s, 0, j)
}

pub fn trim(s: &str) -> (r: String)
    ensures
        r@ == trim_spec(s@),
{
    let t = trim_start(s);
    trim_end(t.as_str())
}

/// Whether `p` occurs in `s` at position `i`.
pub fn matches_at(s: &str, p: &str, i: usize) -> (r: bool)
    ensures
        r == occurs_at(s@, p@, i as int),
{
    let n = s.unicode_len();
    let m = p.unicode_len();
    if i > n || m > n - i {
        return false;
    }
    let mut k: usize = 0;
    while k < m
        invariant
            n == s@.len(),
            m == p@.len(),
            i + m <= n,
            k <= m,
            forall|t: int| 0 <= t < k ==> s@[i + t] == p@[t],
        decreases m - k,
    {
        if s.get_char(i + k) != p.get_char(k) {
            assert(s@.subrange(i as int, i + m)[k as int] != p@[k as int]);
            return false;
        }
        k = k + 1;
    }
    assert(s@.subrange(i as int, i + m) =~= p@);
    true
}

/// The first position where `p` occurs in `s`.
pub fn find(s: &str, p: &str) -> (r: Option<usize>)
    ensures
        r matches Some(i) ==> find_from(s@, p@, 0) == Some(i as int) && occurs_at(s@, p@, i as int),
        r is None ==> find_from(s@, p@, 0) is None,
{
    let n = s.unicode_len();
    let m = p.unicode_len();
    if m > n {
        return None;
    }
    if m == 0 {
        assert(s@.subrange(0, 0) =~= p@);
        return Some(0);
    }
    let mut i: usize = 0;
    while i <= n - m
        invariant
            n == s@.len(),
            m == p@.len(),
            0 < m <= n,
            i <= n - m + 1,
            find_from(s@, p@, 0) == find_from(s@, p@, i as int),
        decreases n - i,
    {
        if matches_at(s, p, i) {
            return Some(i);
        }
        i = i + 1;
    }
    None
}

pub fn contains(s: &str, p: &str) -> (r: bool)
    ensures
        r == contains_spec(s@, p@),
{
    find(s, p).is_some()
}

pub fn strip_prefix(s: &str, p: &str) -> (r: Option<String>)
    ensures
        r matches Some(t) ==> strip_prefix_spec(s@, p@) == Some(t@),
        r is None ==> strip_prefix_spec(s@, p@) is None,
{
    if matches_at(s, p, 0) {
        Some(substring(s, p.unicode_len(), s.unicode_len()))
    } else {
        None
    }
}

pub fn strip_suffix(s: &str, p: &str) -> (r: Option<String>)
    ensures
        r matches Some(t) ==> strip_suffix_spec(s@, p@) == Some(t@),
        r is None ==> strip_suffix_spec(s@, p@) is None,
{
    let n = s.unicode_len();
    let m = p.unicode_len();
    if m <= n && matches_at(s, p, n - m) {
        Some(substring(s, 0, n - m))
    } else {
        None
    }
}

/// `s` with each non-overlapping occurrence of `p`, from the left, replaced by `w`; `s` itself
/// where `p` is empty.
pub fn replace_all(s: &str, p: &str, w: &str) -> (r: String)
    ensures
        r@ == replace_all_spec(s@, p@, w@),
{
    let n = s.unicode_len();
    let m = p.unicode_len();
    if m == 0 {
        return s.to_owned();
    }
    let mut out = String::new();
    let mut i: usize = 0;
    assert(s@.subrange(0, n as int) =~= s@);
    assert(out@ + s@ =~= s@);
    while i < n
        invariant
            n == s@.len(),
            m == p@.len(),
            m > 0,
            i <= n,
            out@ + replace_all_spec(s@.subrange(i as int, n as int), p@, w@) == replace_all_spec(s@, p@, w@),
        decreases n - i,
    {
        let ghost rest = s@.subrange(i as int, n as int);
        if matches_at(s, p, i) {
            assert(occurs_at(rest, p@, 0)) by {
                assert(rest.subrange(0, m as int) =~= s@.subrange(i as int, i + m));
            }
            assert(rest.subrange(m as int, rest.len() as int) =~= s@.subrange(i + m, n as int));
            let ghost before = out@;
            out.append(w);
            assert(out@ + replace_all_spec(s@.subrange(i + m, n as int), p@, w@) =~= before + (w@
                + replace_all_spec(s@.subrange(i + m, n as int), p@, w@)));
            i = i + m;
        } else {
            assert(!occurs_at(rest, p@, 0)) by {
                if m <= rest.len() {
                    assert(rest.subrange(0, m as int) =~= s@.subrange(i as int, i + m));
                }
            }
            let c = substring(s, i, i + 1);
            assert(c@ =~= seq![rest[0]]);
            assert(rest.drop_first() =~= s@.subrange(i + 1, n as int));
            let ghost before = out@;
            out.append(c.as_str());
            assert(out@ + replace_all_spec(s@.subrange(i + 1, n as int), p@, w@) =~= before + (seq![
                rest[0]] + replace_all_spec(rest.drop_first(), p@, w@)));
            i = i + 1;
        }
    }
    assert(s@.subrange(n as int, n as int) =~= Seq::<char>::empty());
    assert(out@ + Seq::<char>::empty() =~= out@);
    out
}

pub open spec fn is_digit(c: char) -> bool {
    '0' <= c && c <= '9'
}

/// The value of a string of decimal digits.
pub open spec fn digits_value(s: Seq<char>) -> int
    decreases s.len(),
{
    if s.len() == 0 {
        0
    } else {
        digits_value(s.drop_last()) * 10 + (s.last() as int - '0' as int)
    }
}

pub open spec fn all_digits(s: Seq<char>) -> bool {
    forall|i: int| 0 <= i < s.len() ==> is_digit(#[trigger] s[i])
}

pub open spec fn has_sign(s: Seq<char>) -> bool {
    s.len() > 0 && (s[0] == '-' || s[0] == '+')
}

/// `s` without its sign, if it has one.
pub open spec fn unsigned_part(s: Seq<char>) -> Seq<char> {
    if has_sign(s) {
        s.drop_first()
    } else {
        s
    }
}

/// What `str::parse::<i32>` gives: an optional sign, then one or more decimal digits, whose value fits.
pub open spec fn parse_i32_spec(s: Seq<char>) -> Option<i32> {
    let magnitude = digits_value(unsigned_part(s));
    let value = if has_sign(s) && s[0] == '-' {
        -magnitude
    } else {
        magnitude
    };
    if unsigned_part(s).len() > 0 && all_digits(unsigned_part(s)) && i32::MIN <= value <= i32::MAX {
        Some(value as i32)
    } else {
        None
    }
}

/// Above every magnitude that fits an `i32`.
const MAGNITUDE_CAP: i64 = 2147483649;

pub fn parse_i32(s: &str) -> (r: Option<i32>)
    ensures
        r == parse_i32_spec(s@),
{
    let n = s.unicode_len();
    let signed = n > 0 && (s.get_char(0) == '-' || s.get_char(0) == '+');
    let negative = signed && s.get_char(0) == '-';
    let start: usize = if signed {
        1
    } else {
        0
    };
    let ghost digits = unsigned_part(s@);
    assert(digits =~= s@.subrange(start as int, n as int));
    if start == n {
        return None;
    }
    let mut acc: i64 = 0;
    let mut k: usize = start;
    while k < n
        invariant
            n == s@.len(),
            start <= k <= n,
            signed == has_sign(s@),
            negative == (signed && s@[0] == '-'),
            digits == unsigned_part(s@),
            digits == s@.subrange(start as int, n as int),
            forall|i: int| 0 <= i < k - start ==> is_digit(#[trigger] digits[i]),
            0 <= acc <= MAGNITUDE_CAP,
            acc == MAGNITUDE_CAP ==> digits_value(digits.subrange(0, k - start))
                >= MAGNITUDE_CAP,
            acc < MAGNITUDE_CAP ==> acc == digits_value(digits.subrange(0, k - start)),
        decreases n - k,
    {
        let c = s.get_char(k);
        if !('0' <= c && c <= '9') {
            assert(!is_digit(digits[k - start]));
            assert(!all_digits(digits));
            return None;
        }
        let d = (c as u32 - '0' as u32) as i64;
        let ghost prev = digits.subrange(0, k - start);
        assert(digits.subrange(0, k - start + 1).drop_last() =~= prev);
        let ghost pv = digits_value(prev);
        if acc == MAGNITUDE_CAP {
            assert(pv * 10 + d >= MAGNITUDE_CAP) by (nonlinear_arith)
                requires
                    pv >= MAGNITUDE_CAP,
                    d >= 0,
            ;
        } else {
            let next = acc * 10 + d;
            acc = if next >= MAGNITUDE_CAP {
                MAGNITUDE_CAP
            } else {
                next
            };
        }
        k = k + 1;
    }
    assert(digits.subrange(0, n - start) =~= digits);
    if acc >= MAGNITUDE_CAP {
        return None;
    }
    let v: i64 = if negative {
        -acc
    } else {
        acc
    };
    if v < i32::MIN as i64 || v > i32::MAX as i64 {
        None
    } else {
        Some(v as i32)
    }
}

} // verus!

//! Decimal numbers in text: integers, durations and dotted version strings.
use vstd::prelude::*;
use crate::text::{chars_of, split_chars, split_spec, views_of};

verus! {

pub open spec fn is_digit(c: char) -> bool {
    '0' <= c && c <= '9'
}

pub open spec fn digit_value(c: char) -> int {
    (c as u32) - ('0' as u32)
}

/// A non-empty run of ASCII digits.
pub open spec fn all_digits(s: Seq<char>) -> bool {
    s.len() > 0 && forall|i: int| 0 <= i < s.len() ==> is_digit(#[trigger] s[i])
}

/// The number that a run of digits spells in decimal.
pub open spec fn digits_value(s: Seq<char>) -> int
    decreases s.len(),
{
    if s.len() == 0 {
        0
    } else {
        digits_value(s.drop_last()) * 10 + digit_value(s.last())
    }
}

/// The integer that `s` spells: an optional `+` (or `-`, where `signed`)
/// followed by at least one digit, as `str::parse` reads it before it checks
/// the range of the target type.
pub open spec fn decimal_value(s: Seq<char>, signed: bool) -> Option<int> {
    if s.len() > 0 && s[0] == '+' {
        if all_digits(s.drop_first()) {
            Some(digits_value(s.drop_first()))
        } else {
            None
        }
    } else if signed && s.len() > 0 && s[0] == '-' {
        if all_digits(s.drop_first()) {
            Some(-digits_value(s.drop_first()))
        } else {
            None
        }
    } else if all_digits(s) {
        Some(digits_value(s))
    } else {
        None
    }
}

/// `decimal_value`, where it lies in `lo..=hi`.
pub open spec fn decimal_in(s: Seq<char>, signed: bool, lo: int, hi: int) -> Option<int> {
    match decimal_value(s, signed) {
        Some(v) => if lo <= v && v <= hi {
            Some(v)
        } else {
            None
        },
        None => None,
    }
}

/// What `s.parse::<i32>()` accepts, and its value.
pub open spec fn i32_value(s: Seq<char>) -> Option<int> {
    decimal_in(s, true, i32::MIN as int, i32::MAX as int)
}

/// What `s.parse::<u32>()` accepts, and its value.
pub open spec fn u32_value(s: Seq<char>) -> Option<int> {
    decimal_in(s, false, 0, u32::MAX as int)
}

/// What `s.parse::<i64>()` accepts, and its value.
pub open spec fn i64_value(s: Seq<char>) -> Option<int> {
    decimal_in(s, true, i64::MIN as int, i64::MAX as int)
}

proof fn lemma_digits_value_nonneg(s: Seq<char>)
    requires
        forall|i: int| 0 <= i < s.len() ==> is_digit(#[trigger] s[i]),
    ensures
        digits_value(s) >= 0,
    decreases s.len(),
{
    if s.len() > 0 {
        assert forall|i: int| 0 <= i < s.drop_last().len() implies is_digit(
            #[trigger] s.drop_last()[i],
        ) by {
            assert(s.drop_last()[i] == s[i]);
        }
        lemma_digits_value_nonneg(s.drop_last());
    }
}

const DIGITS_CAP: i128 = 9223372036854775808;

/// Reads the digits of `s` from index `start`; `None` unless they are a
/// non-empty run of digits. A value above `DIGITS_CAP` is reported as
/// `DIGITS_CAP + 1`.
fn read_digits(s: &Vec<char>, start: usize) -> (r: Option<i128>)
    requires
        start <= s.len(),
    ensures
        r is Some <==> all_digits(s@.subrange(start as int, s.len() as int)),
        r matches Some(v) ==> {
            &&& 0 <= v <= DIGITS_CAP * 10 + 9
            &&& v <= DIGITS_CAP ==> v == digits_value(s@.subrange(start as int, s.len() as int))
            &&& v > DIGITS_CAP ==> digits_value(s@.subrange(start as int, s.len() as int))
                > DIGITS_CAP
        },
{
    if start == s.len() {
        return None;
    }
    let mut acc: i128 = 0;
    let mut i: usize = start;
    while i < s.len()
        invariant
            start < s.len(),
            start <= i <= s.len(),
            forall|k: int| start <= k < i ==> is_digit(#[trigger] s@[k]),
            0 <= acc <= DIGITS_CAP * 10 + 9,
            acc <= DIGITS_CAP ==> acc == digits_value(s@.subrange(start as int, i as int)),
            acc > DIGITS_CAP ==> digits_value(s@.subrange(start as int, i as int)) > DIGITS_CAP,
        decreases s.len() - i,
    {
        let c = s[i];
        let ghost pre = s@.subrange(start as int, i as int);
        let ghost next = s@.subrange(start as int, i + 1);
        if !('0' <= c && c <= '9') {
            assert(!is_digit(s@.subrange(start as int, s.len() as int)[i - start]));
            return None;
        }
        assert(next.drop_last() =~= pre);
        assert(next.last() == c);
        proof {
            assert forall|k: int| 0 <= k < pre.len() implies is_digit(#[trigger] pre[k]) by {
                assert(pre[k] == s@[start + k]);
            }
            lemma_digits_value_nonneg(pre);
        }
        let d = (c as u32 - '0' as u32) as i128;
        if acc <= DIGITS_CAP {
            acc = acc * 10 + d;
        }
        i = i + 1;
    }
    assert(s@.subrange(start as int, s.len() as int).len() > 0);
    assert forall|k: int| 0 <= k < s@.subrange(start as int, s.len() as int).len() implies is_digit(
        #[trigger] s@.subrange(start as int, s.len() as int)[k],
    ) by {
        assert(s@.subrange(start as int, s.len() as int)[k] == s@[start + k]);
    }
    Some(acc)
}

/// Reads `s` as `str::parse` reads an integer type whose range is `lo..=hi`.
pub fn parse_decimal(s: &Vec<char>, signed: bool, lo: i64, hi: i64) -> (r: Option<i64>)
    ensures
        r is Some <==> decimal_in(s@, signed, lo as int, hi as int) is Some,
        r matches Some(v) ==> v as int == decimal_in(s@, signed, lo as int, hi as int)->0,
{
    let mut start: usize = 0;
    let mut negative = false;
    if s.len() > 0 && s[0] == '+' {
        start = 1;
    } else if signed && s.len() > 0 && s[0] == '-' {
        start = 1;
        negative = true;
    }
    assert(start == 1 ==> s@.subrange(1, s.len() as int) =~= s@.drop_first());
    assert(start == 0 ==> s@.subrange(0, s.len() as int) =~= s@);
    match read_digits(s, start) {
        None => None,
        Some(acc) => {
            if acc > DIGITS_CAP {
                return None;
            }
            let v: i128 = if negative {
                -acc
            } else {
                acc
            };
            if (lo as i128) <= v && v <= (hi as i128) {
                Some(v as i64)
            } else {
                None
            }
        },
    }
}

/// What `s.parse::<i32>()` gives.
pub fn parse_i32(s: &Vec<char>) -> (r: Option<i32>)
    ensures
        r is Some <==> i32_value(s@) is Some,
        r matches Some(v) ==> v as int == i32_value(s@)->0,
{
    match parse_decimal(s, true, i32::MIN as i64, i32::MAX as i64) {
        Some(v) => Some(v as i32),
        None => None,
    }
}

/// What `s.parse::<u32>()` gives.
pub fn parse_u32(s: &Vec<char>) -> (r: Option<u32>)
    ensures
        r is Some <==> u32_value(s@) is Some,
        r matches Some(v) ==> v as int == u32_value(s@)->0,
{
    match parse_decimal(s, false, 0, u32::MAX as i64) {
        Some(v) => Some(v as u32),
        None => None,
    }
}

/// What `s.parse::<i64>()` gives.
pub fn parse_i64(s: &Vec<char>) -> (r: Option<i64>)
    ensures
        r is Some <==> i64_value(s@) is Some,
        r matches Some(v) ==> v as int == i64_value(s@)->0,
{
    parse_decimal(s, true, i64::MIN, i64::MAX)
}

/// `v`, where it fits in an `i32`.
pub open spec fn fit_i32(v: int) -> Option<int> {
    if i32::MIN <= v && v <= i32::MAX {
        Some(v)
    } else {
        None
    }
}

/// A duration in seconds: plain seconds, `H:MM:SS` or `MM:SS`, each field an
/// `i32`; `None` for any other text or a total outside the `i32` range.
pub open spec fn duration_value(s: Seq<char>) -> Option<int> {
    if i32_value(s) is Some {
        i32_value(s)
    } else {
        let p = split_spec(s, ':');
        if p.len() == 3 {
            match (i32_value(p[0]), i32_value(p[1]), i32_value(p[2])) {
                (Some(h), Some(m), Some(x)) => fit_i32(h * 3600 + m * 60 + x),
                _ => None,
            }
        } else if p.len() == 2 {
            match (i32_value(p[0]), i32_value(p[1])) {
                (Some(m), Some(x)) => fit_i32(m * 60 + x),
                _ => None,
            }
        } else {
            None
        }
    }
}

/// Reads a duration given as seconds or as `H:MM:SS` / `MM:SS`.
pub fn parse_duration(duration_str: &str) -> (r: Option<i32>)
    ensures
        r is Some <==> duration_value(duration_str@) is Some,
        r matches Some(v) ==> v as int == duration_value(duration_str@)->0,
{
    let s = chars_of(duration_str);
    if let Some(seconds) = parse_i32(&s) {
        return Some(seconds);
    }
    let parts = split_chars(&s, ':');
    assert(views_of(parts@).len() == parts@.len());
    if parts.len() == 3 {
        assert(views_of(parts@)[0] == parts@[0]@);
        assert(views_of(parts@)[1] == parts@[1]@);
        assert(views_of(parts@)[2] == parts@[2]@);
        let h = parse_i32(&parts[0]);
        let m = parse_i32(&parts[1]);
        let x = parse_i32(&parts[2]);
        match (h, m, x) {
            (Some(h), Some(m), Some(x)) => {
                let total: i64 = (h as i64) * 3600 + (m as i64) * 60 + (x as i64);
                if i32::MIN as i64 <= total && total <= i32::MAX as i64 {
                    Some(total as i32)
                } else {
                    None
                }
            },
            _ => None,
        }
    } else if parts.len() == 2 {
        assert(views_of(parts@)[0] == parts@[0]@);
        assert(views_of(parts@)[1] == parts@[1]@);
        let m = parse_i32(&parts[0]);
        let x = parse_i32(&parts[1]);
        match (m, x) {
            (Some(m), Some(x)) => {
                let total: i64 = (m as i64) * 60 + (x as i64);
                if i32::MIN as i64 <= total && total <= i32::MAX as i64 {
                    Some(total as i32)
                } else {
                    None
                }
            },
            _ => None,
        }
    } else {
        None
    }
}

/// The numeric fields of a dotted version, those that do not read as a
/// `u32` left out.
pub open spec fn numeric_fields(ps: Seq<Seq<char>>) -> Seq<int>
    decreases ps.len(),
{
    if ps.len() == 0 {
        Seq::empty()
    } else {
        let r = numeric_fields(ps.drop_last());
        match u32_value(ps.last()) {
            Some(v) => r.push(v),
            None => r,
        }
    }
}

pub open spec fn version_fields(s: Seq<char>) -> Seq<int> {
    numeric_fields(split_spec(s, '.'))
}

/// Field `i` of a version, 0 where the version has fewer fields.
pub open spec fn field_or_zero(v: Seq<int>, i: int) -> int {
    if 0 <= i < v.len() {
        v[i]
    } else {
        0
    }
}

/// The first three fields, compared from field `i` on, make `latest` the
/// greater.
pub open spec fn newer_from(current: Seq<int>, latest: Seq<int>, i: int) -> bool
    decreases 3 - i,
{
    if i >= 3 {
        false
    } else if field_or_zero(latest, i) > field_or_zero(current, i) {
        true
    } else if field_or_zero(latest, i) < field_or_zero(current, i) {
        false
    } else {
        newer_from(current, latest, i + 1)
    }
}

/// `latest` is a newer version than `current`.
pub open spec fn is_newer(current: Seq<char>, latest: Seq<char>) -> bool {
    newer_from(version_fields(current), version_fields(latest), 0)
}

fn version_numbers(s: &str) -> (r: Vec<u32>)
    ensures
        r@.len() == version_fields(s@).len(),
        forall|i: int| 0 <= i < r@.len() ==> r@[i] as int == #[trigger] version_fields(s@)[i],
{
    let cs = chars_of(s);
    let parts = split_chars(&cs, '.');
    let ghost ps = views_of(parts@);
    let mut out: Vec<u32> = Vec::new();
    let mut i: usize = 0;
    while i < parts.len()
        invariant
            ps == split_spec(s@, '.'),
            ps == views_of(parts@),
            i <= parts.len(),
            out@.len() == numeric_fields(ps.subrange(0, i as int)).len(),
            forall|k: int|
                0 <= k < out@.len() ==> out@[k] as int == #[trigger] numeric_fields(
                    ps.subrange(0, i as int),
                )[k],
        decreases parts.len() - i,
    {
        assert(ps.subrange(0, i + 1).drop_last() =~= ps.subrange(0, i as int));
        assert(ps.subrange(0, i + 1).last() == parts@[i as int]@);
        if let Some(v) = parse_u32(&parts[i]) {
            out.push(v);
        }
        i = i + 1;
    }
    assert(ps.subrange(0, parts@.len() as int) =~= ps);
    out
}

/// Whether `latest` is a newer version than `current`: the first three
/// numeric fields are compared in turn, a missing one counting as 0.
pub fn is_newer_version(current: &str, latest: &str) -> (r: bool)
    ensures
        r == is_newer(current@, latest@),
{
    let c = version_numbers(current);
    let l = version_numbers(latest);
    let ghost cv = version_fields(current@);
    let ghost lv = version_fields(latest@);
    let mut i: usize = 0;
    while i < 3
        invariant
            cv == version_fields(current@),
            lv == version_fields(latest@),
            i <= 3,
            newer_from(cv, lv, 0) == newer_from(cv, lv, i as int),
            c@.len() == cv.len(),
            l@.len() == lv.len(),
            forall|k: int| 0 <= k < c@.len() ==> c@[k] as int == #[trigger] cv[k],
            forall|k: int| 0 <= k < l@.len() ==> l@[k] as int == #[trigger] lv[k],
        decreases 3 - i,
    {
        assert(newer_from(cv, lv, 3) == false);
        let cp: u32 = if i < c.len() {
            c[i]
        } else {
            0
        };
        let lp: u32 = if i < l.len() {
            l[i]
        } else {
            0
        };
        assert(cp as int == field_or_zero(cv, i as int));
        assert(lp as int == field_or_zero(lv, i as int));
        if lp > cp {
            assert(newer_from(cv, lv, i as int));
            return true;
        } else if lp < cp {
            assert(!newer_from(cv, lv, i as int));
            return false;
        }
        assert(newer_from(cv, lv, i as int) == newer_from(cv, lv, i + 1));
        i = i + 1;
    }
    false
}

/// A release tag without its leading `v`s.
pub open spec fn without_v(s: Seq<char>) -> Seq<char>
    decreases s.len(),
{
    if s.len() > 0 && s[0] == 'v' {
        without_v(s.drop_first())
    } else {
        s
    }
}

/// The version a release tag names: the tag without its leading `v`s, as
/// `trim_start_matches('v')` leaves it.
pub fn version_of_tag(tag: &str) -> (r: String)
    ensures
        r@ == without_v(tag@),
{
    let cs = chars_of(tag);
    let mut i: usize = 0;
    assert(cs@.subrange(0, cs@.len() as int) =~= cs@);
    while i < cs.len() && cs[i] == 'v'
        invariant
            i <= cs.len(),
            without_v(cs@) == without_v(cs@.subrange(i as int, cs@.len() as int)),
        decreases cs.len() - i,
    {
        assert(cs@.subrange(i as int, cs@.len() as int).drop_first() =~= cs@.subrange(
            i + 1,
            cs@.len() as int,
        ));
        i = i + 1;
    }
    let mut out: Vec<char> = Vec::new();
    let mut j: usize = i;
    while j < cs.len()
        invariant
            i <= j <= cs.len(),
            out@ == cs@.subrange(i as int, j as int),
        decreases cs.len() - j,
    {
        out.push(cs[j]);
        j = j + 1;
        assert(out@ =~= cs@.subrange(i as int, j as int));
    }
    assert(without_v(cs@.subrange(i as int, cs@.len() as int)) == cs@.subrange(
        i as int,
        cs@.len() as int,
    ));
    crate::text::string_from(&out)
}

} // verus!

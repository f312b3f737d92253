//! Small text helpers shared by tag reading and the edit forms:
//! whitespace trimming, optional-field normalisation, and decimal
//! parsing for numeric tag fields.
//!
//! Everything is specified over the character view of the input.

use vstd::prelude::*;

verus! {

/// The whitespace characters `str::trim` removes.
pub open spec fn is_ws_char(c: char) -> bool {
    ||| c as u32 == 9
    ||| c as u32 == 10
    ||| c as u32 == 11
    ||| c as u32 == 12
    ||| c as u32 == 13
    ||| c as u32 == 32
    ||| c as u32 == 0x85
    ||| c as u32 == 0xA0
    ||| c as u32 == 0x1680
    ||| (0x2000 <= c as u32 <= 0x200A)
    ||| c as u32 == 0x2028
    ||| c as u32 == 0x2029
    ||| c as u32 == 0x202F
    ||| c as u32 == 0x205F
    ||| c as u32 == 0x3000
}

/// How many whitespace characters `s` starts with.
pub open spec fn ws_prefix(s: Seq<char>) -> int
    decreases s.len(),
{
    if s.len() == 0 || !is_ws_char(s[0]) {
        0
    } else {
        1 + ws_prefix(s.drop_first())
    }
}

/// How many whitespace characters `s` ends with.
pub open spec fn ws_suffix(s: Seq<char>) -> int
    decreases s.len(),
{
    if s.len() == 0 || !is_ws_char(s.last()) {
        0
    } else {
        1 + ws_suffix(s.drop_last())
    }
}

/// `s` with leading and trailing whitespace removed.
pub open spec fn trimmed(s: Seq<char>) -> Seq<char> {
    if ws_prefix(s) == s.len() {
        Seq::empty()
    } else {
        s.subrange(ws_prefix(s), s.len() - ws_suffix(s))
    }
}

pub proof fn lemma_ws_prefix(s: Seq<char>)
    ensures
        0 <= ws_prefix(s) <= s.len(),
        forall|i: int| 0 <= i < ws_prefix(s) ==> is_ws_char(#[trigger] s[i]),
        ws_prefix(s) < s.len() ==> !is_ws_char(s[ws_prefix(s)]),
    decreases s.len(),
{
    if s.len() > 0 && is_ws_char(s[0]) {
        lemma_ws_prefix(s.drop_first());
        assert forall|i: int| 0 <= i < ws_prefix(s) implies is_ws_char(#[trigger] s[i]) by {
            if i > 0 {
                assert(s.drop_first()[i - 1] == s[i]);
                assert(is_ws_char(s.drop_first()[i - 1]));
            }
        }
        if ws_prefix(s) < s.len() {
            assert(s.drop_first()[ws_prefix(s) - 1] == s[ws_prefix(s)]);
        }
    }
}

pub proof fn lemma_ws_suffix(s: Seq<char>)
    ensures
        0 <= ws_suffix(s) <= s.len(),
        forall|i: int| s.len() - ws_suffix(s) <= i < s.len() ==> is_ws_char(#[trigger] s[i]),
        ws_suffix(s) < s.len() ==> !is_ws_char(s[s.len() - ws_suffix(s) - 1]),
    decreases s.len(),
{
    if s.len() > 0 && is_ws_char(s.last()) {
        lemma_ws_suffix(s.drop_last());
        assert(forall|i: int| 0 <= i < s.len() - 1 ==> s.drop_last()[i] == #[trigger] s[i]);
    }
}

/// When something non-whitespace remains, the first non-whitespace
/// character comes no later than the last one.
pub proof fn lemma_trim_bounds(s: Seq<char>)
    ensures
        ws_prefix(s) < s.len() ==> ws_prefix(s) <= s.len() - ws_suffix(s),
        ws_prefix(s) < s.len() ==> ws_suffix(s) < s.len(),
{
    lemma_ws_prefix(s);
    lemma_ws_suffix(s);
    if ws_prefix(s) < s.len() {
        if ws_prefix(s) > s.len() - ws_suffix(s) {
            assert(is_ws_char(s[ws_prefix(s)]));
        }
    }
}

/// Whether `c` is one of the whitespace characters `str::trim` removes.
pub fn is_ws(c: char) -> (r: bool)
    ensures
        r == is_ws_char(c),
{
    let v: u32 = c as u32;
    v == 9 || v == 10 || v == 11 || v == 12 || v == 13 || v == 32 || v == 0x85 || v == 0xA0
        || v == 0x1680 || (0x2000 <= v && v <= 0x200A) || v == 0x2028 || v == 0x2029 || v == 0x202F
        || v == 0x205F || v == 0x3000
}

/// The bounds of `s` between `lo` and `hi` with surrounding whitespace
/// dropped: the trimmed content is exactly `s@.subrange(r.0, r.1)`.
pub fn trim_range(s: &str, lo: usize, hi: usize) -> (r: (usize, usize))
    requires
        lo <= hi <= s@.len(),
    ensures
        lo <= r.0 <= r.1 <= hi,
        s@.subrange(r.0 as int, r.1 as int) == trimmed(s@.subrange(lo as int, hi as int)),
{
    let ghost t = s@.subrange(lo as int, hi as int);
    proof {
        lemma_ws_prefix(t);
        lemma_ws_suffix(t);
        lemma_trim_bounds(t);
    }
    let mut a: usize = lo;
    while a < hi && is_ws(s.get_char(a))
        invariant
            lo <= a <= hi <= s@.len(),
            forall|i: int| lo <= i < a ==> is_ws_char(#[trigger] s@[i]),
        decreases hi - a,
    {
        a = a + 1;
    }
    // a is the first non-whitespace position (or hi).
    proof {
        assert(forall|i: int| 0 <= i < a - lo ==> t[i] == #[trigger] s@[lo + i]);
        if a < hi {
            assert(!is_ws_char(t[a - lo]));
        }
        if ws_prefix(t) < a - lo {
            assert(is_ws_char(s@[lo + ws_prefix(t)]));
        }
        if a - lo < ws_prefix(t) {
            assert(is_ws_char(t[a - lo]));
        }
        assert(ws_prefix(t) == a - lo);
    }
    if a == hi {
        proof {
            assert(trimmed(t) =~= s@.subrange(a as int, a as int));
        }
        return (a, a);
    }
    let mut b: usize = hi;
    while b > a && is_ws(s.get_char(b - 1))
        invariant
            lo <= a <= b <= hi <= s@.len(),
            forall|i: int| b <= i < hi ==> is_ws_char(#[trigger] s@[i]),
        decreases b,
    {
        b = b - 1;
    }
    // b is one past the last non-whitespace position.
    proof {
        assert(forall|i: int| 0 <= i < hi - lo ==> t[i] == #[trigger] s@[lo + i]);
        assert(!is_ws_char(s@[a as int]));
        assert(b > a);
        assert(!is_ws_char(s@[b - 1]));
        if ws_suffix(t) < hi - b {
            assert(is_ws_char(t[t.len() - ws_suffix(t) - 1]));
        }
        if hi - b < ws_suffix(t) {
            assert(is_ws_char(t[b - lo - 1]));
        }
        assert(ws_suffix(t) == hi - b);
        assert(trimmed(t) =~= s@.subrange(a as int, b as int));
    }
    (a, b)
}

/// Whether `c` is an ASCII decimal digit.
pub open spec fn is_digit(c: char) -> bool {
    48 <= c as u32 <= 57
}

/// Whether `s` consists of decimal digits only.
pub open spec fn all_digits(s: Seq<char>) -> bool {
    forall|i: int| 0 <= i < s.len() ==> is_digit(#[trigger] s[i])
}

/// The value of a string of decimal digits.
pub open spec fn dec_value(s: Seq<char>) -> int
    recommends
        all_digits(s),
    decreases s.len(),
{
    if s.len() == 0 {
        0
    } else {
        dec_value(s.drop_last()) * 10 + (s.last() as u32 - 48)
    }
}

pub proof fn lemma_dec_value_nonneg(s: Seq<char>)
    requires
        all_digits(s),
    ensures
        dec_value(s) >= 0,
    decreases s.len(),
{
    if s.len() > 0 {
        assert(forall|i: int| 0 <= i < s.len() - 1 ==> s.drop_last()[i] == #[trigger] s[i]);
        lemma_dec_value_nonneg(s.drop_last());
    }
}

/// Dropping trailing digits never increases the value.
pub proof fn lemma_dec_value_prefix_le(s: Seq<char>, k: int)
    requires
        all_digits(s),
        0 <= k <= s.len(),
    ensures
        dec_value(s.take(k)) <= dec_value(s),
    decreases s.len() - k,
{
    if k == s.len() {
        assert(s.take(k) =~= s);
    } else {
        lemma_dec_value_prefix_le(s, k + 1);
        assert(s.take(k + 1).drop_last() =~= s.take(k));
        assert(s.take(k + 1).last() == s[k]);
        assert(forall|i: int| 0 <= i < k ==> s.take(k)[i] == #[trigger] s[i]);
        lemma_dec_value_nonneg(s.take(k));
    }
}

/// Parse the digits in `s[lo..hi)` into their value when they are all
/// digits, at least one, and the value is at most `max`; nothing
/// otherwise.
fn parse_digits_range(s: &str, lo: usize, hi: usize, max: u64) -> (r: Option<u64>)
    requires
        lo <= hi <= s@.len(),
        max <= 0xffff_ffff_ffff,
    ensures
        ({
            let d = s@.subrange(lo as int, hi as int);
            if d.len() >= 1 && all_digits(d) && dec_value(d) <= max {
                r == Some(dec_value(d) as u64)
            } else {
                r is None
            }
        }),
{
    let ghost d = s@.subrange(lo as int, hi as int);
    if lo == hi {
        return Option::None;
    }
    let mut v: u64 = 0;
    let mut i: usize = lo;
    while i < hi
        invariant
            lo <= i <= hi <= s@.len(),
            max <= 0xffff_ffff_ffff,
            d == s@.subrange(lo as int, hi as int),
            all_digits(s@.subrange(lo as int, i as int)),
            v == dec_value(s@.subrange(lo as int, i as int)),
            v <= max,
        decreases hi - i,
    {
        let c = s.get_char(i);
        let cv: u32 = c as u32;
        if cv < 48 || cv > 57 {
            proof {
                assert(d[i - lo] == s@[i as int]);
            }
            return Option::None;
        }
        let digit: u64 = (cv - 48) as u64;
        proof {
            assert(s@.subrange(lo as int, i + 1).drop_last() =~= s@.subrange(lo as int, i as int));
            assert(s@.subrange(lo as int, i + 1).last() == s@[i as int]);
            assert(forall|j: int|
                0 <= j < i + 1 - lo ==> s@.subrange(lo as int, i + 1)[j] == #[trigger] s@[lo + j]);
            assert(forall|j: int|
                0 <= j < i - lo ==> s@.subrange(lo as int, i as int)[j] == #[trigger] s@[lo + j]);
            assert(all_digits(s@.subrange(lo as int, i + 1)));
        }
        let nv: u64 = v * 10 + digit;
        if nv > max {
            proof {
                if all_digits(d) && dec_value(d) <= max {
                    lemma_dec_value_prefix_le(d, i + 1 - lo);
                    assert(d.take(i + 1 - lo) =~= s@.subrange(lo as int, i + 1));
                }
            }
            return Option::None;
        }
        v = nv;
        i = i + 1;
    }
    proof {
        assert(s@.subrange(lo as int, i as int) =~= d);
    }
    Option::Some(v)
}

/// Trimming is idempotent: trimmed content has nothing left to trim.
pub proof fn lemma_trimmed_idempotent(s: Seq<char>)
    ensures
        trimmed(trimmed(s)) == trimmed(s),
{
    lemma_ws_prefix(s);
    lemma_ws_suffix(s);
    lemma_trim_bounds(s);
    let t = trimmed(s);
    if ws_prefix(s) == s.len() {
        assert(trimmed(t) =~= t);
    } else {
        assert(t[0] == s[ws_prefix(s)]);
        assert(t.last() == s[s.len() - ws_suffix(s) - 1]);
        assert(ws_prefix(t) == 0);
        assert(ws_suffix(t) == 0);
        assert(trimmed(t) =~= t);
    }
}

/// The digit part of an optionally `+`-signed number.
pub open spec fn unsigned_digits(t: Seq<char>) -> Seq<char> {
    if t.len() > 0 && t[0] == '+' {
        t.drop_first()
    } else {
        t
    }
}

/// Whether `t` parses as a `u32`: an optional `+`, then at least one
/// digit, with a value that fits.
pub open spec fn u32_parse_ok(t: Seq<char>) -> bool {
    let d = unsigned_digits(t);
    d.len() >= 1 && all_digits(d) && dec_value(d) <= u32::MAX
}

/// Whether a signed number is negative.
pub open spec fn signed_neg(t: Seq<char>) -> bool {
    t.len() > 0 && t[0] == '-'
}

/// The digit part of an optionally `+`- or `-`-signed number.
pub open spec fn signed_digits(t: Seq<char>) -> Seq<char> {
    if t.len() > 0 && (t[0] == '+' || t[0] == '-') {
        t.drop_first()
    } else {
        t
    }
}

/// Whether `t` parses as an `i32`: an optional sign, then at least one
/// digit, with a value that fits.
pub open spec fn i32_parse_ok(t: Seq<char>) -> bool {
    let d = signed_digits(t);
    &&& d.len() >= 1
    &&& all_digits(d)
    &&& if signed_neg(t) {
        dec_value(d) <= 0x8000_0000
    } else {
        dec_value(d) <= 0x7fff_ffff
    }
}

/// The value `t` parses to as an `i32`.
pub open spec fn i32_value(t: Seq<char>) -> int
    recommends
        i32_parse_ok(t),
{
    if signed_neg(t) {
        -dec_value(signed_digits(t))
    } else {
        dec_value(signed_digits(t))
    }
}

/// Parse an optional `u32` field: whitespace-only input is absent, a
/// well-formed number is its value, anything else is an error.
pub fn parse_optional_u32(s: &str) -> (r: Result<Option<u32>, ()>)
    ensures
        ({
            let t = trimmed(s@);
            if t.len() == 0 {
                r == Result::<Option<u32>, ()>::Ok(Option::None)
            } else if u32_parse_ok(t) {
                r == Result::<Option<u32>, ()>::Ok(
                    Option::Some(dec_value(unsigned_digits(t)) as u32),
                )
            } else {
                r == Result::<Option<u32>, ()>::Err(())
            }
        }),
{
    let n: usize = s.unicode_len();
    let (lo, hi) = trim_range(s, 0, n);
    proof {
        assert(s@.subrange(0, n as int) =~= s@);
        lemma_trimmed_idempotent(s@);
    }
    if lo == hi {
        return Result::Ok(Option::None);
    }
    match parse_u32_part(s, lo, hi) {
        Option::Some(v) => Result::Ok(Option::Some(v)),
        Option::None => Result::Err(()),
    }
}

/// Parse an optional `i32` field: whitespace-only input is absent, a
/// well-formed number is its value, anything else is an error.
pub fn parse_optional_i32(s: &str) -> (r: Result<Option<i32>, ()>)
    ensures
        ({
            let t = trimmed(s@);
            if t.len() == 0 {
                r == Result::<Option<i32>, ()>::Ok(Option::None)
            } else if i32_parse_ok(t) {
                r == Result::<Option<i32>, ()>::Ok(Option::Some(i32_value(t) as i32))
            } else {
                r == Result::<Option<i32>, ()>::Err(())
            }
        }),
{
    let n: usize = s.unicode_len();
    let (lo, hi) = trim_range(s, 0, n);
    proof {
        assert(s@.subrange(0, n as int) =~= s@);
        lemma_trimmed_idempotent(s@);
    }
    if lo == hi {
        return Result::Ok(Option::None);
    }
    match parse_i32_part(s, lo, hi) {
        Option::Some(v) => Result::Ok(Option::Some(v)),
        Option::None => Result::Err(()),
    }
}

/// Parse the trimmed content of `s[lo..hi)` as an `i32`, or nothing.
pub fn parse_i32_part(s: &str, lo: usize, hi: usize) -> (r: Option<i32>)
    requires
        lo <= hi <= s@.len(),
    ensures
        ({
            let t = trimmed(s@.subrange(lo as int, hi as int));
            if i32_parse_ok(t) {
                r == Some(i32_value(t) as i32)
            } else {
                r is None
            }
        }),
{
    let (a, b) = trim_range(s, lo, hi);
    if a == b {
        return Option::None;
    }
    let ghost t = trimmed(s@.subrange(lo as int, hi as int));
    let first = s.get_char(a);
    let negative = first == '-';
    let start: usize = if first == '+' || first == '-' {
        a + 1
    } else {
        a
    };
    proof {
        assert(signed_digits(t) =~= s@.subrange(start as int, b as int));
    }
    let bound: u64 = if negative {
        0x8000_0000
    } else {
        0x7fff_ffff
    };
    match parse_digits_range(s, start, b, bound) {
        Option::Some(v) => {
            proof {
                lemma_dec_value_nonneg(s@.subrange(start as int, b as int));
            }
            if negative {
                let m: i64 = -(v as i64);
                Option::Some(m as i32)
            } else {
                Option::Some(v as i32)
            }
        },
        Option::None => Option::None,
    }
}

/// The length of `t` up to (not including) the first `stop` character.
pub open spec fn until_char(t: Seq<char>, stop: char) -> int
    decreases t.len(),
{
    if t.len() == 0 || t[0] == stop {
        0
    } else {
        1 + until_char(t.drop_first(), stop)
    }
}

pub proof fn lemma_until_char(t: Seq<char>, stop: char)
    ensures
        0 <= until_char(t, stop) <= t.len(),
        forall|i: int| 0 <= i < until_char(t, stop) ==> #[trigger] t[i] != stop,
        until_char(t, stop) < t.len() ==> t[until_char(t, stop)] == stop,
    decreases t.len(),
{
    if t.len() > 0 && t[0] != stop {
        lemma_until_char(t.drop_first(), stop);
        assert forall|i: int| 0 <= i < until_char(t, stop) implies #[trigger] t[i] != stop by {
            if i > 0 {
                assert(t.drop_first()[i - 1] == t[i]);
            }
        }
        if until_char(t, stop) < t.len() {
            assert(t.drop_first()[until_char(t, stop) - 1] == t[until_char(t, stop)]);
        }
    }
}

/// What stands before the first `/` of `t`.
pub open spec fn slash_first(t: Seq<char>) -> Seq<char> {
    t.subrange(0, until_char(t, '/'))
}

/// Whether `t` has a part after a `/`.
pub open spec fn slash_has_second(t: Seq<char>) -> bool {
    until_char(t, '/') < t.len()
}

/// What stands between the first `/` of `t` and the second, or its end.
pub open spec fn slash_second(t: Seq<char>) -> Seq<char>
    recommends
        slash_has_second(t),
{
    let rest = t.subrange(until_char(t, '/') + 1, t.len() as int);
    rest.subrange(0, until_char(rest, '/'))
}

/// Parse the trimmed content of `s[lo..hi)` as a `u32`, or nothing.
pub fn parse_u32_part(s: &str, lo: usize, hi: usize) -> (r: Option<u32>)
    requires
        lo <= hi <= s@.len(),
    ensures
        ({
            let t = trimmed(s@.subrange(lo as int, hi as int));
            if u32_parse_ok(t) {
                r == Some(dec_value(unsigned_digits(t)) as u32)
            } else {
                r is None
            }
        }),
{
    let (a, b) = trim_range(s, lo, hi);
    if a == b {
        return Option::None;
    }
    let ghost t = trimmed(s@.subrange(lo as int, hi as int));
    let first = s.get_char(a);
    let start: usize = if first == '+' {
        a + 1
    } else {
        a
    };
    proof {
        assert(unsigned_digits(t) =~= s@.subrange(start as int, b as int));
    }
    match parse_digits_range(s, start, b, 0xffff_ffff) {
        Option::Some(v) => {
            proof {
                lemma_dec_value_nonneg(s@.subrange(start as int, b as int));
            }
            Option::Some(v as u32)
        },
        Option::None => Option::None,
    }
}

/// Parse a `track/total` pair such as `"3"` or `"3/12"`: each side is
/// its own optional number; everything after a second `/` is ignored.
pub fn parse_slash_pair_u32(s: Option<&str>) -> (r: (Option<u32>, Option<u32>))
    ensures
        s is None ==> r == (Option::<u32>::None, Option::<u32>::None),
        s matches Some(x) ==> ({
            let t = trimmed(x@);
            if t.len() == 0 {
                r == (Option::<u32>::None, Option::<u32>::None)
            } else {
                ({
                    let a = trimmed(slash_first(t));
                    &&& r.0 == if u32_parse_ok(a) {
                        Option::Some(dec_value(unsigned_digits(a)) as u32)
                    } else {
                        Option::<u32>::None
                    }
                    &&& r.1 == if slash_has_second(t) && u32_parse_ok(trimmed(slash_second(t))) {
                        Option::Some(dec_value(unsigned_digits(trimmed(slash_second(t)))) as u32)
                    } else {
                        Option::<u32>::None
                    }
                })
            }
        }),
{
    let x = match s {
        Option::Some(x) => x,
        Option::None => {
            return (Option::None, Option::None);
        },
    };
    let n: usize = x.unicode_len();
    let (lo, hi) = trim_range(x, 0, n);
    proof {
        assert(x@.subrange(0, n as int) =~= x@);
    }
    if lo == hi {
        return (Option::None, Option::None);
    }
    let ghost t = trimmed(x@);
    proof {
        lemma_until_char(t, '/');
    }
    // Find the first slash of the trimmed content.
    let mut sl: usize = lo;
    while sl < hi && x.get_char(sl) != '/'
        invariant
            lo <= sl <= hi <= x@.len(),
            forall|i: int| lo <= i < sl ==> #[trigger] x@[i] != '/',
        decreases hi - sl,
    {
        sl = sl + 1;
    }
    proof {
        assert(forall|i: int| 0 <= i < hi - lo ==> t[i] == #[trigger] x@[lo + i]);
        if until_char(t, '/') < sl - lo {
            assert(x@[lo + until_char(t, '/')] == '/');
        }
        if sl - lo < until_char(t, '/') {
            assert(t[sl - lo] != '/');
        }
        assert(until_char(t, '/') == sl - lo);
        assert(slash_first(t) =~= x@.subrange(lo as int, sl as int));
    }
    let first = parse_u32_part(x, lo, sl);
    if sl == hi {
        return (first, Option::None);
    }
    // Find the end of the second part: the next slash, or the end.
    let ghost rest = t.subrange(until_char(t, '/') + 1, t.len() as int);
    proof {
        lemma_until_char(rest, '/');
    }
    let mut e: usize = sl + 1;
    while e < hi && x.get_char(e) != '/'
        invariant
            sl + 1 <= e <= hi <= x@.len(),
            forall|i: int| sl + 1 <= i < e ==> #[trigger] x@[i] != '/',
        decreases hi - e,
    {
        e = e + 1;
    }
    proof {
        assert(forall|i: int| 0 <= i < rest.len() ==> rest[i] == #[trigger] x@[sl + 1 + i]);
        if until_char(rest, '/') < e - (sl + 1) {
            assert(x@[sl + 1 + until_char(rest, '/')] == '/');
        }
        if e - (sl + 1) < until_char(rest, '/') {
            assert(rest[e - (sl + 1)] != '/');
        }
        assert(until_char(rest, '/') == e - (sl + 1));
        assert(slash_second(t) =~= x@.subrange(sl + 1, e as int));
    }
    let second = parse_u32_part(x, sl + 1, e);
    (first, second)
}

/// The code point of `c` with an ASCII capital letter lowered.
pub open spec fn lower_u32(c: char) -> u32 {
    if 65 <= c as u32 <= 90 {
        (c as u32 + 32) as u32
    } else {
        c as u32
    }
}

/// Whether `t` equals the (lower-case) word `w` up to ASCII case.
pub open spec fn matches_ci(t: Seq<char>, w: Seq<char>) -> bool {
    t.len() == w.len() && forall|i: int| 0 <= i < t.len() ==> lower_u32(#[trigger] t[i]) == w[i]
        as u32
}

/// What a boolean-ish tag value means, if anything: `1`, `true`, `yes`
/// and `y` affirm; `0`, `false`, `no` and `n` deny; case does not
/// matter.
pub open spec fn boolish_of(t: Seq<char>) -> Option<bool> {
    if matches_ci(t, seq!['1']) || matches_ci(t, seq!['t', 'r', 'u', 'e']) || matches_ci(
        t,
        seq!['y', 'e', 's'],
    ) || matches_ci(t, seq!['y']) {
        Option::Some(true)
    } else if matches_ci(t, seq!['0']) || matches_ci(t, seq!['f', 'a', 'l', 's', 'e'])
        || matches_ci(t, seq!['n', 'o']) || matches_ci(t, seq!['n']) {
        Option::Some(false)
    } else {
        Option::None
    }
}

/// The character of `s` at `i`, with an ASCII capital letter lowered.
fn lower_char_at(s: &str, i: usize) -> (r: u32)
    requires
        i < s@.len(),
    ensures
        r == lower_u32(s@[i as int]),
{
    let v: u32 = s.get_char(i) as u32;
    if 65 <= v && v <= 90 {
        v + 32
    } else {
        v
    }
}

/// Whether the trimmed content `s[lo..hi)` equals the lower-case ASCII
/// word `w` up to case.
pub fn matches_word_ci(s: &str, lo: usize, hi: usize, w: &str) -> (r: bool)
    requires
        lo <= hi <= s@.len(),
    ensures
        r == matches_ci(s@.subrange(lo as int, hi as int), w@),
{
    let ghost t = s@.subrange(lo as int, hi as int);
    let wn: usize = w.unicode_len();
    if hi - lo != wn {
        return false;
    }
    let mut i: usize = 0;
    while i < wn
        invariant
            0 <= i <= wn,
            wn == hi - lo,
            lo <= hi <= s@.len(),
            wn == w@.len(),
            t == s@.subrange(lo as int, hi as int),
            forall|j: int| 0 <= j < i ==> lower_u32(#[trigger] t[j]) == w@[j] as u32,
        decreases wn - i,
    {
        let cv = lower_char_at(s, lo + i);
        let wv: u32 = w.get_char(i) as u32;
        if cv != wv {
            proof {
                assert(t[i as int] == s@[lo + i]);
            }
            return false;
        }
        proof {
            assert(t[i as int] == s@[lo + i]);
        }
        i = i + 1;
    }
    true
}

/// Parse a boolean-ish tag value: `1`/`true`/`yes`/`y` and
/// `0`/`false`/`no`/`n`, in any ASCII case, with surrounding
/// whitespace ignored.
pub fn parse_boolish(s: &str) -> (r: Option<bool>)
    ensures
        r == boolish_of(trimmed(s@)),
{
    let n: usize = s.unicode_len();
    let (lo, hi) = trim_range(s, 0, n);
    proof {
        assert(s@.subrange(0, n as int) =~= s@);
        reveal_strlit("1");
        reveal_strlit("true");
        reveal_strlit("yes");
        reveal_strlit("y");
        reveal_strlit("0");
        reveal_strlit("false");
        reveal_strlit("no");
        reveal_strlit("n");
        assert("1"@ =~= seq!['1']);
        assert("true"@ =~= seq!['t', 'r', 'u', 'e']);
        assert("yes"@ =~= seq!['y', 'e', 's']);
        assert("y"@ =~= seq!['y']);
        assert("0"@ =~= seq!['0']);
        assert("false"@ =~= seq!['f', 'a', 'l', 's', 'e']);
        assert("no"@ =~= seq!['n', 'o']);
        assert("n"@ =~= seq!['n']);
    }
    if matches_word_ci(s, lo, hi, "1") || matches_word_ci(s, lo, hi, "true") || matches_word_ci(
        s,
        lo,
        hi,
        "yes",
    ) || matches_word_ci(s, lo, hi, "y") {
        Option::Some(true)
    } else if matches_word_ci(s, lo, hi, "0") || matches_word_ci(s, lo, hi, "false")
        || matches_word_ci(s, lo, hi, "no") || matches_word_ci(s, lo, hi, "n") {
        Option::Some(false)
    } else {
        Option::None
    }
}

/// Normalise a free-text field: whitespace-only input is absent, and a
/// present value is kept trimmed.
pub fn clean_optional_string(s: &str) -> (r: Option<String>)
    ensures
        trimmed(s@).len() == 0 ==> r is None,
        trimmed(s@).len() > 0 ==> (r matches Some(t) && t@ == trimmed(s@)),
{
    let n: usize = s.unicode_len();
    let (lo, hi) = trim_range(s, 0, n);
    proof {
        assert(s@.subrange(0, n as int) =~= s@);
    }
    if lo == hi {
        Option::None
    } else {
        let part = s.substring_char(lo, hi);
        Option::Some(part.to_owned())
    }
}

} // verus!

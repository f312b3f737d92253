//! Edit-form input handling: how a text field's content is applied to a
//! track's metadata.
//!
//! A field holding the keep sentinel (`<keep>`) is left alone. In batch
//! mode, a value that still equals the primary track's original value is
//! treated as kept too, so an untouched form does not overwrite every
//! selected track. An emptied field deletes the value; anything else
//! replaces it, trimmed.

use vstd::prelude::*;

use crate::text::i32_parse_ok;
use crate::text::i32_value;
use crate::text::dec_value;
use crate::text::parse_i32_part;
use crate::text::parse_u32_part;
use crate::text::trim_range;
use crate::text::trimmed;
use crate::text::u32_parse_ok;
use crate::text::unsigned_digits;

verus! {

/// The sentinel a field shows when a batch edit should keep each
/// track's own value.
pub open spec fn keep_word() -> Seq<char> {
    seq!['<', 'k', 'e', 'e', 'p', '>']
}

/// Whether `s[lo..hi)` is exactly the keep sentinel.
fn is_keep_range(s: &str, lo: usize, hi: usize) -> (r: bool)
    requires
        lo <= hi <= s@.len(),
    ensures
        r == (s@.subrange(lo as int, hi as int) == keep_word()),
{
    let ghost t = s@.subrange(lo as int, hi as int);
    proof {
        assert(t.len() == hi - lo);
        assert(keep_word().len() == 6);
    }
    if hi - lo != 6 {
        return false;
    }
    let r = s.get_char(lo) == '<' && s.get_char(lo + 1) == 'k' && s.get_char(lo + 2) == 'e'
        && s.get_char(lo + 3) == 'e' && s.get_char(lo + 4) == 'p' && s.get_char(lo + 5) == '>';
    proof {
        assert(t[0] == s@[lo as int]);
        assert(t[1] == s@[lo + 1]);
        assert(t[2] == s@[lo + 2]);
        assert(t[3] == s@[lo + 3]);
        assert(t[4] == s@[lo + 4]);
        assert(t[5] == s@[lo + 5]);
        if r {
            assert(t =~= keep_word());
        }
    }
    r
}

/// Whether two character ranges hold the same text.
fn eq_ranges(s: &str, lo: usize, hi: usize, w: &str, wlo: usize, whi: usize) -> (r: bool)
    requires
        lo <= hi <= s@.len(),
        wlo <= whi <= w@.len(),
    ensures
        r == (s@.subrange(lo as int, hi as int) == w@.subrange(wlo as int, whi as int)),
{
    let ghost a = s@.subrange(lo as int, hi as int);
    let ghost b = w@.subrange(wlo as int, whi as int);
    proof {
        assert(a.len() == hi - lo);
        assert(b.len() == whi - wlo);
    }
    if hi - lo != whi - wlo {
        return false;
    }
    let n: usize = hi - lo;
    let mut i: usize = 0;
    while i < n
        invariant
            0 <= i <= n,
            n == hi - lo == whi - wlo,
            lo <= hi <= s@.len(),
            wlo <= whi <= w@.len(),
            a == s@.subrange(lo as int, hi as int),
            b == w@.subrange(wlo as int, whi as int),
            forall|j: int| 0 <= j < i ==> #[trigger] a[j] == b[j],
        decreases n - i,
    {
        let cs = s.get_char(lo + i);
        let cw = w.get_char(wlo + i);
        proof {
            assert(a[i as int] == s@[lo + i]);
            assert(b[i as int] == w@[wlo + i]);
        }
        if cs != cw {
            return false;
        }
        i = i + 1;
    }
    proof {
        assert(a =~= b);
    }
    true
}

/// Apply a text field to an optional string value: the keep sentinel
/// changes nothing; in batch mode a value equal to the primary track's
/// original (both trimmed) changes nothing either; an emptied field
/// deletes the value, anything else replaces it, trimmed.
pub fn apply_opt_keep_batch(
    dst: &mut Option<String>,
    input: &str,
    is_batch: bool,
    primary_value: Option<&str>,
)
    ensures
        ({
            let t = trimmed(input@);
            if t == keep_word() {
                *final(dst) == *old(dst)
            } else if is_batch && (primary_value matches Some(pv) && trimmed(pv@) == t) {
                *final(dst) == *old(dst)
            } else if t.len() == 0 {
                *final(dst) is None
            } else {
                (*final(dst)) matches Some(v) && v@ == t
            }
        }),
{
    let n: usize = input.unicode_len();
    let (lo, hi) = trim_range(input, 0, n);
    proof {
        assert(input@.subrange(0, n as int) =~= input@);
    }
    if is_keep_range(input, lo, hi) {
        return ;
    }
    if is_batch {
        if let Option::Some(pv) = primary_value {
            let m: usize = pv.unicode_len();
            let (plo, phi) = trim_range(pv, 0, m);
            proof {
                assert(pv@.subrange(0, m as int) =~= pv@);
            }
            if eq_ranges(input, lo, hi, pv, plo, phi) {
                return ;
            }
        }
    }
    if lo == hi {
        *dst = Option::None;
    } else {
        *dst = Option::Some(input.substring_char(lo, hi).to_owned());
    }
}

/// Apply a numeric field to an optional `u32`: the keep sentinel keeps
/// the current value, an emptied field deletes it, a well-formed number
/// replaces it, and anything else records `label` among the field
/// errors and deletes the value.
pub fn parse_u32_keep(
    input: &str,
    current: Option<u32>,
    label: &'static str,
    errs: &mut Vec<&'static str>,
) -> (r: Result<Option<u32>, String>)
    ensures
        ({
            let t = trimmed(input@);
            if t == keep_word() {
                r == Result::<Option<u32>, String>::Ok(current) && final(errs)@ == old(errs)@
            } else if t.len() == 0 {
                r == Result::<Option<u32>, String>::Ok(Option::<u32>::None) && final(errs)@
                    == old(errs)@
            } else if u32_parse_ok(t) {
                r == Result::<Option<u32>, String>::Ok(
                    Option::Some(dec_value(unsigned_digits(t)) as u32),
                ) && final(errs)@ == old(errs)@
            } else {
                r == Result::<Option<u32>, String>::Ok(Option::<u32>::None) && final(errs)@
                    == old(errs)@.push(label)
            }
        }),
{
    let n: usize = input.unicode_len();
    let (lo, hi) = trim_range(input, 0, n);
    proof {
        assert(input@.subrange(0, n as int) =~= input@);
        crate::text::lemma_trimmed_idempotent(input@);
    }
    if is_keep_range(input, lo, hi) {
        return Result::Ok(current);
    }
    if lo == hi {
        return Result::Ok(Option::None);
    }
    match parse_u32_part(input, lo, hi) {
        Option::Some(v) => Result::Ok(Option::Some(v)),
        Option::None => {
            errs.push(label);
            Result::Ok(Option::None)
        },
    }
}

/// Apply a numeric field to an optional `i32`, as `parse_u32_keep` does
/// for `u32`.
pub fn parse_i32_keep(
    input: &str,
    current: Option<i32>,
    label: &'static str,
    errs: &mut Vec<&'static str>,
) -> (r: Result<Option<i32>, String>)
    ensures
        ({
            let t = trimmed(input@);
            if t == keep_word() {
                r == Result::<Option<i32>, String>::Ok(current) && final(errs)@ == old(errs)@
            } else if t.len() == 0 {
                r == Result::<Option<i32>, String>::Ok(Option::<i32>::None) && final(errs)@
                    == old(errs)@
            } else if i32_parse_ok(t) {
                r == Result::<Option<i32>, String>::Ok(Option::Some(i32_value(t) as i32))
                    && final(errs)@ == old(errs)@
            } else {
                r == Result::<Option<i32>, String>::Ok(Option::<i32>::None) && final(errs)@
                    == old(errs)@.push(label)
            }
        }),
{
    let n: usize = input.unicode_len();
    let (lo, hi) = trim_range(input, 0, n);
    proof {
        assert(input@.subrange(0, n as int) =~= input@);
        crate::text::lemma_trimmed_idempotent(input@);
    }
    if is_keep_range(input, lo, hi) {
        return Result::Ok(current);
    }
    if lo == hi {
        return Result::Ok(Option::None);
    }
    match parse_i32_part(input, lo, hi) {
        Option::Some(v) => Result::Ok(Option::Some(v)),
        Option::None => {
            errs.push(label);
            Result::Ok(Option::None)
        },
    }
}

} // verus!

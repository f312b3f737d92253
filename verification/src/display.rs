//! Display formatting for track durations: a millisecond count shown as
//! whole minutes and zero-padded seconds (`3:07`), with a dash for an
//! unknown duration.

use vstd::prelude::*;

verus! {

/// The character for decimal digit `d`.
pub open spec fn digit_char(d: int) -> char
    recommends
        0 <= d <= 9,
{
    ((48 + d) as u8) as char
}

/// The decimal digits of `n`, most significant first, no leading zeros
/// (a single `0` for zero).
pub open spec fn dec_digits(n: int) -> Seq<char>
    recommends
        n >= 0,
    decreases n,
{
    if n < 10 {
        seq![digit_char(n)]
    } else {
        dec_digits(n / 10).push(digit_char(n % 10))
    }
}

/// A duration of `ms` milliseconds as `m:ss`: whole minutes, then the
/// seconds left over, zero-padded to two places.
pub open spec fn duration_label(ms: int) -> Seq<char>
    recommends
        ms >= 0,
{
    let total_s = ms / 1000;
    let m = total_s / 60;
    let sec = total_s % 60;
    dec_digits(m) + seq![':'] + (if sec < 10 {
        seq!['0']
    } else {
        Seq::<char>::empty()
    }) + dec_digits(sec)
}

/// One decimal digit as text.
fn digit_str(d: u8) -> (r: &'static str)
    requires
        d <= 9,
    ensures
        r@ =~= seq![digit_char(d as int)],
{
    proof {
        reveal_strlit("0");
        reveal_strlit("1");
        reveal_strlit("2");
        reveal_strlit("3");
        reveal_strlit("4");
        reveal_strlit("5");
        reveal_strlit("6");
        reveal_strlit("7");
        reveal_strlit("8");
        reveal_strlit("9");
    }
    match d {
        0 => "0",
        1 => "1",
        2 => "2",
        3 => "3",
        4 => "4",
        5 => "5",
        6 => "6",
        7 => "7",
        8 => "8",
        _ => "9",
    }
}

/// The digit bytes `rev`, least significant first, as characters in
/// display order.
pub open spec fn rev_chars(rev: Seq<u8>) -> Seq<char> {
    rev.map_values(|b: u8| digit_char(b as int)).reverse()
}

/// Append the decimal digits of `v` to `out`.
fn push_decimal(out: &mut String, v: u64)
    ensures
        final(out)@ == old(out)@ + dec_digits(v as int),
{
    let ghost base = out@;
    // Collect the digits below the leading one, least significant
    // first.
    let mut rev: Vec<u8> = Vec::new();
    let mut n: u64 = v;
    while n >= 10
        invariant
            dec_digits(v as int) =~= dec_digits(n as int) + rev_chars(rev@),
            forall|k: int| 0 <= k < rev@.len() ==> #[trigger] rev@[k] <= 9,
        decreases n,
    {
        let d: u8 = (n % 10) as u8;
        let ghost old_rev = rev@;
        let ghost old_n = n as int;
        rev.push(d);
        n = n / 10;
        proof {
            assert(dec_digits(old_n) == dec_digits(old_n / 10).push(digit_char(old_n % 10)));
            assert forall|k: int| 0 <= k < rev@.len() implies #[trigger] rev_chars(rev@)[k] == (
            seq![digit_char(old_n % 10)] + rev_chars(old_rev))[k] by {
                assert(rev_chars(rev@)[k] == digit_char(rev@[rev@.len() - 1 - k] as int));
                if k > 0 {
                    assert(rev_chars(old_rev)[k - 1] == digit_char(
                        old_rev[old_rev.len() - k] as int,
                    ));
                    assert(rev@[rev@.len() - 1 - k] == old_rev[old_rev.len() - k]);
                }
            }
            assert(rev_chars(rev@) =~= seq![digit_char(old_n % 10)] + rev_chars(old_rev));
            assert(dec_digits(v as int) =~= dec_digits(n as int) + rev_chars(rev@));
        }
    }
    let lead: u8 = n as u8;
    out.append(digit_str(lead));
    proof {
        assert(dec_digits(n as int) =~= seq![digit_char(n as int)]);
    }
    let ghost tail = rev_chars(rev@);
    proof {
        assert(dec_digits(v as int) =~= seq![digit_char(n as int)] + tail);
        assert(dec_digits(v as int).take(dec_digits(v as int).len() - rev@.len()) =~= seq![
            digit_char(n as int),
        ]);
    }
    let mut i: usize = rev.len();
    while i > 0
        invariant
            0 <= i <= rev@.len(),
            tail == rev_chars(rev@),
            forall|k: int| 0 <= k < rev@.len() ==> #[trigger] rev@[k] <= 9,
            out@ == base + dec_digits(v as int).take(dec_digits(v as int).len() - i),
            dec_digits(v as int) == seq![digit_char(n as int)] + tail,
        decreases i,
    {
        let d: u8 = rev[i - 1];
        out.append(digit_str(d));
        proof {
            let full = dec_digits(v as int);
            assert(full =~= (seq![digit_char(n as int)] + tail));
            assert(tail[rev@.len() - i] == digit_char(rev@[i - 1] as int));
            assert(full[full.len() - i] == digit_char(d as int)) by {
                assert(full.len() == 1 + rev@.len());
                assert(full[1 + rev@.len() - i] == tail[rev@.len() - i]);
                assert(digit_char(rev@[i - 1] as int) == digit_char(d as int));
            }
            assert(full.take(full.len() - (i - 1)) =~= full.take(full.len() - i).push(
                full[full.len() - i],
            ));
        }
        i = i - 1;
    }
    proof {
        assert(dec_digits(v as int).take(dec_digits(v as int).len() as int) =~= dec_digits(
            v as int,
        ));
    }
}

/// Format `ms` milliseconds as `m:ss`.
pub fn fmt_duration_u64(ms: u64) -> (r: String)
    ensures
        r@ == duration_label(ms as int),
{
    let total_s: u64 = ms / 1000;
    let m: u64 = total_s / 60;
    let sec: u64 = total_s % 60;
    let mut out = String::new();
    push_decimal(&mut out, m);
    proof {
        reveal_strlit(":");
        reveal_strlit("0");
    }
    out.append(":");
    if sec < 10 {
        out.append("0");
    }
    push_decimal(&mut out, sec);
    proof {
        assert(out@ =~= duration_label(ms as int));
    }
    out
}

/// The title shown for a track without a title tag: the stem of its
/// file name, or a placeholder when the path has none.
pub open spec fn stem_label(p: Seq<char>) -> Seq<char> {
    let stem = crate::pathname::name_stem(crate::pathname::after_last(p, '/'));
    if stem.len() == 0 {
        "Unknown Title"@
    } else {
        stem
    }
}

/// The one-line label of a track in the list view:
/// `#<track> — <artist> — <title> (<album>)`, with placeholders for
/// missing fields and the file name's stem standing in for a missing
/// title.
pub open spec fn track_line(t: crate::track::TrackRow) -> Seq<char> {
    let track = match t.track_no {
        Option::Some(n) => dec_digits(n as int),
        Option::None => seq!['?', '?'],
    };
    let artist = match t.artist {
        Option::Some(s) => s@,
        Option::None => "Unknown Artist"@,
    };
    let title = match t.title {
        Option::Some(s) => s@,
        Option::None => stem_label(t.path@),
    };
    let album = match t.album {
        Option::Some(s) => s@,
        Option::None => "Unknown Album"@,
    };
    seq!['#'] + track + seq![' ', '—', ' '] + artist + seq![' ', '—', ' '] + title + seq![
        ' ',
        '(',
    ] + album + seq![')']
}

/// Format a track as its compact one-line list label.
pub fn format_track_one_line(t: &crate::track::TrackRow) -> (r: String)
    ensures
        r@ == track_line(*t),
{
    proof {
        reveal_strlit("#");
        reveal_strlit("??");
        reveal_strlit(" — ");
        reveal_strlit(" (");
        reveal_strlit(")");
        reveal_strlit("Unknown Artist");
        reveal_strlit("Unknown Album");
        assert("#"@ =~= seq!['#']);
        assert("??"@ =~= seq!['?', '?']);
        assert(" — "@ =~= seq![' ', '—', ' ']);
        assert(" ("@ =~= seq![' ', '(']);
        assert(")"@ =~= seq![')']);
    }
    let mut out = String::new();
    out.append("#");
    match t.track_no {
        Option::Some(n) => push_decimal(&mut out, n as u64),
        Option::None => out.append("??"),
    }
    out.append(" — ");
    match &t.artist {
        Option::Some(s) => out.append(s.as_str()),
        Option::None => out.append("Unknown Artist"),
    }
    out.append(" — ");
    match &t.title {
        Option::Some(s) => out.append(s.as_str()),
        Option::None => {
            let stem = crate::pathname::filename_stem(t.path.as_str());
            out.append(stem.as_str());
        },
    }
    out.append(" (");
    match &t.album {
        Option::Some(s) => out.append(s.as_str()),
        Option::None => out.append("Unknown Album"),
    }
    out.append(")");
    proof {
        assert(out@ =~= track_line(*t));
    }
    out
}

/// Format a known duration as `m:ss`, and an unknown one as `-`.
pub fn fmt_duration(ms: Option<u32>) -> (r: String)
    ensures
        ms is None ==> r@ =~= seq!['-'],
        ms matches Some(v) ==> r@ == duration_label(v as int),
{
    match ms {
        Option::None => {
            proof {
                reveal_strlit("-");
            }
            let mut out = String::new();
            out.append("-");
            proof {
                assert(out@ =~= seq!['-']);
            }
            out
        },
        Option::Some(v) => fmt_duration_u64(v as u64),
    }
}

} // verus!

//! File-name text helpers: the name after the last `/` of a path, its
//! stem and extension, and the mp3 check used by the library scan.

use vstd::prelude::*;

use crate::text::matches_ci;
use crate::text::until_char;
use crate::text::lemma_until_char;

verus! {

/// What follows the last `sep` of `p` (all of `p` when it has none).
pub open spec fn after_last(p: Seq<char>, sep: char) -> Seq<char>
    decreases p.len(),
{
    if p.len() == 0 {
        p
    } else if p.last() == sep {
        Seq::empty()
    } else {
        after_last(p.drop_last(), sep).push(p.last())
    }
}

/// Characters of the file name `n` past its last `.`, when that dot is
/// not the leading character: the extension's length. The name's own
/// length means it has no extension.
pub open spec fn ext_len(n: Seq<char>) -> int {
    let tail = until_char(n.reverse(), '.');
    if tail >= n.len() - 1 {
        // No dot at all, or only the leading character is a dot.
        n.len() as int
    } else {
        tail
    }
}

/// The stem of file name `n`: everything before its last `.`, except
/// that a lone leading dot starts a hidden name, not an extension.
pub open spec fn name_stem(n: Seq<char>) -> Seq<char> {
    if ext_len(n) == n.len() {
        n
    } else {
        n.subrange(0, n.len() - ext_len(n) - 1)
    }
}

/// The extension of file name `n`, when it has one.
pub open spec fn name_ext(n: Seq<char>) -> Seq<char> {
    if ext_len(n) == n.len() {
        Seq::empty()
    } else {
        n.subrange(n.len() - ext_len(n), n.len() as int)
    }
}

proof fn lemma_after_last(p: Seq<char>, sep: char)
    ensures
        after_last(p, sep).len() <= p.len(),
        after_last(p, sep) == p.subrange(p.len() - after_last(p, sep).len(), p.len() as int),
        forall|i: int|
            p.len() - after_last(p, sep).len() <= i < p.len() ==> #[trigger] p[i] != sep,
        after_last(p, sep).len() < p.len() ==> p[p.len() - after_last(p, sep).len() - 1] == sep,
    decreases p.len(),
{
    if p.len() == 0 {
        assert(after_last(p, sep) =~= p.subrange(0, 0));
    } else if p.last() == sep {
        assert(after_last(p, sep) =~= p.subrange(p.len() as int, p.len() as int));
    } else {
        lemma_after_last(p.drop_last(), sep);
        let k = after_last(p.drop_last(), sep).len();
        assert(after_last(p, sep) =~= p.subrange(p.len() - (k + 1), p.len() as int)) by {
            assert(forall|i: int|
                0 <= i < k ==> after_last(p.drop_last(), sep)[i] == #[trigger] p.drop_last()[p.len()
                    - 1 - k + i]);
            assert(forall|i: int|
                0 <= i < p.len() - 1 ==> p.drop_last()[i] == #[trigger] p[i]);
        }
        assert(forall|i: int|
            p.len() - 1 - k <= i < p.len() - 1 ==> #[trigger] p[i] == p.drop_last()[i]);
    }
}

/// The character index where the file name of `p` starts: right after
/// the last `/`.
fn name_start(p: &str, n: usize) -> (r: usize)
    requires
        n == p@.len(),
    ensures
        r <= n,
        p@.subrange(r as int, n as int) == after_last(p@, '/'),
    decreases n,
{
    proof {
        lemma_after_last(p@, '/');
    }
    let mut r: usize = n;
    while r > 0 && p.get_char(r - 1) != '/'
        invariant
            0 <= r <= n == p@.len(),
            forall|i: int| r <= i < n ==> #[trigger] p@[i] != '/',
        decreases r,
    {
        r = r - 1;
    }
    proof {
        let k = after_last(p@, '/').len();
        if n - r < k {
            assert(p@[p@.len() - k - 1 + (k - (n - r))] != '/');
        }
        if k < n - r {
            assert(p@[n - k - 1] == '/');
        }
        assert(n - r == k);
    }
    r
}

/// The character index where the extension of the name `p[lo..n)`
/// starts, or `n` when it has none; a dot right at `lo` hides the name
/// rather than starting an extension.
fn ext_start(p: &str, lo: usize, n: usize) -> (r: Option<usize>)
    requires
        lo <= n <= p@.len(),
    ensures
        ({
            let name = p@.subrange(lo as int, n as int);
            match r {
                Option::None => ext_len(name) == name.len() && name_stem(name) == name && name_ext(
                    name,
                ) == Seq::<char>::empty(),
                Option::Some(e) => {
                    &&& lo + 2 <= e <= n
                    &&& n - e == ext_len(name)
                    &&& name_stem(name) == p@.subrange(lo as int, e - 1)
                    &&& name_ext(name) == p@.subrange(e as int, n as int)
                },
            }
        }),
{
    let ghost name = p@.subrange(lo as int, n as int);
    proof {
        lemma_until_char(name.reverse(), '.');
        assert(forall|i: int|
            0 <= i < name.len() ==> #[trigger] name.reverse()[i] == name[name.len() - 1 - i]);
        assert(forall|i: int| 0 <= i < name.len() ==> name[i] == #[trigger] p@[lo + i]);
    }
    let mut r: usize = n;
    while r > lo && p.get_char(r - 1) != '.'
        invariant
            lo <= r <= n <= p@.len(),
            forall|i: int| r <= i < n ==> #[trigger] p@[i] != '.',
        decreases r,
    {
        r = r - 1;
    }
    // r is just past the last dot, or lo when there is none.
    let ghost tail = until_char(name.reverse(), '.');
    proof {
        if n - r < tail {
            assert(name.reverse()[n - r] != '.');
            assert(p@[r - 1] == '.');
        }
        if r > lo && tail < n - r {
            assert(p@[n - 1 - tail] != '.');
            assert(name.reverse()[tail] == name[name.len() - 1 - tail]);
        }
        if r == lo && tail < n - r {
            assert(name.reverse()[tail] == '.');
            assert(p@[n - 1 - tail] == '.');
        }
        assert(tail == n - r);
    }
    if r == lo || r == lo + 1 {
        // No dot, or only a leading dot: no extension.
        proof {
            assert(ext_len(name) == name.len());
        }
        Option::None
    } else {
        proof {
            assert(n - r <= name.len() - 2);
            assert(ext_len(name) == n - r);
            assert(name_stem(name) =~= p@.subrange(lo as int, r - 1));
            assert(name_ext(name) =~= p@.subrange(r as int, n as int));
        }
        Option::Some(r)
    }
}

/// The stem of the file name of `p` — the name after the last `/`,
/// without its extension — used as a fallback title; a path with no
/// file name falls back to `Unknown Title`.
pub fn filename_stem(p: &str) -> (r: String)
    ensures
        ({
            let stem = name_stem(after_last(p@, '/'));
            if stem.len() == 0 {
                r@ == "Unknown Title"@
            } else {
                r@ == stem
            }
        }),
{
    let n: usize = p.unicode_len();
    let lo = name_start(p, n);
    let ghost name = after_last(p@, '/');
    let hi: usize = match ext_start(p, lo, n) {
        Option::None => n,
        Option::Some(e) => e - 1,
    };
    if lo == hi {
        proof {
            reveal_strlit("Unknown Title");
        }
        return "Unknown Title".to_owned();
    }
    proof {
        assert(name_stem(name) =~= p@.subrange(lo as int, hi as int));
    }
    p.substring_char(lo, hi).to_owned()
}

/// Whether the file name of `p` has the extension `mp3`, in any ASCII
/// case.
pub fn is_mp3(p: &str) -> (r: bool)
    ensures
        r == matches_ci(name_ext(after_last(p@, '/')), seq!['m', 'p', '3']),
{
    let n: usize = p.unicode_len();
    let lo = name_start(p, n);
    let ghost name = after_last(p@, '/');
    proof {
        reveal_strlit("mp3");
        assert("mp3"@ =~= seq!['m', 'p', '3']);
    }
    match ext_start(p, lo, n) {
        Option::None => {
            proof {
                assert(name_ext(name) =~= Seq::<char>::empty());
            }
            crate::text::matches_word_ci(p, n, n, "mp3")
        },
        Option::Some(e) => crate::text::matches_word_ci(p, e, n, "mp3"),
    }
}

} // verus!

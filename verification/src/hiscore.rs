//! The best-score record and its on-disk text form.
//!
//! The store is a single decimal unsigned integer with optional surrounding
//! ASCII whitespace. Reading anything else yields 0: a read failure is never
//! fatal. The host is expected to read and write the file itself and hand
//! the bytes to [`parse_highscore`] / take them from [`render_highscore`].

use vstd::prelude::*;
use vstd::arithmetic::div_mod::lemma_fundamental_div_mod;

verus! {

/// ASCII whitespace, as tolerated around the stored number.
pub open spec fn is_space(b: u8) -> bool {
    b == 32 || b == 9 || b == 10 || b == 13
}

/// An ASCII decimal digit.
pub open spec fn is_digit(b: u8) -> bool {
    48 <= b <= 57
}

/// The bytes with leading ASCII whitespace removed.
pub open spec fn trim_front(s: Seq<u8>) -> Seq<u8>
    decreases s.len(),
{
    if s.len() > 0 && is_space(s.first()) {
        trim_front(s.drop_first())
    } else {
        s
    }
}

/// The bytes with trailing ASCII whitespace removed.
pub open spec fn trim_back(s: Seq<u8>) -> Seq<u8>
    decreases s.len(),
{
    if s.len() > 0 && is_space(s.last()) {
        trim_back(s.drop_last())
    } else {
        s
    }
}

/// Are all bytes decimal digits?
pub open spec fn all_digits(s: Seq<u8>) -> bool {
    forall|i: int| 0 <= i < s.len() ==> is_digit(#[trigger] s[i])
}

/// The number a sequence of digit bytes denotes, most significant first.
pub open spec fn digits_val(s: Seq<u8>) -> int
    decreases s.len(),
{
    if s.len() == 0 {
        0
    } else {
        digits_val(s.drop_last()) * 10 + (s.last() - 48)
    }
}

/// What a stored highscore file denotes: trim surrounding whitespace; a
/// nonempty all-digit remainder that fits a `u32` is that number; anything
/// else (including overflow) reads as 0, so a bad file is never fatal.
pub open spec fn parse_spec(s: Seq<u8>) -> int {
    let t = trim_back(trim_front(s));
    if t.len() > 0 && all_digits(t) && digits_val(t) <= u32::MAX {
        digits_val(t)
    } else {
        0
    }
}

/// The decimal digits of `v`, most significant first; empty for 0.
pub open spec fn u32_digits(v: int) -> Seq<u8>
    decreases v,
{
    if v <= 0 {
        Seq::empty()
    } else {
        u32_digits(v / 10).push((48 + v % 10) as u8)
    }
}

/// The bytes written back to storage: plain decimal, and "0" for 0.
pub open spec fn render_spec(v: int) -> Seq<u8> {
    if v == 0 {
        seq![48u8]
    } else {
        u32_digits(v)
    }
}

/// A digit string denotes a non-negative number.
pub proof fn lemma_digits_val_nonneg(s: Seq<u8>)
    requires
        all_digits(s),
    ensures
        digits_val(s) >= 0,
    decreases s.len(),
{
    if s.len() > 0 {
        assert(is_digit(s[s.len() - 1]));
        lemma_digits_val_nonneg(s.drop_last());
    }
}

/// Extending a digit string never lowers its value.
pub proof fn lemma_digits_val_prefix(s: Seq<u8>, k: int)
    requires
        all_digits(s),
        0 <= k <= s.len(),
    ensures
        digits_val(s.subrange(0, k)) <= digits_val(s),
    decreases s.len(),
{
    if k == s.len() {
        assert(s.subrange(0, k) =~= s);
    } else {
        let d = s.drop_last();
        assert(is_digit(s[s.len() - 1]));
        assert(forall|i: int| 0 <= i < d.len() ==> is_digit(#[trigger] d[i]));
        assert(s.subrange(0, k) =~= d.subrange(0, k));
        lemma_digits_val_prefix(d, k);
        lemma_digits_val_nonneg(d);
    }
}

/// The digits of `v` denote `v` again, digit by digit.
pub proof fn lemma_u32_digits_val(v: int)
    requires
        v >= 0,
    ensures
        all_digits(u32_digits(v)),
        digits_val(u32_digits(v)) == v,
        u32_digits(v).len() == 0 <==> v == 0,
    decreases v,
{
    if v > 0 {
        lemma_fundamental_div_mod(v, 10);
        lemma_u32_digits_val(v / 10);
        let s = u32_digits(v);
        let r = u32_digits(v / 10);
        assert(s == r.push((48 + v % 10) as u8));
        assert(s.drop_last() =~= r);
        assert(forall|i: int| 0 <= i < s.len() ==> is_digit(#[trigger] s[i]));
    }
}

/// Round trip: a best score written by `render_highscore` is read back
/// unchanged by `parse_highscore`, so re-running the program after an
/// improvement sees the improved best.
pub proof fn lemma_highscore_round_trip(v: u32)
    ensures
        parse_spec(render_spec(v as int)) == v as int,
{
    let t = render_spec(v as int);
    if v == 0 {
        assert(t == seq![48u8]);
        assert(t.len() == 1);
        assert(t.first() == 48u8);
        assert(t.last() == 48u8);
        assert(!is_space(t.first()));
        assert(!is_space(t.last()));
        assert(trim_back(trim_front(t)) == t);
        assert(t.drop_last() =~= Seq::<u8>::empty());
        assert(digits_val(t.drop_last()) == 0);
        assert(digits_val(t) == 0);
        assert(is_digit(t[0]));
    } else {
        lemma_u32_digits_val(v as int);
        assert(is_digit(t.first()));
        assert(!is_space(t.first()));
        assert(is_digit(t.last()));
        assert(!is_space(t.last()));
        assert(trim_back(trim_front(t)) == t);
    }
}

/// Read a stored highscore: the number [`parse_spec`] gives, so any
/// unreadable, non-numeric or overflowing content falls back to 0.
pub fn parse_highscore(s: &[u8]) -> (r: u32)
    ensures
        r as int == parse_spec(s@),
{
    let n = s.len();
    let mut lo: usize = 0;
    proof {
        assert(s@.subrange(0, n as int) =~= s@);
    }
    while lo < n && (s[lo] == 32 || s[lo] == 9 || s[lo] == 10 || s[lo] == 13)
        invariant
            0 <= lo <= n,
            n == s@.len(),
            trim_front(s@) == trim_front(s@.subrange(lo as int, n as int)),
        decreases n - lo,
    {
        proof {
            let cur = s@.subrange(lo as int, n as int);
            assert(cur.first() == s@[lo as int]);
            assert(cur.drop_first() =~= s@.subrange(lo + 1, n as int));
        }
        lo = lo + 1;
    }
    proof {
        assert(trim_front(s@) == s@.subrange(lo as int, n as int));
    }
    let mut hi: usize = n;
    while hi > lo && (s[hi - 1] == 32 || s[hi - 1] == 9 || s[hi - 1] == 10 || s[hi - 1] == 13)
        invariant
            lo <= hi <= n,
            n == s@.len(),
            trim_front(s@) == s@.subrange(lo as int, n as int),
            trim_back(s@.subrange(lo as int, n as int)) == trim_back(
                s@.subrange(lo as int, hi as int),
            ),
        decreases hi,
    {
        proof {
            let cur = s@.subrange(lo as int, hi as int);
            assert(cur.last() == s@[hi - 1]);
            assert(cur.drop_last() =~= s@.subrange(lo as int, hi - 1));
        }
        hi = hi - 1;
    }
    let ghost t = trim_back(trim_front(s@));
    proof {
        assert(t == s@.subrange(lo as int, hi as int));
    }
    if lo == hi {
        proof {
            assert(t.len() == 0);
        }
        return 0;
    }
    let mut val: u32 = 0;
    let mut i: usize = lo;
    while i < hi
        invariant
            lo <= i <= hi <= n,
            n == s@.len(),
            lo < hi,
            t == s@.subrange(lo as int, hi as int),
            t == trim_back(trim_front(s@)),
            all_digits(t.subrange(0, i - lo)),
            val as int == digits_val(t.subrange(0, i - lo)),
        decreases hi - i,
    {
        let b = s[i];
        proof {
            assert(t[i - lo] == s@[i as int]);
        }
        if b < 48 || b > 57 {
            proof {
                assert(!is_digit(t[i - lo]));
                assert(!all_digits(t));
                assert(parse_spec(s@) == 0);
            }
            return 0;
        }
        let d = (b - 48) as u32;
        if val > (u32::MAX - d) / 10 {
            proof {
                lemma_fundamental_div_mod((u32::MAX - d) as int, 10);
                let pre = t.subrange(0, i - lo);
                let cur = t.subrange(0, i - lo + 1);
                assert(cur.drop_last() =~= pre);
                assert(cur.last() == t[i - lo]);
                assert(digits_val(cur) == val * 10 + d > u32::MAX);
                if all_digits(t) {
                    lemma_digits_val_prefix(t, i - lo + 1);
                    assert(digits_val(t) > u32::MAX);
                }
                assert(parse_spec(s@) == 0);
            }
            return 0;
        }
        proof {
            lemma_fundamental_div_mod((u32::MAX - d) as int, 10);
            let pre = t.subrange(0, i - lo);
            let cur = t.subrange(0, i - lo + 1);
            assert(cur.drop_last() =~= pre);
            assert(cur.last() == t[i - lo]);
        }
        val = val * 10 + d;
        i = i + 1;
    }
    proof {
        assert(t.subrange(0, hi - lo) =~= t);
        assert(parse_spec(s@) == val as int);
    }
    val
}

/// Write a best score as the bytes [`render_spec`] gives: plain decimal.
pub fn render_highscore(v: u32) -> (out: Vec<u8>)
    ensures
        out@ == render_spec(v as int),
{
    if v == 0 {
        let mut out: Vec<u8> = Vec::new();
        out.push(48u8);
        proof {
            assert(out@ =~= seq![48u8]);
        }
        return out;
    }
    let mut rev: Vec<u8> = Vec::new();
    let mut x = v;
    while x > 0
        invariant
            u32_digits(v as int) == u32_digits(x as int) + rev@.reverse(),
        decreases x,
    {
        let ghost rev0 = rev@;
        let d = (x % 10) as u8 + 48;
        rev.push(d);
        proof {
            lemma_fundamental_div_mod(x as int, 10);
            assert(rev@.reverse() =~= seq![d] + rev0.reverse());
            assert(u32_digits(x as int) == u32_digits((x as int) / 10).push(d));
            assert(u32_digits((x as int) / 10).push(d) + rev0.reverse() =~= u32_digits(
                (x as int) / 10,
            ) + (seq![d] + rev0.reverse()));
            assert((x / 10) as int == (x as int) / 10);
        }
        x = x / 10;
    }
    proof {
        assert(u32_digits(0int) + rev@.reverse() =~= rev@.reverse());
        assert(u32_digits(v as int) == rev@.reverse());
    }
    let mut out: Vec<u8> = Vec::new();
    let mut i = rev.len();
    while i > 0
        invariant
            0 <= i <= rev@.len(),
            out@.len() == rev@.len() - i,
            forall|j: int| 0 <= j < out@.len() ==> out@[j] == rev@[rev@.len() - 1 - j],
        decreases i,
    {
        i = i - 1;
        out.push(rev[i]);
    }
    proof {
        assert(out@ =~= rev@.reverse());
    }
    out
}

/// The best score seen so far, and whether it still awaits persistence.
#[derive(Clone, Copy, Debug)]
pub struct Highscore {
    pub best: u32,
    pub dirty: bool,
}

impl Highscore {
    /// A record freshly loaded from storage: nothing to write back yet.
    pub fn new(best: u32) -> (h: Highscore)
        ensures
            h.best == best,
            !h.dirty,
    {
        Highscore { best, dirty: false }
    }

    /// The host calls this once it has persisted `best`.
    pub fn acknowledge_write(&mut self)
        ensures
            final(self).best == old(self).best,
            !final(self).dirty,
    {
        self.dirty = false;
    }
}

} // verus!

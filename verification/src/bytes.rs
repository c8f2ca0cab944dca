//! Helpers over byte strings: equality, whitespace trimming, and decimal
//! rendering of integers. Text carried through the pipeline (scores, kinds,
//! paths, messages) is modelled as bytes.

use vstd::prelude::*;

verus! {

/// The ASCII characters that count as whitespace when trimming: space,
/// tab, line feed, vertical tab, form feed, carriage return — the ASCII
/// range of `char::is_whitespace`, which `str::trim` removes.
pub open spec fn spec_is_ascii_ws(c: u8) -> bool {
    c == 32 || c == 9 || c == 10 || c == 11 || c == 12 || c == 13
}

/// `s` with its leading ASCII whitespace removed.
pub open spec fn spec_trim_start(s: Seq<u8>) -> Seq<u8>
    decreases s.len(),
{
    if s.len() > 0 && spec_is_ascii_ws(s.first()) {
        spec_trim_start(s.drop_first())
    } else {
        s
    }
}

/// `s` with its trailing ASCII whitespace removed.
pub open spec fn spec_trim_end(s: Seq<u8>) -> Seq<u8>
    decreases s.len(),
{
    if s.len() > 0 && spec_is_ascii_ws(s.last()) {
        spec_trim_end(s.drop_last())
    } else {
        s
    }
}

/// `s` with leading and trailing ASCII whitespace removed.
pub open spec fn spec_trimmed(s: Seq<u8>) -> Seq<u8> {
    spec_trim_end(spec_trim_start(s))
}

/// Decimal digits of `n`, most significant first, without leading zeros
/// (except for `n == 0`, which is the single digit `'0'`).
pub open spec fn spec_decimal(n: nat) -> Seq<u8>
    decreases n,
{
    if n < 10 {
        seq![(48 + n) as u8]
    } else {
        spec_decimal(n / 10).push((48 + n % 10) as u8)
    }
}

pub fn bytes_eq(a: &Vec<u8>, b: &Vec<u8>) -> (r: bool)
    ensures
        r <==> a@ == b@,
{
    if a.len() != b.len() {
        return false;
    }
    let mut i: usize = 0;
    while i < a.len()
        invariant
            i <= a.len(),
            a.len() == b.len(),
            forall|j: int| 0 <= j < i ==> a@[j] == b@[j],
        decreases a.len() - i,
    {
        if a[i] != b[i] {
            return false;
        }
        i += 1;
    }
    proof {
        assert(a@ =~= b@);
    }
    true
}

fn is_ascii_ws(c: u8) -> (r: bool)
    ensures
        r == spec_is_ascii_ws(c),
{
    c == 32 || c == 9 || c == 10 || c == 11 || c == 12 || c == 13
}

proof fn lemma_trim_start_subrange(s: Seq<u8>, i: int)
    requires
        0 <= i <= s.len(),
        forall|j: int| 0 <= j < i ==> spec_is_ascii_ws(s[j]),
        i < s.len() ==> !spec_is_ascii_ws(s[i]),
    ensures
        spec_trim_start(s) == s.subrange(i, s.len() as int),
    decreases i,
{
    if i == 0 {
        assert(s.subrange(0, s.len() as int) =~= s);
    } else {
        assert(spec_is_ascii_ws(s.first()));
        lemma_trim_start_subrange(s.drop_first(), i - 1);
        assert(s.drop_first().subrange(i - 1, s.drop_first().len() as int)
            =~= s.subrange(i, s.len() as int));
    }
}

proof fn lemma_trim_end_subrange(s: Seq<u8>, k: int)
    requires
        0 <= k <= s.len(),
        forall|j: int| k <= j < s.len() ==> spec_is_ascii_ws(s[j]),
        k > 0 ==> !spec_is_ascii_ws(s[k - 1]),
    ensures
        spec_trim_end(s) == s.subrange(0, k),
    decreases s.len() - k,
{
    if k == s.len() {
        if s.len() > 0 && spec_is_ascii_ws(s.last()) {
            assert(!spec_is_ascii_ws(s[k - 1]));
        }
        assert(s.subrange(0, s.len() as int) =~= s);
    } else {
        assert(spec_is_ascii_ws(s.last()));
        lemma_trim_end_subrange(s.drop_last(), k);
        assert(s.drop_last().subrange(0, k) =~= s.subrange(0, k));
    }
}

/// Copy of `v` with leading and trailing ASCII whitespace removed, as
/// `str::trim` does for ASCII text.
pub fn trim_bytes(v: &Vec<u8>) -> (r: Vec<u8>)
    ensures
        r@ == spec_trimmed(v@),
{
    let mut start: usize = 0;
    while start < v.len() && is_ascii_ws(v[start])
        invariant
            start <= v.len(),
            forall|j: int| 0 <= j < start ==> spec_is_ascii_ws(v@[j]),
        decreases v.len() - start,
    {
        start += 1;
    }
    proof {
        lemma_trim_start_subrange(v@, start as int);
    }
    let mut end: usize = v.len();
    while end > start && is_ascii_ws(v[end - 1])
        invariant
            start <= end <= v.len(),
            forall|j: int| end <= j < v.len() ==> spec_is_ascii_ws(v@[j]),
        decreases end,
    {
        end -= 1;
    }
    proof {
        let t = v@.subrange(start as int, v@.len() as int);
        lemma_trim_end_subrange(t, end - start);
        assert(t.subrange(0, end - start) =~= v@.subrange(start as int, end as int));
    }
    let mut r: Vec<u8> = Vec::new();
    let mut k: usize = start;
    while k < end
        invariant
            start <= k <= end <= v.len(),
            r@ == v@.subrange(start as int, k as int),
        decreases end - k,
    {
        let c = v[k];
        r.push(c);
        proof {
            assert(r@ =~= v@.subrange(start as int, k + 1 as int));
        }
        k += 1;
    }
    r
}

/// Decimal text of `n`, most significant digit first.
pub fn decimal_digits(n: u32) -> (r: Vec<u8>)
    ensures
        r@ == spec_decimal(n as nat),
    decreases n,
{
    if n < 10 {
        let mut r: Vec<u8> = Vec::new();
        r.push(48 + n as u8);
        proof {
            assert(r@ =~= spec_decimal(n as nat));
        }
        r
    } else {
        let mut r = decimal_digits(n / 10);
        r.push(48 + (n % 10) as u8);
        r
    }
}

} // verus!

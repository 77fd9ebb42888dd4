use vstd::prelude::*;

verus! {

use vstd::string::StrSliceExecFns;
use vstd::string::StringExecFns;

/// The segments of `s` between occurrences of `sep`.
///
/// Splitting always yields at least one segment: the empty string splits
/// into one empty segment, and a separator at either end contributes an
/// empty segment on that side, exactly as `str::split` does.
pub open spec fn spec_split(s: Seq<char>, sep: char) -> Seq<Seq<char>>
    decreases s.len(),
{
    if s.len() == 0 {
        seq![Seq::<char>::empty()]
    } else if s[0] == sep {
        seq![Seq::<char>::empty()] + spec_split(s.drop_first(), sep)
    } else {
        let rest = spec_split(s.drop_first(), sep);
        seq![seq![s[0]] + rest[0]] + rest.drop_first()
    }
}

pub proof fn lemma_split_nonempty(s: Seq<char>, sep: char)
    ensures
        spec_split(s, sep).len() >= 1,
    decreases s.len(),
{
    if s.len() == 0 {
    } else {
        lemma_split_nonempty(s.drop_first(), sep);
    }
}

/// A string without the separator splits into the single segment that is
/// the string itself.
pub proof fn lemma_split_no_sep(s: Seq<char>, sep: char)
    requires
        !s.contains(sep),
    ensures
        spec_split(s, sep) == seq![s],
    decreases s.len(),
{
    if s.len() == 0 {
        assert(s =~= Seq::<char>::empty());
        assert(spec_split(s, sep) =~= seq![s]);
    } else {
        assert(s[0] != sep) by {
            if s[0] == sep {
                assert(s.contains(sep));
            }
        }
        assert(!s.drop_first().contains(sep)) by {
            if s.drop_first().contains(sep) {
                let i = choose|i: int|
                    0 <= i < s.drop_first().len() && s.drop_first()[i] == sep;
                assert(s[i + 1] == sep);
                assert(s.contains(sep));
            }
        }
        lemma_split_no_sep(s.drop_first(), sep);
        lemma_split_nonempty(s.drop_first(), sep);
        assert(seq![s[0]] + s.drop_first() =~= s);
        assert(spec_split(s, sep) =~= seq![s]);
    }
}

/// Splitting a string whose first separator sits after the prefix `s1`
/// yields `s1` followed by the split of the remainder.
pub proof fn lemma_split_concat(s1: Seq<char>, s2: Seq<char>, sep: char)
    requires
        !s1.contains(sep),
    ensures
        spec_split(s1 + seq![sep] + s2, sep) == seq![s1] + spec_split(s2, sep),
    decreases s1.len(),
{
    let t = s1 + seq![sep] + s2;
    if s1.len() == 0 {
        assert(t[0] == sep);
        assert(t.drop_first() =~= s2);
        assert(s1 =~= Seq::<char>::empty());
        assert(spec_split(t, sep) =~= seq![s1] + spec_split(s2, sep));
    } else {
        assert(s1[0] != sep) by {
            if s1[0] == sep {
                assert(s1.contains(sep));
            }
        }
        assert(!s1.drop_first().contains(sep)) by {
            if s1.drop_first().contains(sep) {
                let i = choose|i: int|
                    0 <= i < s1.drop_first().len() && s1.drop_first()[i] == sep;
                assert(s1[i + 1] == sep);
                assert(s1.contains(sep));
            }
        }
        assert(t[0] == s1[0]);
        assert(t.drop_first() =~= s1.drop_first() + seq![sep] + s2);
        lemma_split_concat(s1.drop_first(), s2, sep);
        let rest = spec_split(t.drop_first(), sep);
        assert(rest == seq![s1.drop_first()] + spec_split(s2, sep));
        assert(rest[0] == s1.drop_first());
        assert(rest.drop_first() =~= spec_split(s2, sep));
        assert(seq![t[0]] + rest[0] =~= s1);
        assert(spec_split(t, sep) =~= seq![s1] + spec_split(s2, sep));
    }
}

/// The views of the strings in `v`, in order.
pub open spec fn seg_views(v: Seq<String>) -> Seq<Seq<char>> {
    v.map_values(|s: String| s@)
}

/// Whether two string slices hold the same characters.
pub fn str_eq(a: &str, b: &str) -> (r: bool)
    ensures
        r == (a@ == b@),
{
    let alen = a.unicode_len();
    let blen = b.unicode_len();
    if alen != blen {
        return false;
    }
    let mut i: usize = 0;
    while i < alen
        invariant
            i <= alen,
            alen == a@.len(),
            alen == b@.len(),
            forall|j: int| 0 <= j < i ==> a@[j] == b@[j],
        decreases alen - i,
    {
        if a.get_char(i) != b.get_char(i) {
            return false;
        }
        i += 1;
    }
    proof {
        assert(a@ =~= b@);
    }
    true
}

/// Splits `s` at every occurrence of `sep`, as `str::split` does.
pub fn split_on(s: &str, sep: char) -> (r: Vec<String>)
    ensures
        seg_views(r@) == spec_split(s@, sep),
{
    let len = s.unicode_len();
    let mut r: Vec<String> = Vec::new();
    let mut start: usize = 0;
    let mut i: usize = 0;
    proof {
        assert(s@.subrange(0, len as int) =~= s@);
        assert(seg_views(r@) + spec_split(s@.subrange(0, len as int), sep)
            =~= spec_split(s@, sep));
    }
    while i < len
        invariant
            start <= i <= len,
            len == s@.len(),
            seg_views(r@) + spec_split(s@.subrange(start as int, len as int), sep)
                =~= spec_split(s@, sep),
            forall|k: int| start <= k < i ==> s@[k] != sep,
        decreases len - i,
    {
        if s.get_char(i) == sep {
            let seg = s.substring_char(start, i);
            let seg = String::from_str(seg);
            proof {
                let pre = s@.subrange(start as int, i as int);
                let post = s@.subrange(i + 1, len as int);
                assert(!pre.contains(sep)) by {
                    if pre.contains(sep) {
                        let k = choose|k: int| 0 <= k < pre.len() && pre[k] == sep;
                        assert(s@[start + k] == sep);
                    }
                }
                assert(s@.subrange(start as int, len as int) =~= pre + seq![sep] + post);
                lemma_split_concat(pre, post, sep);
                assert(seg_views(r@.push(seg)) =~= seg_views(r@) + seq![pre]);
            }
            r.push(seg);
            start = i + 1;
        }
        i += 1;
    }
    let seg = s.substring_char(start, len);
    let seg = String::from_str(seg);
    proof {
        let tail = s@.subrange(start as int, len as int);
        assert(!tail.contains(sep)) by {
            if tail.contains(sep) {
                let k = choose|k: int| 0 <= k < tail.len() && tail[k] == sep;
                assert(s@[start + k] == sep);
            }
        }
        lemma_split_no_sep(tail, sep);
        assert(seg_views(r@.push(seg)) =~= seg_views(r@) + seq![tail]);
        assert(seg_views(r@) + spec_split(tail, sep) =~= seg_views(r@) + seq![tail]);
    }
    r.push(seg);
    proof {
        assert(seg_views(r@) =~= spec_split(s@, sep));
    }
    r
}

/// `s` with every leading and every trailing character drawn from `cs`
/// removed, as `str::trim_matches` does for a one-character pattern.
pub open spec fn spec_trim_set(s: Seq<char>, cs: Seq<char>) -> Seq<char>
    decreases s.len(),
{
    if s.len() == 0 {
        s
    } else if cs.contains(s[0]) {
        spec_trim_set(s.drop_first(), cs)
    } else if cs.contains(s.last()) {
        spec_trim_set(s.drop_last(), cs)
    } else {
        s
    }
}

proof fn lemma_trim_all(s: Seq<char>, cs: Seq<char>)
    requires
        forall|k: int| 0 <= k < s.len() ==> cs.contains(#[trigger] s[k]),
    ensures
        spec_trim_set(s, cs) == Seq::<char>::empty(),
    decreases s.len(),
{
    if s.len() == 0 {
        assert(s =~= Seq::<char>::empty());
    } else {
        lemma_trim_all(s.drop_first(), cs);
    }
}

proof fn lemma_trim_exact(s: Seq<char>, cs: Seq<char>, lo: int, hi: int)
    requires
        0 <= lo <= hi < s.len(),
        !cs.contains(s[lo]),
        !cs.contains(s[hi]),
        forall|k: int| 0 <= k < lo ==> cs.contains(#[trigger] s[k]),
        forall|k: int| hi < k < s.len() ==> cs.contains(#[trigger] s[k]),
    ensures
        spec_trim_set(s, cs) == s.subrange(lo, hi + 1),
    decreases s.len(),
{
    if lo > 0 {
        lemma_trim_exact(s.drop_first(), cs, lo - 1, hi - 1);
        assert(s.drop_first().subrange(lo - 1, hi) =~= s.subrange(lo, hi + 1));
    } else if hi < s.len() - 1 {
        assert(cs.contains(s.last()));
        lemma_trim_exact(s.drop_last(), cs, lo, hi);
        assert(s.drop_last().subrange(lo, hi + 1) =~= s.subrange(lo, hi + 1));
    } else {
        assert(s.subrange(0, s.len() as int) =~= s);
    }
}

/// Whether `c` occurs in `cs`.
fn char_in(cs: &Vec<char>, c: char) -> (r: bool)
    ensures
        r == cs@.contains(c),
{
    let mut i: usize = 0;
    while i < cs.len()
        invariant
            i <= cs@.len(),
            forall|j: int| 0 <= j < i ==> cs@[j] != c,
        decreases cs@.len() - i,
    {
        if cs[i] == c {
            return true;
        }
        i += 1;
    }
    false
}

/// Removes every leading and trailing character of `s` that occurs in `cs`.
pub fn trim_set(s: &str, cs: &Vec<char>) -> (r: String)
    ensures
        r@ == spec_trim_set(s@, cs@),
{
    let len = s.unicode_len();
    let mut lo: usize = 0;
    while lo < len && char_in(cs, s.get_char(lo))
        invariant
            lo <= len,
            len == s@.len(),
            forall|k: int| 0 <= k < lo ==> cs@.contains(#[trigger] s@[k]),
        decreases len - lo,
    {
        lo += 1;
    }
    if lo == len {
        proof {
            lemma_trim_all(s@, cs@);
        }
        return String::new();
    }
    let mut hi: usize = len - 1;
    while hi > lo && char_in(cs, s.get_char(hi))
        invariant
            lo <= hi < len,
            len == s@.len(),
            forall|k: int| hi < k < len ==> cs@.contains(#[trigger] s@[k]),
        decreases hi,
    {
        hi -= 1;
    }
    proof {
        lemma_trim_exact(s@, cs@, lo as int, hi as int);
    }
    let sub = s.substring_char(lo, hi + 1);
    String::from_str(sub)
}

} // verus!

//! Substring replacement over character sequences.

use vstd::prelude::*;
use vstd::string::StrSliceExecFns;
use vstd::string::StringExecFns;

verus! {

/// `pat` stands in `s` starting at position `i`.
pub open spec fn occurs_at(s: Seq<char>, i: int, pat: Seq<char>) -> bool {
    &&& 0 <= i
    &&& i + pat.len() <= s.len()
    &&& s.subrange(i, i + pat.len()) == pat
}

/// `s` with every occurrence of the non-empty `from` replaced by `to`, scanning from
/// the left and never letting two replaced occurrences overlap.
pub open spec fn replace_all(s: Seq<char>, from: Seq<char>, to: Seq<char>) -> Seq<char>
    decreases s.len(),
{
    if s.len() == 0 {
        Seq::empty()
    } else if from.len() > 0 && occurs_at(s, 0, from) {
        to + replace_all(s.subrange(from.len() as int, s.len() as int), from, to)
    } else {
        seq![s[0]] + replace_all(s.subrange(1, s.len() as int), from, to)
    }
}

/// Where `from` stands nowhere before position `k` of `s`, replacement keeps the first
/// `k` characters and works on the rest alone.
pub proof fn lemma_replace_all_skips(s: Seq<char>, from: Seq<char>, to: Seq<char>, k: int)
    requires
        from.len() > 0,
        0 <= k <= s.len(),
        forall|i: int| 0 <= i < k ==> !occurs_at(s, i, from),
    ensures
        replace_all(s, from, to) == s.subrange(0, k) + replace_all(
            s.subrange(k, s.len() as int),
            from,
            to,
        ),
    decreases k,
{
    if k > 0 {
        let t = s.subrange(1, s.len() as int);
        assert forall|i: int| 0 <= i < k - 1 implies !occurs_at(t, i, from) by {
            if occurs_at(t, i, from) {
                assert(s.subrange(i + 1, i + 1 + from.len()) =~= t.subrange(i, i + from.len()));
                assert(occurs_at(s, i + 1, from));
            }
        }
        lemma_replace_all_skips(t, from, to, k - 1);
        assert(!occurs_at(s, 0, from));
        assert(t.subrange(0, k - 1) =~= s.subrange(1, k));
        assert(t.subrange(k - 1, t.len() as int) =~= s.subrange(k, s.len() as int));
        assert(s.subrange(0, k) =~= seq![s[0]] + s.subrange(1, k));
        assert(replace_all(s, from, to) =~= s.subrange(0, k) + replace_all(
            s.subrange(k, s.len() as int),
            from,
            to,
        ));
    } else {
        assert(s.subrange(0, s.len() as int) =~= s);
        assert(replace_all(s, from, to) =~= s.subrange(0, 0) + replace_all(s, from, to));
    }
}

/// Tells whether `pat` (of `m` characters) stands in `s` (of `n` characters) at `i`.
fn occurs_at_exec(s: &str, n: usize, i: usize, pat: &str, m: usize) -> (r: bool)
    requires
        n == s@.len(),
        m == pat@.len(),
        i <= n,
    ensures
        r == occurs_at(s@, i as int, pat@),
{
    if m > n - i {
        return false;
    }
    let mut j: usize = 0;
    while j < m
        invariant
            j <= m,
            i + m <= n,
            n == s@.len(),
            m == pat@.len(),
            forall|k: int| 0 <= k < j ==> s@[i + k] == pat@[k],
        decreases m - j,
    {
        if s.get_char(i + j) != pat.get_char(j) {
            assert(s@.subrange(i as int, i + m)[j as int] != pat@[j as int]);
            return false;
        }
        j += 1;
    }
    assert(s@.subrange(i as int, i + m) =~= pat@);
    true
}

/// Replaces every occurrence of `from` in `s` by `to`, left to right.
pub fn replace_all_exec(s: &str, from: &str, to: &str) -> (r: String)
    requires
        from@.len() > 0,
    ensures
        r@ == replace_all(s@, from@, to@),
{
    let n = s.unicode_len();
    let m = from.unicode_len();
    let mut out = String::new();
    let mut i: usize = 0;
    assert(s@.subrange(0, n as int) =~= s@);
    assert(replace_all(s@, from@, to@) =~= out@ + replace_all(s@, from@, to@));
    while i < n
        invariant
            i <= n,
            n == s@.len(),
            m == from@.len(),
            m > 0,
            replace_all(s@, from@, to@) == out@ + replace_all(
                s@.subrange(i as int, n as int),
                from@,
                to@,
            ),
        decreases n - i,
    {
        let ghost rest = s@.subrange(i as int, n as int);
        let found = occurs_at_exec(s, n, i, from, m);
        if found {
            assert(occurs_at(rest, 0, from@)) by {
                assert(rest.subrange(0, m as int) =~= s@.subrange(i as int, i + m));
            }
            assert(rest.subrange(m as int, rest.len() as int) =~= s@.subrange(i + m, n as int));
            out.append(to);
            i = i + m;
        } else {
            assert(!occurs_at(rest, 0, from@)) by {
                if occurs_at(rest, 0, from@) {
                    assert(rest.subrange(0, m as int) =~= s@.subrange(i as int, i + m));
                }
            }
            assert(rest.subrange(1, rest.len() as int) =~= s@.subrange(i + 1, n as int));
            let c = s.substring_char(i, i + 1);
            assert(c@ =~= seq![rest[0]]);
            out.append(c);
            i = i + 1;
        }
        assert(out@ + replace_all(s@.subrange(i as int, n as int), from@, to@) == replace_all(
            s@,
            from@,
            to@,
        ));
    }
    assert(s@.subrange(n as int, n as int) =~= Seq::<char>::empty());
    assert(out@ =~= out@ + Seq::<char>::empty());
    out
}

} // verus!

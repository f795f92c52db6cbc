//! Verified text primitives: substring search and leftmost-first,
//! non-overlapping replacement over character sequences.

use vstd::prelude::*;
use vstd::string::StrSliceExecFns;
use vstd::string::StringExecFns;

verus! {

/// The pattern `p` occurs in `s` starting at character position `i`.
pub open spec fn match_at(s: Seq<char>, p: Seq<char>, i: int) -> bool {
    0 <= i && i + p.len() <= s.len() && s.subrange(i, i + p.len() as int) == p
}

/// The pattern `p` occurs somewhere in `s`.
pub open spec fn contains_seq(s: Seq<char>, p: Seq<char>) -> bool {
    exists|i: int| match_at(s, p, i)
}

/// The result of replacing every non-overlapping occurrence of `from` in `s`
/// with `to`, scanning left to right. An empty `from` leaves `s` unchanged.
pub open spec fn replace_seq(s: Seq<char>, from: Seq<char>, to: Seq<char>) -> Seq<char>
    decreases s.len(),
{
    if from.len() == 0 || s.len() < from.len() {
        s
    } else if s.subrange(0, from.len() as int) == from {
        to + replace_seq(s.skip(from.len() as int), from, to)
    } else {
        s.take(1) + replace_seq(s.skip(1), from, to)
    }
}

/// Whether `pattern` occurs in `s` starting at character position `i`.
fn match_at_index(s: &str, pattern: &str, i: usize) -> (r: bool)
    requires
        i + pattern@.len() <= s@.len(),
        s@.len() <= usize::MAX,
    ensures
        r == match_at(s@, pattern@, i as int),
{
    let m = pattern.unicode_len();
    let mut k: usize = 0;
    while k < m
        invariant
            m == pattern@.len(),
            i + m <= s@.len(),
            s@.len() <= usize::MAX,
            0 <= k <= m,
            forall|j: int| 0 <= j < k ==> s@[i + j] == pattern@[j],
        decreases m - k,
    {
        if s.get_char(i + k) != pattern.get_char(k) {
            proof {
                assert(s@.subrange(i as int, i as int + m as int)[k as int] != pattern@[k as int]);
            }
            return false;
        }
        k += 1;
    }
    proof {
        assert(s@.subrange(i as int, i as int + m as int) =~= pattern@);
    }
    true
}

/// Whether `pattern` occurs anywhere in `s`.
pub fn contains_pattern(s: &str, pattern: &str) -> (r: bool)
    ensures
        r == contains_seq(s@, pattern@),
{
    let n = s.unicode_len();
    let m = pattern.unicode_len();
    if m > n {
        proof {
            assert(forall|i: int| !match_at(s@, pattern@, i));
        }
        return false;
    }
    if m == 0 {
        proof {
            assert(s@.subrange(0, 0) =~= pattern@);
            assert(match_at(s@, pattern@, 0));
        }
        return true;
    }
    let mut i: usize = 0;
    while i <= n - m
        invariant
            n == s@.len(),
            m == pattern@.len(),
            1 <= m <= n,
            0 <= i <= n - m + 1,
            forall|j: int| 0 <= j < i ==> !match_at(s@, pattern@, j),
        decreases n - m + 1 - i,
    {
        if match_at_index(s, pattern, i) {
            return true;
        }
        i += 1;
    }
    proof {
        assert(forall|j: int| i <= j ==> !match_at(s@, pattern@, j));
    }
    false
}

/// Replaces every non-overlapping occurrence of `from` in `s` with `to`,
/// scanning left to right.
pub fn replace_all(s: &str, from: &str, to: &str) -> (r: String)
    requires
        from@.len() >= 1,
    ensures
        r@ == replace_seq(s@, from@, to@),
{
    let n = s.unicode_len();
    let m = from.unicode_len();
    let mut out = String::new();
    let mut i: usize = 0;
    proof {
        assert(s@.skip(0) =~= s@);
        assert(out@ + replace_seq(s@, from@, to@) =~= replace_seq(s@, from@, to@));
    }
    while i < n
        invariant
            n == s@.len(),
            m == from@.len(),
            m >= 1,
            0 <= i <= n,
            replace_seq(s@, from@, to@) == out@ + replace_seq(s@.skip(i as int), from@, to@),
        decreases n - i,
    {
        let ghost rest = s@.skip(i as int);
        let ghost out0 = out@;
        if m <= n - i && match_at_index(s, from, i) {
            out.append(to);
            proof {
                assert(rest.subrange(0, m as int) =~= s@.subrange(
                    i as int,
                    i as int + m as int,
                ));
                assert(rest.skip(m as int) =~= s@.skip(i as int + m as int));
                assert(replace_seq(rest, from@, to@) == to@ + replace_seq(
                    s@.skip(i as int + m as int),
                    from@,
                    to@,
                ));
                assert(out0 + (to@ + replace_seq(s@.skip(i as int + m as int), from@, to@)) =~= (
                out0 + to@) + replace_seq(s@.skip(i as int + m as int), from@, to@));
            }
            i += m;
        } else {
            let c = s.substring_char(i, i + 1);
            out.append(c);
            proof {
                assert(rest.len() >= 1);
                assert(rest.take(1) =~= s@.subrange(i as int, i as int + 1));
                assert(rest.skip(1) =~= s@.skip(i as int + 1));
                if rest.len() < m {
                    assert(replace_seq(rest, from@, to@) == rest);
                    assert(rest.skip(1).len() < m);
                    assert(replace_seq(rest.skip(1), from@, to@) == rest.skip(1));
                    assert(rest =~= rest.take(1) + rest.skip(1));
                } else {
                    assert(!match_at(s@, from@, i as int));
                    assert(rest.subrange(0, m as int) =~= s@.subrange(
                        i as int,
                        i as int + m as int,
                    ));
                    assert(rest.subrange(0, m as int) != from@);
                }
                assert(replace_seq(rest, from@, to@) == rest.take(1) + replace_seq(
                    rest.skip(1),
                    from@,
                    to@,
                ));
                assert(out0 + (rest.take(1) + replace_seq(rest.skip(1), from@, to@)) =~= (out0
                    + rest.take(1)) + replace_seq(rest.skip(1), from@, to@));
            }
            i += 1;
        }
    }
    proof {
        assert(s@.skip(n as int) =~= Seq::<char>::empty());
        assert(out@ + replace_seq(s@.skip(n as int), from@, to@) =~= out@);
    }
    out
}

} // verus!

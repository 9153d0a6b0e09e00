//! Ordered collections, at the specification level.
//!
//! The metadata collections of a track or a sheet (flags, CD-Text fields,
//! remarks, index points, tracks) are kept as vectors sorted by a strict
//! order on a key.  Inserting replaces the element with an equal key, so a
//! collection holds at most one element per key.  This module defines the
//! insertion on sequences and proves that it keeps them sorted.

use vstd::prelude::*;

verus! {

/// The sequence is strictly ascending under `lt`.
pub open spec fn sorted_by<T>(s: Seq<T>, lt: spec_fn(T, T) -> bool) -> bool {
    forall|i: int, j: int| 0 <= i < j < s.len() ==> lt(s[i], s[j])
}

/// Inserts `x` at its place in the order; an element that compares equal to
/// `x` (neither below nor above it) is replaced by `x`.
pub open spec fn insert_by<T>(s: Seq<T>, x: T, lt: spec_fn(T, T) -> bool) -> Seq<T>
    decreases s.len(),
{
    if s.len() == 0 {
        seq![x]
    } else if lt(s[0], x) {
        seq![s[0]] + insert_by(s.skip(1), x, lt)
    } else if lt(x, s[0]) {
        seq![x] + s
    } else {
        seq![x] + s.skip(1)
    }
}

/// `lt` is transitive, and elements that compare equal relate to every
/// other element in the same way.
pub open spec fn strict_order<T>(lt: spec_fn(T, T) -> bool) -> bool {
    &&& forall|a: T, b: T, c: T| #[trigger] lt(a, b) && #[trigger] lt(b, c) ==> lt(a, c)
    &&& forall|a: T, b: T, c: T|
        !lt(a, b) && !lt(b, a) ==> (#[trigger] lt(a, c) == #[trigger] lt(b, c)) && (lt(c, a) == lt(
            c,
            b,
        ))
}

/// While every element before position `i` orders below `x`, the insertion
/// leaves the prefix up to `i` unchanged and works on the rest.
pub proof fn lemma_insert_by_prefix<T>(s: Seq<T>, x: T, lt: spec_fn(T, T) -> bool, i: int)
    requires
        0 <= i <= s.len(),
        forall|j: int| 0 <= j < i ==> lt(s[j], x),
    ensures
        insert_by(s, x, lt) == s.take(i) + insert_by(s.skip(i), x, lt),
    decreases i,
{
    if i == 0 {
        assert(s.take(0) =~= Seq::<T>::empty());
        assert(s.skip(0) =~= s);
        assert(insert_by(s, x, lt) =~= s.take(0) + insert_by(s.skip(0), x, lt));
    } else {
        lemma_insert_by_prefix(s.skip(1), x, lt, i - 1);
        assert(s.skip(1).take(i - 1) =~= s.take(i).skip(1));
        assert(s.skip(1).skip(i - 1) =~= s.skip(i));
        assert(lt(s[0], x));
        assert(insert_by(s, x, lt) == seq![s[0]] + insert_by(s.skip(1), x, lt));
        assert(seq![s[0]] + (s.skip(1).take(i - 1) + insert_by(s.skip(i), x, lt)) =~= s.take(i)
            + insert_by(s.skip(i), x, lt));
    }
}

/// Insertion keeps a sequence sorted.
pub proof fn lemma_insert_by_sorted<T>(s: Seq<T>, x: T, lt: spec_fn(T, T) -> bool)
    requires
        sorted_by(s, lt),
        strict_order(lt),
    ensures
        sorted_by(insert_by(s, x, lt), lt),
    decreases s.len(),
{
    if s.len() == 0 {
    } else if lt(s[0], x) {
        assert(sorted_by(s.skip(1), lt)) by {
            assert(forall|i: int, j: int|
                0 <= i < j < s.skip(1).len() ==> lt(#[trigger] s.skip(1)[i], #[trigger] s.skip(
                    1,
                )[j]));
        }
        lemma_insert_by_sorted(s.skip(1), x, lt);
        let r = insert_by(s, x, lt);
        let rest = insert_by(s.skip(1), x, lt);
        assert(r == seq![s[0]] + rest);
        // every element of `rest` is either an element of `s.skip(1)` or `x`
        // itself; both order above `s[0]`.
        lemma_insert_by_elements(s.skip(1), x, lt);
        assert forall|i: int, j: int| 0 <= i < j < r.len() implies lt(r[i], r[j]) by {
            if i == 0 {
                assert(r[j] == rest[j - 1]);
                if rest[j - 1] == x {
                } else {
                    let k = choose|k: int|
                        0 <= k < s.skip(1).len() && s.skip(1)[k] == rest[j - 1];
                    assert(s.skip(1)[k] == s[k + 1]);
                    assert(lt(s[0], s[k + 1]));
                }
            } else {
                assert(r[i] == rest[i - 1] && r[j] == rest[j - 1]);
            }
        }
    } else if lt(x, s[0]) {
        let r = insert_by(s, x, lt);
        assert forall|i: int, j: int| 0 <= i < j < r.len() implies lt(r[i], r[j]) by {
            if i == 0 && j >= 1 {
                assert(r[j] == s[j - 1]);
                if j - 1 > 0 {
                    assert(lt(s[0], s[j - 1]));
                }
            } else {
                assert(r[i] == s[i - 1] && r[j] == s[j - 1]);
            }
        }
    } else {
        // x replaces s[0]: x compares equal to s[0], so it orders below
        // everything that s[0] ordered below.
        let r = insert_by(s, x, lt);
        assert forall|i: int, j: int| 0 <= i < j < r.len() implies lt(r[i], r[j]) by {
            if i == 0 {
                assert(r[j] == s.skip(1)[j - 1]);
                assert(s.skip(1)[j - 1] == s[j]);
                assert(lt(s[0], s[j]));
            } else {
                assert(r[i] == s[i] && r[j] == s[j]);
            }
        }
    }
}

/// Every element of the insertion result is `x` or comes from `s`.
pub proof fn lemma_insert_by_elements<T>(s: Seq<T>, x: T, lt: spec_fn(T, T) -> bool)
    ensures
        forall|i: int|
            0 <= i < insert_by(s, x, lt).len() ==> (#[trigger] insert_by(s, x, lt)[i] == x
                || s.contains(insert_by(s, x, lt)[i])),
    decreases s.len(),
{
    if s.len() == 0 {
    } else if lt(s[0], x) {
        lemma_insert_by_elements(s.skip(1), x, lt);
        let r = insert_by(s, x, lt);
        let rest = insert_by(s.skip(1), x, lt);
        assert forall|i: int| 0 <= i < r.len() implies (#[trigger] r[i] == x || s.contains(
            r[i],
        )) by {
            if i == 0 {
                assert(r[0] == s[0]);
                assert(s.contains(s[0]));
            } else {
                assert(r[i] == rest[i - 1]);
                if rest[i - 1] != x {
                    let k = choose|k: int|
                        0 <= k < s.skip(1).len() && s.skip(1)[k] == rest[i - 1];
                    assert(s[k + 1] == rest[i - 1]);
                    assert(s.contains(s[k + 1]));
                }
            }
        }
    } else if lt(x, s[0]) {
        let r = insert_by(s, x, lt);
        assert forall|i: int| 0 <= i < r.len() implies (#[trigger] r[i] == x || s.contains(
            r[i],
        )) by {
            if i >= 1 {
                assert(r[i] == s[i - 1]);
                assert(s.contains(s[i - 1]));
            }
        }
    } else {
        let r = insert_by(s, x, lt);
        assert forall|i: int| 0 <= i < r.len() implies (#[trigger] r[i] == x || s.contains(
            r[i],
        )) by {
            if i >= 1 {
                assert(r[i] == s.skip(1)[i - 1]);
                assert(s.skip(1)[i - 1] == s[i]);
                assert(s.contains(s[i]));
            }
        }
    }
}

} // verus!

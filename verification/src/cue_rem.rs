//! Free-form remarks (`REM` lines): a mapping from an upper-cased key to a
//! value, kept sorted by key; writing an existing key replaces its value.

use crate::ordered::insert_by;
use crate::ordered::lemma_insert_by_prefix;
use crate::ordered::strict_order;
use crate::util::lemma_lex_lt_connected;
use crate::util::lemma_lex_lt_trans;
use crate::util::lex_lt;
use crate::util::str_lex_lt;
use vstd::prelude::*;
use vstd::string::StringExecFns;

verus! {

/// One remark: a key and its value.
#[derive(Debug, Clone)]
pub struct RemEntry {
    pub key: String,
    pub value: String,
}

/// The mathematical value of a remark.
#[verifier::ext_equal]
pub struct RemV {
    pub key: Seq<char>,
    pub value: Seq<char>,
}

impl View for RemEntry {
    type V = RemV;

    open spec fn view(&self) -> RemV {
        RemV { key: self.key@, value: self.value@ }
    }
}

/// Remarks are ordered by key alone.
pub open spec fn rem_lt(a: RemV, b: RemV) -> bool {
    lex_lt(a.key, b.key)
}

/// The order on remarks, as a value.
pub open spec fn rem_lt_fn() -> spec_fn(RemV, RemV) -> bool {
    |a: RemV, b: RemV| rem_lt(a, b)
}

/// The order on remarks is a strict order, and remarks with equal keys
/// order alike against everything.
pub proof fn lemma_rem_lt_strict_order()
    ensures
        strict_order(rem_lt_fn()),
{
    let lt = rem_lt_fn();
    assert forall|a: RemV, b: RemV, c: RemV|
        #[trigger] lt(a, b) && #[trigger] lt(b, c) implies lt(a, c) by {
        lemma_lex_lt_trans(a.key, b.key, c.key);
    }
    assert forall|a: RemV, b: RemV| !#[trigger] lt(a, b) && !#[trigger] lt(b, a) implies a.key
        == b.key by {
        lemma_lex_lt_connected(a.key, b.key);
    }
}

/// The remarks of a vector of entries, as mathematical values.
pub open spec fn rems_view(s: Seq<RemEntry>) -> Seq<RemV> {
    Seq::new(s.len(), |i: int| s[i]@)
}

proof fn lemma_rems_view_insert(s: Seq<RemEntry>, i: int, e: RemEntry)
    requires
        0 <= i <= s.len(),
    ensures
        rems_view(s.insert(i, e)) == rems_view(s).insert(i, e@),
{
    assert(rems_view(s.insert(i, e)) =~= rems_view(s).insert(i, e@));
}

proof fn lemma_rems_view_remove(s: Seq<RemEntry>, i: int)
    requires
        0 <= i < s.len(),
    ensures
        rems_view(s.remove(i)) == rems_view(s).remove(i),
{
    assert(rems_view(s.remove(i)) =~= rems_view(s).remove(i));
}

/// Inserts a remark at its place in the key order; an entry with an equal
/// key is replaced.
pub fn insert_rem(v: &mut Vec<RemEntry>, key: String, value: String)
    ensures
        rems_view(final(v)@) == insert_by(
            rems_view(old(v)@),
            RemV { key: key@, value: value@ },
            rem_lt_fn(),
        ),
{
    let ghost s0 = rems_view(old(v)@);
    let ghost x = RemV { key: key@, value: value@ };
    let mut i: usize = 0;
    while i < v.len() && str_lex_lt(v[i].key.as_str(), key.as_str())
        invariant
            v@ == old(v)@,
            s0 == rems_view(v@),
            i <= v@.len(),
            forall|j: int| 0 <= j < i ==> rem_lt(s0[j], x),
            x == (RemV { key: key@, value: value@ }),
        decreases v@.len() - i,
    {
        proof {
            assert(s0[i as int] == v@[i as int]@);
        }
        i += 1;
    }
    proof {
        assert(forall|j: int| 0 <= j < i ==> #[trigger] (rem_lt_fn())(s0[j], x));
        lemma_insert_by_prefix(s0, x, rem_lt_fn(), i as int);
    }
    let e = RemEntry { key, value };
    if i == v.len() {
        proof {
            assert(s0.skip(i as int) =~= Seq::<RemV>::empty());
        }
        v.push(e);
        proof {
            assert(rems_view(v@) =~= s0.take(i as int) + insert_by(
                s0.skip(i as int),
                x,
                rem_lt_fn(),
            ));
        }
    } else {
        proof {
            assert(s0[i as int] == v@[i as int]@);
            assert(s0.skip(i as int)[0] == s0[i as int]);
        }
        if !str_lex_lt(e.key.as_str(), v[i].key.as_str()) {
            // equal keys: the new entry supersedes the old one.
            proof {
                assert(s0.skip(i as int).skip(1) =~= s0.skip(i as int + 1));
            }
            v.remove(i);
            proof {
                lemma_rems_view_remove(old(v)@, i as int);
            }
            let ghost s1 = v@;
            v.insert(i, e);
            proof {
                lemma_rems_view_insert(s1, i as int, e);
                assert(rems_view(v@) =~= s0.take(i as int) + (seq![x] + s0.skip(i as int + 1)));
            }
        } else {
            let ghost s1 = v@;
            v.insert(i, e);
            proof {
                lemma_rems_view_insert(s1, i as int, e);
                assert(rems_view(v@) =~= s0.take(i as int) + (seq![x] + s0.skip(i as int)));
            }
        }
    }
}

/// The rendered remark lines, one `REM <KEY> <value>` line per entry, each
/// carrying the given indentation prefix.
pub open spec fn rem_block(s: Seq<RemV>, pre: Seq<char>) -> Seq<char>
    decreases s.len(),
{
    if s.len() == 0 {
        Seq::empty()
    } else {
        rem_block(s.drop_last(), pre) + pre + "REM "@ + s.last().key + " "@ + s.last().value
            + "\n"@
    }
}

/// Renders the remark lines, each prefixed with the given indentation.
pub fn render_rems(v: &Vec<RemEntry>, pre: &str) -> (r: String)
    ensures
        r@ == rem_block(rems_view(v@), pre@),
{
    let ghost rs = rems_view(v@);
    let mut out = String::new();
    let mut i: usize = 0;
    while i < v.len()
        invariant
            rs == rems_view(v@),
            i <= v@.len(),
            out@ == rem_block(rs.take(i as int), pre@),
        decreases v@.len() - i,
    {
        out.append(pre);
        out.append("REM ");
        out.append(v[i].key.as_str());
        out.append(" ");
        out.append(v[i].value.as_str());
        out.append("\n");
        proof {
            assert(rs.take(i as int + 1).drop_last() =~= rs.take(i as int));
            assert(rs.take(i as int + 1).last() == rs[i as int]);
            assert(rs[i as int] == v@[i as int]@);
            assert(out@ =~= rem_block(rs.take(i as int + 1), pre@));
        }
        i += 1;
    }
    proof {
        assert(rs.take(v@.len() as int) =~= rs);
    }
    out
}

} // verus!

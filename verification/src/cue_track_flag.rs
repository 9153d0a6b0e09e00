//! Per-track playback flags.

use crate::ordered::insert_by;
use crate::ordered::lemma_insert_by_prefix;
use crate::ordered::strict_order;
use vstd::prelude::*;

verus! {

/// The closed set of track flags.  A track holds a set of these, rendered
/// in the canonical order below.
#[derive(Debug, Clone, Copy, PartialEq, Eq, Structural)]
pub enum CueTrackFlag {
    PRE,
    DCP,
    F4CH,
    SCMS,
}

/// The canonical position of a flag in a `FLAGS` line.
pub open spec fn flag_rank(f: CueTrackFlag) -> int {
    match f {
        CueTrackFlag::PRE => 0,
        CueTrackFlag::DCP => 1,
        CueTrackFlag::F4CH => 2,
        CueTrackFlag::SCMS => 3,
    }
}

/// The canonical order of flags.
pub open spec fn flag_lt(a: CueTrackFlag, b: CueTrackFlag) -> bool {
    flag_rank(a) < flag_rank(b)
}

impl CueTrackFlag {
    /// The canonical label of the flag.
    pub open spec fn spec_label(self) -> Seq<char> {
        match self {
            CueTrackFlag::PRE => "PRE"@,
            CueTrackFlag::DCP => "DCP"@,
            CueTrackFlag::F4CH => "4CH"@,
            CueTrackFlag::SCMS => "SCMS"@,
        }
    }

    /// The canonical label of the flag.
    pub fn label(&self) -> (r: &'static str)
        ensures
            r@ == self.spec_label(),
    {
        match self {
            CueTrackFlag::PRE => "PRE",
            CueTrackFlag::DCP => "DCP",
            CueTrackFlag::F4CH => "4CH",
            CueTrackFlag::SCMS => "SCMS",
        }
    }

    /// The canonical position of the flag in a `FLAGS` line.
    pub fn rank(&self) -> (r: u32)
        ensures
            r as int == flag_rank(*self),
    {
        match self {
            CueTrackFlag::PRE => 0,
            CueTrackFlag::DCP => 1,
            CueTrackFlag::F4CH => 2,
            CueTrackFlag::SCMS => 3,
        }
    }
}

/// The canonical order of flags, as a value.
pub open spec fn flag_lt_fn() -> spec_fn(CueTrackFlag, CueTrackFlag) -> bool {
    |a: CueTrackFlag, b: CueTrackFlag| flag_lt(a, b)
}

/// The canonical order of flags is a strict total order.
pub proof fn lemma_flag_lt_strict_order()
    ensures
        strict_order(flag_lt_fn()),
{
    let lt = flag_lt_fn();
    assert forall|a: CueTrackFlag, b: CueTrackFlag| !#[trigger] lt(a, b) && !#[trigger] lt(
        b,
        a,
    ) implies a == b by {
        assert(flag_rank(a) == flag_rank(b));
    }
}

/// Inserts a flag at its place in the canonical order; a flag already
/// present stays present once.
pub fn insert_flag(v: &mut Vec<CueTrackFlag>, flag: CueTrackFlag)
    ensures
        final(v)@ == insert_by(old(v)@, flag, flag_lt_fn()),
{
    let ghost s0 = old(v)@;
    let r = flag.rank();
    let mut i: usize = 0;
    while i < v.len() && v[i].rank() < r
        invariant
            v@ == old(v)@,
            s0 == v@,
            i <= v@.len(),
            r as int == flag_rank(flag),
            forall|j: int| 0 <= j < i ==> flag_lt(s0[j], flag),
        decreases v@.len() - i,
    {
        proof {
            assert(s0[i as int] == v@[i as int]);
            assert(flag_lt(s0[i as int], flag));
        }
        i += 1;
    }
    proof {
        assert(forall|j: int| 0 <= j < i ==> #[trigger] (flag_lt_fn())(s0[j], flag));
        lemma_insert_by_prefix(s0, flag, flag_lt_fn(), i as int);
    }
    if i == v.len() {
        proof {
            assert(s0.skip(i as int) =~= Seq::<CueTrackFlag>::empty());
        }
        v.push(flag);
        proof {
            assert(v@ =~= s0.take(i as int) + insert_by(s0.skip(i as int), flag, flag_lt_fn()));
        }
    } else {
        proof {
            assert(s0.skip(i as int)[0] == s0[i as int]);
        }
        if flag.rank() == v[i].rank() {
            proof {
                assert(s0.skip(i as int).skip(1) =~= s0.skip(i as int + 1));
            }
            v.remove(i);
            v.insert(i, flag);
            proof {
                assert(old(v)@.remove(i as int).insert(i as int, flag) =~= s0.take(i as int) + (
                seq![flag] + s0.skip(i as int + 1)));
            }
        } else {
            v.insert(i, flag);
            proof {
                assert(s0.insert(i as int, flag) =~= s0.take(i as int) + (seq![flag] + s0.skip(
                    i as int,
                )));
            }
        }
    }
}

/// The flags of a `FLAGS` line, each preceded by one space.
pub open spec fn flags_items(s: Seq<CueTrackFlag>) -> Seq<char>
    decreases s.len(),
{
    if s.len() == 0 {
        Seq::empty()
    } else {
        flags_items(s.drop_last()) + " "@ + s.last().spec_label()
    }
}

/// The whole `FLAGS` line with its indentation prefix, present exactly
/// when the flag set is not empty.
pub open spec fn flags_block(s: Seq<CueTrackFlag>, pre: Seq<char>) -> Seq<char> {
    if s.len() == 0 {
        Seq::empty()
    } else {
        pre + "FLAGS"@ + flags_items(s) + "\n"@
    }
}

} // verus!

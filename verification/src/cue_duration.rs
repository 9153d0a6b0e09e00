//! Disc time: minutes, seconds and frames (75 frames to the second).
//!
//! A well-formed duration keeps `sec` below sixty and `frame` below
//! seventy-five; addition propagates carries upward (frames to seconds,
//! seconds to minutes) and minutes accumulate without further bound.  A
//! well-formed duration is exactly a count of frames, which is what the
//! arithmetic lemmas below say.

use crate::util::dec2_str;
use crate::util::dec_str;
use crate::util::fmt_u32;
use crate::util::fmt_u32_pad2;
use vstd::arithmetic::div_mod::lemma_div_is_ordered;
use vstd::arithmetic::div_mod::lemma_fundamental_div_mod;
use vstd::arithmetic::div_mod::lemma_fundamental_div_mod_converse;
use vstd::arithmetic::div_mod::lemma_mod_bound;
use vstd::prelude::*;
use vstd::string::StringExecFns;

verus! {

/// A point or span of disc time.
#[derive(Debug, Clone, Copy, PartialEq, Eq, Structural)]
pub struct CueDuration {
    pub min: u32,
    pub sec: u32,
    pub frame: u32,
}

/// A duration stated by its parts, before conversion to disc time.
/// Seconds are taken modulo sixty and milliseconds modulo a thousand by the
/// named constructors; milliseconds convert to frames by truncation.
#[derive(Debug, Clone, Copy, PartialEq, Eq, Structural)]
pub enum DurationFormat {
    MinSec(u32, u32),
    MinSecMil(u32, u32, u32),
}

impl CueDuration {
    /// Seconds below sixty, frames below seventy-five.
    pub open spec fn wf(self) -> bool {
        self.sec < 60 && self.frame < 75
    }

    /// The duration as a plain count of frames.
    pub open spec fn spec_frames(self) -> int {
        (self.min as int * 60 + self.sec as int) * 75 + self.frame as int
    }

    /// The largest frame count a well-formed duration can hold.
    pub open spec fn max_frames() -> int {
        (u32::MAX as int * 60 + 59) * 75 + 74
    }

    /// The well-formed duration holding a given count of frames.
    pub open spec fn from_frames(n: int) -> CueDuration {
        CueDuration {
            min: #[verifier::truncate] ((n / 4500) as u32),
            sec: ((n / 75) % 60) as u32,
            frame: (n % 75) as u32,
        }
    }

    /// Field-wise sum with carry propagation: the frame sum carries into
    /// seconds at seventy-five, the second sum carries into minutes at
    /// sixty.
    pub open spec fn spec_add(self, rhs: CueDuration) -> CueDuration {
        let sum_frame = self.frame as int + rhs.frame as int;
        let frame = sum_frame % 75;
        let retain_second = sum_frame / 75;
        let sum_second = self.sec as int + rhs.sec as int + retain_second;
        let seconds = sum_second % 60;
        let retain_minute = sum_second / 60;
        let minutes = self.min as int + rhs.min as int + retain_minute;
        CueDuration {
            min: #[verifier::truncate] (minutes as u32),
            sec: seconds as u32,
            frame: frame as u32,
        }
    }

    /// The additive identity.
    pub open spec fn spec_zero() -> CueDuration {
        CueDuration { min: 0, sec: 0, frame: 0 }
    }

    /// The additive identity.
    pub fn zero() -> (r: Self)
        ensures
            r == Self::spec_zero(),
    {
        Self { min: 0, sec: 0, frame: 0 }
    }

    /// `MM:SS:FF`, with minutes zero-padded to at least two digits; seconds
    /// and frames are deliberately left unpadded.
    pub open spec fn spec_repr(self) -> Seq<char> {
        dec2_str(self.min as nat) + ":"@ + dec_str(self.sec as nat) + ":"@ + dec_str(
            self.frame as nat,
        )
    }

    /// Renders the duration as `MM:SS:FF`.
    pub fn repr(&self) -> (r: String)
        ensures
            r@ == self.spec_repr(),
    {
        let mut s = fmt_u32_pad2(self.min);
        s.append(":");
        let sec = fmt_u32(self.sec);
        s.append(sec.as_str());
        s.append(":");
        let frame = fmt_u32(self.frame);
        s.append(frame.as_str());
        s
    }

    /// Carry-propagating addition; never loses time, as the frame-count
    /// ensures states.
    pub fn add(self, rhs: Self) -> (r: Self)
        requires
            self.wf(),
            rhs.wf(),
            self.spec_frames() + rhs.spec_frames() <= Self::max_frames(),
        ensures
            r == self.spec_add(rhs),
            r.wf(),
            r.spec_frames() == self.spec_frames() + rhs.spec_frames(),
    {
        proof {
            lemma_add_frames(self, rhs);
        }
        let sum_frame = self.frame + rhs.frame;
        let frame = sum_frame % 75;
        let retain_second = sum_frame / 75;
        let sum_second = self.sec + rhs.sec + retain_second;
        let seconds = sum_second % 60;
        let retain_minute = sum_second / 60;
        let minutes = self.min + rhs.min + retain_minute;
        Self { min: minutes, sec: seconds, frame }
    }
}

/// On well-formed durations whose total fits, addition is exactly addition
/// of frame counts, and it stays within the minute field.
pub proof fn lemma_add_frames(a: CueDuration, b: CueDuration)
    requires
        a.wf(),
        b.wf(),
        a.spec_frames() + b.spec_frames() <= CueDuration::max_frames(),
    ensures
        a.spec_add(b).wf(),
        a.spec_add(b).spec_frames() == a.spec_frames() + b.spec_frames(),
        a.min as int + b.min as int + (a.sec as int + b.sec as int + ((a.frame as int
            + b.frame as int) / 75)) / 60 <= u32::MAX as int,
{
    let sf = a.frame as int + b.frame as int;
    lemma_fundamental_div_mod(sf, 75);
    lemma_mod_bound(sf, 75);
    let q1 = sf / 75;
    let r1 = sf % 75;
    assert(0 <= q1 <= 1);
    let ss = a.sec as int + b.sec as int + q1;
    lemma_fundamental_div_mod(ss, 60);
    lemma_mod_bound(ss, 60);
    let q2 = ss / 60;
    let r2 = ss % 60;
    assert(0 <= q2 <= 1);
    let m = a.min as int + b.min as int + q2;
    assert(a.spec_frames() + b.spec_frames() == m * 4500 + r2 * 75 + r1);
    assert(m * 4500 <= u32::MAX as int * 4500 + 4499);
    assert(m <= u32::MAX as int);
}

/// A well-formed duration is recovered from its frame count.
pub proof fn lemma_frames_roundtrip(d: CueDuration)
    requires
        d.wf(),
    ensures
        CueDuration::from_frames(d.spec_frames()) == d,
{
    let n = d.spec_frames();
    let rest = d.sec as int * 75 + d.frame as int;
    assert(n == d.min as int * 4500 + rest);
    assert(0 <= rest < 4500);
    lemma_fundamental_div_mod_converse(n, 4500, d.min as int, rest);
    lemma_fundamental_div_mod_converse(n, 75, d.min as int * 60 + d.sec as int, d.frame as int);
    lemma_fundamental_div_mod_converse(
        d.min as int * 60 + d.sec as int,
        60,
        d.min as int,
        d.sec as int,
    );
    assert((n / 75) % 60 == d.sec as int);
}

/// Two well-formed durations with the same frame count are the same.
pub proof fn lemma_frames_unique(a: CueDuration, b: CueDuration)
    requires
        a.wf(),
        b.wf(),
        a.spec_frames() == b.spec_frames(),
    ensures
        a == b,
{
    lemma_frames_roundtrip(a);
    lemma_frames_roundtrip(b);
}

/// Addition of durations is commutative.
pub proof fn lemma_add_commutes(a: CueDuration, b: CueDuration)
    ensures
        a.spec_add(b) == b.spec_add(a),
{
}

/// Addition of well-formed durations is associative whenever the three
/// durations fit in disc time together.
pub proof fn lemma_add_associates(a: CueDuration, b: CueDuration, c: CueDuration)
    requires
        a.wf(),
        b.wf(),
        c.wf(),
        a.spec_frames() + b.spec_frames() + c.spec_frames() <= CueDuration::max_frames(),
    ensures
        a.spec_add(b).spec_add(c) == a.spec_add(b.spec_add(c)),
{
    lemma_add_frames(a, b);
    lemma_add_frames(a.spec_add(b), c);
    lemma_add_frames(b, c);
    lemma_add_frames(a, b.spec_add(c));
    lemma_frames_unique(a.spec_add(b).spec_add(c), a.spec_add(b.spec_add(c)));
}

/// Zero is the identity of addition on well-formed durations.
pub proof fn lemma_zero_is_identity(a: CueDuration)
    requires
        a.wf(),
    ensures
        a.spec_add(CueDuration::spec_zero()) == a,
        CueDuration::spec_zero().spec_add(a) == a,
{
    lemma_add_frames(a, CueDuration::spec_zero());
    lemma_add_frames(CueDuration::spec_zero(), a);
    lemma_frames_unique(a.spec_add(CueDuration::spec_zero()), a);
    lemma_frames_unique(CueDuration::spec_zero().spec_add(a), a);
}

impl Default for DurationFormat {
    /// The all-zero duration format.
    fn default() -> (r: Self)
        ensures
            r == DurationFormat::MinSecMil(0u32, 0u32, 0u32),
    {
        Self::MinSecMil(0, 0, 0)
    }
}

impl DurationFormat {
    /// Minutes and seconds, seconds taken modulo sixty.
    pub fn minute_seconde_format(min: u32, sec: u32) -> (r: Self)
        ensures
            r == DurationFormat::MinSec(min, sec % 60),
    {
        Self::MinSec(min, sec % 60)
    }

    /// Minutes, seconds and milliseconds; seconds taken modulo sixty,
    /// milliseconds modulo a thousand.
    pub fn minute_seconde_millieme_format(min: u32, sec: u32, mil: u32) -> (r: Self)
        ensures
            r == DurationFormat::MinSecMil(min, sec % 60, mil % 1000),
    {
        Self::MinSecMil(min, sec % 60, mil % 1000)
    }

    /// The disc time this format denotes: milliseconds become frames by
    /// `mil * 75 / 1000`, a truncating (lossy) conversion.
    pub open spec fn spec_to_duration(self) -> CueDuration {
        match self {
            DurationFormat::MinSec(min, sec) => CueDuration { min, sec, frame: 0 },
            DurationFormat::MinSecMil(min, sec, mil) => CueDuration {
                min,
                sec,
                frame: #[verifier::truncate] ((mil as int * 75 / 1000) as u32),
            },
        }
    }

    /// Converts to disc time.
    pub fn to_duration(&self) -> (r: CueDuration)
        ensures
            r == self.spec_to_duration(),
    {
        match self {
            DurationFormat::MinSec(min, sec) => CueDuration { min: *min, sec: *sec, frame: 0 },
            DurationFormat::MinSecMil(min, sec, mil) => {
                let frame64: u64 = (*mil as u64) * 75 / 1000;
                proof {
                    lemma_div_is_ordered(
                        *mil as int * 75,
                        u32::MAX as int * 75,
                        1000,
                    );
                }
                let frame = frame64 as u32;
                CueDuration { min: *min, sec: *sec, frame }
            },
        }
    }
}

/// For any minutes, any seconds below sixty and any milliseconds below a
/// thousand, the denoted duration is well formed, its frame part is
/// `mil * 75 / 1000` (below seventy-five), and it renders with the minutes
/// zero-padded to at least two digits while seconds and frames stay
/// unpadded.
pub proof fn lemma_min_sec_mil_repr(min: u32, sec: u32, mil: u32)
    requires
        sec < 60,
        mil < 1000,
    ensures
        ({
            let d = DurationFormat::MinSecMil(min, sec % 60, mil % 1000).spec_to_duration();
            &&& d == (CueDuration { min, sec, frame: (mil as int * 75 / 1000) as u32 })
            &&& d.wf()
            &&& d.spec_repr() == dec2_str(min as nat) + ":"@ + dec_str(sec as nat) + ":"@
                + dec_str((mil as int * 75 / 1000) as nat)
            &&& dec2_str(min as nat).len() >= 2
        }),
{
    lemma_div_is_ordered(mil as int * 75, 999int * 75, 1000);
    assert(mil as int * 75 / 1000 < 75);
    assert(mil as int * 75 / 1000 >= 0);
    crate::util::lemma_dec_str_len(min as nat);
}

} // verus!




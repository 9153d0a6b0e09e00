//! One track of the disc: its number and mode, flags, gaps, CD-Text
//! fields, remarks, and index points.
//!
//! Tracks are identified and ordered by track number alone; all other
//! fields stay out of the comparison.  A track's offset is the plain sum of
//! all of its index durations, in index order.

use crate::cue_cd_text::cd_block;
use crate::cue_cd_text::cd_lt_fn;
use crate::cue_cd_text::cds_view;
use crate::cue_cd_text::insert_cd_text;
use crate::cue_cd_text::lemma_cd_lt_strict_order;
use crate::cue_cd_text::render_cd_texts;
use crate::cue_cd_text::CdTextKind;
use crate::cue_cd_text::CdTextV;
use crate::cue_cd_text::CueCdText;
use crate::cue_duration::CueDuration;
use crate::cue_duration::DurationFormat;
use crate::cue_rem::insert_rem;
use crate::cue_rem::lemma_rem_lt_strict_order;
use crate::cue_rem::rem_block;
use crate::cue_rem::rem_lt_fn;
use crate::cue_rem::rems_view;
use crate::cue_rem::render_rems;
use crate::cue_rem::RemEntry;
use crate::cue_rem::RemV;
use crate::cue_track_flag::flags_block;
use crate::cue_track_flag::flags_items;
use crate::cue_track_flag::flag_lt_fn;
use crate::cue_track_flag::insert_flag;
use crate::cue_track_flag::lemma_flag_lt_strict_order;
use crate::cue_track_flag::CueTrackFlag;
use crate::cue_track_mode::CueTrackMode;
use crate::ordered::insert_by;
use crate::ordered::lemma_insert_by_prefix;
use crate::ordered::lemma_insert_by_sorted;
use crate::ordered::sorted_by;
use crate::ordered::strict_order;
use crate::util::child_pre;
use crate::util::child_pre_str;
use crate::util::dec_str;
use crate::util::fmt_u32;
use crate::util::tab_pre;
use crate::util::tab_pre_str;
use crate::util::to_ascii_upper;
use crate::util::upper_seq;
use vstd::prelude::*;
use vstd::string::StringExecFns;

verus! {

/// One index point: its number and the duration it marks.
#[derive(Debug, Clone, Copy, PartialEq, Eq, Structural)]
pub struct CueIndex {
    pub number: u32,
    pub offset: CueDuration,
}

/// How a track's index durations are shown when the track is rendered.
/// `SetAbsolute` replaces every index duration by the given one; `Sum`
/// adds the given duration to each index's own.
#[derive(Debug, Clone, Copy, PartialEq, Eq, Structural)]
pub enum ComputeKind {
    SetAbsolute(CueDuration),
    Sum(CueDuration),
}

/// Index points are ordered by index number alone.
pub open spec fn idx_lt(a: CueIndex, b: CueIndex) -> bool {
    a.number < b.number
}

/// The order on index points, as a value.
pub open spec fn idx_lt_fn() -> spec_fn(CueIndex, CueIndex) -> bool {
    |a: CueIndex, b: CueIndex| idx_lt(a, b)
}

/// The order on index points is a strict order, and entries with equal
/// numbers order alike against everything.
pub proof fn lemma_idx_lt_strict_order()
    ensures
        strict_order(idx_lt_fn()),
{
}

/// Inserts an index point at its place in the number order; an entry with
/// an equal number is replaced.
pub fn insert_index(v: &mut Vec<CueIndex>, e: CueIndex)
    ensures
        final(v)@ == insert_by(old(v)@, e, idx_lt_fn()),
{
    let ghost s0 = old(v)@;
    let mut i: usize = 0;
    while i < v.len() && v[i].number < e.number
        invariant
            v@ == old(v)@,
            s0 == v@,
            i <= v@.len(),
            forall|j: int| 0 <= j < i ==> idx_lt(s0[j], e),
        decreases v@.len() - i,
    {
        i += 1;
    }
    proof {
        assert(forall|j: int| 0 <= j < i ==> #[trigger] (idx_lt_fn())(s0[j], e));
        lemma_insert_by_prefix(s0, e, idx_lt_fn(), i as int);
    }
    if i == v.len() {
        proof {
            assert(s0.skip(i as int) =~= Seq::<CueIndex>::empty());
        }
        v.push(e);
        proof {
            assert(v@ =~= s0.take(i as int) + insert_by(s0.skip(i as int), e, idx_lt_fn()));
        }
    } else {
        proof {
            assert(s0.skip(i as int)[0] == s0[i as int]);
        }
        if v[i].number == e.number {
            proof {
                assert(s0.skip(i as int).skip(1) =~= s0.skip(i as int + 1));
            }
            v.remove(i);
            v.insert(i, e);
            proof {
                assert(v@ =~= s0.take(i as int) + (seq![e] + s0.skip(i as int + 1)));
            }
        } else {
            v.insert(i, e);
            proof {
                assert(v@ =~= s0.take(i as int) + (seq![e] + s0.skip(i as int)));
            }
        }
    }
}

// ---------------------------------------------------------------------------
// Sums of index durations
// ---------------------------------------------------------------------------

/// Every index duration is well formed.
pub open spec fn idx_durs_wf(s: Seq<CueIndex>) -> bool {
    forall|i: int| 0 <= i < s.len() ==> (#[trigger] s[i]).offset.wf()
}

/// The sum, as a frame count, of all index durations.
pub open spec fn idx_total_frames(s: Seq<CueIndex>) -> int
    decreases s.len(),
{
    if s.len() == 0 {
        0
    } else {
        idx_total_frames(s.drop_last()) + s.last().offset.spec_frames()
    }
}

/// The sum of index durations is never negative.
pub proof fn lemma_idx_total_nonneg(s: Seq<CueIndex>)
    ensures
        idx_total_frames(s) >= 0,
    decreases s.len(),
{
    if s.len() > 0 {
        lemma_idx_total_nonneg(s.drop_last());
    }
}

/// Extending a prefix by one entry adds that entry's frames.
pub proof fn lemma_idx_total_take_step(s: Seq<CueIndex>, i: int)
    requires
        0 <= i < s.len(),
    ensures
        idx_total_frames(s.take(i + 1)) == idx_total_frames(s.take(i))
            + s[i].offset.spec_frames(),
{
    assert(s.take(i + 1).drop_last() =~= s.take(i));
    assert(s.take(i + 1).last() == s[i]);
}

/// A prefix sums to no more than the whole.
pub proof fn lemma_idx_total_prefix_bound(s: Seq<CueIndex>, i: int)
    requires
        0 <= i <= s.len(),
    ensures
        idx_total_frames(s.take(i)) <= idx_total_frames(s),
    decreases s.len(),
{
    if i == s.len() {
        assert(s.take(i) =~= s);
    } else {
        assert(s.drop_last().take(i) =~= s.take(i));
        lemma_idx_total_prefix_bound(s.drop_last(), i);
    }
}

// ---------------------------------------------------------------------------
// The track and its mathematical value
// ---------------------------------------------------------------------------

/// The mathematical value of a track.
#[verifier::ext_equal]
pub struct TrackV {
    pub number: u32,
    pub mode: CueTrackMode,
    pub flags: Seq<CueTrackFlag>,
    pub pregap: Option<CueDuration>,
    pub postgap: Option<CueDuration>,
    pub cd_texts: Seq<CdTextV>,
    pub rems: Seq<RemV>,
    pub indexes: Seq<CueIndex>,
}

impl TrackV {
    /// Every collection of the track is sorted by its key, so the track
    /// holds at most one entry per key and renders in canonical order.
    pub open spec fn wf(self) -> bool {
        &&& sorted_by(self.flags, flag_lt_fn())
        &&& sorted_by(self.cd_texts, cd_lt_fn())
        &&& sorted_by(self.rems, rem_lt_fn())
        &&& sorted_by(self.indexes, idx_lt_fn())
    }
}

/// One track of the disc.
#[derive(Debug, Clone)]
pub struct CueTrack {
    pub number: u32,
    pub mode: CueTrackMode,
    pub flags: Vec<CueTrackFlag>,
    pub pregap: Option<CueDuration>,
    pub postgap: Option<CueDuration>,
    pub cd_texts: Vec<CueCdText>,
    pub rems: Vec<RemEntry>,
    pub indexes: Vec<CueIndex>,
}

impl View for CueTrack {
    type V = TrackV;

    open spec fn view(&self) -> TrackV {
        TrackV {
            number: self.number,
            mode: self.mode,
            flags: self.flags@,
            pregap: self.pregap,
            postgap: self.postgap,
            cd_texts: cds_view(self.cd_texts@),
            rems: rems_view(self.rems@),
            indexes: self.indexes@,
        }
    }
}

// Tracks compare by track number alone: mode, flags, gaps, CD-Text
// fields, remarks and indexes all stay out of the comparison.
impl PartialEq for CueTrack {
    fn eq(&self, other: &Self) -> (r: bool) {
        self.number == other.number
    }
}

impl Eq for CueTrack {

}

impl vstd::std_specs::cmp::PartialEqSpecImpl for CueTrack {
    open spec fn obeys_eq_spec() -> bool {
        true
    }

    open spec fn eq_spec(&self, other: &Self) -> bool {
        self.number == other.number
    }
}

impl PartialOrd for CueTrack {
    fn partial_cmp(&self, other: &Self) -> (r: Option<core::cmp::Ordering>) {
        if self.number < other.number {
            Some(core::cmp::Ordering::Less)
        } else if self.number == other.number {
            Some(core::cmp::Ordering::Equal)
        } else {
            Some(core::cmp::Ordering::Greater)
        }
    }
}

impl vstd::std_specs::cmp::PartialOrdSpecImpl for CueTrack {
    open spec fn obeys_partial_cmp_spec() -> bool {
        true
    }

    open spec fn partial_cmp_spec(&self, other: &Self) -> Option<core::cmp::Ordering> {
        if self.number < other.number {
            Some(core::cmp::Ordering::Less)
        } else if self.number == other.number {
            Some(core::cmp::Ordering::Equal)
        } else {
            Some(core::cmp::Ordering::Greater)
        }
    }
}

/// Builds one track by additive calls; each call inserts into or
/// overwrites one field, as that field's semantics say.
pub struct CueTrackBuilder {
    pub track: CueTrack,
}

impl CueTrackBuilder {
    /// A track with the given number and mode and nothing else.
    pub fn new(track_index: u32, mode: CueTrackMode) -> (r: Self)
        ensures
            r.track@ == (TrackV {
                number: track_index,
                mode,
                flags: Seq::empty(),
                pregap: None,
                postgap: None,
                cd_texts: Seq::empty(),
                rems: Seq::empty(),
                indexes: Seq::empty(),
            }),
            r.track@.wf(),
    {
        let track = CueTrack {
            number: track_index,
            mode,
            flags: Vec::new(),
            pregap: None,
            postgap: None,
            cd_texts: Vec::new(),
            rems: Vec::new(),
            indexes: Vec::new(),
        };
        let r = Self { track };
        proof {
            assert(r.track@.flags =~= Seq::<CueTrackFlag>::empty());
            assert(r.track@.cd_texts =~= Seq::<CdTextV>::empty());
            assert(r.track@.rems =~= Seq::<RemV>::empty());
            assert(r.track@.indexes =~= Seq::<CueIndex>::empty());
        }
        r
    }

    /// Records an index point; an index with the same number is replaced.
    pub fn add_index(&mut self, index: u32, duration: DurationFormat)
        ensures
            final(self).track@ == (TrackV {
                indexes: insert_by(
                    old(self).track@.indexes,
                    CueIndex { number: index, offset: duration.spec_to_duration() },
                    idx_lt_fn(),
                ),
                ..old(self).track@
            }),
            old(self).track@.wf() ==> final(self).track@.wf(),
    {
        let offset = duration.to_duration();
        insert_index(&mut self.track.indexes, CueIndex { number: index, offset });
        proof {
            if old(self).track@.wf() {
                lemma_idx_lt_strict_order();
                lemma_insert_by_sorted(
                    old(self).track@.indexes,
                    CueIndex { number: index, offset: duration.spec_to_duration() },
                    idx_lt_fn(),
                );
            }
        }
    }

    /// Adds a flag; a flag already present is kept once.
    pub fn add_flag(&mut self, flag: CueTrackFlag)
        ensures
            final(self).track@ == (TrackV {
                flags: insert_by(old(self).track@.flags, flag, flag_lt_fn()),
                ..old(self).track@
            }),
            old(self).track@.wf() ==> final(self).track@.wf(),
    {
        insert_flag(&mut self.track.flags, flag);
        proof {
            if old(self).track@.wf() {
                lemma_flag_lt_strict_order();
                lemma_insert_by_sorted(old(self).track@.flags, flag, flag_lt_fn());
            }
        }
    }

    /// Sets the pregap, replacing any earlier one.
    pub fn add_pregap(&mut self, duration: DurationFormat)
        ensures
            final(self).track@ == (TrackV {
                pregap: Some(duration.spec_to_duration()),
                ..old(self).track@
            }),
            old(self).track@.wf() ==> final(self).track@.wf(),
    {
        self.track.pregap = Some(duration.to_duration());
    }

    /// Sets the postgap, replacing any earlier one.  Note that rendering
    /// draws the `POSTGAP` line from the pregap field (see
    /// [`spec_track_repr`]), so this value is stored but never shown.
    pub fn add_postgap(&mut self, duration: DurationFormat)
        ensures
            final(self).track@ == (TrackV {
                postgap: Some(duration.spec_to_duration()),
                ..old(self).track@
            }),
            old(self).track@.wf() ==> final(self).track@.wf(),
    {
        self.track.postgap = Some(duration.to_duration());
    }

    /// Inserts one CD-Text field; a field with the same tag and payload
    /// collapses with the one already there.
    fn add_cd_text(&mut self, c: CueCdText)
        ensures
            final(self).track@ == (TrackV {
                cd_texts: insert_by(old(self).track@.cd_texts, c@, cd_lt_fn()),
                ..old(self).track@
            }),
            old(self).track@.wf() ==> final(self).track@.wf(),
    {
        let ghost x = c@;
        insert_cd_text(&mut self.track.cd_texts, c);
        proof {
            if old(self).track@.wf() {
                lemma_cd_lt_strict_order();
                lemma_insert_by_sorted(old(self).track@.cd_texts, x, cd_lt_fn());
            }
        }
    }

    /// Adds an `ARRANGER` CD-Text field.
    pub fn add_arranger(&mut self, arranger: &str)
        ensures
            final(self).track@ == (TrackV {
                cd_texts: insert_by(
                    old(self).track@.cd_texts,
                    CdTextV { kind: CdTextKind::Arranger, text: arranger@ },
                    cd_lt_fn(),
                ),
                ..old(self).track@
            }),
            old(self).track@.wf() ==> final(self).track@.wf(),
    {
        self.add_cd_text(CueCdText::Arrager(arranger.to_owned()));
    }

    /// Adds a `COMPOSER` CD-Text field.
    pub fn add_composer(&mut self, composer: &str)
        ensures
            final(self).track@ == (TrackV {
                cd_texts: insert_by(
                    old(self).track@.cd_texts,
                    CdTextV { kind: CdTextKind::Composer, text: composer@ },
                    cd_lt_fn(),
                ),
                ..old(self).track@
            }),
            old(self).track@.wf() ==> final(self).track@.wf(),
    {
        self.add_cd_text(CueCdText::Composer(composer.to_owned()));
    }

    /// Adds a `DISC_ID` CD-Text field.
    pub fn add_disc_id(&mut self, disc_id: &str)
        ensures
            final(self).track@ == (TrackV {
                cd_texts: insert_by(
                    old(self).track@.cd_texts,
                    CdTextV { kind: CdTextKind::DiscId, text: disc_id@ },
                    cd_lt_fn(),
                ),
                ..old(self).track@
            }),
            old(self).track@.wf() ==> final(self).track@.wf(),
    {
        self.add_cd_text(CueCdText::DiscId(disc_id.to_owned()));
    }

    /// Adds a `GENRE` CD-Text field.
    pub fn add_genre(&mut self, genre: &str)
        ensures
            final(self).track@ == (TrackV {
                cd_texts: insert_by(
                    old(self).track@.cd_texts,
                    CdTextV { kind: CdTextKind::Genre, text: genre@ },
                    cd_lt_fn(),
                ),
                ..old(self).track@
            }),
            old(self).track@.wf() ==> final(self).track@.wf(),
    {
        self.add_cd_text(CueCdText::Genre(genre.to_owned()));
    }

    /// Adds an `ISCR` CD-Text field.
    pub fn add_iscr(&mut self, iscr: &str)
        ensures
            final(self).track@ == (TrackV {
                cd_texts: insert_by(
                    old(self).track@.cd_texts,
                    CdTextV { kind: CdTextKind::Isrc, text: iscr@ },
                    cd_lt_fn(),
                ),
                ..old(self).track@
            }),
            old(self).track@.wf() ==> final(self).track@.wf(),
    {
        self.add_cd_text(CueCdText::ISrc(iscr.to_owned()));
    }

    /// Adds a `MESSAGE` CD-Text field.
    pub fn add_message(&mut self, message: &str)
        ensures
            final(self).track@ == (TrackV {
                cd_texts: insert_by(
                    old(self).track@.cd_texts,
                    CdTextV { kind: CdTextKind::Message, text: message@ },
                    cd_lt_fn(),
                ),
                ..old(self).track@
            }),
            old(self).track@.wf() ==> final(self).track@.wf(),
    {
        self.add_cd_text(CueCdText::Message(message.to_owned()));
    }

    /// Adds a `PERFORMER` CD-Text field.
    pub fn add_performer(&mut self, performer: &str)
        ensures
            final(self).track@ == (TrackV {
                cd_texts: insert_by(
                    old(self).track@.cd_texts,
                    CdTextV { kind: CdTextKind::Performer, text: performer@ },
                    cd_lt_fn(),
                ),
                ..old(self).track@
            }),
            old(self).track@.wf() ==> final(self).track@.wf(),
    {
        self.add_cd_text(CueCdText::Performer(performer.to_owned()));
    }

    /// Adds a `SONGWRITER` CD-Text field.
    pub fn add_songwriter(&mut self, songwriter: &str)
        ensures
            final(self).track@ == (TrackV {
                cd_texts: insert_by(
                    old(self).track@.cd_texts,
                    CdTextV { kind: CdTextKind::SongWriter, text: songwriter@ },
                    cd_lt_fn(),
                ),
                ..old(self).track@
            }),
            old(self).track@.wf() ==> final(self).track@.wf(),
    {
        self.add_cd_text(CueCdText::SongWriter(songwriter.to_owned()));
    }

    /// Adds a `TITLE` CD-Text field.
    pub fn add_title(&mut self, title: &str)
        ensures
            final(self).track@ == (TrackV {
                cd_texts: insert_by(
                    old(self).track@.cd_texts,
                    CdTextV { kind: CdTextKind::Title, text: title@ },
                    cd_lt_fn(),
                ),
                ..old(self).track@
            }),
            old(self).track@.wf() ==> final(self).track@.wf(),
    {
        self.add_cd_text(CueCdText::Title(title.to_owned()));
    }

    /// Records a remark under its upper-cased key; the last write per key
    /// wins.
    pub fn add_rem(&mut self, key: &str, value: &str)
        ensures
            final(self).track@ == (TrackV {
                rems: insert_by(
                    old(self).track@.rems,
                    RemV { key: upper_seq(key@), value: value@ },
                    rem_lt_fn(),
                ),
                ..old(self).track@
            }),
            old(self).track@.wf() ==> final(self).track@.wf(),
    {
        let k = to_ascii_upper(key);
        insert_rem(&mut self.track.rems, k, value.to_owned());
        proof {
            if old(self).track@.wf() {
                lemma_rem_lt_strict_order();
                lemma_insert_by_sorted(
                    old(self).track@.rems,
                    RemV { key: upper_seq(key@), value: value@ },
                    rem_lt_fn(),
                );
            }
        }
    }

    /// The finished track.
    pub fn track(self) -> (r: CueTrack)
        ensures
            r == self.track,
    {
        self.track
    }
}

// ---------------------------------------------------------------------------
// Rendering
// ---------------------------------------------------------------------------

/// The duration shown on an index line: the index's own duration, a
/// duration injected verbatim, or the sum of the two.
pub open spec fn effective_offset(d: CueDuration, compute: Option<ComputeKind>) -> CueDuration {
    match compute {
        None => d,
        Some(ComputeKind::SetAbsolute(o)) => o,
        Some(ComputeKind::Sum(o)) => d.spec_add(o),
    }
}

/// One `INDEX 0<n> <MM:SS:FF>` line; the index number carries a literal
/// `0` prefix whatever its digit count.
pub open spec fn index_line(e: CueIndex, pre: Seq<char>, compute: Option<ComputeKind>) -> Seq<
    char,
> {
    pre + "INDEX 0"@ + dec_str(e.number as nat) + " "@ + effective_offset(
        e.offset,
        compute,
    ).spec_repr() + "\n"@
}

/// The index lines of a track, in index order.
pub open spec fn index_block(
    s: Seq<CueIndex>,
    pre: Seq<char>,
    compute: Option<ComputeKind>,
) -> Seq<char>
    decreases s.len(),
{
    if s.len() == 0 {
        Seq::empty()
    } else {
        index_block(s.drop_last(), pre, compute) + index_line(s.last(), pre, compute)
    }
}

/// A gap line (`PREGAP` or `POSTGAP`), present exactly when the duration
/// is set.
pub open spec fn gap_line(g: Option<CueDuration>, label: Seq<char>, pre: Seq<char>) -> Seq<char> {
    match g {
        Some(d) => pre + label + d.spec_repr() + "\n"@,
        None => Seq::empty(),
    }
}

/// In `Sum` mode every index duration is added to the injected one, so
/// each of those sums has to fit in disc time.
pub open spec fn sum_offsets_ok(s: Seq<CueIndex>, o: CueDuration) -> bool {
    &&& o.wf()
    &&& idx_durs_wf(s)
    &&& forall|i: int|
        0 <= i < s.len() ==> (#[trigger] s[i]).offset.spec_frames() + o.spec_frames()
            <= CueDuration::max_frames()
}

/// Whether `compute` asks for sums the track's indexes cannot overflow.
pub open spec fn compute_ok(s: Seq<CueIndex>, compute: Option<ComputeKind>) -> bool {
    match compute {
        Some(ComputeKind::Sum(o)) => sum_offsets_ok(s, o),
        _ => true,
    }
}

/// The whole textual block of one track, in the fixed order: header,
/// CD-Text lines, the `FLAGS` line, remark lines, gap lines, index lines.
///
/// Known quirk, kept deliberately: the `POSTGAP` line takes its duration
/// from the pregap field and appears exactly when a pregap is set; the
/// postgap field itself is never rendered.  Do not "fix" this without
/// coordinating with consumers of the output.
pub open spec fn spec_track_repr(t: TrackV, ctab: bool, compute: Option<ComputeKind>) -> Seq<
    char,
> {
    tab_pre(ctab) + "TRACK 0"@ + dec_str(t.number as nat) + " "@ + t.mode.spec_label() + "\n"@
        + cd_block(t.cd_texts, child_pre(ctab)) + flags_block(t.flags, child_pre(ctab))
        + rem_block(t.rems, child_pre(ctab)) + gap_line(t.pregap, "PREGAP "@, child_pre(ctab))
        + gap_line(t.pregap, "POSTGAP "@, child_pre(ctab)) + index_block(
        t.indexes,
        child_pre(ctab),
        compute,
    )
}

/// A track with no flags, no gaps, no CD-Text fields, no remarks and no
/// index points renders as exactly its header line and nothing else.
pub proof fn lemma_empty_track_renders_header_only(
    t: TrackV,
    ctab: bool,
    compute: Option<ComputeKind>,
)
    requires
        t.flags.len() == 0,
        t.pregap is None,
        t.cd_texts.len() == 0,
        t.rems.len() == 0,
        t.indexes.len() == 0,
    ensures
        spec_track_repr(t, ctab, compute) == tab_pre(ctab) + "TRACK 0"@ + dec_str(
            t.number as nat,
        ) + " "@ + t.mode.spec_label() + "\n"@,
{
    assert(spec_track_repr(t, ctab, compute) =~= tab_pre(ctab) + "TRACK 0"@ + dec_str(
        t.number as nat,
    ) + " "@ + t.mode.spec_label() + "\n"@);
}

impl TrackV {
    /// The track's index durations are well formed and their sum fits in
    /// disc time, so the track's offset can be computed.
    pub open spec fn offsets_ok(self) -> bool {
        idx_durs_wf(self.indexes) && idx_total_frames(self.indexes)
            <= CueDuration::max_frames()
    }
}

impl CueTrack {
    /// The sum of all of the track's index durations, in index order.
    /// This is a raw summation over every index point, index zero
    /// included; it does not single out index one as the track start.
    pub fn track_offset(&self) -> (r: CueDuration)
        requires
            self@.offsets_ok(),
        ensures
            r.wf(),
            r.spec_frames() == idx_total_frames(self@.indexes),
    {
        let mut acc = CueDuration::zero();
        let mut i: usize = 0;
        while i < self.indexes.len()
            invariant
                idx_durs_wf(self.indexes@),
                idx_total_frames(self.indexes@) <= CueDuration::max_frames(),
                i <= self.indexes@.len(),
                acc.wf(),
                acc.spec_frames() == idx_total_frames(self.indexes@.take(i as int)),
            decreases self.indexes@.len() - i,
        {
            let e = self.indexes[i];
            proof {
                lemma_idx_total_take_step(self.indexes@, i as int);
                lemma_idx_total_prefix_bound(self.indexes@, i as int + 1);
                assert(self.indexes@[i as int].offset.wf());
            }
            acc = acc.add(e.offset);
            i += 1;
        }
        proof {
            assert(self.indexes@.take(self.indexes@.len() as int) =~= self.indexes@);
        }
        acc
    }

    fn repr_cdtexts(&self, ctab: bool) -> (r: String)
        ensures
            r@ == cd_block(self@.cd_texts, child_pre(ctab)),
    {
        render_cd_texts(&self.cd_texts, child_pre_str(ctab))
    }

    fn repr_flags(&self, ctab: bool) -> (r: String)
        ensures
            r@ == flags_block(self@.flags, child_pre(ctab)),
    {
        if self.flags.len() == 0 {
            proof {
                assert(self@.flags.len() == 0);
            }
            String::new()
        } else {
            let mut out = child_pre_str(ctab).to_owned();
            out.append("FLAGS");
            let mut i: usize = 0;
            while i < self.flags.len()
                invariant
                    i <= self.flags@.len(),
                    out@ == child_pre(ctab) + "FLAGS"@ + flags_items(self.flags@.take(i as int)),
                decreases self.flags@.len() - i,
            {
                out.append(" ");
                out.append(self.flags[i].label());
                proof {
                    assert(self.flags@.take(i as int + 1).drop_last() =~= self.flags@.take(
                        i as int,
                    ));
                    assert(self.flags@.take(i as int + 1).last() == self.flags@[i as int]);
                    assert(out@ =~= child_pre(ctab) + "FLAGS"@ + flags_items(
                        self.flags@.take(i as int + 1),
                    ));
                }
                i += 1;
            }
            out.append("\n");
            proof {
                assert(self.flags@.take(self.flags@.len() as int) =~= self.flags@);
                assert(out@ =~= flags_block(self@.flags, child_pre(ctab)));
            }
            out
        }
    }

    fn repr_rems(&self, ctab: bool) -> (r: String)
        ensures
            r@ == rem_block(self@.rems, child_pre(ctab)),
    {
        render_rems(&self.rems, child_pre_str(ctab))
    }

    fn repr_pregap(&self, ctab: bool) -> (r: String)
        ensures
            r@ == gap_line(self@.pregap, "PREGAP "@, child_pre(ctab)),
    {
        match self.pregap {
            Some(d) => {
                let mut out = child_pre_str(ctab).to_owned();
                out.append("PREGAP ");
                let ds = d.repr();
                out.append(ds.as_str());
                out.append("\n");
                proof {
                    assert(out@ =~= gap_line(self@.pregap, "PREGAP "@, child_pre(ctab)));
                }
                out
            },
            None => String::new(),
        }
    }

    // Known quirk, kept deliberately: this line is driven by the pregap
    // field, not the postgap field.
    fn repr_postgap(&self, ctab: bool) -> (r: String)
        ensures
            r@ == gap_line(self@.pregap, "POSTGAP "@, child_pre(ctab)),
    {
        match self.pregap {
            Some(d) => {
                let mut out = child_pre_str(ctab).to_owned();
                out.append("POSTGAP ");
                let ds = d.repr();
                out.append(ds.as_str());
                out.append("\n");
                proof {
                    assert(out@ =~= gap_line(self@.pregap, "POSTGAP "@, child_pre(ctab)));
                }
                out
            },
            None => String::new(),
        }
    }

    fn repr_indexes(&self, ctab: bool, compute: Option<ComputeKind>) -> (r: String)
        requires
            compute_ok(self@.indexes, compute),
        ensures
            r@ == index_block(self@.indexes, child_pre(ctab), compute),
    {
        let pre = child_pre_str(ctab);
        let mut out = String::new();
        let mut i: usize = 0;
        while i < self.indexes.len()
            invariant
                compute_ok(self.indexes@, compute),
                i <= self.indexes@.len(),
                pre@ == child_pre(ctab),
                out@ == index_block(self.indexes@.take(i as int), child_pre(ctab), compute),
            decreases self.indexes@.len() - i,
        {
            let e = self.indexes[i];
            let shown = match compute {
                None => e.offset,
                Some(ComputeKind::SetAbsolute(o)) => o,
                Some(ComputeKind::Sum(o)) => {
                    proof {
                        assert(self.indexes@[i as int].offset.wf());
                        assert(self.indexes@[i as int].offset.spec_frames() + o.spec_frames()
                            <= CueDuration::max_frames());
                    }
                    e.offset.add(o)
                },
            };
            proof {
                assert(shown == effective_offset(e.offset, compute));
            }
            out.append(pre);
            out.append("INDEX 0");
            let num = fmt_u32(e.number);
            out.append(num.as_str());
            out.append(" ");
            let ds = shown.repr();
            out.append(ds.as_str());
            out.append("\n");
            proof {
                assert(self.indexes@.take(i as int + 1).drop_last() =~= self.indexes@.take(
                    i as int,
                ));
                assert(self.indexes@.take(i as int + 1).last() == self.indexes@[i as int]);
                assert(out@ =~= index_block(
                    self.indexes@.take(i as int + 1),
                    child_pre(ctab),
                    compute,
                ));
            }
            i += 1;
        }
        proof {
            assert(self.indexes@.take(self.indexes@.len() as int) =~= self.indexes@);
        }
        out
    }

    /// Renders the track's whole textual block: header, CD-Text lines,
    /// `FLAGS` line, remark lines, gap lines, index lines, each line
    /// newline-terminated.
    pub fn repr(&self, ctab: bool, compute: Option<ComputeKind>) -> (r: String)
        requires
            compute_ok(self@.indexes, compute),
        ensures
            r@ == spec_track_repr(self@, ctab, compute),
    {
        let mut out = tab_pre_str(ctab).to_owned();
        out.append("TRACK 0");
        let num = fmt_u32(self.number);
        out.append(num.as_str());
        out.append(" ");
        out.append(self.mode.label());
        out.append("\n");
        let cds = self.repr_cdtexts(ctab);
        out.append(cds.as_str());
        let fl = self.repr_flags(ctab);
        out.append(fl.as_str());
        let rm = self.repr_rems(ctab);
        out.append(rm.as_str());
        let pg = self.repr_pregap(ctab);
        out.append(pg.as_str());
        let pog = self.repr_postgap(ctab);
        out.append(pog.as_str());
        let ix = self.repr_indexes(ctab, compute);
        out.append(ix.as_str());
        proof {
            assert(out@ =~= spec_track_repr(self@, ctab, compute));
        }
        out
    }
}

} // verus!

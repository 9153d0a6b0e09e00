//! The whole-disc document: catalog code, disc-wide CD-Text metadata,
//! remarks, the single referenced audio file, and the tracks, ordered by
//! track number.
//!
//! Rendering emits, in fixed order: the catalog line, the CD-Text file
//! line, the CD-Text lines, the remark lines, the `FILE` line, then every
//! track.  With cumulative offsets, each track is rendered with the
//! running total of the preceding tracks' offsets injected into its index
//! lines; otherwise each track shows its own index durations.

use crate::cue_cd_text::cd_block;
use crate::cue_cd_text::cd_lt_fn;
use crate::cue_cd_text::cds_view;
use crate::cue_cd_text::insert_cd_text;
use crate::cue_cd_text::lemma_cd_lt_strict_order;
use crate::cue_cd_text::render_cd_texts;
use crate::cue_cd_text::CdTextKind;
use crate::cue_cd_text::CdTextV;
use crate::cue_cd_text::CueCdText;
use crate::cue_duration::lemma_frames_roundtrip;
use crate::cue_duration::CueDuration;
use crate::cue_file_format::CueFileFormat;
use crate::cue_rem::insert_rem;
use crate::cue_rem::lemma_rem_lt_strict_order;
use crate::cue_rem::rem_block;
use crate::cue_rem::rem_lt_fn;
use crate::cue_rem::rems_view;
use crate::cue_rem::render_rems;
use crate::cue_rem::RemEntry;
use crate::cue_rem::RemV;
use crate::cue_track::idx_durs_wf;
use crate::cue_track::idx_total_frames;
use crate::cue_track::lemma_idx_total_nonneg;
use crate::cue_track::lemma_idx_total_prefix_bound;
use crate::cue_track::spec_track_repr;
use crate::cue_track::ComputeKind;
use crate::cue_track::CueTrack;
use crate::cue_track::TrackV;
use crate::ordered::insert_by;
use crate::ordered::lemma_insert_by_prefix;
use crate::ordered::lemma_insert_by_sorted;
use crate::ordered::sorted_by;
use crate::ordered::strict_order;
use crate::util::cue_format_string_value;
use crate::util::quote_str;
use crate::util::to_ascii_upper;
use crate::util::upper_seq;
use vstd::prelude::*;
use vstd::string::StringExecFns;

verus! {

// ---------------------------------------------------------------------------
// Track order and the sheet's mathematical value
// ---------------------------------------------------------------------------

/// Tracks are ordered (and identified) by track number alone.
pub open spec fn track_lt(a: TrackV, b: TrackV) -> bool {
    a.number < b.number
}

/// The order on tracks, as a value.
pub open spec fn track_lt_fn() -> spec_fn(TrackV, TrackV) -> bool {
    |a: TrackV, b: TrackV| track_lt(a, b)
}

/// The order on tracks is a strict order, and tracks with equal numbers
/// order alike against everything.
pub proof fn lemma_track_lt_strict_order()
    ensures
        strict_order(track_lt_fn()),
{
}

/// The tracks of a vector, as mathematical values.
pub open spec fn tracks_view(s: Seq<CueTrack>) -> Seq<TrackV> {
    Seq::new(s.len(), |i: int| s[i]@)
}

proof fn lemma_tracks_view_insert(s: Seq<CueTrack>, i: int, e: CueTrack)
    requires
        0 <= i <= s.len(),
    ensures
        tracks_view(s.insert(i, e)) == tracks_view(s).insert(i, e@),
{
    assert(tracks_view(s.insert(i, e)) =~= tracks_view(s).insert(i, e@));
}

proof fn lemma_tracks_view_remove(s: Seq<CueTrack>, i: int)
    requires
        0 <= i < s.len(),
    ensures
        tracks_view(s.remove(i)) == tracks_view(s).remove(i),
{
    assert(tracks_view(s.remove(i)) =~= tracks_view(s).remove(i));
}

/// Inserts a track at its place in the number order; a track with an
/// equal number is replaced by the newer one.
pub fn insert_track(v: &mut Vec<CueTrack>, t: CueTrack)
    ensures
        tracks_view(final(v)@) == insert_by(tracks_view(old(v)@), t@, track_lt_fn()),
{
    let ghost s0 = tracks_view(old(v)@);
    let ghost x = t@;
    let mut i: usize = 0;
    while i < v.len() && v[i].number < t.number
        invariant
            v@ == old(v)@,
            s0 == tracks_view(v@),
            x == t@,
            i <= v@.len(),
            forall|j: int| 0 <= j < i ==> track_lt(s0[j], x),
        decreases v@.len() - i,
    {
        proof {
            assert(s0[i as int] == v@[i as int]@);
        }
        i += 1;
    }
    proof {
        assert(forall|j: int| 0 <= j < i ==> #[trigger] (track_lt_fn())(s0[j], x));
        lemma_insert_by_prefix(s0, x, track_lt_fn(), i as int);
    }
    if i == v.len() {
        proof {
            assert(s0.skip(i as int) =~= Seq::<TrackV>::empty());
        }
        v.push(t);
        proof {
            assert(tracks_view(v@) =~= s0.take(i as int) + insert_by(
                s0.skip(i as int),
                x,
                track_lt_fn(),
            ));
        }
    } else {
        proof {
            assert(s0[i as int] == v@[i as int]@);
            assert(s0.skip(i as int)[0] == s0[i as int]);
        }
        if v[i].number == t.number {
            // same number: the newer track supersedes the older one.
            proof {
                assert(s0.skip(i as int).skip(1) =~= s0.skip(i as int + 1));
            }
            v.remove(i);
            proof {
                lemma_tracks_view_remove(old(v)@, i as int);
            }
            let ghost s1 = v@;
            v.insert(i, t);
            proof {
                lemma_tracks_view_insert(s1, i as int, t);
                assert(tracks_view(v@) =~= s0.take(i as int) + (seq![x] + s0.skip(i as int + 1)));
            }
        } else {
            let ghost s1 = v@;
            v.insert(i, t);
            proof {
                lemma_tracks_view_insert(s1, i as int, t);
                assert(tracks_view(v@) =~= s0.take(i as int) + (seq![x] + s0.skip(i as int)));
            }
        }
    }
}

/// The mathematical value of a sheet.
#[verifier::ext_equal]
pub struct SheetV {
    pub catalog: Option<Seq<char>>,
    pub cd_text_file: Option<Seq<char>>,
    pub cd_texts: Seq<CdTextV>,
    pub rems: Seq<RemV>,
    pub file_name: Seq<char>,
    pub file_format: CueFileFormat,
    pub tracks: Seq<TrackV>,
}

/// The whole-disc document.
#[derive(Debug)]
pub struct CueSheet {
    pub catalog: Option<String>,
    pub cd_text_file: Option<String>,
    pub cd_texts: Vec<CueCdText>,
    pub rems: Vec<RemEntry>,
    pub file_name: String,
    pub file_format: CueFileFormat,
    pub tracks: Vec<CueTrack>,
}

impl View for CueSheet {
    type V = SheetV;

    open spec fn view(&self) -> SheetV {
        SheetV {
            catalog: match self.catalog {
                Some(c) => Some(c@),
                None => None,
            },
            cd_text_file: match self.cd_text_file {
                Some(c) => Some(c@),
                None => None,
            },
            cd_texts: cds_view(self.cd_texts@),
            rems: rems_view(self.rems@),
            file_name: self.file_name@,
            file_format: self.file_format,
            tracks: tracks_view(self.tracks@),
        }
    }
}

// ---------------------------------------------------------------------------
// Sums of track offsets
// ---------------------------------------------------------------------------

/// The sum, as a frame count, of all tracks' offsets.
pub open spec fn tracks_total_frames(ts: Seq<TrackV>) -> int
    decreases ts.len(),
{
    if ts.len() == 0 {
        0
    } else {
        tracks_total_frames(ts.drop_last()) + idx_total_frames(ts.last().indexes)
    }
}

/// The sum of track offsets is never negative.
pub proof fn lemma_tracks_total_nonneg(ts: Seq<TrackV>)
    ensures
        tracks_total_frames(ts) >= 0,
    decreases ts.len(),
{
    if ts.len() > 0 {
        lemma_tracks_total_nonneg(ts.drop_last());
        lemma_idx_total_nonneg(ts.last().indexes);
    }
}

/// Extending a prefix by one track adds that track's offset.
pub proof fn lemma_tracks_total_take_step(ts: Seq<TrackV>, i: int)
    requires
        0 <= i < ts.len(),
    ensures
        tracks_total_frames(ts.take(i + 1)) == tracks_total_frames(ts.take(i))
            + idx_total_frames(ts[i].indexes),
{
    assert(ts.take(i + 1).drop_last() =~= ts.take(i));
    assert(ts.take(i + 1).last() == ts[i]);
}

/// A prefix sums to no more than the whole.
pub proof fn lemma_tracks_total_prefix_bound(ts: Seq<TrackV>, i: int)
    requires
        0 <= i <= ts.len(),
    ensures
        tracks_total_frames(ts.take(i)) <= tracks_total_frames(ts),
    decreases ts.len(),
{
    if i == ts.len() {
        assert(ts.take(i) =~= ts);
    } else {
        assert(ts.drop_last().take(i) =~= ts.take(i));
        lemma_tracks_total_prefix_bound(ts.drop_last(), i);
        lemma_idx_total_nonneg(ts.last().indexes);
    }
}

impl SheetV {
    /// Every track's index durations are well formed and the sheet-wide
    /// sum of offsets fits in disc time, so cumulative offsets can be
    /// computed.
    pub open spec fn offsets_ok(self) -> bool {
        &&& forall|i: int|
            0 <= i < self.tracks.len() ==> idx_durs_wf((#[trigger] self.tracks[i]).indexes)
        &&& tracks_total_frames(self.tracks) <= CueDuration::max_frames()
    }
}

// ---------------------------------------------------------------------------
// Rendering, at the specification level
// ---------------------------------------------------------------------------

/// The `CATALOG` line, present exactly when a catalog code is set.
pub open spec fn catalog_block(c: Option<Seq<char>>) -> Seq<char> {
    match c {
        Some(s) => "CATALOG "@ + quote_str(s) + "\n"@,
        None => Seq::empty(),
    }
}

/// The `CDTEXTFILE` line, present exactly when a CD-Text file is set.
pub open spec fn cdtextfile_block(c: Option<Seq<char>>) -> Seq<char> {
    match c {
        Some(s) => "CDTEXTFILE "@ + quote_str(s) + "\n"@,
        None => Seq::empty(),
    }
}

/// The `FILE` line: the file name always quoted, then the format label.
pub open spec fn file_line(name: Seq<char>, format: CueFileFormat) -> Seq<char> {
    "FILE \""@ + name + "\" "@ + format.spec_label() + "\n"@
}

/// The textual blocks of all tracks, in order.  With `sum`, each track is
/// rendered with the running total of the preceding tracks' offsets
/// injected verbatim into its index lines; the track's own offset is added
/// to the running total only after it is rendered.
pub open spec fn sheet_tracks_repr(ts: Seq<TrackV>, sum: bool) -> Seq<char>
    decreases ts.len(),
{
    if ts.len() == 0 {
        Seq::empty()
    } else {
        sheet_tracks_repr(ts.drop_last(), sum) + spec_track_repr(
            ts.last(),
            true,
            if sum {
                Some(
                    ComputeKind::SetAbsolute(
                        CueDuration::from_frames(tracks_total_frames(ts.drop_last())),
                    ),
                )
            } else {
                None
            },
        )
    }
}

/// With cumulative offsets, each track is rendered with the sum of the
/// offsets of the tracks before it injected verbatim into its index
/// lines; the track's own offset joins the running total only afterwards,
/// so the first track always shows zero.
pub proof fn lemma_cumulative_running_offset(ts: Seq<TrackV>, i: int)
    requires
        0 <= i < ts.len(),
    ensures
        sheet_tracks_repr(ts.take(i + 1), true) == sheet_tracks_repr(ts.take(i), true)
            + spec_track_repr(
            ts[i],
            true,
            Some(
                ComputeKind::SetAbsolute(
                    CueDuration::from_frames(tracks_total_frames(ts.take(i))),
                ),
            ),
        ),
{
    assert(ts.take(i + 1).drop_last() =~= ts.take(i));
    assert(ts.take(i + 1).last() == ts[i]);
}

/// The whole rendered document, in fixed order.
pub open spec fn spec_sheet_repr(s: SheetV, sum: bool) -> Seq<char> {
    catalog_block(s.catalog) + cdtextfile_block(s.cd_text_file) + cd_block(
        s.cd_texts,
        Seq::empty(),
    ) + rem_block(s.rems, Seq::empty()) + file_line(s.file_name, s.file_format)
        + sheet_tracks_repr(s.tracks, sum)
}

/// Rendering is a function of the sheet's value alone: any two renderings
/// of the same unmutated sheet, in the same mode, are identical, character
/// for character.  (`CueSheet::repr` takes the sheet by shared reference
/// and promises exactly `spec_sheet_repr` of its value.)
pub proof fn lemma_render_deterministic(s: SheetV, sum: bool, r1: Seq<char>, r2: Seq<char>)
    requires
        r1 == spec_sheet_repr(s, sum),
        r2 == spec_sheet_repr(s, sum),
    ensures
        r1 == r2,
{
}

/// In a well-formed sheet the tracks stand, and therefore render, in
/// strictly ascending track-number order, however they were inserted.
pub proof fn lemma_tracks_render_in_number_order(s: SheetV)
    requires
        s.wf(),
    ensures
        forall|i: int, j: int|
            0 <= i < j < s.tracks.len() ==> (#[trigger] s.tracks[i]).number
                < (#[trigger] s.tracks[j]).number,
{
    assert forall|i: int, j: int| 0 <= i < j < s.tracks.len() implies (
    #[trigger] s.tracks[i]).number < (#[trigger] s.tracks[j]).number by {
        assert((track_lt_fn())(s.tracks[i], s.tracks[j]));
    }
}

impl SheetV {
    /// Every collection of the sheet is sorted by its key.
    pub open spec fn wf(self) -> bool {
        &&& sorted_by(self.cd_texts, cd_lt_fn())
        &&& sorted_by(self.rems, rem_lt_fn())
        &&& sorted_by(self.tracks, track_lt_fn())
    }
}

// ---------------------------------------------------------------------------
// Construction and mutation
// ---------------------------------------------------------------------------

impl CueSheet {
    /// An empty sheet referencing the given audio file.
    pub fn new(filename: &str, format: CueFileFormat) -> (r: Self)
        ensures
            r@ == (SheetV {
                catalog: None,
                cd_text_file: None,
                cd_texts: Seq::empty(),
                rems: Seq::empty(),
                file_name: filename@,
                file_format: format,
                tracks: Seq::empty(),
            }),
            r@.wf(),
    {
        let r = Self {
            catalog: None,
            cd_text_file: None,
            cd_texts: Vec::new(),
            rems: Vec::new(),
            file_name: filename.to_owned(),
            file_format: format,
            tracks: Vec::new(),
        };
        proof {
            assert(r@.cd_texts =~= Seq::<CdTextV>::empty());
            assert(r@.rems =~= Seq::<RemV>::empty());
            assert(r@.tracks =~= Seq::<TrackV>::empty());
        }
        r
    }

    /// Sets the catalog code, replacing any earlier one.
    pub fn add_catalog(&mut self, catalog: &str)
        ensures
            final(self)@ == (SheetV { catalog: Some(catalog@), ..old(self)@ }),
            old(self)@.wf() ==> final(self)@.wf(),
    {
        self.catalog = Some(catalog.to_owned());
    }

    /// Inserts one CD-Text field; a field with the same tag and payload
    /// collapses with the one already there.
    fn add_cd_text(&mut self, c: CueCdText)
        ensures
            final(self)@ == (SheetV {
                cd_texts: insert_by(old(self)@.cd_texts, c@, cd_lt_fn()),
                ..old(self)@
            }),
            old(self)@.wf() ==> final(self)@.wf(),
    {
        let ghost x = c@;
        insert_cd_text(&mut self.cd_texts, c);
        proof {
            if old(self)@.wf() {
                lemma_cd_lt_strict_order();
                lemma_insert_by_sorted(old(self)@.cd_texts, x, cd_lt_fn());
            }
        }
    }

    /// Adds an `ARRANGER` CD-Text field.
    pub fn add_arranger(&mut self, arranger: &str)
        ensures
            final(self)@ == (SheetV {
                cd_texts: insert_by(
                    old(self)@.cd_texts,
                    CdTextV { kind: CdTextKind::Arranger, text: arranger@ },
                    cd_lt_fn(),
                ),
                ..old(self)@
            }),
            old(self)@.wf() ==> final(self)@.wf(),
    {
        self.add_cd_text(CueCdText::Arrager(arranger.to_owned()));
    }

    /// Adds a `COMPOSER` CD-Text field.
    pub fn add_composer(&mut self, composer: &str)
        ensures
            final(self)@ == (SheetV {
                cd_texts: insert_by(
                    old(self)@.cd_texts,
                    CdTextV { kind: CdTextKind::Composer, text: composer@ },
                    cd_lt_fn(),
                ),
                ..old(self)@
            }),
            old(self)@.wf() ==> final(self)@.wf(),
    {
        self.add_cd_text(CueCdText::Composer(composer.to_owned()));
    }

    /// Adds a `DISC_ID` CD-Text field.
    pub fn add_disc_id(&mut self, disc_id: &str)
        ensures
            final(self)@ == (SheetV {
                cd_texts: insert_by(
                    old(self)@.cd_texts,
                    CdTextV { kind: CdTextKind::DiscId, text: disc_id@ },
                    cd_lt_fn(),
                ),
                ..old(self)@
            }),
            old(self)@.wf() ==> final(self)@.wf(),
    {
        self.add_cd_text(CueCdText::DiscId(disc_id.to_owned()));
    }

    /// Adds a `GENRE` CD-Text field.
    pub fn add_genre(&mut self, genre: &str)
        ensures
            final(self)@ == (SheetV {
                cd_texts: insert_by(
                    old(self)@.cd_texts,
                    CdTextV { kind: CdTextKind::Genre, text: genre@ },
                    cd_lt_fn(),
                ),
                ..old(self)@
            }),
            old(self)@.wf() ==> final(self)@.wf(),
    {
        self.add_cd_text(CueCdText::Genre(genre.to_owned()));
    }

    /// Adds an `ISCR` CD-Text field.
    pub fn add_iscr(&mut self, iscr: &str)
        ensures
            final(self)@ == (SheetV {
                cd_texts: insert_by(
                    old(self)@.cd_texts,
                    CdTextV { kind: CdTextKind::Isrc, text: iscr@ },
                    cd_lt_fn(),
                ),
                ..old(self)@
            }),
            old(self)@.wf() ==> final(self)@.wf(),
    {
        self.add_cd_text(CueCdText::ISrc(iscr.to_owned()));
    }

    /// Adds a `MESSAGE` CD-Text field.
    pub fn add_message(&mut self, message: &str)
        ensures
            final(self)@ == (SheetV {
                cd_texts: insert_by(
                    old(self)@.cd_texts,
                    CdTextV { kind: CdTextKind::Message, text: message@ },
                    cd_lt_fn(),
                ),
                ..old(self)@
            }),
            old(self)@.wf() ==> final(self)@.wf(),
    {
        self.add_cd_text(CueCdText::Message(message.to_owned()));
    }

    /// Adds a `PERFORMER` CD-Text field.
    pub fn add_performer(&mut self, performer: &str)
        ensures
            final(self)@ == (SheetV {
                cd_texts: insert_by(
                    old(self)@.cd_texts,
                    CdTextV { kind: CdTextKind::Performer, text: performer@ },
                    cd_lt_fn(),
                ),
                ..old(self)@
            }),
            old(self)@.wf() ==> final(self)@.wf(),
    {
        self.add_cd_text(CueCdText::Performer(performer.to_owned()));
    }

    /// Adds a `SONGWRITER` CD-Text field.
    pub fn add_songwriter(&mut self, songwriter: &str)
        ensures
            final(self)@ == (SheetV {
                cd_texts: insert_by(
                    old(self)@.cd_texts,
                    CdTextV { kind: CdTextKind::SongWriter, text: songwriter@ },
                    cd_lt_fn(),
                ),
                ..old(self)@
            }),
            old(self)@.wf() ==> final(self)@.wf(),
    {
        self.add_cd_text(CueCdText::SongWriter(songwriter.to_owned()));
    }

    /// Adds a `TITLE` CD-Text field.
    pub fn add_title(&mut self, title: &str)
        ensures
            final(self)@ == (SheetV {
                cd_texts: insert_by(
                    old(self)@.cd_texts,
                    CdTextV { kind: CdTextKind::Title, text: title@ },
                    cd_lt_fn(),
                ),
                ..old(self)@
            }),
            old(self)@.wf() ==> final(self)@.wf(),
    {
        self.add_cd_text(CueCdText::Title(title.to_owned()));
    }

    /// Records a remark under its upper-cased key; the last write per key
    /// wins.
    pub fn add_rem(&mut self, key: &str, value: &str)
        ensures
            final(self)@ == (SheetV {
                rems: insert_by(
                    old(self)@.rems,
                    RemV { key: upper_seq(key@), value: value@ },
                    rem_lt_fn(),
                ),
                ..old(self)@
            }),
            old(self)@.wf() ==> final(self)@.wf(),
    {
        let k = to_ascii_upper(key);
        insert_rem(&mut self.rems, k, value.to_owned());
        proof {
            if old(self)@.wf() {
                lemma_rem_lt_strict_order();
                lemma_insert_by_sorted(
                    old(self)@.rems,
                    RemV { key: upper_seq(key@), value: value@ },
                    rem_lt_fn(),
                );
            }
        }
    }

    /// Inserts a track at its place in the number order; a track with the
    /// same number is replaced by this one.
    pub fn add_track(&mut self, track: CueTrack)
        ensures
            final(self)@ == (SheetV {
                tracks: insert_by(old(self)@.tracks, track@, track_lt_fn()),
                ..old(self)@
            }),
            old(self)@.wf() ==> final(self)@.wf(),
    {
        let ghost x = track@;
        insert_track(&mut self.tracks, track);
        proof {
            if old(self)@.wf() {
                lemma_track_lt_strict_order();
                lemma_insert_by_sorted(old(self)@.tracks, x, track_lt_fn());
            }
        }
    }
}

// ---------------------------------------------------------------------------
// Rendering
// ---------------------------------------------------------------------------

impl CueSheet {
    fn repr_catalog(&self) -> (r: String)
        ensures
            r@ == catalog_block(self@.catalog),
    {
        match &self.catalog {
            Some(c) => {
                let mut out = "CATALOG ".to_owned();
                let q = cue_format_string_value(c.as_str());
                out.append(q.as_str());
                out.append("\n");
                out
            },
            None => String::new(),
        }
    }

    fn repr_cdtextfile(&self) -> (r: String)
        ensures
            r@ == cdtextfile_block(self@.cd_text_file),
    {
        match &self.cd_text_file {
            Some(c) => {
                let mut out = "CDTEXTFILE ".to_owned();
                let q = cue_format_string_value(c.as_str());
                out.append(q.as_str());
                out.append("\n");
                out
            },
            None => String::new(),
        }
    }

    fn repr_cdtexts(&self) -> (r: String)
        ensures
            r@ == cd_block(self@.cd_texts, Seq::empty()),
    {
        proof {
            reveal_strlit("");
            assert(""@ =~= Seq::<char>::empty());
        }
        render_cd_texts(&self.cd_texts, "")
    }

    fn repr_rems(&self) -> (r: String)
        ensures
            r@ == rem_block(self@.rems, Seq::empty()),
    {
        proof {
            reveal_strlit("");
            assert(""@ =~= Seq::<char>::empty());
        }
        render_rems(&self.rems, "")
    }

    fn repr_file(&self) -> (r: String)
        ensures
            r@ == file_line(self@.file_name, self@.file_format),
    {
        let mut out = "FILE \"".to_owned();
        out.append(self.file_name.as_str());
        out.append("\" ");
        out.append(self.file_format.label());
        out.append("\n");
        out
    }

    fn repr_tracks(&self, sum: bool) -> (r: String)
        requires
            sum ==> self@.offsets_ok(),
        ensures
            r@ == sheet_tracks_repr(self@.tracks, sum),
    {
        let ghost ts = tracks_view(self.tracks@);
        let mut out = String::new();
        let mut acc = CueDuration::zero();
        let mut i: usize = 0;
        while i < self.tracks.len()
            invariant
                ts == tracks_view(self.tracks@),
                sum ==> self@.offsets_ok(),
                ts == self@.tracks,
                i <= self.tracks@.len(),
                out@ == sheet_tracks_repr(ts.take(i as int), sum),
                sum ==> acc.wf() && acc.spec_frames() == tracks_total_frames(ts.take(i as int)),
            decreases self.tracks@.len() - i,
        {
            let t = &self.tracks[i];
            proof {
                assert(ts[i as int] == self.tracks@[i as int]@);
                assert(ts.take(i as int + 1).drop_last() =~= ts.take(i as int));
                assert(ts.take(i as int + 1).last() == ts[i as int]);
            }
            if sum {
                proof {
                    lemma_tracks_total_take_step(ts, i as int);
                    lemma_tracks_total_prefix_bound(ts, i as int + 1);
                    lemma_tracks_total_nonneg(ts.take(i as int));
                    lemma_idx_total_nonneg(ts[i as int].indexes);
                    assert(idx_durs_wf(ts[i as int].indexes));
                    assert(idx_total_frames(ts[i as int].indexes)
                        <= CueDuration::max_frames());
                    lemma_frames_roundtrip(acc);
                }
                let line = t.repr(true, Some(ComputeKind::SetAbsolute(acc)));
                out.append(line.as_str());
                let off = t.track_offset();
                acc = acc.add(off);
            } else {
                let line = t.repr(true, None);
                out.append(line.as_str());
            }
            proof {
                assert(out@ =~= sheet_tracks_repr(ts.take(i as int + 1), sum));
            }
            i += 1;
        }
        proof {
            assert(ts.take(self.tracks@.len() as int) =~= ts);
        }
        out
    }

    /// Renders the whole document: catalog line, CD-Text file line,
    /// CD-Text lines, remark lines, `FILE` line, then every track in
    /// track-number order as stored.  With `sum`, each track's index
    /// lines show the running total of the preceding tracks' offsets.
    pub fn repr(&self, sum: bool) -> (r: String)
        requires
            sum ==> self@.offsets_ok(),
        ensures
            r@ == spec_sheet_repr(self@, sum),
    {
        let mut out = self.repr_catalog();
        let ctf = self.repr_cdtextfile();
        out.append(ctf.as_str());
        let cds = self.repr_cdtexts();
        out.append(cds.as_str());
        let rems = self.repr_rems();
        out.append(rems.as_str());
        let file = self.repr_file();
        out.append(file.as_str());
        let tracks = self.repr_tracks(sum);
        out.append(tracks.as_str());
        proof {
            assert(out@ =~= spec_sheet_repr(self@, sum));
        }
        out
    }

    /// Decides at run time whether cumulative offsets can be rendered:
    /// every index duration well formed and the sheet-wide sum of offsets
    /// within disc time.  Callers that render with cumulative offsets can
    /// test this first instead of meeting the bound by construction.
    pub fn offsets_in_range(&self) -> (r: bool)
        ensures
            r == self@.offsets_ok(),
    {
        let ghost ts = tracks_view(self.tracks@);
        let max_frames: u64 = (4294967295u64 * 60 + 59) * 75 + 74;
        proof {
            assert(max_frames as int == CueDuration::max_frames());
        }
        let mut tot: u64 = 0;
        let mut i: usize = 0;
        while i < self.tracks.len()
            invariant
                ts == tracks_view(self.tracks@),
                i <= self.tracks@.len(),
                max_frames as int == CueDuration::max_frames(),
                tot as int == tracks_total_frames(ts.take(i as int)),
                tot <= max_frames,
                forall|k: int| 0 <= k < i ==> idx_durs_wf((#[trigger] ts[k]).indexes),
            decreases self.tracks@.len() - i,
        {
            let idx = &self.tracks[i].indexes;
            let ghost ixs = ts[i as int].indexes;
            proof {
                assert(ts[i as int] == self.tracks@[i as int]@);
                assert(ixs == idx@);
            }
            let mut j: usize = 0;
            let mut part: u64 = tot;
            while j < idx.len()
                invariant
                    ts == tracks_view(self.tracks@),
                    i < self.tracks@.len(),
                    ixs == ts[i as int].indexes,
                    ixs == idx@,
                    j <= idx@.len(),
                    max_frames as int == CueDuration::max_frames(),
                    tot as int == tracks_total_frames(ts.take(i as int)),
                    part as int == tot as int + idx_total_frames(ixs.take(j as int)),
                    part <= max_frames,
                    tot <= max_frames,
                    forall|k: int| 0 <= k < j ==> (#[trigger] ixs[k]).offset.wf(),
                decreases idx@.len() - j,
            {
                let d = idx[j].offset;
                if !(d.sec < 60 && d.frame < 75) {
                    // one malformed duration refutes well-formedness.
                    proof {
                        assert(!ixs[j as int].offset.wf());
                        assert(!idx_durs_wf(ixs));
                        assert(!self@.offsets_ok());
                    }
                    return false;
                }
                let f: u64 = ((d.min as u64) * 60 + (d.sec as u64)) * 75 + (d.frame as u64);
                proof {
                    assert(f as int == ixs[j as int].offset.spec_frames());
                    crate::cue_track::lemma_idx_total_take_step(ixs, j as int);
                }
                let next: u64 = part + f;
                if next > max_frames {
                    // the sum of offsets up to here already exceeds disc
                    // time, and the remaining summands are never negative.
                    proof {
                        lemma_idx_total_prefix_bound(ixs, j as int + 1);
                        lemma_tracks_total_take_step(ts, i as int);
                        lemma_tracks_total_prefix_bound(ts, i as int + 1);
                        assert(tracks_total_frames(ts) > CueDuration::max_frames());
                        assert(!self@.offsets_ok());
                    }
                    return false;
                }
                part = next;
                j += 1;
            }
            proof {
                assert(ixs.take(idx@.len() as int) =~= ixs);
                assert(idx_durs_wf(ixs));
                lemma_tracks_total_take_step(ts, i as int);
            }
            tot = part;
            i += 1;
        }
        proof {
            assert(ts.take(self.tracks@.len() as int) =~= ts);
            assert(forall|k: int|
                0 <= k < ts.len() ==> idx_durs_wf((#[trigger] ts[k]).indexes));
            assert(self@.offsets_ok());
        }
        true
    }
}

} // verus!

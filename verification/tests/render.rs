//! Rendering whole sheets and tracks.

use cuesheet::ComputeKind;
use cuesheet::CueFileFormat;
use cuesheet::CueSheet;
use cuesheet::CueTrackBuilder;
use cuesheet::CueTrackFlag;
use cuesheet::CueTrackMode;
use cuesheet::DurationFormat;

#[test]
fn test_iridescent_vision() {
    let mut dizzy = CueTrackBuilder::new(1, CueTrackMode::AUDIO);
    dizzy.add_performer("喜多村英梨");
    dizzy.add_composer("Village wood");
    dizzy.add_title("D!zzy...&");
    dizzy.add_index(1, DurationFormat::MinSecMil(3, 54, 992));

    let mut synapse = CueTrackBuilder::new(2, CueTrackMode::AUDIO);
    synapse.add_performer("喜多村英梨");
    synapse.add_composer("古宇田亘d");
    synapse.add_title("SynApsE");
    synapse.add_index(1, DurationFormat::MinSecMil(3, 15, 827));

    let mut egoism = CueTrackBuilder::new(3, CueTrackMode::AUDIO);
    egoism.add_performer("喜多村英梨");
    egoism.add_composer("Village wood");
    egoism.add_title("ヱゴヰズム");
    egoism.add_index(1, DurationFormat::MinSecMil(3, 22, 147));

    let mut anger = CueTrackBuilder::new(4, CueTrackMode::AUDIO);
    anger.add_performer("喜多村英梨");
    anger.add_composer("Han");
    anger.add_title("ANGER%");
    anger.add_index(1, DurationFormat::MinSecMil(5, 12, 449));

    let mut kindan_kajitsu = CueTrackBuilder::new(5, CueTrackMode::AUDIO);
    kindan_kajitsu.add_performer("喜多村英梨");
    kindan_kajitsu.add_composer("Han");
    kindan_kajitsu.add_title("禁断果実");
    kindan_kajitsu.add_index(1, DurationFormat::MinSecMil(3, 12, 565));

    let mut belief_in_oneself = CueTrackBuilder::new(6, CueTrackMode::AUDIO);
    belief_in_oneself.add_performer("喜多村英梨");
    belief_in_oneself.add_composer("Han");
    belief_in_oneself.add_title("Belief in Oneself");
    belief_in_oneself.add_index(1, DurationFormat::MinSecMil(3, 29, 798));

    let mut shine_going_up = CueTrackBuilder::new(7, CueTrackMode::AUDIO);
    shine_going_up.add_performer("喜多村英梨");
    shine_going_up.add_composer("YutoMinami");
    shine_going_up.add_title("SH!NE GO!NG UP");
    shine_going_up.add_index(1, DurationFormat::MinSecMil(4, 23, 883));

    let mut holy_shit = CueTrackBuilder::new(8, CueTrackMode::AUDIO);
    holy_shit.add_performer("喜多村英梨");
    holy_shit.add_composer("Village wood");
    holy_shit.add_title("HOLy×SH!T");
    holy_shit.add_index(1, DurationFormat::MinSecMil(4, 29, 836));

    let mut eternity = CueTrackBuilder::new(9, CueTrackMode::AUDIO);
    eternity.add_performer("喜多村英梨");
    eternity.add_composer("Village wood");
    eternity.add_title("ETERNiTY");
    eternity.add_index(1, DurationFormat::MinSecMil(4, 32, 006));

    let mut nijiiro = CueTrackBuilder::new(10, CueTrackMode::AUDIO);
    nijiiro.add_performer("喜多村英梨");
    nijiiro.add_composer("古宇田亘");
    nijiiro.add_title("虹色");
    nijiiro.add_index(1, DurationFormat::MinSecMil(3, 59, 187));

    let mut egoism_mix = CueTrackBuilder::new(11, CueTrackMode::AUDIO);
    egoism_mix.add_performer("喜多村英梨");
    egoism_mix.add_composer("Village wood");
    egoism_mix.add_title("ヱゴヰズム (- Pf MiX -)");
    egoism_mix.add_index(1, DurationFormat::MinSecMil(3, 33, 684));

    let mut kindan_kajitsu_mix = CueTrackBuilder::new(12, CueTrackMode::AUDIO);
    kindan_kajitsu_mix.add_performer("喜多村英梨");
    kindan_kajitsu_mix.add_composer("Han");
    kindan_kajitsu_mix.add_title("禁断果実 (- Pf MiX -)");
    kindan_kajitsu_mix.add_index(1, DurationFormat::MinSecMil(3, 22, 723));

    let mut shine_going_up_mix = CueTrackBuilder::new(13, CueTrackMode::AUDIO);
    shine_going_up_mix.add_performer("喜多村英梨");
    shine_going_up_mix.add_composer("YutoMinami");
    shine_going_up_mix.add_title("SH!NE GO!NG UP (- Pf MiX -)");
    shine_going_up_mix.add_index(1, DurationFormat::MinSecMil(4, 40, 965));

    let mut cuesheet = CueSheet::new("", CueFileFormat::WAVE);
    cuesheet.add_performer("喜多村英梨");
    cuesheet.add_title("IЯiDÉSCEИT%V!SIØN");
    cuesheet.add_track(dizzy.track());
    cuesheet.add_track(synapse.track());
    cuesheet.add_track(egoism.track());
    cuesheet.add_track(anger.track());
    cuesheet.add_track(kindan_kajitsu.track());
    cuesheet.add_track(belief_in_oneself.track());
    cuesheet.add_track(shine_going_up.track());
    cuesheet.add_track(holy_shit.track());
    cuesheet.add_track(eternity.track());
    cuesheet.add_track(nijiiro.track());
    cuesheet.add_track(egoism_mix.track());
    cuesheet.add_track(kindan_kajitsu_mix.track());
    cuesheet.add_track(shine_going_up_mix.track());

    println!("{}", cuesheet.repr(true));
}

#[test]
fn test_empty_track_renders_header_only() {
    let t = CueTrackBuilder::new(5, CueTrackMode::MODE1_2048).track();
    assert_eq!(t.repr(false, None), "TRACK 05 MODE1/2048\n");
}

#[test]
fn test_two_digit_track_number_keeps_literal_zero_prefix() {
    let t = CueTrackBuilder::new(12, CueTrackMode::AUDIO).track();
    assert_eq!(t.repr(true, None), "  TRACK 012 AUDIO\n");
}

#[test]
fn test_three_digit_track_number_keeps_literal_zero_prefix() {
    let t = CueTrackBuilder::new(105, CueTrackMode::AUDIO).track();
    assert_eq!(t.repr(false, None), "TRACK 0105 AUDIO\n");
}

#[test]
fn test_set_absolute_replaces_index_durations() {
    let mut t = CueTrackBuilder::new(1, CueTrackMode::AUDIO);
    t.add_index(1, DurationFormat::MinSecMil(0, 1, 0));
    t.add_index(2, DurationFormat::MinSecMil(0, 2, 0));
    let injected = DurationFormat::minute_seconde_format(7, 7).to_duration();
    assert_eq!(
        t.track().repr(false, Some(ComputeKind::SetAbsolute(injected))),
        "TRACK 01 AUDIO\n  INDEX 01 07:7:0\n  INDEX 02 07:7:0\n"
    );
}

#[test]
fn test_sum_adds_to_each_index_duration() {
    let mut t = CueTrackBuilder::new(1, CueTrackMode::AUDIO);
    t.add_index(1, DurationFormat::MinSecMil(0, 1, 0));
    t.add_index(2, DurationFormat::MinSecMil(0, 2, 0));
    let added = DurationFormat::minute_seconde_format(0, 59).to_duration();
    assert_eq!(
        t.track().repr(false, Some(ComputeKind::Sum(added))),
        "TRACK 01 AUDIO\n  INDEX 01 01:0:0\n  INDEX 02 01:1:0\n"
    );
}

#[test]
fn test_tracks_render_in_number_order() {
    let mut sheet = CueSheet::new("disc.wav", CueFileFormat::WAVE);
    sheet.add_track(CueTrackBuilder::new(3, CueTrackMode::AUDIO).track());
    sheet.add_track(CueTrackBuilder::new(1, CueTrackMode::AUDIO).track());
    sheet.add_track(CueTrackBuilder::new(2, CueTrackMode::AUDIO).track());
    assert_eq!(
        sheet.repr(false),
        "FILE \"disc.wav\" WAVE\n  TRACK 01 AUDIO\n  TRACK 02 AUDIO\n  TRACK 03 AUDIO\n"
    );
}

#[test]
fn test_track_with_same_number_supersedes() {
    let mut first = CueTrackBuilder::new(1, CueTrackMode::AUDIO);
    first.add_title("Old");
    let mut second = CueTrackBuilder::new(1, CueTrackMode::AUDIO);
    second.add_title("New");
    let mut sheet = CueSheet::new("a.wav", CueFileFormat::WAVE);
    sheet.add_track(first.track());
    sheet.add_track(second.track());
    assert_eq!(
        sheet.repr(false),
        "FILE \"a.wav\" WAVE\n  TRACK 01 AUDIO\n    TITLE New\n"
    );
}

#[test]
fn test_cumulative_offsets_show_running_total() {
    let mut one = CueTrackBuilder::new(1, CueTrackMode::AUDIO);
    one.add_index(1, DurationFormat::MinSecMil(0, 3, 0));
    let mut two = CueTrackBuilder::new(2, CueTrackMode::AUDIO);
    two.add_index(1, DurationFormat::MinSecMil(0, 3, 0));
    let mut sheet = CueSheet::new("A file", CueFileFormat::WAVE);
    sheet.add_track(one.track());
    sheet.add_track(two.track());
    assert_eq!(
        sheet.repr(true),
        "FILE \"A file\" WAVE\n  TRACK 01 AUDIO\n    INDEX 01 00:0:0\n  TRACK 02 AUDIO\n    INDEX 01 00:3:0\n"
    );
}

#[test]
fn test_relative_offsets_show_own_durations() {
    let mut one = CueTrackBuilder::new(1, CueTrackMode::AUDIO);
    one.add_index(1, DurationFormat::MinSecMil(0, 3, 0));
    let mut two = CueTrackBuilder::new(2, CueTrackMode::AUDIO);
    two.add_index(1, DurationFormat::MinSecMil(0, 3, 0));
    let mut sheet = CueSheet::new("A file", CueFileFormat::WAVE);
    sheet.add_track(one.track());
    sheet.add_track(two.track());
    assert_eq!(
        sheet.repr(false),
        "FILE \"A file\" WAVE\n  TRACK 01 AUDIO\n    INDEX 01 00:3:0\n  TRACK 02 AUDIO\n    INDEX 01 00:3:0\n"
    );
}

#[test]
fn test_performer_with_space_is_quoted() {
    let mut sheet = CueSheet::new("f", CueFileFormat::WAVE);
    sheet.add_performer("John Doe");
    assert_eq!(
        sheet.repr(false),
        "PERFORMER \"John Doe\"\nFILE \"f\" WAVE\n"
    );
}

#[test]
fn test_performer_without_space_is_bare() {
    let mut sheet = CueSheet::new("f", CueFileFormat::WAVE);
    sheet.add_performer("JohnDoe");
    assert_eq!(sheet.repr(false), "PERFORMER JohnDoe\nFILE \"f\" WAVE\n");
}

#[test]
fn test_rendering_twice_is_identical() {
    let mut track = CueTrackBuilder::new(1, CueTrackMode::AUDIO);
    track.add_performer("A performer");
    track.add_index(1, DurationFormat::MinSecMil(3, 30, 300));
    let mut sheet = CueSheet::new("A file", CueFileFormat::WAVE);
    sheet.add_catalog("0123456789123");
    sheet.add_title("Album title");
    sheet.add_track(track.track());
    let first = sheet.repr(true);
    let second = sheet.repr(true);
    assert_eq!(first, second);
}

#[test]
fn test_rem_keys_upper_cased_last_write_wins() {
    let mut sheet = CueSheet::new("f", CueFileFormat::WAVE);
    sheet.add_rem("genre", "Rock");
    sheet.add_rem("Genre", "Pop");
    assert_eq!(sheet.repr(false), "REM GENRE Pop\nFILE \"f\" WAVE\n");
}

#[test]
fn test_flags_in_canonical_order_without_duplicates() {
    let mut t = CueTrackBuilder::new(1, CueTrackMode::AUDIO);
    t.add_flag(CueTrackFlag::SCMS);
    t.add_flag(CueTrackFlag::PRE);
    t.add_flag(CueTrackFlag::PRE);
    assert_eq!(
        t.track().repr(false, None),
        "TRACK 01 AUDIO\n  FLAGS PRE SCMS\n"
    );
}

#[test]
fn test_duplicate_cd_text_collapses() {
    let mut t = CueTrackBuilder::new(1, CueTrackMode::AUDIO);
    t.add_title("Same");
    t.add_title("Same");
    assert_eq!(t.track().repr(false, None), "TRACK 01 AUDIO\n  TITLE Same\n");
}

#[test]
fn test_cd_text_sorted_by_tag() {
    let mut t = CueTrackBuilder::new(1, CueTrackMode::AUDIO);
    t.add_title("T");
    t.add_performer("P");
    t.add_composer("C");
    assert_eq!(
        t.track().repr(false, None),
        "TRACK 01 AUDIO\n  COMPOSER C\n  PERFORMER P\n  TITLE T\n"
    );
}

#[test]
fn test_pregap_value_drives_postgap_line() {
    // Known quirk of the renderer: the POSTGAP line shows the pregap's
    // value and appears exactly when a pregap is set.
    let mut with_pregap = CueTrackBuilder::new(1, CueTrackMode::AUDIO);
    with_pregap.add_pregap(DurationFormat::MinSec(0, 2));
    with_pregap.add_postgap(DurationFormat::MinSec(0, 9));
    assert_eq!(
        with_pregap.track().repr(false, None),
        "TRACK 01 AUDIO\n  PREGAP 00:2:0\n  POSTGAP 00:2:0\n"
    );
    let mut only_postgap = CueTrackBuilder::new(1, CueTrackMode::AUDIO);
    only_postgap.add_postgap(DurationFormat::MinSec(0, 9));
    assert_eq!(only_postgap.track().repr(false, None), "TRACK 01 AUDIO\n");
}

#[test]
fn test_catalog_and_cdtextfile_lines() {
    let mut sheet = CueSheet::new("f name", CueFileFormat::MP3);
    sheet.add_catalog("0123456789123");
    sheet.cd_text_file = Some("the text.cdt".to_owned());
    assert_eq!(
        sheet.repr(false),
        "CATALOG 0123456789123\nCDTEXTFILE \"the text.cdt\"\nFILE \"f name\" MP3\n"
    );
}

#[test]
fn test_tracks_compare_by_number_only() {
    let mut a = CueTrackBuilder::new(4, CueTrackMode::AUDIO);
    a.add_title("One");
    let b = CueTrackBuilder::new(4, CueTrackMode::CDG).track();
    assert_eq!(a.track(), b);
    let lower = CueTrackBuilder::new(1, CueTrackMode::AUDIO).track();
    assert!(lower < b);
}

#[test]
fn test_track_offset_sums_indexes() {
    let mut t = CueTrackBuilder::new(1, CueTrackMode::AUDIO);
    t.add_index(1, DurationFormat::MinSecMil(0, 1, 0));
    t.add_index(2, DurationFormat::MinSecMil(0, 2, 0));
    assert_eq!(t.track().track_offset().repr(), "00:3:0");
}

#[test]
fn test_offsets_in_range_accepts_ordinary_sheet() {
    let mut t = CueTrackBuilder::new(1, CueTrackMode::AUDIO);
    t.add_index(1, DurationFormat::MinSec(4294967295, 0));
    let mut sheet = CueSheet::new("f", CueFileFormat::BINARY);
    sheet.add_track(t.track());
    assert!(sheet.offsets_in_range());
}

#[test]
fn test_offsets_in_range_rejects_overflowing_sheet() {
    let mut t = CueTrackBuilder::new(1, CueTrackMode::AUDIO);
    t.add_index(1, DurationFormat::MinSec(4294967295, 0));
    t.add_index(2, DurationFormat::MinSec(4294967295, 0));
    let mut sheet = CueSheet::new("f", CueFileFormat::BINARY);
    sheet.add_track(t.track());
    assert!(!sheet.offsets_in_range());
}

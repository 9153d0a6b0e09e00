//! CD-Text metadata fields: a fixed vocabulary of tags, each carrying one
//! string payload.
//!
//! A collection of CD-Text fields behaves as a set ordered by the tag and
//! then by the payload: the same tag with the same payload collapses, the
//! same tag with a different payload is a distinct entry.

use crate::ordered::insert_by;
use crate::ordered::lemma_insert_by_prefix;
use crate::util::cue_format_string_value;
use crate::util::lemma_lex_lt_connected;
use crate::util::lemma_lex_lt_trans;
use crate::util::lex_lt;
use crate::util::quote_str;
use crate::util::str_lex_lt;
use vstd::prelude::*;
use vstd::string::StringExecFns;

verus! {

/// A CD-Text field.
#[derive(Debug, Clone)]
pub enum CueCdText {
    Arrager(String),
    Composer(String),
    DiscId(String),
    Genre(String),
    ISrc(String),
    Message(String),
    Performer(String),
    SongWriter(String),
    Title(String),
    TocInfo(String),
    TocInfo2(String),
    UpcEan(String),
    SizeInfo(String),
}

/// The tag of a CD-Text field, without its payload.
pub enum CdTextKind {
    Arranger,
    Composer,
    DiscId,
    Genre,
    Isrc,
    Message,
    Performer,
    SongWriter,
    Title,
    TocInfo,
    TocInfo2,
    UpcEan,
    SizeInfo,
}

/// The mathematical value of a CD-Text field: its tag and the characters of
/// its payload.
#[verifier::ext_equal]
pub struct CdTextV {
    pub kind: CdTextKind,
    pub text: Seq<char>,
}

impl View for CueCdText {
    type V = CdTextV;

    open spec fn view(&self) -> CdTextV {
        match self {
            CueCdText::Arrager(s) => CdTextV { kind: CdTextKind::Arranger, text: s@ },
            CueCdText::Composer(s) => CdTextV { kind: CdTextKind::Composer, text: s@ },
            CueCdText::DiscId(s) => CdTextV { kind: CdTextKind::DiscId, text: s@ },
            CueCdText::Genre(s) => CdTextV { kind: CdTextKind::Genre, text: s@ },
            CueCdText::ISrc(s) => CdTextV { kind: CdTextKind::Isrc, text: s@ },
            CueCdText::Message(s) => CdTextV { kind: CdTextKind::Message, text: s@ },
            CueCdText::Performer(s) => CdTextV { kind: CdTextKind::Performer, text: s@ },
            CueCdText::SongWriter(s) => CdTextV { kind: CdTextKind::SongWriter, text: s@ },
            CueCdText::Title(s) => CdTextV { kind: CdTextKind::Title, text: s@ },
            CueCdText::TocInfo(s) => CdTextV { kind: CdTextKind::TocInfo, text: s@ },
            CueCdText::TocInfo2(s) => CdTextV { kind: CdTextKind::TocInfo2, text: s@ },
            CueCdText::UpcEan(s) => CdTextV { kind: CdTextKind::UpcEan, text: s@ },
            CueCdText::SizeInfo(s) => CdTextV { kind: CdTextKind::SizeInfo, text: s@ },
        }
    }
}

/// The position of a tag in the canonical tag order.
pub open spec fn kind_rank(k: CdTextKind) -> int {
    match k {
        CdTextKind::Arranger => 0,
        CdTextKind::Composer => 1,
        CdTextKind::DiscId => 2,
        CdTextKind::Genre => 3,
        CdTextKind::Isrc => 4,
        CdTextKind::Message => 5,
        CdTextKind::Performer => 6,
        CdTextKind::SongWriter => 7,
        CdTextKind::Title => 8,
        CdTextKind::TocInfo => 9,
        CdTextKind::TocInfo2 => 10,
        CdTextKind::UpcEan => 11,
        CdTextKind::SizeInfo => 12,
    }
}

/// The canonical label written before the payload.
pub open spec fn kind_label(k: CdTextKind) -> Seq<char> {
    match k {
        CdTextKind::Arranger => "ARRANGER"@,
        CdTextKind::Composer => "COMPOSER"@,
        CdTextKind::DiscId => "DISC_ID"@,
        CdTextKind::Genre => "GENRE"@,
        CdTextKind::Isrc => "ISCR"@,
        CdTextKind::Message => "MESSAGE"@,
        CdTextKind::Performer => "PERFORMER"@,
        CdTextKind::SongWriter => "SONGWRITER"@,
        CdTextKind::Title => "TITLE"@,
        CdTextKind::TocInfo => "TOC_INFO"@,
        CdTextKind::TocInfo2 => "TOC_INFO2"@,
        CdTextKind::UpcEan => "UPC_EAN"@,
        CdTextKind::SizeInfo => "SIZE_INFO"@,
    }
}

/// CD-Text fields are ordered by tag, then by payload.
pub open spec fn cd_lt(a: CdTextV, b: CdTextV) -> bool {
    kind_rank(a.kind) < kind_rank(b.kind) || (kind_rank(a.kind) == kind_rank(b.kind) && lex_lt(
        a.text,
        b.text,
    ))
}

/// The order on CD-Text fields, as a value.
pub open spec fn cd_lt_fn() -> spec_fn(CdTextV, CdTextV) -> bool {
    |a: CdTextV, b: CdTextV| cd_lt(a, b)
}

/// Tags with equal positions are equal.
proof fn lemma_kind_rank_injective(a: CdTextKind, b: CdTextKind)
    requires
        kind_rank(a) == kind_rank(b),
    ensures
        a == b,
{
}

/// The order on CD-Text fields is a strict total order.
pub proof fn lemma_cd_lt_strict_order()
    ensures
        crate::ordered::strict_order(cd_lt_fn()),
{
    let lt = cd_lt_fn();
    assert forall|a: CdTextV, b: CdTextV, c: CdTextV|
        #[trigger] lt(a, b) && #[trigger] lt(b, c) implies lt(a, c) by {
        if kind_rank(a.kind) == kind_rank(b.kind) && kind_rank(b.kind) == kind_rank(c.kind) {
            lemma_lex_lt_trans(a.text, b.text, c.text);
        }
    }
    assert forall|a: CdTextV, b: CdTextV| !#[trigger] lt(a, b) && !#[trigger] lt(b, a) implies a
        == b by {
        lemma_kind_rank_injective(a.kind, b.kind);
        lemma_lex_lt_connected(a.text, b.text);
        assert(a =~= b);
    }
}

/// The rendered form of one CD-Text field: the tag label, a space, and the
/// payload (quoted when it contains a space).
pub open spec fn cd_line(c: CdTextV) -> Seq<char> {
    kind_label(c.kind) + " "@ + quote_str(c.text)
}

impl CueCdText {
    /// The payload of the field.
    pub fn value(&self) -> (r: &String)
        ensures
            r@ == self@.text,
    {
        match self {
            CueCdText::Arrager(s) => s,
            CueCdText::Composer(s) => s,
            CueCdText::DiscId(s) => s,
            CueCdText::Genre(s) => s,
            CueCdText::ISrc(s) => s,
            CueCdText::Message(s) => s,
            CueCdText::Performer(s) => s,
            CueCdText::SongWriter(s) => s,
            CueCdText::Title(s) => s,
            CueCdText::TocInfo(s) => s,
            CueCdText::TocInfo2(s) => s,
            CueCdText::UpcEan(s) => s,
            CueCdText::SizeInfo(s) => s,
        }
    }

    /// The canonical label of the field's tag.
    pub fn label(&self) -> (r: &'static str)
        ensures
            r@ == kind_label(self@.kind),
    {
        match self {
            CueCdText::Arrager(_) => "ARRANGER",
            CueCdText::Composer(_) => "COMPOSER",
            CueCdText::DiscId(_) => "DISC_ID",
            CueCdText::Genre(_) => "GENRE",
            CueCdText::ISrc(_) => "ISCR",
            CueCdText::Message(_) => "MESSAGE",
            CueCdText::Performer(_) => "PERFORMER",
            CueCdText::SongWriter(_) => "SONGWRITER",
            CueCdText::Title(_) => "TITLE",
            CueCdText::TocInfo(_) => "TOC_INFO",
            CueCdText::TocInfo2(_) => "TOC_INFO2",
            CueCdText::UpcEan(_) => "UPC_EAN",
            CueCdText::SizeInfo(_) => "SIZE_INFO",
        }
    }

    /// The position of the field's tag in the canonical tag order.
    pub fn rank(&self) -> (r: u32)
        ensures
            r as int == kind_rank(self@.kind),
    {
        match self {
            CueCdText::Arrager(_) => 0,
            CueCdText::Composer(_) => 1,
            CueCdText::DiscId(_) => 2,
            CueCdText::Genre(_) => 3,
            CueCdText::ISrc(_) => 4,
            CueCdText::Message(_) => 5,
            CueCdText::Performer(_) => 6,
            CueCdText::SongWriter(_) => 7,
            CueCdText::Title(_) => 8,
            CueCdText::TocInfo(_) => 9,
            CueCdText::TocInfo2(_) => 10,
            CueCdText::UpcEan(_) => 11,
            CueCdText::SizeInfo(_) => 12,
        }
    }

    /// Renders the field as `<TAG> <value>`.
    pub fn repr(&self) -> (r: String)
        ensures
            r@ == cd_line(self@),
    {
        let mut s = self.label().to_owned();
        s.append(" ");
        let v = cue_format_string_value(self.value().as_str());
        s.append(v.as_str());
        s
    }
}

/// Decides the canonical order between two CD-Text fields.
pub fn cd_text_lt(a: &CueCdText, b: &CueCdText) -> (r: bool)
    ensures
        r == cd_lt(a@, b@),
{
    let ra = a.rank();
    let rb = b.rank();
    if ra < rb {
        true
    } else if ra > rb {
        false
    } else {
        str_lex_lt(a.value().as_str(), b.value().as_str())
    }
}

/// The CD-Text fields of a vector, as mathematical values.
pub open spec fn cds_view(s: Seq<CueCdText>) -> Seq<CdTextV> {
    Seq::new(s.len(), |i: int| s[i]@)
}

proof fn lemma_cds_view_insert(s: Seq<CueCdText>, i: int, e: CueCdText)
    requires
        0 <= i <= s.len(),
    ensures
        cds_view(s.insert(i, e)) == cds_view(s).insert(i, e@),
{
    assert(cds_view(s.insert(i, e)) =~= cds_view(s).insert(i, e@));
}

proof fn lemma_cds_view_remove(s: Seq<CueCdText>, i: int)
    requires
        0 <= i < s.len(),
    ensures
        cds_view(s.remove(i)) == cds_view(s).remove(i),
{
    assert(cds_view(s.remove(i)) =~= cds_view(s).remove(i));
}

/// Inserts a CD-Text field at its place in the canonical order; a field
/// with the same tag and payload collapses with the one already there.
pub fn insert_cd_text(v: &mut Vec<CueCdText>, c: CueCdText)
    ensures
        cds_view(final(v)@) == insert_by(cds_view(old(v)@), c@, cd_lt_fn()),
{
    let ghost s0 = cds_view(old(v)@);
    let ghost x = c@;
    let mut i: usize = 0;
    while i < v.len() && cd_text_lt(&v[i], &c)
        invariant
            v@ == old(v)@,
            s0 == cds_view(v@),
            x == c@,
            i <= v@.len(),
            forall|j: int| 0 <= j < i ==> cd_lt(s0[j], x),
        decreases v@.len() - i,
    {
        proof {
            assert(s0[i as int] == v@[i as int]@);
        }
        i += 1;
    }
    proof {
        assert(forall|j: int| 0 <= j < i ==> #[trigger] (cd_lt_fn())(s0[j], x));
        lemma_insert_by_prefix(s0, x, cd_lt_fn(), i as int);
    }
    if i == v.len() {
        proof {
            assert(s0.skip(i as int) =~= Seq::<CdTextV>::empty());
        }
        v.push(c);
        proof {
            assert(cds_view(v@) =~= s0.take(i as int) + insert_by(
                s0.skip(i as int),
                x,
                cd_lt_fn(),
            ));
        }
    } else {
        proof {
            assert(s0[i as int] == v@[i as int]@);
            assert(s0.skip(i as int)[0] == s0[i as int]);
        }
        if !cd_text_lt(&c, &v[i]) {
            // same tag and payload: the new field supersedes the old one.
            proof {
                assert(s0.skip(i as int).skip(1) =~= s0.skip(i as int + 1));
            }
            v.remove(i);
            proof {
                lemma_cds_view_remove(old(v)@, i as int);
            }
            let ghost s1 = v@;
            v.insert(i, c);
            proof {
                lemma_cds_view_insert(s1, i as int, c);
                assert(cds_view(v@) =~= s0.take(i as int) + (seq![x] + s0.skip(i as int + 1)));
            }
        } else {
            let ghost s1 = v@;
            v.insert(i, c);
            proof {
                lemma_cds_view_insert(s1, i as int, c);
                assert(cds_view(v@) =~= s0.take(i as int) + (seq![x] + s0.skip(i as int)));
            }
        }
    }
}

/// The rendered CD-Text lines, one per field, each carrying the given
/// indentation prefix.
pub open spec fn cd_block(s: Seq<CdTextV>, pre: Seq<char>) -> Seq<char>
    decreases s.len(),
{
    if s.len() == 0 {
        Seq::empty()
    } else {
        cd_block(s.drop_last(), pre) + pre + cd_line(s.last()) + "\n"@
    }
}

/// Renders the CD-Text lines, each prefixed with the given indentation.
pub fn render_cd_texts(v: &Vec<CueCdText>, pre: &str) -> (r: String)
    ensures
        r@ == cd_block(cds_view(v@), pre@),
{
    let ghost cs = cds_view(v@);
    let mut out = String::new();
    let mut i: usize = 0;
    while i < v.len()
        invariant
            cs == cds_view(v@),
            i <= v@.len(),
            out@ == cd_block(cs.take(i as int), pre@),
        decreases v@.len() - i,
    {
        out.append(pre);
        let line = v[i].repr();
        out.append(line.as_str());
        out.append("\n");
        proof {
            assert(cs.take(i as int + 1).drop_last() =~= cs.take(i as int));
            assert(cs.take(i as int + 1).last() == cs[i as int]);
            assert(cs[i as int] == v@[i as int]@);
            assert(out@ =~= cd_block(cs.take(i as int + 1), pre@));
        }
        i += 1;
    }
    proof {
        assert(cs.take(v@.len() as int) =~= cs);
    }
    out
}

} // verus!

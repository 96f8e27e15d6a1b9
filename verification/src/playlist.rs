//! The incremental playlist scanner: line classification, the playlist-level
//! tag dispatcher, the segment-boundary rule, and the final seal of the
//! document into a `MediaPlaylist`.

use vstd::prelude::*;

use crate::attrs::strings_view;
use crate::chars::find_first;
use crate::chars::has_prefix;
use crate::chars::trim_end_spec;
use crate::chars::trim_spec;
use crate::entities::init_part_inf;
use crate::entities::spec_parse_part_inf;
use crate::entities::spec_parse_preload_hint;
use crate::entities::spec_parse_rendition_report;
use crate::entities::spec_parse_server_control;
use crate::entities::spec_parse_skip;
use crate::entities::SpecPartInf;
use crate::entities::SpecPreloadHint;
use crate::entities::SpecRenditionReport;
use crate::entities::SpecServerControl;
use crate::entities::SpecSkip;
use crate::num::spec_parse_u32;
use crate::segment::init_media_segment;
use crate::segment::media_segment_tag_apply;
use crate::segment::media_segment_tag_of;
use crate::segment::seal_media_segment;
use crate::segment::SpecMediaSegment;
use crate::segment::SpecMediaSegmentBuilder;

use crate::chars::lemma_find_first;
use crate::chars::lemma_trim_end_is_prefix;
use crate::chars::lemma_trim_end_keeps_nonws;
use crate::chars::str_eq;
use crate::chars::str_find;
use crate::chars::str_starts_with;
use crate::chars::str_trim;
use crate::chars::str_trim_end;
use crate::entities::PartInf;
use crate::entities::PreloadHint;
use crate::entities::RenditionReport;
use crate::entities::ServerControl;
use crate::entities::Skip;
use crate::num::parse_u32;
use crate::segment::MediaSegment;
use crate::segment::MediaSegmentBuilder;
use crate::segment::MediaSegmentTag;
use crate::ParsePlaylistError;
use crate::ParseTagError;

verus! {

/// A whole playlist document: the mandatory document-level declarations,
/// the ordered segment list, and the optional live-streaming metadata.
#[derive(Debug)]
pub struct MediaPlaylist {
    pub target_duration: u32,
    pub version: u32,
    pub part_inf: PartInf,
    pub media_sequence_number: u32,
    pub media_segments: Vec<MediaSegment>,
    pub skip: Option<Skip>,
    pub preload_hint: Option<PreloadHint>,
    pub rendition_reports: Vec<RenditionReport>,
    pub server_control: ServerControl,
}

pub ghost struct SpecMediaPlaylist {
    pub target_duration: u32,
    pub version: u32,
    pub part_inf: SpecPartInf,
    pub media_sequence_number: u32,
    pub media_segments: Seq<SpecMediaSegment>,
    pub skip: Option<SpecSkip>,
    pub preload_hint: Option<SpecPreloadHint>,
    pub rendition_reports: Seq<SpecRenditionReport>,
    pub server_control: SpecServerControl,
}

/// The views of a vector of sealed segments.
pub open spec fn segs_view(v: Seq<MediaSegment>) -> Seq<SpecMediaSegment> {
    Seq::new(v.len(), |i: int| v[i]@)
}

/// The views of a vector of rendition reports.
pub open spec fn reports_view(v: Seq<RenditionReport>) -> Seq<SpecRenditionReport> {
    Seq::new(v.len(), |i: int| v[i]@)
}

impl View for MediaPlaylist {
    type V = SpecMediaPlaylist;

    open spec fn view(&self) -> SpecMediaPlaylist {
        SpecMediaPlaylist {
            target_duration: self.target_duration,
            version: self.version,
            part_inf: self.part_inf@,
            media_sequence_number: self.media_sequence_number,
            media_segments: segs_view(self.media_segments@),
            skip: match self.skip {
                Some(sk) => Some(sk@),
                None => None,
            },
            preload_hint: match self.preload_hint {
                Some(h) => Some(h@),
                None => None,
            },
            rendition_reports: reports_view(self.rendition_reports@),
            server_control: self.server_control@,
        }
    }
}

impl MediaPlaylist {
    /// Every duration field holds decimal text and every segment locator
    /// is a well-formed URI reference.
    pub open spec fn wf(&self) -> bool {
        self.part_inf.wf() && self.server_control.wf() && (forall|i: int|
            0 <= i < self.media_segments@.len() ==> (#[trigger] self.media_segments@[i]).wf())
    }
}

/// Transient accumulator for the whole document: the playlist fields plus
/// the ordered aggregates that grow while scanning.
pub struct MediaPlaylistBuilder {
    pub target_duration: Option<u32>,
    pub version: Option<u32>,
    pub part_inf: Option<PartInf>,
    pub media_sequence_number: Option<u32>,
    pub skip: Option<Skip>,
    pub preload_hint: Option<PreloadHint>,
    pub server_control: Option<ServerControl>,
    pub media_segments: Vec<MediaSegment>,
    pub rendition_reports: Vec<RenditionReport>,
}

pub ghost struct SpecMediaPlaylistBuilder {
    pub target_duration: Option<u32>,
    pub version: Option<u32>,
    pub part_inf: Option<SpecPartInf>,
    pub media_sequence_number: Option<u32>,
    pub skip: Option<SpecSkip>,
    pub preload_hint: Option<SpecPreloadHint>,
    pub server_control: Option<SpecServerControl>,
    pub media_segments: Seq<SpecMediaSegment>,
    pub rendition_reports: Seq<SpecRenditionReport>,
}

impl View for MediaPlaylistBuilder {
    type V = SpecMediaPlaylistBuilder;

    open spec fn view(&self) -> SpecMediaPlaylistBuilder {
        SpecMediaPlaylistBuilder {
            target_duration: self.target_duration,
            version: self.version,
            part_inf: match self.part_inf {
                Some(p) => Some(p@),
                None => None,
            },
            media_sequence_number: self.media_sequence_number,
            skip: match self.skip {
                Some(sk) => Some(sk@),
                None => None,
            },
            preload_hint: match self.preload_hint {
                Some(h) => Some(h@),
                None => None,
            },
            server_control: match self.server_control {
                Some(sc) => Some(sc@),
                None => None,
            },
            media_segments: segs_view(self.media_segments@),
            rendition_reports: reports_view(self.rendition_reports@),
        }
    }
}

impl MediaPlaylistBuilder {
    pub open spec fn wf(&self) -> bool {
        (match self.part_inf {
            Some(p) => p.wf(),
            None => true,
        }) && (match self.server_control {
            Some(sc) => sc.wf(),
            None => true,
        }) && (forall|i: int|
            0 <= i < self.media_segments@.len() ==> (#[trigger] self.media_segments@[i]).wf())
    }

    pub fn new() -> (r: MediaPlaylistBuilder)
        ensures
            r@ == init_media_playlist(),
            r.wf(),
    {
        let r = MediaPlaylistBuilder {
            target_duration: None,
            version: None,
            part_inf: None,
            media_sequence_number: None,
            skip: None,
            preload_hint: None,
            server_control: None,
            media_segments: Vec::new(),
            rendition_reports: Vec::new(),
        };
        proof {
            assert(segs_view(r.media_segments@) =~= Seq::<SpecMediaSegment>::empty());
            assert(reports_view(r.rendition_reports@) =~= Seq::<SpecRenditionReport>::empty());
        }
        r
    }
}

pub open spec fn init_media_playlist() -> SpecMediaPlaylistBuilder {
    SpecMediaPlaylistBuilder {
        target_duration: None,
        version: None,
        part_inf: None,
        media_sequence_number: None,
        skip: None,
        preload_hint: None,
        server_control: None,
        media_segments: Seq::empty(),
        rendition_reports: Seq::empty(),
    }
}

/// The recognized playlist-level tags.
pub enum MediaPlaylistTag {
    TargetDuration,
    Version,
    PartInf,
    MediaSequence,
    Skip,
    PreloadHint,
    RenditionReport,
    ServerControl,
}

/// Which playlist-level tag a tag name denotes, if any.
pub open spec fn media_playlist_tag_of(name: Seq<char>) -> Option<MediaPlaylistTag> {
    if name == "EXT-X-TARGETDURATION"@ {
        Some(MediaPlaylistTag::TargetDuration)
    } else if name == "EXT-X-VERSION"@ {
        Some(MediaPlaylistTag::Version)
    } else if name == "EXT-X-PART-INF"@ {
        Some(MediaPlaylistTag::PartInf)
    } else if name == "EXT-X-MEDIA-SEQUENCE"@ {
        Some(MediaPlaylistTag::MediaSequence)
    } else if name == "EXT-X-SKIP"@ {
        Some(MediaPlaylistTag::Skip)
    } else if name == "EXT-X-PRELOAD-HINT"@ {
        Some(MediaPlaylistTag::PreloadHint)
    } else if name == "EXT-X-RENDITION-REPORT"@ {
        Some(MediaPlaylistTag::RenditionReport)
    } else if name == "EXT-X-SERVER-CONTROL"@ {
        Some(MediaPlaylistTag::ServerControl)
    } else {
        None
    }
}

/// What one playlist-level tag does to the document in progress. The
/// scalar tags read their whole value as an unsigned integer; the
/// attribute-list tags parse their entity and write or append it.
pub open spec fn media_playlist_tag_apply(
    st: SpecMediaPlaylistBuilder,
    tag: MediaPlaylistTag,
    attrs: Seq<char>,
) -> Result<SpecMediaPlaylistBuilder, ParseTagError> {
    match tag {
        MediaPlaylistTag::TargetDuration => match spec_parse_u32(attrs) {
            Some(n) => Ok(SpecMediaPlaylistBuilder { target_duration: Some(n), ..st }),
            None => Err(ParseTagError),
        },
        MediaPlaylistTag::Version => match spec_parse_u32(attrs) {
            Some(n) => Ok(SpecMediaPlaylistBuilder { version: Some(n), ..st }),
            None => Err(ParseTagError),
        },
        MediaPlaylistTag::PartInf => match spec_parse_part_inf(attrs) {
            Ok(p) => Ok(SpecMediaPlaylistBuilder { part_inf: Some(p), ..st }),
            Err(e) => Err(e),
        },
        MediaPlaylistTag::MediaSequence => match spec_parse_u32(attrs) {
            Some(n) => Ok(SpecMediaPlaylistBuilder { media_sequence_number: Some(n), ..st }),
            None => Err(ParseTagError),
        },
        MediaPlaylistTag::Skip => match spec_parse_skip(attrs) {
            Ok(sk) => Ok(SpecMediaPlaylistBuilder { skip: Some(sk), ..st }),
            Err(e) => Err(e),
        },
        MediaPlaylistTag::PreloadHint => match spec_parse_preload_hint(attrs) {
            Ok(h) => Ok(SpecMediaPlaylistBuilder { preload_hint: Some(h), ..st }),
            Err(e) => Err(e),
        },
        MediaPlaylistTag::RenditionReport => match spec_parse_rendition_report(attrs) {
            Ok(rr) => Ok(
                SpecMediaPlaylistBuilder {
                    rendition_reports: st.rendition_reports.push(rr),
                    ..st
                },
            ),
            Err(e) => Err(e),
        },
        MediaPlaylistTag::ServerControl => match spec_parse_server_control(attrs) {
            Ok(sc) => Ok(SpecMediaPlaylistBuilder { server_control: Some(sc), ..st }),
            Err(e) => Err(e),
        },
    }
}

impl MediaPlaylistTag {
    /// Classifies a tag name as one of the eight playlist-level tags; a
    /// name outside the set is no playlist tag.
    pub fn from_str(value: &str) -> (r: Result<MediaPlaylistTag, ParseTagError>)
        ensures
            match r {
                Ok(t) => media_playlist_tag_of(value@) == Some(t),
                Err(_) => media_playlist_tag_of(value@) is None,
            },
    {
        if str_eq(value, "EXT-X-TARGETDURATION") {
            Ok(MediaPlaylistTag::TargetDuration)
        } else if str_eq(value, "EXT-X-VERSION") {
            Ok(MediaPlaylistTag::Version)
        } else if str_eq(value, "EXT-X-PART-INF") {
            Ok(MediaPlaylistTag::PartInf)
        } else if str_eq(value, "EXT-X-MEDIA-SEQUENCE") {
            Ok(MediaPlaylistTag::MediaSequence)
        } else if str_eq(value, "EXT-X-SKIP") {
            Ok(MediaPlaylistTag::Skip)
        } else if str_eq(value, "EXT-X-PRELOAD-HINT") {
            Ok(MediaPlaylistTag::PreloadHint)
        } else if str_eq(value, "EXT-X-RENDITION-REPORT") {
            Ok(MediaPlaylistTag::RenditionReport)
        } else if str_eq(value, "EXT-X-SERVER-CONTROL") {
            Ok(MediaPlaylistTag::ServerControl)
        } else {
            Err(ParseTagError)
        }
    }

    /// Routes one tag's value into the document in progress, as
    /// `media_playlist_tag_apply` says.
    pub fn read(&self, builder: &mut MediaPlaylistBuilder, attributes: &str) -> (r: Result<
        (),
        ParseTagError,
    >)
        ensures
            match r {
                Ok(_) => media_playlist_tag_apply(old(builder)@, *self, attributes@) == Ok::<
                    SpecMediaPlaylistBuilder,
                    ParseTagError,
                >(final(builder)@),
                Err(e) => media_playlist_tag_apply(old(builder)@, *self, attributes@) == Err::<
                    SpecMediaPlaylistBuilder,
                    ParseTagError,
                >(e) && final(builder)@ == old(builder)@,
            },
            old(builder).wf() ==> final(builder).wf(),
    {
        match self {
            MediaPlaylistTag::TargetDuration => {
                match parse_u32(attributes) {
                    Some(n) => {
                        builder.target_duration = Some(n);
                        Ok(())
                    },
                    None => Err(ParseTagError),
                }
            },
            MediaPlaylistTag::Version => {
                match parse_u32(attributes) {
                    Some(n) => {
                        builder.version = Some(n);
                        Ok(())
                    },
                    None => Err(ParseTagError),
                }
            },
            MediaPlaylistTag::PartInf => {
                match PartInf::from_str(attributes) {
                    Ok(p) => {
                        builder.part_inf = Some(p);
                        Ok(())
                    },
                    Err(e) => Err(e),
                }
            },
            MediaPlaylistTag::MediaSequence => {
                match parse_u32(attributes) {
                    Some(n) => {
                        builder.media_sequence_number = Some(n);
                        Ok(())
                    },
                    None => Err(ParseTagError),
                }
            },
            MediaPlaylistTag::Skip => {
                match Skip::from_str(attributes) {
                    Ok(sk) => {
                        builder.skip = Some(sk);
                        Ok(())
                    },
                    Err(e) => Err(e),
                }
            },
            MediaPlaylistTag::PreloadHint => {
                match PreloadHint::from_str(attributes) {
                    Ok(h) => {
                        builder.preload_hint = Some(h);
                        Ok(())
                    },
                    Err(e) => Err(e),
                }
            },
            MediaPlaylistTag::RenditionReport => {
                match RenditionReport::from_str(attributes) {
                    Ok(rr) => {
                        proof {
                            assert(reports_view(builder.rendition_reports@.push(rr))
                                =~= reports_view(builder.rendition_reports@).push(rr@));
                        }
                        builder.rendition_reports.push(rr);
                        Ok(())
                    },
                    Err(e) => Err(e),
                }
            },
            MediaPlaylistTag::ServerControl => {
                match ServerControl::from_str(attributes) {
                    Ok(sc) => {
                        builder.server_control = Some(sc);
                        Ok(())
                    },
                    Err(e) => Err(e),
                }
            },
        }
    }
}

/// What one line does to the scan state.
///
/// A line beginning `#EXT` is a tag line: its name (between `#` and the
/// first `:`) is tried as a playlist tag, then as a segment tag, and
/// skipped silently when it is neither; a tag line without `:` is a
/// structural failure. A non-`#`, non-blank line is the resource locator:
/// it seals the segment in progress (the segment-boundary rule). The
/// end-of-list marker is a no-op here: locator lines seal eagerly, so no
/// completed segment is ever pending when it appears. Anything else —
/// blank lines and other comments — is ignored.
pub open spec fn spec_step(
    pb: SpecMediaPlaylistBuilder,
    sb: SpecMediaSegmentBuilder,
    line: Seq<char>,
) -> Result<(SpecMediaPlaylistBuilder, SpecMediaSegmentBuilder), ParsePlaylistError> {
    let t = trim_end_spec(line);
    if has_prefix(line, "#EXT"@) {
        if trim_spec(line) == "#EXT-X-ENDLIST"@ {
            Ok((pb, sb))
        } else {
            match find_first(t, ':') {
                None => Err(ParsePlaylistError::BUILDER_ERROR),
                Some(i) => {
                    let name = t.subrange(1, i);
                    let attrs = t.skip(i + 1);
                    match media_playlist_tag_of(name) {
                        Some(tag) => match media_playlist_tag_apply(pb, tag, attrs) {
                            Ok(pb2) => Ok((pb2, sb)),
                            Err(_) => Err(ParsePlaylistError::BUILDER_ERROR),
                        },
                        None => match media_segment_tag_of(name) {
                            Some(tag) => match media_segment_tag_apply(sb, tag, attrs) {
                                Ok(sb2) => Ok((pb, sb2)),
                                Err(_) => Err(ParsePlaylistError::BUILDER_ERROR),
                            },
                            None => Ok((pb, sb)),
                        },
                    }
                },
            }
        }
    } else if line.len() > 0 && line.first() == '#' {
        Ok((pb, sb))
    } else if trim_spec(line).len() > 0 {
        match media_segment_tag_apply(sb, crate::segment::MediaSegmentTag::Uri, t) {
            Err(_) => Err(ParsePlaylistError::BUILDER_ERROR),
            Ok(sb2) => match seal_media_segment(sb2) {
                Err(_) => Err(ParsePlaylistError::BUILDER_ERROR),
                Ok(seg) => Ok(
                    (
                        SpecMediaPlaylistBuilder {
                            media_segments: pb.media_segments.push(seg),
                            ..pb
                        },
                        init_media_segment(),
                    ),
                ),
            },
        }
    } else {
        Ok((pb, sb))
    }
}

/// The lines applied in order to the scan state.
pub open spec fn spec_scan(
    pb: SpecMediaPlaylistBuilder,
    sb: SpecMediaSegmentBuilder,
    lines: Seq<Seq<char>>,
) -> Result<(SpecMediaPlaylistBuilder, SpecMediaSegmentBuilder), ParsePlaylistError>
    decreases lines.len(),
{
    if lines.len() == 0 {
        Ok((pb, sb))
    } else {
        match spec_step(pb, sb, lines.first()) {
            Err(e) => Err(e),
            Ok(st) => spec_scan(st.0, st.1, lines.drop_first()),
        }
    }
}

/// Scanning a concatenation scans the first part, then the second from
/// where the first ended; an early failure is final.
pub proof fn lemma_scan_append(
    pb: SpecMediaPlaylistBuilder,
    sb: SpecMediaSegmentBuilder,
    a: Seq<Seq<char>>,
    b: Seq<Seq<char>>,
)
    ensures
        spec_scan(pb, sb, a + b) == (match spec_scan(pb, sb, a) {
            Err(e) => Err(e),
            Ok(st) => spec_scan(st.0, st.1, b),
        }),
    decreases a.len(),
{
    if a.len() == 0 {
        assert(a + b =~= b);
    } else {
        assert((a + b).first() == a.first());
        assert((a + b).drop_first() =~= a.drop_first() + b);
        match spec_step(pb, sb, a.first()) {
            Err(e) => {},
            Ok(st) => {
                lemma_scan_append(st.0, st.1, a.drop_first(), b);
            },
        }
    }
}

/// The final seal of the document: the five mandatory playlist fields must
/// all have been set at least once during the scan.
pub open spec fn seal_media_playlist(st: SpecMediaPlaylistBuilder) -> Result<
    SpecMediaPlaylist,
    ParsePlaylistError,
> {
    if st.target_duration is Some && st.version is Some && st.part_inf is Some
        && st.media_sequence_number is Some && st.server_control is Some {
        Ok(
            SpecMediaPlaylist {
                target_duration: st.target_duration.unwrap(),
                version: st.version.unwrap(),
                part_inf: st.part_inf.unwrap(),
                media_sequence_number: st.media_sequence_number.unwrap(),
                media_segments: st.media_segments,
                skip: st.skip,
                preload_hint: st.preload_hint,
                rendition_reports: st.rendition_reports,
                server_control: st.server_control.unwrap(),
            },
        )
    } else {
        Err(ParsePlaylistError::BUILDER_ERROR)
    }
}

/// What a sequence of document lines denotes: the first line must be the
/// `#EXTM3U` header, the rest are scanned in order, and the accumulated
/// document is sealed. A trailing segment accumulator that no locator
/// line ever sealed is discarded.
pub open spec fn spec_parse_media_playlist(lines: Seq<Seq<char>>) -> Result<
    SpecMediaPlaylist,
    ParsePlaylistError,
> {
    if lines.len() == 0 || trim_spec(lines.first()) != "#EXTM3U"@ {
        Err(ParsePlaylistError::EXT3U_TAG_MISSING)
    } else {
        match spec_scan(init_media_playlist(), init_media_segment(), lines.drop_first()) {
            Err(e) => Err(e),
            Ok(st) => seal_media_playlist(st.0),
        }
    }
}

/// Applies one line to the owned scan state, as `spec_step` says.
fn apply_line(
    pb: MediaPlaylistBuilder,
    sb: MediaSegmentBuilder,
    line: &str,
) -> (r: Result<(MediaPlaylistBuilder, MediaSegmentBuilder), ParsePlaylistError>)
    ensures
        match r {
            Ok(pair) => spec_step(pb@, sb@, line@) == Ok::<
                (SpecMediaPlaylistBuilder, SpecMediaSegmentBuilder),
                ParsePlaylistError,
            >((pair.0@, pair.1@)) && (pb.wf() && sb.wf() ==> pair.0.wf() && pair.1.wf()),
            Err(e) => spec_step(pb@, sb@, line@) == Err::<
                (SpecMediaPlaylistBuilder, SpecMediaSegmentBuilder),
                ParsePlaylistError,
            >(e),
        },
{
    let mut pb = pb;
    let mut sb = sb;
    if str_starts_with(line, "#EXT") {
        let whole = str_trim(line);
        if str_eq(whole, "#EXT-X-ENDLIST") {
            return Ok((pb, sb));
        }
        let t = str_trim_end(line);
        let tn = t.unicode_len();
        match str_find(t, ':') {
            None => Err(ParsePlaylistError::BUILDER_ERROR),
            Some(i) => {
                proof {
                    lemma_find_first(t@, ':');
                    reveal_strlit("#EXT");
                    assert("#EXT"@.len() == 4);
                    assert(line@.subrange(0, 4) =~= "#EXT"@);
                    assert(line@.subrange(0, 4)[0] == line@[0]);
                    assert(line@[0] == '#');
                    lemma_trim_end_keeps_nonws(line@, 0);
                    lemma_trim_end_is_prefix(line@);
                    assert(t@[0] == '#');
                }
                let name = t.substring_char(1, i);
                let attrs = t.substring_char(i + 1, tn);
                proof {
                    assert(name@ =~= t@.subrange(1, i as int));
                    assert(attrs@ =~= t@.skip(i + 1));
                }
                match MediaPlaylistTag::from_str(name) {
                    Ok(tag) => {
                        match tag.read(&mut pb, attrs) {
                            Ok(_) => Ok((pb, sb)),
                            Err(_) => Err(ParsePlaylistError::BUILDER_ERROR),
                        }
                    },
                    Err(_) => {
                        match MediaSegmentTag::from_str(name) {
                            Ok(tag) => {
                                match tag.read(&mut sb, attrs) {
                                    Ok(_) => Ok((pb, sb)),
                                    Err(_) => Err(ParsePlaylistError::BUILDER_ERROR),
                                }
                            },
                            Err(_) => Ok((pb, sb)),
                        }
                    },
                }
            },
        }
    } else if line.unicode_len() > 0 && line.get_char(0) == '#' {
        Ok((pb, sb))
    } else {
        let trimmed = str_trim(line);
        if trimmed.unicode_len() > 0 {
            let t = str_trim_end(line);
            let locator = MediaSegmentTag::Uri;
            match locator.read(&mut sb, t) {
                Err(_) => Err(ParsePlaylistError::BUILDER_ERROR),
                Ok(_) => {
                    match sb.seal() {
                        Err(_) => Err(ParsePlaylistError::BUILDER_ERROR),
                        Ok(seg) => {
                            proof {
                                assert(segs_view(pb.media_segments@.push(seg)) =~= segs_view(
                                    pb.media_segments@,
                                ).push(seg@));
                            }
                            pb.media_segments.push(seg);
                            Ok((pb, MediaSegmentBuilder::new()))
                        },
                    }
                },
            }
        } else {
            Ok((pb, sb))
        }
    }
}

/// Parses a whole playlist document given as its sequence of lines.
/// The result is exactly what `spec_parse_media_playlist` says of the
/// lines' text, and every parsed document is well-formed.
pub fn parse_playlist(lines: &Vec<String>) -> (r: Result<MediaPlaylist, ParsePlaylistError>)
    ensures
        match r {
            Ok(p) => spec_parse_media_playlist(strings_view(lines@)) == Ok::<
                SpecMediaPlaylist,
                ParsePlaylistError,
            >(p@) && p.wf(),
            Err(e) => spec_parse_media_playlist(strings_view(lines@)) == Err::<
                SpecMediaPlaylist,
                ParsePlaylistError,
            >(e),
        },
{
    let ghost lv = strings_view(lines@);
    if lines.len() == 0 {
        return Err(ParsePlaylistError::EXT3U_TAG_MISSING);
    }
    let head = str_trim(lines[0].as_str());
    if !str_eq(head, "#EXTM3U") {
        return Err(ParsePlaylistError::EXT3U_TAG_MISSING);
    }
    let mut pb = MediaPlaylistBuilder::new();
    let mut sb = MediaSegmentBuilder::new();
    let mut i: usize = 1;
    proof {
        assert(lv.subrange(1, 1) =~= Seq::<Seq<char>>::empty());
    }
    while i < lines.len()
        invariant
            1 <= i <= lines@.len(),
            lv == strings_view(lines@),
            lv.len() == lines@.len(),
            trim_spec(lv.first()) == "#EXTM3U"@,
            spec_scan(init_media_playlist(), init_media_segment(), lv.subrange(1, i as int))
                == Ok::<(SpecMediaPlaylistBuilder, SpecMediaSegmentBuilder), ParsePlaylistError>(
                (pb@, sb@),
            ),
            pb.wf(),
            sb.wf(),
        decreases lines@.len() - i,
    {
        let line: &str = lines[i].as_str();
        assert(line@ == lv[i as int]);
        let ghost pre = lv.subrange(1, i as int);
        let step = apply_line(pb, sb, line);
        match step {
            Ok(pair) => {
                proof {
                    let x = lv[i as int];
                    lemma_scan_append(init_media_playlist(), init_media_segment(), pre, seq![x]);
                    assert(lv.subrange(1, i + 1) =~= pre + seq![x]);
                    assert(seq![x].first() == x);
                    assert(seq![x].drop_first() =~= Seq::<Seq<char>>::empty());
                    assert(spec_scan(pair.0@, pair.1@, Seq::<Seq<char>>::empty()) == Ok::<
                        (SpecMediaPlaylistBuilder, SpecMediaSegmentBuilder),
                        ParsePlaylistError,
                    >((pair.0@, pair.1@)));
                    assert(spec_scan(pb@, sb@, seq![x]) == Ok::<
                        (SpecMediaPlaylistBuilder, SpecMediaSegmentBuilder),
                        ParsePlaylistError,
                    >((pair.0@, pair.1@)));
                }
                pb = pair.0;
                sb = pair.1;
            },
            Err(e) => {
                proof {
                    lemma_scan_append(
                        init_media_playlist(),
                        init_media_segment(),
                        pre,
                        lv.subrange(i as int, lv.len() as int),
                    );
                    assert(lv.skip(1) =~= pre + lv.subrange(i as int, lv.len() as int));
                    assert(lv.subrange(i as int, lv.len() as int).first() == lv[i as int]);
                    assert(lv.drop_first() =~= lv.skip(1));
                }
                return Err(e);
            },
        }
        i = i + 1;
    }
    proof {
        assert(lv.subrange(1, lv.len() as int) =~= lv.skip(1));
        assert(lv.drop_first() =~= lv.skip(1));
    }
    let MediaPlaylistBuilder {
        target_duration,
        version,
        part_inf,
        media_sequence_number,
        skip,
        preload_hint,
        server_control,
        media_segments,
        rendition_reports,
    } = pb;
    match (target_duration, version, part_inf, media_sequence_number, server_control) {
        (Some(td), Some(vn), Some(pi), Some(msn), Some(sc)) => {
            let p = MediaPlaylist {
                target_duration: td,
                version: vn,
                part_inf: pi,
                media_sequence_number: msn,
                media_segments,
                skip,
                preload_hint,
                rendition_reports,
                server_control: sc,
            };
            Ok(p)
        },
        _ => Err(ParsePlaylistError::BUILDER_ERROR),
    }
}

} // verus!

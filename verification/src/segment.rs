//! Media segments and their low-latency partial segments, with the
//! segment-level tags (`EXTINF`, `EXT-X-PART`, `EXT-X-PROGRAM-DATE-TIME`
//! and the synthetic resource-locator tag) that fill them in.

use vstd::prelude::*;

use crate::attrs::attr_pairs;
use crate::chars::find_first;
use crate::num::is_decimal_text;
use crate::outside::date_time_millis;
use crate::outside::uri_reference_ok;

use crate::attrs::kv_view;
use crate::attrs::read_attributes;
use crate::chars::str_eq;
use crate::chars::str_find;
use crate::entities::parse_yes_no;
use crate::entities::yes_no;
use crate::num::Decimal;
use crate::outside::check_uri_reference;
use crate::outside::parse_date_time;
use crate::ParseAttributeError;
use crate::ParseTagError;

verus! {

/// A sub-segment chunk for low-latency delivery. The URI keeps the raw
/// attribute value, double quotes included, and an absent `INDEPENDENT`
/// stays absent rather than becoming `false`.
#[derive(Debug)]
pub struct PartialSegment {
    pub part_duration: Decimal,
    pub uri: String,
    pub independent: Option<bool>,
}

pub ghost struct SpecPartialSegment {
    pub part_duration: Seq<char>,
    pub uri: Seq<char>,
    pub independent: Option<bool>,
}

impl View for PartialSegment {
    type V = SpecPartialSegment;

    open spec fn view(&self) -> SpecPartialSegment {
        SpecPartialSegment {
            part_duration: self.part_duration@,
            uri: self.uri@,
            independent: self.independent,
        }
    }
}

impl PartialSegment {
    pub open spec fn wf(&self) -> bool {
        is_decimal_text(self.part_duration@)
    }
}

/// Transient accumulator for one `EXT-X-PART` tag.
pub struct PartialSegmentBuilder {
    pub part_duration: Option<Decimal>,
    pub uri: Option<String>,
    pub independent: Option<bool>,
}

pub ghost struct SpecPartialSegmentBuilder {
    pub part_duration: Option<Seq<char>>,
    pub uri: Option<Seq<char>>,
    pub independent: Option<bool>,
}

impl View for PartialSegmentBuilder {
    type V = SpecPartialSegmentBuilder;

    open spec fn view(&self) -> SpecPartialSegmentBuilder {
        SpecPartialSegmentBuilder {
            part_duration: match self.part_duration {
                Some(d) => Some(d@),
                None => None,
            },
            uri: match self.uri {
                Some(u) => Some(u@),
                None => None,
            },
            independent: self.independent,
        }
    }
}

impl PartialSegmentBuilder {
    pub open spec fn wf(&self) -> bool {
        match self.part_duration {
            Some(d) => d.wf(),
            None => true,
        }
    }
}

pub open spec fn init_partial_segment() -> SpecPartialSegmentBuilder {
    SpecPartialSegmentBuilder { part_duration: None, uri: None, independent: None }
}

/// One attribute write into the partial-segment builder. The URI value is
/// passed through raw; `INDEPENDENT` must be `YES` or `NO`.
pub open spec fn partial_segment_apply(
    st: SpecPartialSegmentBuilder,
    k: Seq<char>,
    v: Seq<char>,
) -> Result<SpecPartialSegmentBuilder, ParseAttributeError> {
    if k == "DURATION"@ {
        if is_decimal_text(v) {
            Ok(SpecPartialSegmentBuilder { part_duration: Some(v), ..st })
        } else {
            Err(ParseAttributeError)
        }
    } else if k == "URI"@ {
        Ok(SpecPartialSegmentBuilder { uri: Some(v), ..st })
    } else if k == "INDEPENDENT"@ {
        match parse_yes_no(v) {
            Some(b) => Ok(SpecPartialSegmentBuilder { independent: Some(b), ..st }),
            None => Err(ParseAttributeError),
        }
    } else {
        Ok(st)
    }
}

pub open spec fn partial_segment_fold(
    st: SpecPartialSegmentBuilder,
    ps: Seq<(Seq<char>, Seq<char>)>,
) -> Result<SpecPartialSegmentBuilder, ParseAttributeError>
    decreases ps.len(),
{
    if ps.len() == 0 {
        Ok(st)
    } else {
        match partial_segment_fold(st, ps.drop_last()) {
            Err(e) => Err(e),
            Ok(m) => partial_segment_apply(m, ps.last().0, ps.last().1),
        }
    }
}

/// What the attribute list of an `EXT-X-PART` tag denotes; `DURATION` and
/// `URI` are mandatory, `INDEPENDENT` stays absent when not given.
pub open spec fn spec_parse_partial_segment(s: Seq<char>) -> Result<
    SpecPartialSegment,
    ParseTagError,
> {
    match partial_segment_fold(init_partial_segment(), attr_pairs(s)) {
        Err(_) => Err(ParseTagError),
        Ok(m) => if m.part_duration is Some && m.uri is Some {
            Ok(
                SpecPartialSegment {
                    part_duration: m.part_duration.unwrap(),
                    uri: m.uri.unwrap(),
                    independent: m.independent,
                },
            )
        } else {
            Err(ParseTagError)
        },
    }
}

/// What a whole `#EXT-X-PART:<attributes>` tag line denotes.
pub open spec fn spec_parse_part_tag(line: Seq<char>) -> Result<SpecPartialSegment, ParseTagError> {
    match find_first(line, ':') {
        None => Err(ParseTagError),
        Some(i) => if line.take(i) == "#EXT-X-PART"@ {
            spec_parse_partial_segment(line.skip(i + 1))
        } else {
            Err(ParseTagError)
        },
    }
}

pub enum PartialSegmentAttribute {
    Duration,
    Uri,
    Independent,
}

pub open spec fn partial_segment_attr_name(a: PartialSegmentAttribute) -> Seq<char> {
    match a {
        PartialSegmentAttribute::Duration => "DURATION"@,
        PartialSegmentAttribute::Uri => "URI"@,
        PartialSegmentAttribute::Independent => "INDEPENDENT"@,
    }
}

pub open spec fn partial_segment_recognized(k: Seq<char>) -> bool {
    k == "DURATION"@ || k == "URI"@ || k == "INDEPENDENT"@
}

/// The three attribute names of `EXT-X-PART` differ pairwise.
pub proof fn lemma_partial_segment_keys_distinct()
    ensures
        "DURATION"@ != "URI"@,
        "DURATION"@ != "INDEPENDENT"@,
        "URI"@ != "INDEPENDENT"@,
{
    reveal_strlit("DURATION");
    reveal_strlit("URI");
    reveal_strlit("INDEPENDENT");
    assert("DURATION"@.len() == 8);
    assert("URI"@.len() == 3);
    assert("INDEPENDENT"@.len() == 11);
}

impl PartialSegmentAttribute {
    /// Classifies an attribute name for `EXT-X-PART`.
    pub fn from_str(s: &str) -> (r: Result<PartialSegmentAttribute, ParseAttributeError>)
        ensures
            match r {
                Ok(a) => partial_segment_attr_name(a) == s@,
                Err(_) => !partial_segment_recognized(s@),
            },
    {
        if str_eq(s, "DURATION") {
            Ok(PartialSegmentAttribute::Duration)
        } else if str_eq(s, "URI") {
            Ok(PartialSegmentAttribute::Uri)
        } else if str_eq(s, "INDEPENDENT") {
            Ok(PartialSegmentAttribute::Independent)
        } else {
            Err(ParseAttributeError)
        }
    }

    /// Writes one attribute value into the builder, as
    /// `partial_segment_apply` says.
    pub fn read(&self, builder: &mut PartialSegmentBuilder, attribute: &str) -> (r: Result<
        (),
        ParseAttributeError,
    >)
        ensures
            match r {
                Ok(_) => partial_segment_apply(
                    old(builder)@,
                    partial_segment_attr_name(*self),
                    attribute@,
                ) == Ok::<SpecPartialSegmentBuilder, ParseAttributeError>(final(builder)@),
                Err(e) => partial_segment_apply(
                    old(builder)@,
                    partial_segment_attr_name(*self),
                    attribute@,
                ) == Err::<SpecPartialSegmentBuilder, ParseAttributeError>(e) && final(builder)@
                    == old(builder)@,
            },
            old(builder).wf() ==> final(builder).wf(),
    {
        proof {
            lemma_partial_segment_keys_distinct();
        }
        match self {
            PartialSegmentAttribute::Duration => {
                match Decimal::parse(attribute) {
                    Some(d) => {
                        builder.part_duration = Some(d);
                        Ok(())
                    },
                    None => Err(ParseAttributeError),
                }
            },
            PartialSegmentAttribute::Uri => {
                builder.uri = Some(attribute.to_owned());
                Ok(())
            },
            PartialSegmentAttribute::Independent => {
                match yes_no(attribute) {
                    Some(b) => {
                        builder.independent = Some(b);
                        Ok(())
                    },
                    None => Err(ParseAttributeError),
                }
            },
        }
    }
}

impl PartialSegment {
    /// Parses the attribute list (the text after the colon) of an
    /// `EXT-X-PART` tag.
    pub fn from_attrs(s: &str) -> (r: Result<PartialSegment, ParseTagError>)
        ensures
            match r {
                Ok(p) => spec_parse_partial_segment(s@) == Ok::<SpecPartialSegment, ParseTagError>(
                    p@,
                ) && p.wf(),
                Err(e) => spec_parse_partial_segment(s@) == Err::<SpecPartialSegment, ParseTagError>(
                    e,
                ),
            },
    {
        let pairs = read_attributes(s);
        let ghost ps = attr_pairs(s@);
        let mut b = PartialSegmentBuilder { part_duration: None, uri: None, independent: None };
        let mut failed = false;
        let mut t: usize = 0;
        while t < pairs.len()
            invariant
                t <= pairs@.len(),
                kv_view(pairs@) == ps,
                !failed ==> partial_segment_fold(init_partial_segment(), ps.take(t as int)) == Ok::<
                    SpecPartialSegmentBuilder,
                    ParseAttributeError,
                >(b@) && b.wf(),
                failed ==> partial_segment_fold(init_partial_segment(), ps.take(t as int)) is Err,
            decreases pairs@.len() - t,
        {
            proof {
                assert(ps.take(t + 1).drop_last() =~= ps.take(t as int));
                assert(ps.take(t + 1).last() == ps[t as int]);
            }
            if !failed {
                let k: &str = pairs[t].0.as_str();
                let v: &str = pairs[t].1.as_str();
                assert((k@, v@) == ps[t as int]);
                match PartialSegmentAttribute::from_str(k) {
                    Err(_) => {
                        assert(partial_segment_apply(b@, k@, v@) == Ok::<
                            SpecPartialSegmentBuilder,
                            ParseAttributeError,
                        >(b@));
                    },
                    Ok(a) => {
                        match a.read(&mut b, v) {
                            Ok(_) => {},
                            Err(_) => {
                                failed = true;
                            },
                        }
                    },
                }
            }
            t = t + 1;
        }
        proof {
            assert(ps.take(pairs@.len() as int) =~= ps);
        }
        if failed {
            return Err(ParseTagError);
        }
        let PartialSegmentBuilder { part_duration, uri, independent } = b;
        match (part_duration, uri) {
            (Some(d), Some(u)) => Ok(
                PartialSegment { part_duration: d, uri: u, independent },
            ),
            _ => Err(ParseTagError),
        }
    }

    /// Parses a whole `#EXT-X-PART:<attributes>` tag line.
    pub fn parse_tag(s: &str) -> (r: Result<PartialSegment, ParseTagError>)
        ensures
            match r {
                Ok(p) => spec_parse_part_tag(s@) == Ok::<SpecPartialSegment, ParseTagError>(p@)
                    && p.wf(),
                Err(e) => spec_parse_part_tag(s@) == Err::<SpecPartialSegment, ParseTagError>(e),
            },
    {
        let n = s.unicode_len();
        match str_find(s, ':') {
            None => Err(ParseTagError),
            Some(i) => {
                proof {
                    crate::chars::lemma_find_first(s@, ':');
                }
                let name = s.substring_char(0, i);
                assert(name@ =~= s@.take(i as int));
                if str_eq(name, "#EXT-X-PART") {
                    let rest = s.substring_char(i + 1, n);
                    assert(rest@ =~= s@.skip(i + 1));
                    PartialSegment::from_attrs(rest)
                } else {
                    Err(ParseTagError)
                }
            },
        }
    }

    /// The serialized tag form: `DURATION` and `URI` keep their exact
    /// parsed text, and an explicit `INDEPENDENT` serializes as `YES` or
    /// `FALSE` (the asymmetric casing is part of the format as specified).
    pub fn to_tag_string(&self) -> (r: String)
        ensures
            r@ == spec_serialize_partial_segment(self@),
    {
        let mut out = String::new();
        out.append("#EXT-X-PART:");
        out.append("DURATION=");
        out.append(self.part_duration.as_text());
        out.append(",");
        out.append("URI=");
        out.append(self.uri.as_str());
        match self.independent {
            None => {},
            Some(true) => {
                out.append(",");
                out.append("INDEPENDENT=");
                out.append("YES");
            },
            Some(false) => {
                out.append(",");
                out.append("INDEPENDENT=");
                out.append("FALSE");
            },
        }
        proof {
            assert(out@ =~= spec_serialize_partial_segment(self@));
        }
        out
    }
}

/// The serialized attribute list of a partial segment, the text after the
/// tag's colon.
pub open spec fn spec_serialize_part_attrs(p: SpecPartialSegment) -> Seq<char> {
    "DURATION="@ + p.part_duration + ","@ + "URI="@ + p.uri + (match p.independent {
        None => Seq::<char>::empty(),
        Some(true) => ","@ + "INDEPENDENT="@ + "YES"@,
        Some(false) => ","@ + "INDEPENDENT="@ + "FALSE"@,
    })
}

/// The textual tag form of a partial segment.
pub open spec fn spec_serialize_partial_segment(p: SpecPartialSegment) -> Seq<char> {
    "#EXT-X-PART:"@ + spec_serialize_part_attrs(p)
}

impl core::str::FromStr for PartialSegment {
    type Err = ParseTagError;

    /// Parses a whole `#EXT-X-PART:<attributes>` tag line.
    fn from_str(s: &str) -> Result<PartialSegment, ParseTagError> {
        PartialSegment::parse_tag(s)
    }
}

/// The duration and locator carried by an `EXTINF` tag.
#[derive(Debug)]
pub struct Inf {
    pub duration: Decimal,
    pub uri: String,
}

pub ghost struct SpecInf {
    pub duration: Seq<char>,
    pub uri: Seq<char>,
}

impl View for Inf {
    type V = SpecInf;

    open spec fn view(&self) -> SpecInf {
        SpecInf { duration: self.duration@, uri: self.uri@ }
    }
}

impl Inf {
    pub open spec fn wf(&self) -> bool {
        is_decimal_text(self.duration@) && uri_reference_ok(self.uri@)
    }
}

/// Transient accumulator for an `EXTINF` entity.
pub struct InfBuilder {
    pub duration: Option<Decimal>,
    pub uri: Option<String>,
}

pub ghost struct SpecInfBuilder {
    pub duration: Option<Seq<char>>,
    pub uri: Option<Seq<char>>,
}

impl View for InfBuilder {
    type V = SpecInfBuilder;

    open spec fn view(&self) -> SpecInfBuilder {
        SpecInfBuilder {
            duration: match self.duration {
                Some(d) => Some(d@),
                None => None,
            },
            uri: match self.uri {
                Some(u) => Some(u@),
                None => None,
            },
        }
    }
}

pub enum InfAttribute {
    Duration,
    Uri,
}

/// One field write into the `EXTINF` builder: the duration must be decimal
/// text and the locator must be a well-formed URI reference.
pub open spec fn inf_attr_apply(st: SpecInfBuilder, a: InfAttribute, v: Seq<char>) -> Result<
    SpecInfBuilder,
    ParseAttributeError,
> {
    match a {
        InfAttribute::Duration => if is_decimal_text(v) {
            Ok(SpecInfBuilder { duration: Some(v), ..st })
        } else {
            Err(ParseAttributeError)
        },
        InfAttribute::Uri => if uri_reference_ok(v) {
            Ok(SpecInfBuilder { uri: Some(v), ..st })
        } else {
            Err(ParseAttributeError)
        },
    }
}

impl InfAttribute {
    /// Writes one field value into the builder, as `inf_attr_apply` says.
    pub fn read(&self, builder: &mut InfBuilder, attribute: &str) -> (r: Result<
        (),
        ParseAttributeError,
    >)
        ensures
            match r {
                Ok(_) => inf_attr_apply(old(builder)@, *self, attribute@) == Ok::<
                    SpecInfBuilder,
                    ParseAttributeError,
                >(final(builder)@),
                Err(e) => inf_attr_apply(old(builder)@, *self, attribute@) == Err::<
                    SpecInfBuilder,
                    ParseAttributeError,
                >(e) && final(builder)@ == old(builder)@,
            },
    {
        match self {
            InfAttribute::Duration => {
                match Decimal::parse(attribute) {
                    Some(d) => {
                        builder.duration = Some(d);
                        Ok(())
                    },
                    None => Err(ParseAttributeError),
                }
            },
            InfAttribute::Uri => {
                if check_uri_reference(attribute) {
                    builder.uri = Some(attribute.to_owned());
                    Ok(())
                } else {
                    Err(ParseAttributeError)
                }
            },
        }
    }
}

/// One addressable media segment: its duration, resource locator, the
/// partial segments listed before the locator line, and an optional
/// program date-time in milliseconds since the Unix epoch.
#[derive(Debug)]
pub struct MediaSegment {
    pub duration: Decimal,
    pub uri: String,
    pub partial_segments: Vec<PartialSegment>,
    pub program_date_time: Option<i64>,
}

pub ghost struct SpecMediaSegment {
    pub duration: Seq<char>,
    pub uri: Seq<char>,
    pub partial_segments: Seq<SpecPartialSegment>,
    pub program_date_time: Option<i64>,
}

/// The views of a vector of partial segments.
pub open spec fn parts_view(v: Seq<PartialSegment>) -> Seq<SpecPartialSegment> {
    Seq::new(v.len(), |i: int| v[i]@)
}

impl View for MediaSegment {
    type V = SpecMediaSegment;

    open spec fn view(&self) -> SpecMediaSegment {
        SpecMediaSegment {
            duration: self.duration@,
            uri: self.uri@,
            partial_segments: parts_view(self.partial_segments@),
            program_date_time: self.program_date_time,
        }
    }
}

impl MediaSegment {
    pub open spec fn wf(&self) -> bool {
        is_decimal_text(self.duration@) && uri_reference_ok(self.uri@) && (forall|i: int|
            0 <= i < self.partial_segments@.len() ==> is_decimal_text(
                #[trigger] self.partial_segments@[i].part_duration@,
            ))
    }
}

/// Transient accumulator for the segment in progress, including the
/// partial segments seen since the previous boundary.
pub struct MediaSegmentBuilder {
    pub duration: Option<Decimal>,
    pub uri: Option<String>,
    pub partial_segments: Vec<PartialSegment>,
    pub program_date_time: Option<i64>,
}

pub ghost struct SpecMediaSegmentBuilder {
    pub duration: Option<Seq<char>>,
    pub uri: Option<Seq<char>>,
    pub partial_segments: Seq<SpecPartialSegment>,
    pub program_date_time: Option<i64>,
}

impl View for MediaSegmentBuilder {
    type V = SpecMediaSegmentBuilder;

    open spec fn view(&self) -> SpecMediaSegmentBuilder {
        SpecMediaSegmentBuilder {
            duration: match self.duration {
                Some(d) => Some(d@),
                None => None,
            },
            uri: match self.uri {
                Some(u) => Some(u@),
                None => None,
            },
            partial_segments: parts_view(self.partial_segments@),
            program_date_time: self.program_date_time,
        }
    }
}

impl MediaSegmentBuilder {
    pub open spec fn wf(&self) -> bool {
        (match self.duration {
            Some(d) => d.wf(),
            None => true,
        }) && (forall|i: int|
            0 <= i < self.partial_segments@.len() ==> is_decimal_text(
                #[trigger] self.partial_segments@[i].part_duration@,
            ))
    }

    pub fn new() -> (r: MediaSegmentBuilder)
        ensures
            r@ == init_media_segment(),
            r.wf(),
    {
        let r = MediaSegmentBuilder {
            duration: None,
            uri: None,
            partial_segments: Vec::new(),
            program_date_time: None,
        };
        proof {
            assert(parts_view(r.partial_segments@) =~= Seq::<SpecPartialSegment>::empty());
        }
        r
    }

    /// Seals the accumulated state into a completed segment; the duration
    /// and the locator must both have been seen.
    pub fn seal(self) -> (r: Result<MediaSegment, ParseTagError>)
        ensures
            match r {
                Ok(seg) => seal_media_segment(self@) == Ok::<SpecMediaSegment, ParseTagError>(seg@)
                    && (self.wf() && (match self.uri {
                    Some(u) => uri_reference_ok(u@),
                    None => true,
                }) ==> seg.wf()),
                Err(e) => seal_media_segment(self@) == Err::<SpecMediaSegment, ParseTagError>(e),
            },
    {
        let MediaSegmentBuilder { duration, uri, partial_segments, program_date_time } = self;
        match (duration, uri) {
            (Some(d), Some(u)) => Ok(
                MediaSegment {
                    duration: d,
                    uri: u,
                    partial_segments,
                    program_date_time,
                },
            ),
            _ => Err(ParseTagError),
        }
    }
}

pub open spec fn init_media_segment() -> SpecMediaSegmentBuilder {
    SpecMediaSegmentBuilder {
        duration: None,
        uri: None,
        partial_segments: Seq::empty(),
        program_date_time: None,
    }
}

/// The segment-boundary seal: defined when both mandatory fields are set.
pub open spec fn seal_media_segment(st: SpecMediaSegmentBuilder) -> Result<
    SpecMediaSegment,
    ParseTagError,
> {
    if st.duration is Some && st.uri is Some {
        Ok(
            SpecMediaSegment {
                duration: st.duration.unwrap(),
                uri: st.uri.unwrap(),
                partial_segments: st.partial_segments,
                program_date_time: st.program_date_time,
            },
        )
    } else {
        Err(ParseTagError)
    }
}

pub enum MediaSegmentAttribute {
    Duration,
    Uri,
}

/// One field write into the segment builder: a decimal duration or a
/// validated resource locator.
pub open spec fn media_segment_attr_apply(
    st: SpecMediaSegmentBuilder,
    a: MediaSegmentAttribute,
    v: Seq<char>,
) -> Result<SpecMediaSegmentBuilder, ParseAttributeError> {
    match a {
        MediaSegmentAttribute::Duration => if is_decimal_text(v) {
            Ok(SpecMediaSegmentBuilder { duration: Some(v), ..st })
        } else {
            Err(ParseAttributeError)
        },
        MediaSegmentAttribute::Uri => if uri_reference_ok(v) {
            Ok(SpecMediaSegmentBuilder { uri: Some(v), ..st })
        } else {
            Err(ParseAttributeError)
        },
    }
}

impl MediaSegmentAttribute {
    /// Writes one field value into the builder, as
    /// `media_segment_attr_apply` says.
    pub fn read(&self, builder: &mut MediaSegmentBuilder, attribute: &str) -> (r: Result<
        (),
        ParseAttributeError,
    >)
        ensures
            match r {
                Ok(_) => media_segment_attr_apply(old(builder)@, *self, attribute@) == Ok::<
                    SpecMediaSegmentBuilder,
                    ParseAttributeError,
                >(final(builder)@),
                Err(e) => media_segment_attr_apply(old(builder)@, *self, attribute@) == Err::<
                    SpecMediaSegmentBuilder,
                    ParseAttributeError,
                >(e) && final(builder)@ == old(builder)@,
            },
            old(builder).wf() ==> final(builder).wf(),
    {
        match self {
            MediaSegmentAttribute::Duration => {
                match Decimal::parse(attribute) {
                    Some(d) => {
                        builder.duration = Some(d);
                        Ok(())
                    },
                    None => Err(ParseAttributeError),
                }
            },
            MediaSegmentAttribute::Uri => {
                if check_uri_reference(attribute) {
                    builder.uri = Some(attribute.to_owned());
                    Ok(())
                } else {
                    Err(ParseAttributeError)
                }
            },
        }
    }
}

/// The segment-level tags. `Uri` is not a textual tag: a bare non-tag,
/// non-blank line is modeled as this synthetic tag carrying the locator.
pub enum MediaSegmentTag {
    Inf,
    Part,
    Uri,
    ProgramDateTime,
}

/// Which segment-level tag a tag name denotes, if any.
pub open spec fn media_segment_tag_of(name: Seq<char>) -> Option<MediaSegmentTag> {
    if name == "EXTINF"@ {
        Some(MediaSegmentTag::Inf)
    } else if name == "EXT-X-PART"@ {
        Some(MediaSegmentTag::Part)
    } else if name == "EXT-X-PROGRAM-DATE-TIME"@ {
        Some(MediaSegmentTag::ProgramDateTime)
    } else {
        None
    }
}

impl MediaSegmentTag {
    /// Classifies a tag name as one of the three segment-level tags; a
    /// name outside the set is no segment tag.
    pub fn from_str(s: &str) -> (r: Result<MediaSegmentTag, ParseTagError>)
        ensures
            match r {
                Ok(t) => media_segment_tag_of(s@) == Some(t),
                Err(_) => media_segment_tag_of(s@) is None,
            },
    {
        if str_eq(s, "EXTINF") {
            Ok(MediaSegmentTag::Inf)
        } else if str_eq(s, "EXT-X-PART") {
            Ok(MediaSegmentTag::Part)
        } else if str_eq(s, "EXT-X-PROGRAM-DATE-TIME") {
            Ok(MediaSegmentTag::ProgramDateTime)
        } else {
            Err(ParseTagError)
        }
    }
}

/// What one segment-level tag does to the segment in progress.
/// `EXTINF`'s value is `duration,title`: only the part before the first
/// comma is read, and an absent comma fails the tag. `EXT-X-PART` appends
/// a partial segment; the synthetic `Uri` tag sets the locator.
pub open spec fn media_segment_tag_apply(
    st: SpecMediaSegmentBuilder,
    tag: MediaSegmentTag,
    attrs: Seq<char>,
) -> Result<SpecMediaSegmentBuilder, ParseTagError> {
    match tag {
        MediaSegmentTag::Inf => match find_first(attrs, ',') {
            None => Err(ParseTagError),
            Some(i) => if is_decimal_text(attrs.take(i)) {
                Ok(SpecMediaSegmentBuilder { duration: Some(attrs.take(i)), ..st })
            } else {
                Err(ParseTagError)
            },
        },
        MediaSegmentTag::Part => match spec_parse_partial_segment(attrs) {
            Ok(p) => Ok(
                SpecMediaSegmentBuilder { partial_segments: st.partial_segments.push(p), ..st },
            ),
            Err(e) => Err(e),
        },
        MediaSegmentTag::Uri => if uri_reference_ok(attrs) {
            Ok(SpecMediaSegmentBuilder { uri: Some(attrs), ..st })
        } else {
            Err(ParseTagError)
        },
        MediaSegmentTag::ProgramDateTime => match date_time_millis(attrs) {
            Some(ms) => Ok(SpecMediaSegmentBuilder { program_date_time: Some(ms), ..st }),
            None => Err(ParseTagError),
        },
    }
}

impl MediaSegmentTag {
    /// Routes one tag's value into the segment in progress, as
    /// `media_segment_tag_apply` says.
    pub fn read(&self, builder: &mut MediaSegmentBuilder, attributes: &str) -> (r: Result<
        (),
        ParseTagError,
    >)
        ensures
            match r {
                Ok(_) => media_segment_tag_apply(old(builder)@, *self, attributes@) == Ok::<
                    SpecMediaSegmentBuilder,
                    ParseTagError,
                >(final(builder)@),
                Err(e) => media_segment_tag_apply(old(builder)@, *self, attributes@) == Err::<
                    SpecMediaSegmentBuilder,
                    ParseTagError,
                >(e) && final(builder)@ == old(builder)@,
            },
            old(builder).wf() ==> final(builder).wf(),
    {
        let n = attributes.unicode_len();
        match self {
            MediaSegmentTag::Inf => {
                match str_find(attributes, ',') {
                    None => Err(ParseTagError),
                    Some(i) => {
                        proof {
                            crate::chars::lemma_find_first(attributes@, ',');
                        }
                        let head = attributes.substring_char(0, i);
                        assert(head@ =~= attributes@.take(i as int));
                        match Decimal::parse(head) {
                            Some(d) => {
                                builder.duration = Some(d);
                                Ok(())
                            },
                            None => Err(ParseTagError),
                        }
                    },
                }
            },
            MediaSegmentTag::Part => {
                match PartialSegment::from_attrs(attributes) {
                    Ok(p) => {
                        proof {
                            assert(parts_view(builder.partial_segments@.push(p)) =~= parts_view(
                                builder.partial_segments@,
                            ).push(p@));
                        }
                        builder.partial_segments.push(p);
                        Ok(())
                    },
                    Err(e) => Err(e),
                }
            },
            MediaSegmentTag::Uri => {
                if check_uri_reference(attributes) {
                    builder.uri = Some(attributes.to_owned());
                    Ok(())
                } else {
                    Err(ParseTagError)
                }
            },
            MediaSegmentTag::ProgramDateTime => {
                match parse_date_time(attributes) {
                    Some(ms) => {
                        builder.program_date_time = Some(ms);
                        Ok(())
                    },
                    None => Err(ParseTagError),
                }
            },
        }
    }
}

} // verus!

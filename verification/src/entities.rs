//! The typed entities of a playlist document and their attribute mappers.
//! Each entity is read through a transient builder: attributes write
//! optional fields one by one, and a final seal checks the required fields
//! and produces the immutable entity.

use vstd::prelude::*;

use crate::attrs::attr_pairs;
use crate::attrs::strings_view;
use crate::attrs::tab_split;
use crate::num::is_decimal_text;
use crate::num::spec_parse_u32;

use crate::attrs::kv_view;
use crate::attrs::read_attributes;
use crate::attrs::split_tab_list;
use crate::chars::str_eq;
use crate::num::parse_u32;
use crate::num::Decimal;
use crate::ParseAttributeError;
use crate::ParseTagError;

verus! {

/// The strict two-value boolean vocabulary of attribute values.
pub open spec fn parse_yes_no(v: Seq<char>) -> Option<bool> {
    if v == "YES"@ {
        Some(true)
    } else if v == "NO"@ {
        Some(false)
    } else {
        None
    }
}

/// Reads `YES` or `NO`; any other value is outside the vocabulary.
pub fn yes_no(s: &str) -> (r: Option<bool>)
    ensures
        r == parse_yes_no(s@),
{
    if str_eq(s, "YES") {
        Some(true)
    } else if str_eq(s, "NO") {
        Some(false)
    } else {
        None
    }
}

/// Server capability negotiation for live playlists; all three attributes
/// are mandatory when the tag is present.
#[derive(Debug)]
pub struct ServerControl {
    pub can_block_reload: bool,
    pub part_hold_back: Decimal,
    pub can_skip_until: Decimal,
}

pub ghost struct SpecServerControl {
    pub can_block_reload: bool,
    pub part_hold_back: Seq<char>,
    pub can_skip_until: Seq<char>,
}

impl View for ServerControl {
    type V = SpecServerControl;

    open spec fn view(&self) -> SpecServerControl {
        SpecServerControl {
            can_block_reload: self.can_block_reload,
            part_hold_back: self.part_hold_back@,
            can_skip_until: self.can_skip_until@,
        }
    }
}

impl ServerControl {
    pub open spec fn wf(&self) -> bool {
        is_decimal_text(self.part_hold_back@) && is_decimal_text(self.can_skip_until@)
    }
}

/// Transient accumulator for `EXT-X-SERVER-CONTROL`.
pub struct ServerControlBuilder {
    pub can_block_reload: Option<bool>,
    pub part_hold_back: Option<Decimal>,
    pub can_skip_until: Option<Decimal>,
}

pub ghost struct SpecServerControlBuilder {
    pub can_block_reload: Option<bool>,
    pub part_hold_back: Option<Seq<char>>,
    pub can_skip_until: Option<Seq<char>>,
}

impl View for ServerControlBuilder {
    type V = SpecServerControlBuilder;

    open spec fn view(&self) -> SpecServerControlBuilder {
        SpecServerControlBuilder {
            can_block_reload: self.can_block_reload,
            part_hold_back: match self.part_hold_back {
                Some(d) => Some(d@),
                None => None,
            },
            can_skip_until: match self.can_skip_until {
                Some(d) => Some(d@),
                None => None,
            },
        }
    }
}

impl ServerControlBuilder {
    pub open spec fn wf(&self) -> bool {
        (match self.part_hold_back {
            Some(d) => d.wf(),
            None => true,
        }) && (match self.can_skip_until {
            Some(d) => d.wf(),
            None => true,
        })
    }

    pub fn new() -> (r: ServerControlBuilder)
        ensures
            r@ == init_server_control(),
            r.wf(),
    {
        ServerControlBuilder { can_block_reload: None, part_hold_back: None, can_skip_until: None }
    }
}

pub open spec fn init_server_control() -> SpecServerControlBuilder {
    SpecServerControlBuilder { can_block_reload: None, part_hold_back: None, can_skip_until: None }
}

/// One attribute write into the server-control builder: a recognized name
/// with a well-typed value updates its field, a recognized name with an
/// ill-typed value fails, and an unrecognized name is ignored.
pub open spec fn server_control_apply(
    st: SpecServerControlBuilder,
    k: Seq<char>,
    v: Seq<char>,
) -> Result<SpecServerControlBuilder, ParseAttributeError> {
    if k == "CAN-BLOCK-RELOAD"@ {
        match parse_yes_no(v) {
            Some(b) => Ok(SpecServerControlBuilder { can_block_reload: Some(b), ..st }),
            None => Err(ParseAttributeError),
        }
    } else if k == "PART-HOLD-BACK"@ {
        if is_decimal_text(v) {
            Ok(SpecServerControlBuilder { part_hold_back: Some(v), ..st })
        } else {
            Err(ParseAttributeError)
        }
    } else if k == "CAN-SKIP-UNTIL"@ {
        if is_decimal_text(v) {
            Ok(SpecServerControlBuilder { can_skip_until: Some(v), ..st })
        } else {
            Err(ParseAttributeError)
        }
    } else {
        Ok(st)
    }
}

/// The attribute pairs applied in order to the builder.
pub open spec fn server_control_fold(
    st: SpecServerControlBuilder,
    ps: Seq<(Seq<char>, Seq<char>)>,
) -> Result<SpecServerControlBuilder, ParseAttributeError>
    decreases ps.len(),
{
    if ps.len() == 0 {
        Ok(st)
    } else {
        match server_control_fold(st, ps.drop_last()) {
            Err(e) => Err(e),
            Ok(m) => server_control_apply(m, ps.last().0, ps.last().1),
        }
    }
}

/// What `EXT-X-SERVER-CONTROL:<s>` denotes: the folded attribute list,
/// sealed; missing any of the three mandatory attributes fails the tag.
pub open spec fn spec_parse_server_control(s: Seq<char>) -> Result<SpecServerControl, ParseTagError> {
    match server_control_fold(init_server_control(), attr_pairs(s)) {
        Err(_) => Err(ParseTagError),
        Ok(m) => if m.can_block_reload is Some && m.part_hold_back is Some && m.can_skip_until
            is Some {
            Ok(
                SpecServerControl {
                    can_block_reload: m.can_block_reload.unwrap(),
                    part_hold_back: m.part_hold_back.unwrap(),
                    can_skip_until: m.can_skip_until.unwrap(),
                },
            )
        } else {
            Err(ParseTagError)
        },
    }
}

pub enum ServerControlAttribute {
    CanBlockReload,
    PartHoldBack,
    CanSkipUntil,
}

pub open spec fn server_control_attr_name(a: ServerControlAttribute) -> Seq<char> {
    match a {
        ServerControlAttribute::CanBlockReload => "CAN-BLOCK-RELOAD"@,
        ServerControlAttribute::PartHoldBack => "PART-HOLD-BACK"@,
        ServerControlAttribute::CanSkipUntil => "CAN-SKIP-UNTIL"@,
    }
}

pub open spec fn server_control_recognized(k: Seq<char>) -> bool {
    k == "CAN-BLOCK-RELOAD"@ || k == "PART-HOLD-BACK"@ || k == "CAN-SKIP-UNTIL"@
}

/// The three attribute names of `EXT-X-SERVER-CONTROL` differ pairwise.
pub proof fn lemma_server_control_keys_distinct()
    ensures
        "CAN-BLOCK-RELOAD"@ != "PART-HOLD-BACK"@,
        "CAN-BLOCK-RELOAD"@ != "CAN-SKIP-UNTIL"@,
        "PART-HOLD-BACK"@ != "CAN-SKIP-UNTIL"@,
{
    reveal_strlit("CAN-BLOCK-RELOAD");
    reveal_strlit("PART-HOLD-BACK");
    reveal_strlit("CAN-SKIP-UNTIL");
    assert("CAN-BLOCK-RELOAD"@.len() == 16);
    assert("PART-HOLD-BACK"@.len() == 14);
    assert("CAN-SKIP-UNTIL"@.len() == 14);
    assert("PART-HOLD-BACK"@[0] != "CAN-SKIP-UNTIL"@[0]);
}

impl ServerControlAttribute {
    /// Classifies an attribute name for `EXT-X-SERVER-CONTROL`.
    pub fn from_str(s: &str) -> (r: Result<ServerControlAttribute, ParseAttributeError>)
        ensures
            match r {
                Ok(a) => server_control_attr_name(a) == s@,
                Err(_) => !server_control_recognized(s@),
            },
    {
        if str_eq(s, "CAN-BLOCK-RELOAD") {
            Ok(ServerControlAttribute::CanBlockReload)
        } else if str_eq(s, "PART-HOLD-BACK") {
            Ok(ServerControlAttribute::PartHoldBack)
        } else if str_eq(s, "CAN-SKIP-UNTIL") {
            Ok(ServerControlAttribute::CanSkipUntil)
        } else {
            Err(ParseAttributeError)
        }
    }

    /// Writes one attribute value into the builder, as
    /// `server_control_apply` says.
    pub fn read(&self, builder: &mut ServerControlBuilder, attribute: &str) -> (r: Result<
        (),
        ParseAttributeError,
    >)
        ensures
            match r {
                Ok(_) => server_control_apply(old(builder)@, server_control_attr_name(*self), attribute@)
                    == Ok::<SpecServerControlBuilder, ParseAttributeError>(final(builder)@),
                Err(e) => server_control_apply(old(builder)@, server_control_attr_name(*self), attribute@)
                    == Err::<SpecServerControlBuilder, ParseAttributeError>(e) && final(builder)@
                    == old(builder)@,
            },
            old(builder).wf() ==> final(builder).wf(),
    {
        proof {
            lemma_server_control_keys_distinct();
        }
        match self {
            ServerControlAttribute::CanBlockReload => {
                match yes_no(attribute) {
                    Some(b) => {
                        builder.can_block_reload = Some(b);
                        Ok(())
                    },
                    None => Err(ParseAttributeError),
                }
            },
            ServerControlAttribute::PartHoldBack => {
                match Decimal::parse(attribute) {
                    Some(d) => {
                        builder.part_hold_back = Some(d);
                        Ok(())
                    },
                    None => Err(ParseAttributeError),
                }
            },
            ServerControlAttribute::CanSkipUntil => {
                match Decimal::parse(attribute) {
                    Some(d) => {
                        builder.can_skip_until = Some(d);
                        Ok(())
                    },
                    None => Err(ParseAttributeError),
                }
            },
        }
    }
}

impl ServerControl {
    /// Parses the attribute list of an `EXT-X-SERVER-CONTROL` tag.
    pub fn from_str(s: &str) -> (r: Result<ServerControl, ParseTagError>)
        ensures
            match r {
                Ok(sc) => spec_parse_server_control(s@) == Ok::<SpecServerControl, ParseTagError>(
                    sc@,
                ) && sc.wf(),
                Err(e) => spec_parse_server_control(s@) == Err::<SpecServerControl, ParseTagError>(
                    e,
                ),
            },
    {
        let pairs = read_attributes(s);
        let ghost ps = attr_pairs(s@);
        let mut b = ServerControlBuilder::new();
        let mut failed = false;
        let mut t: usize = 0;
        while t < pairs.len()
            invariant
                t <= pairs@.len(),
                kv_view(pairs@) == ps,
                !failed ==> server_control_fold(init_server_control(), ps.take(t as int)) == Ok::<
                    SpecServerControlBuilder,
                    ParseAttributeError,
                >(b@) && b.wf(),
                failed ==> server_control_fold(init_server_control(), ps.take(t as int)) is Err,
            decreases pairs@.len() - t,
        {
            proof {
                assert(ps.take(t + 1).drop_last() =~= ps.take(t as int));
                assert(ps.take(t + 1).last() == ps[t as int]);
            }
            if !failed {
                let k: &str = pairs[t].0.as_str();
                let v: &str = pairs[t].1.as_str();
                assert((k@, v@) == ps[t as int]);
                match ServerControlAttribute::from_str(k) {
                    Err(_) => {
                        assert(server_control_apply(b@, k@, v@) == Ok::<
                            SpecServerControlBuilder,
                            ParseAttributeError,
                        >(b@));
                    },
                    Ok(a) => {
                        match a.read(&mut b, v) {
                            Ok(_) => {},
                            Err(_) => {
                                failed = true;
                            },
                        }
                    },
                }
            }
            t = t + 1;
        }
        proof {
            assert(ps.take(pairs@.len() as int) =~= ps);
        }
        if failed {
            return Err(ParseTagError);
        }
        let ServerControlBuilder { can_block_reload, part_hold_back, can_skip_until } = b;
        match (can_block_reload, part_hold_back, can_skip_until) {
            (Some(cbr), Some(phb), Some(csu)) => Ok(
                ServerControl {
                    can_block_reload: cbr,
                    part_hold_back: phb,
                    can_skip_until: csu,
                },
            ),
            _ => Err(ParseTagError),
        }
    }
}

/// The low-latency partial-segment target duration declaration.
#[derive(Debug)]
pub struct PartInf {
    pub part_target: Decimal,
}

pub ghost struct SpecPartInf {
    pub part_target: Seq<char>,
}

impl View for PartInf {
    type V = SpecPartInf;

    open spec fn view(&self) -> SpecPartInf {
        SpecPartInf { part_target: self.part_target@ }
    }
}

impl PartInf {
    pub open spec fn wf(&self) -> bool {
        is_decimal_text(self.part_target@)
    }
}

/// Transient accumulator for `EXT-X-PART-INF`.
pub struct PartInfBuilder {
    pub part_target: Option<Decimal>,
}

pub ghost struct SpecPartInfBuilder {
    pub part_target: Option<Seq<char>>,
}

impl View for PartInfBuilder {
    type V = SpecPartInfBuilder;

    open spec fn view(&self) -> SpecPartInfBuilder {
        SpecPartInfBuilder {
            part_target: match self.part_target {
                Some(d) => Some(d@),
                None => None,
            },
        }
    }
}

impl PartInfBuilder {
    pub open spec fn wf(&self) -> bool {
        match self.part_target {
            Some(d) => d.wf(),
            None => true,
        }
    }
}

pub open spec fn init_part_inf() -> SpecPartInfBuilder {
    SpecPartInfBuilder { part_target: None }
}

/// One attribute write into the part-inf builder.
pub open spec fn part_inf_apply(st: SpecPartInfBuilder, k: Seq<char>, v: Seq<char>) -> Result<
    SpecPartInfBuilder,
    ParseAttributeError,
> {
    if k == "PART-TARGET"@ {
        if is_decimal_text(v) {
            Ok(SpecPartInfBuilder { part_target: Some(v) })
        } else {
            Err(ParseAttributeError)
        }
    } else {
        Ok(st)
    }
}

pub open spec fn part_inf_fold(st: SpecPartInfBuilder, ps: Seq<(Seq<char>, Seq<char>)>) -> Result<
    SpecPartInfBuilder,
    ParseAttributeError,
>
    decreases ps.len(),
{
    if ps.len() == 0 {
        Ok(st)
    } else {
        match part_inf_fold(st, ps.drop_last()) {
            Err(e) => Err(e),
            Ok(m) => part_inf_apply(m, ps.last().0, ps.last().1),
        }
    }
}

/// What `EXT-X-PART-INF:<s>` denotes; `PART-TARGET` is mandatory.
pub open spec fn spec_parse_part_inf(s: Seq<char>) -> Result<SpecPartInf, ParseTagError> {
    match part_inf_fold(init_part_inf(), attr_pairs(s)) {
        Err(_) => Err(ParseTagError),
        Ok(m) => match m.part_target {
            Some(v) => Ok(SpecPartInf { part_target: v }),
            None => Err(ParseTagError),
        },
    }
}

pub enum PartInfAttribute {
    PartTarget,
}

pub open spec fn part_inf_attr_name(a: PartInfAttribute) -> Seq<char> {
    "PART-TARGET"@
}

impl PartInfAttribute {
    /// Classifies an attribute name for `EXT-X-PART-INF`.
    pub fn from_str(s: &str) -> (r: Result<PartInfAttribute, ParseAttributeError>)
        ensures
            match r {
                Ok(a) => part_inf_attr_name(a) == s@,
                Err(_) => s@ != "PART-TARGET"@,
            },
    {
        if str_eq(s, "PART-TARGET") {
            Ok(PartInfAttribute::PartTarget)
        } else {
            Err(ParseAttributeError)
        }
    }

    /// Writes one attribute value into the builder, as `part_inf_apply` says.
    pub fn read(&self, builder: &mut PartInfBuilder, attribute: &str) -> (r: Result<
        (),
        ParseAttributeError,
    >)
        ensures
            match r {
                Ok(_) => part_inf_apply(old(builder)@, part_inf_attr_name(*self), attribute@)
                    == Ok::<SpecPartInfBuilder, ParseAttributeError>(final(builder)@),
                Err(e) => part_inf_apply(old(builder)@, part_inf_attr_name(*self), attribute@)
                    == Err::<SpecPartInfBuilder, ParseAttributeError>(e) && final(builder)@ == old(
                    builder,
                )@,
            },
            old(builder).wf() ==> final(builder).wf(),
    {
        match self {
            PartInfAttribute::PartTarget => {
                match Decimal::parse(attribute) {
                    Some(d) => {
                        builder.part_target = Some(d);
                        Ok(())
                    },
                    None => Err(ParseAttributeError),
                }
            },
        }
    }
}

impl PartInf {
    /// Parses the attribute list of an `EXT-X-PART-INF` tag.
    pub fn from_str(s: &str) -> (r: Result<PartInf, ParseTagError>)
        ensures
            match r {
                Ok(p) => spec_parse_part_inf(s@) == Ok::<SpecPartInf, ParseTagError>(p@) && p.wf(),
                Err(e) => spec_parse_part_inf(s@) == Err::<SpecPartInf, ParseTagError>(e),
            },
    {
        let pairs = read_attributes(s);
        let ghost ps = attr_pairs(s@);
        let mut b = PartInfBuilder { part_target: None };
        let mut failed = false;
        let mut t: usize = 0;
        while t < pairs.len()
            invariant
                t <= pairs@.len(),
                kv_view(pairs@) == ps,
                !failed ==> part_inf_fold(init_part_inf(), ps.take(t as int)) == Ok::<
                    SpecPartInfBuilder,
                    ParseAttributeError,
                >(b@) && b.wf(),
                failed ==> part_inf_fold(init_part_inf(), ps.take(t as int)) is Err,
            decreases pairs@.len() - t,
        {
            proof {
                assert(ps.take(t + 1).drop_last() =~= ps.take(t as int));
                assert(ps.take(t + 1).last() == ps[t as int]);
            }
            if !failed {
                let k: &str = pairs[t].0.as_str();
                let v: &str = pairs[t].1.as_str();
                assert((k@, v@) == ps[t as int]);
                match PartInfAttribute::from_str(k) {
                    Err(_) => {
                        assert(part_inf_apply(b@, k@, v@) == Ok::<
                            SpecPartInfBuilder,
                            ParseAttributeError,
                        >(b@));
                    },
                    Ok(a) => {
                        match a.read(&mut b, v) {
                            Ok(_) => {},
                            Err(_) => {
                                failed = true;
                            },
                        }
                    },
                }
            }
            t = t + 1;
        }
        proof {
            assert(ps.take(pairs@.len() as int) =~= ps);
        }
        if failed {
            return Err(ParseTagError);
        }
        match b.part_target {
            Some(d) => Ok(PartInf { part_target: d }),
            None => Err(ParseTagError),
        }
    }
}

/// A declared gap of removed segments (delta updates).
#[derive(Debug)]
pub struct Skip {
    pub skipped_segments: u32,
    pub recently_removed_dateranges: Vec<String>,
}

pub ghost struct SpecSkip {
    pub skipped_segments: u32,
    pub recently_removed_dateranges: Seq<Seq<char>>,
}

impl View for Skip {
    type V = SpecSkip;

    open spec fn view(&self) -> SpecSkip {
        SpecSkip {
            skipped_segments: self.skipped_segments,
            recently_removed_dateranges: strings_view(self.recently_removed_dateranges@),
        }
    }
}

/// Transient accumulator for `EXT-X-SKIP`.
pub struct SkipBuilder {
    pub skipped_segments: Option<u32>,
    pub recently_removed_dateranges: Option<Vec<String>>,
}

pub ghost struct SpecSkipBuilder {
    pub skipped_segments: Option<u32>,
    pub recently_removed_dateranges: Option<Seq<Seq<char>>>,
}

impl View for SkipBuilder {
    type V = SpecSkipBuilder;

    open spec fn view(&self) -> SpecSkipBuilder {
        SpecSkipBuilder {
            skipped_segments: self.skipped_segments,
            recently_removed_dateranges: match self.recently_removed_dateranges {
                Some(v) => Some(strings_view(v@)),
                None => None,
            },
        }
    }
}

pub open spec fn init_skip() -> SpecSkipBuilder {
    SpecSkipBuilder { skipped_segments: None, recently_removed_dateranges: None }
}

/// One attribute write into the skip builder. `RECENTLY-REMOVED-DATERANGES`
/// is tab-delimited internally; any raw value splits without failure.
pub open spec fn skip_apply(st: SpecSkipBuilder, k: Seq<char>, v: Seq<char>) -> Result<
    SpecSkipBuilder,
    ParseAttributeError,
> {
    if k == "SKIPPED-SEGMENTS"@ {
        match spec_parse_u32(v) {
            Some(n) => Ok(SpecSkipBuilder { skipped_segments: Some(n), ..st }),
            None => Err(ParseAttributeError),
        }
    } else if k == "RECENTLY-REMOVED-DATERANGES"@ {
        Ok(SpecSkipBuilder { recently_removed_dateranges: Some(tab_split(v)), ..st })
    } else {
        Ok(st)
    }
}

pub open spec fn skip_fold(st: SpecSkipBuilder, ps: Seq<(Seq<char>, Seq<char>)>) -> Result<
    SpecSkipBuilder,
    ParseAttributeError,
>
    decreases ps.len(),
{
    if ps.len() == 0 {
        Ok(st)
    } else {
        match skip_fold(st, ps.drop_last()) {
            Err(e) => Err(e),
            Ok(m) => skip_apply(m, ps.last().0, ps.last().1),
        }
    }
}

/// What `EXT-X-SKIP:<s>` denotes; `SKIPPED-SEGMENTS` is mandatory and the
/// date-range list defaults to empty.
pub open spec fn spec_parse_skip(s: Seq<char>) -> Result<SpecSkip, ParseTagError> {
    match skip_fold(init_skip(), attr_pairs(s)) {
        Err(_) => Err(ParseTagError),
        Ok(m) => match m.skipped_segments {
            Some(n) => Ok(
                SpecSkip {
                    skipped_segments: n,
                    recently_removed_dateranges: match m.recently_removed_dateranges {
                        Some(l) => l,
                        None => Seq::empty(),
                    },
                },
            ),
            None => Err(ParseTagError),
        },
    }
}

pub enum SkipAttribute {
    SkippedSegments,
    RecentlyRemovedDateRanges,
}

pub open spec fn skip_attr_name(a: SkipAttribute) -> Seq<char> {
    match a {
        SkipAttribute::SkippedSegments => "SKIPPED-SEGMENTS"@,
        SkipAttribute::RecentlyRemovedDateRanges => "RECENTLY-REMOVED-DATERANGES"@,
    }
}

pub open spec fn skip_recognized(k: Seq<char>) -> bool {
    k == "SKIPPED-SEGMENTS"@ || k == "RECENTLY-REMOVED-DATERANGES"@
}

/// The two attribute names of `EXT-X-SKIP` differ.
pub proof fn lemma_skip_keys_distinct()
    ensures
        "SKIPPED-SEGMENTS"@ != "RECENTLY-REMOVED-DATERANGES"@,
{
    reveal_strlit("SKIPPED-SEGMENTS");
    reveal_strlit("RECENTLY-REMOVED-DATERANGES");
    assert("SKIPPED-SEGMENTS"@.len() == 16);
    assert("RECENTLY-REMOVED-DATERANGES"@.len() == 27);
}

impl SkipAttribute {
    /// Classifies an attribute name for `EXT-X-SKIP`.
    pub fn from_str(s: &str) -> (r: Result<SkipAttribute, ParseAttributeError>)
        ensures
            match r {
                Ok(a) => skip_attr_name(a) == s@,
                Err(_) => !skip_recognized(s@),
            },
    {
        if str_eq(s, "SKIPPED-SEGMENTS") {
            Ok(SkipAttribute::SkippedSegments)
        } else if str_eq(s, "RECENTLY-REMOVED-DATERANGES") {
            Ok(SkipAttribute::RecentlyRemovedDateRanges)
        } else {
            Err(ParseAttributeError)
        }
    }

    /// Writes one attribute value into the builder, as `skip_apply` says.
    pub fn read(&self, builder: &mut SkipBuilder, attribute: &str) -> (r: Result<
        (),
        ParseAttributeError,
    >)
        ensures
            match r {
                Ok(_) => skip_apply(old(builder)@, skip_attr_name(*self), attribute@) == Ok::<
                    SpecSkipBuilder,
                    ParseAttributeError,
                >(final(builder)@),
                Err(e) => skip_apply(old(builder)@, skip_attr_name(*self), attribute@) == Err::<
                    SpecSkipBuilder,
                    ParseAttributeError,
                >(e) && final(builder)@ == old(builder)@,
            },
    {
        proof {
            lemma_skip_keys_distinct();
        }
        match self {
            SkipAttribute::SkippedSegments => {
                match parse_u32(attribute) {
                    Some(n) => {
                        builder.skipped_segments = Some(n);
                        Ok(())
                    },
                    None => Err(ParseAttributeError),
                }
            },
            SkipAttribute::RecentlyRemovedDateRanges => {
                let items = split_tab_list(attribute);
                builder.recently_removed_dateranges = Some(items);
                Ok(())
            },
        }
    }
}

impl Skip {
    /// Parses the attribute list of an `EXT-X-SKIP` tag.
    pub fn from_str(s: &str) -> (r: Result<Skip, ParseTagError>)
        ensures
            match r {
                Ok(sk) => spec_parse_skip(s@) == Ok::<SpecSkip, ParseTagError>(sk@),
                Err(e) => spec_parse_skip(s@) == Err::<SpecSkip, ParseTagError>(e),
            },
    {
        let pairs = read_attributes(s);
        let ghost ps = attr_pairs(s@);
        let mut b = SkipBuilder { skipped_segments: None, recently_removed_dateranges: None };
        let mut failed = false;
        let mut t: usize = 0;
        while t < pairs.len()
            invariant
                t <= pairs@.len(),
                kv_view(pairs@) == ps,
                !failed ==> skip_fold(init_skip(), ps.take(t as int)) == Ok::<
                    SpecSkipBuilder,
                    ParseAttributeError,
                >(b@),
                failed ==> skip_fold(init_skip(), ps.take(t as int)) is Err,
            decreases pairs@.len() - t,
        {
            proof {
                assert(ps.take(t + 1).drop_last() =~= ps.take(t as int));
                assert(ps.take(t + 1).last() == ps[t as int]);
            }
            if !failed {
                let k: &str = pairs[t].0.as_str();
                let v: &str = pairs[t].1.as_str();
                assert((k@, v@) == ps[t as int]);
                match SkipAttribute::from_str(k) {
                    Err(_) => {
                        assert(skip_apply(b@, k@, v@) == Ok::<SpecSkipBuilder, ParseAttributeError>(
                            b@,
                        ));
                    },
                    Ok(a) => {
                        match a.read(&mut b, v) {
                            Ok(_) => {},
                            Err(_) => {
                                failed = true;
                            },
                        }
                    },
                }
            }
            t = t + 1;
        }
        proof {
            assert(ps.take(pairs@.len() as int) =~= ps);
        }
        if failed {
            return Err(ParseTagError);
        }
        let SkipBuilder { skipped_segments, recently_removed_dateranges } = b;
        match skipped_segments {
            Some(n) => {
                let rrd = match recently_removed_dateranges {
                    Some(l) => l,
                    None => Vec::new(),
                };
                proof {
                    if b.recently_removed_dateranges is None {
                        assert(strings_view(Seq::<String>::empty()) =~= Seq::<Seq<char>>::empty());
                    }
                }
                Ok(Skip { skipped_segments: n, recently_removed_dateranges: rrd })
            },
            None => Err(ParseTagError),
        }
    }
}

/// The kind of resource a preload hint names.
#[derive(Clone, Copy, Debug, PartialEq, Eq, Structural)]
pub enum PreloadHintType {
    Part,
    MapResource,
}

/// The strict vocabulary of the `TYPE` attribute.
pub open spec fn parse_hint_type(v: Seq<char>) -> Option<PreloadHintType> {
    if v == "PART"@ {
        Some(PreloadHintType::Part)
    } else if v == "MAP"@ {
        Some(PreloadHintType::MapResource)
    } else {
        None
    }
}

impl PreloadHintType {
    /// Reads `PART` or `MAP`; any other value is outside the vocabulary.
    pub fn from_str(s: &str) -> (r: Result<PreloadHintType, ParseAttributeError>)
        ensures
            match r {
                Ok(t) => parse_hint_type(s@) == Some(t),
                Err(_) => parse_hint_type(s@) is None,
            },
    {
        if str_eq(s, "PART") {
            Ok(PreloadHintType::Part)
        } else if str_eq(s, "MAP") {
            Ok(PreloadHintType::MapResource)
        } else {
            Err(ParseAttributeError)
        }
    }
}

/// Advance notice of a resource the client may fetch before it is listed.
#[derive(Debug)]
pub struct PreloadHint {
    pub hint_type: PreloadHintType,
    pub uri: String,
    pub byterange_start: Option<u32>,
    pub byterange_length: Option<u32>,
}

pub ghost struct SpecPreloadHint {
    pub hint_type: PreloadHintType,
    pub uri: Seq<char>,
    pub byterange_start: Option<u32>,
    pub byterange_length: Option<u32>,
}

impl View for PreloadHint {
    type V = SpecPreloadHint;

    open spec fn view(&self) -> SpecPreloadHint {
        SpecPreloadHint {
            hint_type: self.hint_type,
            uri: self.uri@,
            byterange_start: self.byterange_start,
            byterange_length: self.byterange_length,
        }
    }
}

/// Transient accumulator for `EXT-X-PRELOAD-HINT`.
pub struct PreloadHintBuilder {
    pub hint_type: Option<PreloadHintType>,
    pub uri: Option<String>,
}

pub ghost struct SpecPreloadHintBuilder {
    pub hint_type: Option<PreloadHintType>,
    pub uri: Option<Seq<char>>,
}

impl View for PreloadHintBuilder {
    type V = SpecPreloadHintBuilder;

    open spec fn view(&self) -> SpecPreloadHintBuilder {
        SpecPreloadHintBuilder {
            hint_type: self.hint_type,
            uri: match self.uri {
                Some(u) => Some(u@),
                None => None,
            },
        }
    }
}

pub open spec fn init_preload_hint() -> SpecPreloadHintBuilder {
    SpecPreloadHintBuilder { hint_type: None, uri: None }
}

/// One attribute write into the preload-hint builder.
pub open spec fn preload_hint_apply(st: SpecPreloadHintBuilder, k: Seq<char>, v: Seq<char>) -> Result<
    SpecPreloadHintBuilder,
    ParseAttributeError,
> {
    if k == "TYPE"@ {
        match parse_hint_type(v) {
            Some(t) => Ok(SpecPreloadHintBuilder { hint_type: Some(t), ..st }),
            None => Err(ParseAttributeError),
        }
    } else if k == "URI"@ {
        Ok(SpecPreloadHintBuilder { uri: Some(v), ..st })
    } else {
        Ok(st)
    }
}

pub open spec fn preload_hint_fold(
    st: SpecPreloadHintBuilder,
    ps: Seq<(Seq<char>, Seq<char>)>,
) -> Result<SpecPreloadHintBuilder, ParseAttributeError>
    decreases ps.len(),
{
    if ps.len() == 0 {
        Ok(st)
    } else {
        match preload_hint_fold(st, ps.drop_last()) {
            Err(e) => Err(e),
            Ok(m) => preload_hint_apply(m, ps.last().0, ps.last().1),
        }
    }
}

/// What `EXT-X-PRELOAD-HINT:<s>` denotes; `TYPE` and `URI` are mandatory
/// and the byte-range fields stay absent.
pub open spec fn spec_parse_preload_hint(s: Seq<char>) -> Result<SpecPreloadHint, ParseTagError> {
    match preload_hint_fold(init_preload_hint(), attr_pairs(s)) {
        Err(_) => Err(ParseTagError),
        Ok(m) => if m.hint_type is Some && m.uri is Some {
            Ok(
                SpecPreloadHint {
                    hint_type: m.hint_type.unwrap(),
                    uri: m.uri.unwrap(),
                    byterange_start: None,
                    byterange_length: None,
                },
            )
        } else {
            Err(ParseTagError)
        },
    }
}

pub enum PreloadHintAttribute {
    Type,
    Uri,
}

pub open spec fn preload_hint_attr_name(a: PreloadHintAttribute) -> Seq<char> {
    match a {
        PreloadHintAttribute::Type => "TYPE"@,
        PreloadHintAttribute::Uri => "URI"@,
    }
}

pub open spec fn preload_hint_recognized(k: Seq<char>) -> bool {
    k == "TYPE"@ || k == "URI"@
}

/// The two attribute names of `EXT-X-PRELOAD-HINT` differ.
pub proof fn lemma_preload_hint_keys_distinct()
    ensures
        "TYPE"@ != "URI"@,
{
    reveal_strlit("TYPE");
    reveal_strlit("URI");
    assert("TYPE"@.len() == 4);
    assert("URI"@.len() == 3);
}

impl PreloadHintAttribute {
    /// Classifies an attribute name for `EXT-X-PRELOAD-HINT`.
    pub fn from_str(s: &str) -> (r: Result<PreloadHintAttribute, ParseAttributeError>)
        ensures
            match r {
                Ok(a) => preload_hint_attr_name(a) == s@,
                Err(_) => !preload_hint_recognized(s@),
            },
    {
        if str_eq(s, "TYPE") {
            Ok(PreloadHintAttribute::Type)
        } else if str_eq(s, "URI") {
            Ok(PreloadHintAttribute::Uri)
        } else {
            Err(ParseAttributeError)
        }
    }

    /// Writes one attribute value into the builder, as `preload_hint_apply`
    /// says.
    pub fn read(&self, builder: &mut PreloadHintBuilder, attribute: &str) -> (r: Result<
        (),
        ParseAttributeError,
    >)
        ensures
            match r {
                Ok(_) => preload_hint_apply(old(builder)@, preload_hint_attr_name(*self), attribute@)
                    == Ok::<SpecPreloadHintBuilder, ParseAttributeError>(final(builder)@),
                Err(e) => preload_hint_apply(
                    old(builder)@,
                    preload_hint_attr_name(*self),
                    attribute@,
                ) == Err::<SpecPreloadHintBuilder, ParseAttributeError>(e) && final(builder)@
                    == old(builder)@,
            },
    {
        proof {
            lemma_preload_hint_keys_distinct();
        }
        match self {
            PreloadHintAttribute::Type => {
                match PreloadHintType::from_str(attribute) {
                    Ok(t) => {
                        builder.hint_type = Some(t);
                        Ok(())
                    },
                    Err(e) => Err(e),
                }
            },
            PreloadHintAttribute::Uri => {
                builder.uri = Some(attribute.to_owned());
                Ok(())
            },
        }
    }
}

impl PreloadHint {
    /// Parses the attribute list of an `EXT-X-PRELOAD-HINT` tag.
    pub fn from_str(s: &str) -> (r: Result<PreloadHint, ParseTagError>)
        ensures
            match r {
                Ok(h) => spec_parse_preload_hint(s@) == Ok::<SpecPreloadHint, ParseTagError>(h@),
                Err(e) => spec_parse_preload_hint(s@) == Err::<SpecPreloadHint, ParseTagError>(e),
            },
    {
        let pairs = read_attributes(s);
        let ghost ps = attr_pairs(s@);
        let mut b = PreloadHintBuilder { hint_type: None, uri: None };
        let mut failed = false;
        let mut t: usize = 0;
        while t < pairs.len()
            invariant
                t <= pairs@.len(),
                kv_view(pairs@) == ps,
                !failed ==> preload_hint_fold(init_preload_hint(), ps.take(t as int)) == Ok::<
                    SpecPreloadHintBuilder,
                    ParseAttributeError,
                >(b@),
                failed ==> preload_hint_fold(init_preload_hint(), ps.take(t as int)) is Err,
            decreases pairs@.len() - t,
        {
            proof {
                assert(ps.take(t + 1).drop_last() =~= ps.take(t as int));
                assert(ps.take(t + 1).last() == ps[t as int]);
            }
            if !failed {
                let k: &str = pairs[t].0.as_str();
                let v: &str = pairs[t].1.as_str();
                assert((k@, v@) == ps[t as int]);
                match PreloadHintAttribute::from_str(k) {
                    Err(_) => {
                        assert(preload_hint_apply(b@, k@, v@) == Ok::<
                            SpecPreloadHintBuilder,
                            ParseAttributeError,
                        >(b@));
                    },
                    Ok(a) => {
                        match a.read(&mut b, v) {
                            Ok(_) => {},
                            Err(_) => {
                                failed = true;
                            },
                        }
                    },
                }
            }
            t = t + 1;
        }
        proof {
            assert(ps.take(pairs@.len() as int) =~= ps);
        }
        if failed {
            return Err(ParseTagError);
        }
        let PreloadHintBuilder { hint_type, uri } = b;
        match (hint_type, uri) {
            (Some(t), Some(u)) => Ok(
                PreloadHint {
                    hint_type: t,
                    uri: u,
                    byterange_start: None,
                    byterange_length: None,
                },
            ),
            _ => Err(ParseTagError),
        }
    }
}

/// A pointer to the current playback position of a sibling rendition.
#[derive(Debug)]
pub struct RenditionReport {
    pub uri: String,
    pub last_msn: u32,
    pub last_part: u32,
}

pub ghost struct SpecRenditionReport {
    pub uri: Seq<char>,
    pub last_msn: u32,
    pub last_part: u32,
}

impl View for RenditionReport {
    type V = SpecRenditionReport;

    open spec fn view(&self) -> SpecRenditionReport {
        SpecRenditionReport { uri: self.uri@, last_msn: self.last_msn, last_part: self.last_part }
    }
}

/// Transient accumulator for `EXT-X-RENDITION-REPORT`.
pub struct RenditionReportBuilder {
    pub uri: Option<String>,
    pub last_msn: Option<u32>,
    pub last_part: Option<u32>,
}

pub ghost struct SpecRenditionReportBuilder {
    pub uri: Option<Seq<char>>,
    pub last_msn: Option<u32>,
    pub last_part: Option<u32>,
}

impl View for RenditionReportBuilder {
    type V = SpecRenditionReportBuilder;

    open spec fn view(&self) -> SpecRenditionReportBuilder {
        SpecRenditionReportBuilder {
            uri: match self.uri {
                Some(u) => Some(u@),
                None => None,
            },
            last_msn: self.last_msn,
            last_part: self.last_part,
        }
    }
}

pub open spec fn init_rendition_report() -> SpecRenditionReportBuilder {
    SpecRenditionReportBuilder { uri: None, last_msn: None, last_part: None }
}

/// One attribute write into the rendition-report builder.
pub open spec fn rendition_report_apply(
    st: SpecRenditionReportBuilder,
    k: Seq<char>,
    v: Seq<char>,
) -> Result<SpecRenditionReportBuilder, ParseAttributeError> {
    if k == "URI"@ {
        Ok(SpecRenditionReportBuilder { uri: Some(v), ..st })
    } else if k == "LAST-MSN"@ {
        match spec_parse_u32(v) {
            Some(n) => Ok(SpecRenditionReportBuilder { last_msn: Some(n), ..st }),
            None => Err(ParseAttributeError),
        }
    } else if k == "LAST-PART"@ {
        match spec_parse_u32(v) {
            Some(n) => Ok(SpecRenditionReportBuilder { last_part: Some(n), ..st }),
            None => Err(ParseAttributeError),
        }
    } else {
        Ok(st)
    }
}

pub open spec fn rendition_report_fold(
    st: SpecRenditionReportBuilder,
    ps: Seq<(Seq<char>, Seq<char>)>,
) -> Result<SpecRenditionReportBuilder, ParseAttributeError>
    decreases ps.len(),
{
    if ps.len() == 0 {
        Ok(st)
    } else {
        match rendition_report_fold(st, ps.drop_last()) {
            Err(e) => Err(e),
            Ok(m) => rendition_report_apply(m, ps.last().0, ps.last().1),
        }
    }
}

/// What `EXT-X-RENDITION-REPORT:<s>` denotes; all three attributes are
/// mandatory.
pub open spec fn spec_parse_rendition_report(s: Seq<char>) -> Result<
    SpecRenditionReport,
    ParseTagError,
> {
    match rendition_report_fold(init_rendition_report(), attr_pairs(s)) {
        Err(_) => Err(ParseTagError),
        Ok(m) => if m.uri is Some && m.last_msn is Some && m.last_part is Some {
            Ok(
                SpecRenditionReport {
                    uri: m.uri.unwrap(),
                    last_msn: m.last_msn.unwrap(),
                    last_part: m.last_part.unwrap(),
                },
            )
        } else {
            Err(ParseTagError)
        },
    }
}

pub enum RenditionReportAttribute {
    Uri,
    LastMsn,
    LastPart,
}

pub open spec fn rendition_report_attr_name(a: RenditionReportAttribute) -> Seq<char> {
    match a {
        RenditionReportAttribute::Uri => "URI"@,
        RenditionReportAttribute::LastMsn => "LAST-MSN"@,
        RenditionReportAttribute::LastPart => "LAST-PART"@,
    }
}

pub open spec fn rendition_report_recognized(k: Seq<char>) -> bool {
    k == "URI"@ || k == "LAST-MSN"@ || k == "LAST-PART"@
}

/// The three attribute names of `EXT-X-RENDITION-REPORT` differ pairwise.
pub proof fn lemma_rendition_report_keys_distinct()
    ensures
        "URI"@ != "LAST-MSN"@,
        "URI"@ != "LAST-PART"@,
        "LAST-MSN"@ != "LAST-PART"@,
{
    reveal_strlit("URI");
    reveal_strlit("LAST-MSN");
    reveal_strlit("LAST-PART");
    assert("URI"@.len() == 3);
    assert("LAST-MSN"@.len() == 8);
    assert("LAST-PART"@.len() == 9);
}

impl RenditionReportAttribute {
    /// Classifies an attribute name for `EXT-X-RENDITION-REPORT`.
    pub fn from_str(s: &str) -> (r: Result<RenditionReportAttribute, ParseAttributeError>)
        ensures
            match r {
                Ok(a) => rendition_report_attr_name(a) == s@,
                Err(_) => !rendition_report_recognized(s@),
            },
    {
        if str_eq(s, "URI") {
            Ok(RenditionReportAttribute::Uri)
        } else if str_eq(s, "LAST-MSN") {
            Ok(RenditionReportAttribute::LastMsn)
        } else if str_eq(s, "LAST-PART") {
            Ok(RenditionReportAttribute::LastPart)
        } else {
            Err(ParseAttributeError)
        }
    }

    /// Writes one attribute value into the builder, as
    /// `rendition_report_apply` says.
    pub fn read(&self, builder: &mut RenditionReportBuilder, attribute: &str) -> (r: Result<
        (),
        ParseAttributeError,
    >)
        ensures
            match r {
                Ok(_) => rendition_report_apply(
                    old(builder)@,
                    rendition_report_attr_name(*self),
                    attribute@,
                ) == Ok::<SpecRenditionReportBuilder, ParseAttributeError>(final(builder)@),
                Err(e) => rendition_report_apply(
                    old(builder)@,
                    rendition_report_attr_name(*self),
                    attribute@,
                ) == Err::<SpecRenditionReportBuilder, ParseAttributeError>(e) && final(builder)@
                    == old(builder)@,
            },
    {
        proof {
            lemma_rendition_report_keys_distinct();
        }
        match self {
            RenditionReportAttribute::Uri => {
                builder.uri = Some(attribute.to_owned());
                Ok(())
            },
            RenditionReportAttribute::LastMsn => {
                match parse_u32(attribute) {
                    Some(n) => {
                        builder.last_msn = Some(n);
                        Ok(())
                    },
                    None => Err(ParseAttributeError),
                }
            },
            RenditionReportAttribute::LastPart => {
                match parse_u32(attribute) {
                    Some(n) => {
                        builder.last_part = Some(n);
                        Ok(())
                    },
                    None => Err(ParseAttributeError),
                }
            },
        }
    }
}

impl RenditionReport {
    /// Parses the attribute list of an `EXT-X-RENDITION-REPORT` tag.
    pub fn from_str(s: &str) -> (r: Result<RenditionReport, ParseTagError>)
        ensures
            match r {
                Ok(rr) => spec_parse_rendition_report(s@) == Ok::<
                    SpecRenditionReport,
                    ParseTagError,
                >(rr@),
                Err(e) => spec_parse_rendition_report(s@) == Err::<
                    SpecRenditionReport,
                    ParseTagError,
                >(e),
            },
    {
        let pairs = read_attributes(s);
        let ghost ps = attr_pairs(s@);
        let mut b = RenditionReportBuilder { uri: None, last_msn: None, last_part: None };
        let mut failed = false;
        let mut t: usize = 0;
        while t < pairs.len()
            invariant
                t <= pairs@.len(),
                kv_view(pairs@) == ps,
                !failed ==> rendition_report_fold(init_rendition_report(), ps.take(t as int))
                    == Ok::<SpecRenditionReportBuilder, ParseAttributeError>(b@),
                failed ==> rendition_report_fold(init_rendition_report(), ps.take(t as int)) is Err,
            decreases pairs@.len() - t,
        {
            proof {
                assert(ps.take(t + 1).drop_last() =~= ps.take(t as int));
                assert(ps.take(t + 1).last() == ps[t as int]);
            }
            if !failed {
                let k: &str = pairs[t].0.as_str();
                let v: &str = pairs[t].1.as_str();
                assert((k@, v@) == ps[t as int]);
                match RenditionReportAttribute::from_str(k) {
                    Err(_) => {
                        assert(rendition_report_apply(b@, k@, v@) == Ok::<
                            SpecRenditionReportBuilder,
                            ParseAttributeError,
                        >(b@));
                    },
                    Ok(a) => {
                        match a.read(&mut b, v) {
                            Ok(_) => {},
                            Err(_) => {
                                failed = true;
                            },
                        }
                    },
                }
            }
            t = t + 1;
        }
        proof {
            assert(ps.take(pairs@.len() as int) =~= ps);
        }
        if failed {
            return Err(ParseTagError);
        }
        let RenditionReportBuilder { uri, last_msn, last_part } = b;
        match (uri, last_msn, last_part) {
            (Some(u), Some(m), Some(p)) => Ok(
                RenditionReport { uri: u, last_msn: m, last_part: p },
            ),
            _ => Err(ParseTagError),
        }
    }
}

} // verus!

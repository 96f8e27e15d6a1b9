//! The document-level laws of the parser, stated and proved over the
//! specification functions: header rejection, required-field failure,
//! error propagation out of attribute values, the segment-boundary rule,
//! and the serialize/parse round trip of partial segments.

use vstd::prelude::*;

use crate::attrs::assoc_has_key;
use crate::attrs::assoc_lookup;
use crate::attrs::assoc_set;
use crate::attrs::attr_pairs;
use crate::attrs::dedup_pairs;
use crate::attrs::elems_pairs;
use crate::attrs::has_outside_comma;
use crate::attrs::lemma_assoc_lookup_none;
use crate::attrs::lemma_assoc_set_append;
use crate::attrs::lemma_dedup_unique;
use crate::attrs::lemma_scan_concat;
use crate::attrs::lemma_scan_plain;
use crate::attrs::lemma_split_acc_absorb;
use crate::attrs::lemma_split_acc_comma;
use crate::attrs::parity_after;
use crate::attrs::split_acc;
use crate::attrs::split_attr_elems;
use crate::attrs::split_eq;
use crate::attrs::unique_keys;
use crate::chars::find_first;
use crate::chars::is_digit_char;
use crate::chars::is_ws_char;
use crate::chars::lemma_find_first;
use crate::chars::trim_end_spec;
use crate::chars::trim_spec;
use crate::entities::init_server_control;
use crate::entities::parse_yes_no;
use crate::entities::server_control_fold;
use crate::entities::spec_parse_server_control;
use crate::entities::SpecServerControlBuilder;
use crate::num::is_decimal_text;
use crate::segment::init_partial_segment;
use crate::segment::lemma_partial_segment_keys_distinct;
use crate::segment::partial_segment_apply;
use crate::segment::partial_segment_fold;
use crate::segment::spec_parse_part_tag;
use crate::segment::spec_parse_partial_segment;
use crate::segment::spec_serialize_part_attrs;
use crate::segment::spec_serialize_partial_segment;
use crate::segment::SpecPartialSegment;
use crate::segment::SpecPartialSegmentBuilder;
use crate::chars::has_prefix;
use crate::chars::trim_start_spec;
use crate::outside::uri_reference_ok;
use crate::playlist::media_playlist_tag_of;
use crate::playlist::spec_parse_media_playlist;
use crate::playlist::spec_scan;
use crate::playlist::spec_step;
use crate::playlist::SpecMediaPlaylist;
use crate::playlist::SpecMediaPlaylistBuilder;
use crate::segment::init_media_segment;
use crate::segment::media_segment_tag_apply;
use crate::segment::media_segment_tag_of;
use crate::segment::MediaSegmentTag;
use crate::segment::SpecMediaSegment;
use crate::segment::SpecMediaSegmentBuilder;
use crate::ParsePlaylistError;
use crate::ParseTagError;

verus! {

/// A document whose first line is not `#EXTM3U` fails with the
/// header-missing classification, regardless of what follows it.
pub proof fn lemma_header_missing(lines: Seq<Seq<char>>)
    requires
        lines.len() == 0 || trim_spec(lines.first()) != "#EXTM3U"@,
    ensures
        spec_parse_media_playlist(lines) == Err::<SpecMediaPlaylist, ParsePlaylistError>(
            ParsePlaylistError::EXT3U_TAG_MISSING,
        ),
{
}

proof fn lemma_sc_fold_keeps_cbr(st: SpecServerControlBuilder, ps: Seq<(Seq<char>, Seq<char>)>)
    requires
        forall|i: int| 0 <= i < ps.len() ==> (#[trigger] ps[i]).0 != "CAN-BLOCK-RELOAD"@,
    ensures
        server_control_fold(st, ps) matches Ok(m) ==> m.can_block_reload == st.can_block_reload,
    decreases ps.len(),
{
    if ps.len() > 0 {
        assert(forall|i: int|
            0 <= i < ps.drop_last().len() ==> (#[trigger] ps.drop_last()[i]) == ps[i]);
        lemma_sc_fold_keeps_cbr(st, ps.drop_last());
        assert(ps.last() == ps[ps.len() - 1]);
    }
}

/// Omitting `CAN-BLOCK-RELOAD` from the attribute list of
/// `EXT-X-SERVER-CONTROL` fails the tag: the required field stays unset.
pub proof fn lemma_server_control_requires_can_block_reload(s: Seq<char>)
    requires
        !assoc_has_key(attr_pairs(s), "CAN-BLOCK-RELOAD"@),
    ensures
        spec_parse_server_control(s) is Err,
{
    lemma_assoc_lookup_none(attr_pairs(s), "CAN-BLOCK-RELOAD"@);
    lemma_sc_fold_keeps_cbr(init_server_control(), attr_pairs(s));
}

proof fn lemma_assoc_lookup_mem(ps: Seq<(Seq<char>, Seq<char>)>, k: Seq<char>, v: Seq<char>)
    requires
        assoc_lookup(ps, k) == Some(v),
    ensures
        exists|i: int| 0 <= i < ps.len() && (#[trigger] ps[i]) == (k, v),
    decreases ps.len(),
{
    if ps.len() > 0 {
        if ps.first().0 == k {
            assert(ps[0] == (k, v));
        } else {
            lemma_assoc_lookup_mem(ps.drop_first(), k, v);
            let tail = ps.drop_first();
            let i = choose|i: int| 0 <= i < tail.len() && (#[trigger] tail[i]) == (k, v);
            assert(ps[i + 1] == (k, v));
        }
    }
}

proof fn lemma_ps_fold_err_on_bad_independent(
    st: SpecPartialSegmentBuilder,
    ps: Seq<(Seq<char>, Seq<char>)>,
    v: Seq<char>,
)
    requires
        exists|i: int| 0 <= i < ps.len() && (#[trigger] ps[i]) == ("INDEPENDENT"@, v),
        parse_yes_no(v) is None,
    ensures
        partial_segment_fold(st, ps) is Err,
    decreases ps.len(),
{
    lemma_partial_segment_keys_distinct();
    let i = choose|i: int| 0 <= i < ps.len() && (#[trigger] ps[i]) == ("INDEPENDENT"@, v);
    if i == ps.len() - 1 {
        assert(ps.last() == ("INDEPENDENT"@, v));
        match partial_segment_fold(st, ps.drop_last()) {
            Err(_) => {},
            Ok(m) => {
                assert(partial_segment_apply(m, "INDEPENDENT"@, v) is Err);
            },
        }
    } else {
        assert(ps.drop_last()[i] == ps[i]);
        lemma_ps_fold_err_on_bad_independent(st, ps.drop_last(), v);
    }
}

/// An `INDEPENDENT` value outside the `{YES,NO}` vocabulary fails the
/// owning `EXT-X-PART` tag; it is never swallowed.
pub proof fn lemma_independent_outside_vocabulary(s: Seq<char>, v: Seq<char>)
    requires
        assoc_lookup(attr_pairs(s), "INDEPENDENT"@) == Some(v),
        parse_yes_no(v) is None,
    ensures
        spec_parse_partial_segment(s) is Err,
{
    lemma_assoc_lookup_mem(attr_pairs(s), "INDEPENDENT"@, v);
    lemma_ps_fold_err_on_bad_independent(init_partial_segment(), attr_pairs(s), v);
}

proof fn lemma_serialize_lits()
    ensures
        "DURATION="@.len() == 9,
        forall|j: int|
            0 <= j < 9 ==> #[trigger] "DURATION="@[j] != ',' && "DURATION="@[j] != '"',
        forall|j: int| 0 <= j < 8 ==> #[trigger] "DURATION="@[j] != '=',
        "DURATION="@[8] == '=',
        "DURATION="@.take(8) == "DURATION"@,
        "URI="@.len() == 4,
        forall|j: int| 0 <= j < 4 ==> #[trigger] "URI="@[j] != ',' && "URI="@[j] != '"',
        forall|j: int| 0 <= j < 3 ==> #[trigger] "URI="@[j] != '=',
        "URI="@[3] == '=',
        "URI="@.take(3) == "URI"@,
        "INDEPENDENT="@.len() == 12,
        forall|j: int|
            0 <= j < 12 ==> #[trigger] "INDEPENDENT="@[j] != ',' && "INDEPENDENT="@[j] != '"',
        forall|j: int| 0 <= j < 11 ==> #[trigger] "INDEPENDENT="@[j] != '=',
        "INDEPENDENT="@[11] == '=',
        "INDEPENDENT="@.take(11) == "INDEPENDENT"@,
        ","@ == seq![','],
        "YES"@.len() == 3,
        forall|j: int| 0 <= j < 3 ==> #[trigger] "YES"@[j] != ',' && "YES"@[j] != '"',
        "FALSE"@.len() == 5,
        forall|j: int| 0 <= j < 5 ==> #[trigger] "FALSE"@[j] != ',' && "FALSE"@[j] != '"',
{
    reveal_strlit("DURATION=");
    reveal_strlit("DURATION");
    reveal_strlit("URI=");
    reveal_strlit("URI");
    reveal_strlit("INDEPENDENT=");
    reveal_strlit("INDEPENDENT");
    reveal_strlit(",");
    reveal_strlit("YES");
    reveal_strlit("FALSE");
    assert("DURATION="@.take(8) =~= "DURATION"@);
    assert("URI="@.take(3) =~= "URI"@);
    assert("INDEPENDENT="@.take(11) =~= "INDEPENDENT"@);
    assert(","@ =~= seq![',']);
}

/// Decimal text holds only digits, a sign and a point: no comma, quote
/// or equals sign.
proof fn lemma_decimal_chars(s: Seq<char>)
    requires
        is_decimal_text(s),
    ensures
        forall|j: int| 0 <= j < s.len() ==> (#[trigger] s[j]) != ',' && s[j] != '"',
{
    let body = if s.len() > 0 && s.first() == '-' {
        s.drop_first()
    } else {
        s
    };
    let off = if s.len() > 0 && s.first() == '-' {
        1int
    } else {
        0int
    };
    lemma_find_first(body, '.');
    assert forall|j: int| 0 <= j < s.len() implies (#[trigger] s[j]) != ',' && s[j] != '"' by {
        if j < off {
            assert(s[j] == '-');
        } else {
            let bj = j - off;
            assert(body[bj] == s[j]);
            match find_first(body, '.') {
                None => {
                    assert(is_digit_char(body[bj]));
                },
                Some(i) => {
                    if bj < i {
                        assert(body.take(i)[bj] == body[bj]);
                        assert(is_digit_char(body.take(i)[bj]));
                    } else if bj == i {
                        assert(body[bj] == '.');
                    } else {
                        assert(body.skip(i + 1)[bj - i - 1] == body[bj]);
                        assert(is_digit_char(body.skip(i + 1)[bj - i - 1]));
                    }
                },
            }
        }
    }
}

/// The attribute pairs that the serialized form of a partial segment
/// denotes: its own fields, under their three names, in order.
pub open spec fn expected_pairs(p: SpecPartialSegment) -> Seq<(Seq<char>, Seq<char>)> {
    seq![("DURATION"@, p.part_duration), ("URI"@, p.uri)] + (match p.independent {
        None => Seq::<(Seq<char>, Seq<char>)>::empty(),
        Some(true) => seq![("INDEPENDENT"@, "YES"@)],
        Some(false) => seq![("INDEPENDENT"@, "FALSE"@)],
    })
}

proof fn lemma_elem_pair(key_lit: Seq<char>, eq_at: int, elem: Seq<char>, value: Seq<char>)
    requires
        elem.len() >= eq_at + 1,
        0 <= eq_at,
        forall|j: int| 0 <= j < eq_at ==> #[trigger] elem[j] != '=',
        elem[eq_at] == '=',
        elem.take(eq_at) == key_lit,
        elem.skip(eq_at + 1) == value,
    ensures
        split_eq(elem) == Some((key_lit, value)),
{
    lemma_find_first(elem, '=');
    match find_first(elem, '=') {
        None => {
            assert(false);
        },
        Some(i) => {
            if i < eq_at {
                assert(elem[i] != '=');
                assert(false);
            }
            if i > eq_at {
                assert(elem[eq_at] != '=');
                assert(false);
            }
            assert(i == eq_at);
        },
    }
}

/// The attribute-list parse of a serialized partial segment recovers
/// exactly its fields, provided the URI text cannot split the list: it
/// holds no comma outside quotes, and its quotes are balanced when an
/// `INDEPENDENT` attribute follows it.
pub proof fn lemma_attr_pairs_of_serialized(p: SpecPartialSegment)
    requires
        is_decimal_text(p.part_duration),
        !has_outside_comma(p.uri, false),
        p.independent is Some ==> parity_after(p.uri, false) == false,
    ensures
        attr_pairs(spec_serialize_part_attrs(p)) == expected_pairs(p),
{
    lemma_serialize_lits();
    lemma_partial_segment_keys_distinct();
    let d = p.part_duration;
    let u = p.uri;
    let dl = "DURATION="@;
    let ul = "URI="@;
    let il = "INDEPENDENT="@;
    let a = dl + d;
    let b = ul + u;
    lemma_decimal_chars(d);
    lemma_scan_plain(dl, false);
    lemma_scan_plain(d, false);
    lemma_scan_concat(dl, d, false);
    assert(!has_outside_comma(a, false));
    assert(parity_after(a, false) == false);
    lemma_scan_plain(ul, false);
    lemma_scan_concat(ul, u, false);
    assert(!has_outside_comma(b, false));

    // the element pairs of the two (or three) serialized elements
    assert forall|j: int| 0 <= j < 9 implies #[trigger] a[j] == dl[j] by {}
    assert(a.take(8) =~= dl.take(8));
    assert(a.skip(9) =~= d);
    lemma_elem_pair("DURATION"@, 8, a, d);
    assert forall|j: int| 0 <= j < 4 implies #[trigger] b[j] == ul[j] by {}
    assert(b.take(3) =~= ul.take(3));
    assert(b.skip(4) =~= u);
    lemma_elem_pair("URI"@, 3, b, u);

    let t = spec_serialize_part_attrs(p);
    match p.independent {
        None => {
            assert(t =~= a + (","@ + b));
            lemma_split_acc_absorb(a, ","@ + b, Seq::empty(), false);
            assert(Seq::<char>::empty() + a =~= a);
            lemma_split_acc_comma(b, a);
            lemma_split_acc_absorb(b, Seq::empty(), Seq::empty(), false);
            assert(b + Seq::<char>::empty() =~= b);
            assert(Seq::<char>::empty() + b =~= b);
            assert(split_acc(Seq::<char>::empty(), b, parity_after(b, false)) =~= seq![b]);
            assert(split_attr_elems(t) =~= seq![a, b]);

            let elems = seq![a, b];
            assert(elems.drop_last() =~= seq![a]);
            assert(seq![a].drop_last() =~= Seq::<Seq<char>>::empty());
            assert(elems_pairs(Seq::<Seq<char>>::empty()) =~= Seq::<
                (Seq<char>, Seq<char>),
            >::empty());
            assert(split_eq(a) == Some(("DURATION"@, d)));
            assert(split_eq(b) == Some(("URI"@, u)));
            assert(elems_pairs(seq![a]) =~= seq![("DURATION"@, d)]);
            let raw = seq![("DURATION"@, d), ("URI"@, u)];
            assert(elems_pairs(elems) =~= raw);

            assert(raw.drop_last() =~= seq![("DURATION"@, d)]);
            assert(seq![("DURATION"@, d)].drop_last() =~= Seq::<(Seq<char>, Seq<char>)>::empty());
            assert(dedup_pairs(Seq::<(Seq<char>, Seq<char>)>::empty()) =~= Seq::<
                (Seq<char>, Seq<char>),
            >::empty());
            assert(assoc_set(Seq::<(Seq<char>, Seq<char>)>::empty(), "DURATION"@, d) =~= seq![
                ("DURATION"@, d),
            ]);
            assert(dedup_pairs(seq![("DURATION"@, d)]) =~= seq![("DURATION"@, d)]);
            lemma_assoc_set_append(seq![("DURATION"@, d)], "URI"@, u);
            assert(dedup_pairs(raw) =~= raw);
            assert(attr_pairs(t) =~= raw);
            assert(expected_pairs(p) =~= raw);
        },
        Some(bv) => {
            let xl = if bv {
                "YES"@
            } else {
                "FALSE"@
            };
            let c = il + xl;
            lemma_scan_plain(il, false);
            lemma_scan_plain(xl, false);
            lemma_scan_concat(il, xl, false);
            assert(!has_outside_comma(c, false));
            assert forall|j: int| 0 <= j < 12 implies #[trigger] c[j] == il[j] by {}
            assert(c.take(11) =~= il.take(11));
            assert(c.skip(12) =~= xl);
            lemma_elem_pair("INDEPENDENT"@, 11, c, xl);

            assert(t =~= a + (","@ + (b + (","@ + c))));
            lemma_split_acc_absorb(a, ","@ + (b + (","@ + c)), Seq::empty(), false);
            assert(Seq::<char>::empty() + a =~= a);
            lemma_split_acc_comma(b + (","@ + c), a);
            lemma_split_acc_absorb(b, ","@ + c, Seq::empty(), false);
            assert(Seq::<char>::empty() + b =~= b);
            assert(parity_after(b, false) == false);
            lemma_split_acc_comma(c, b);
            lemma_split_acc_absorb(c, Seq::empty(), Seq::empty(), false);
            assert(c + Seq::<char>::empty() =~= c);
            assert(Seq::<char>::empty() + c =~= c);
            assert(split_acc(Seq::<char>::empty(), c, parity_after(c, false)) =~= seq![c]);
            assert(split_attr_elems(t) =~= seq![a, b, c]);

            let elems = seq![a, b, c];
            assert(elems.drop_last() =~= seq![a, b]);
            assert(seq![a, b].drop_last() =~= seq![a]);
            assert(seq![a].drop_last() =~= Seq::<Seq<char>>::empty());
            assert(elems_pairs(Seq::<Seq<char>>::empty()) =~= Seq::<
                (Seq<char>, Seq<char>),
            >::empty());
            assert(split_eq(a) == Some(("DURATION"@, d)));
            assert(split_eq(b) == Some(("URI"@, u)));
            assert(split_eq(c) == Some(("INDEPENDENT"@, xl)));
            assert(elems_pairs(seq![a]) =~= seq![("DURATION"@, d)]);
            assert(elems_pairs(seq![a, b]) =~= seq![("DURATION"@, d), ("URI"@, u)]);
            let raw = seq![("DURATION"@, d), ("URI"@, u), ("INDEPENDENT"@, xl)];
            assert(elems_pairs(elems) =~= raw);

            assert(raw.drop_last() =~= seq![("DURATION"@, d), ("URI"@, u)]);
            assert(seq![("DURATION"@, d), ("URI"@, u)].drop_last() =~= seq![("DURATION"@, d)]);
            assert(seq![("DURATION"@, d)].drop_last() =~= Seq::<(Seq<char>, Seq<char>)>::empty());
            assert(dedup_pairs(Seq::<(Seq<char>, Seq<char>)>::empty()) =~= Seq::<
                (Seq<char>, Seq<char>),
            >::empty());
            assert(assoc_set(Seq::<(Seq<char>, Seq<char>)>::empty(), "DURATION"@, d) =~= seq![
                ("DURATION"@, d),
            ]);
            assert(dedup_pairs(seq![("DURATION"@, d)]) =~= seq![("DURATION"@, d)]);
            lemma_assoc_set_append(seq![("DURATION"@, d)], "URI"@, u);
            assert(dedup_pairs(seq![("DURATION"@, d), ("URI"@, u)]) =~= seq![
                ("DURATION"@, d),
                ("URI"@, u),
            ]);
            lemma_assoc_set_append(seq![("DURATION"@, d), ("URI"@, u)], "INDEPENDENT"@, xl);
            assert(dedup_pairs(raw) =~= raw);
            assert(attr_pairs(t) =~= raw);
            assert(expected_pairs(p) =~= raw);
        },
    }
}

/// Parsing the serialized attribute list of a partial segment gives back
/// exactly the same fields. `INDEPENDENT` must not be an explicit `false`:
/// that serializes as `FALSE`, which the strict `{YES,NO}` vocabulary
/// rejects on re-parse.
pub proof fn lemma_serialized_attrs_parse(p: SpecPartialSegment)
    requires
        is_decimal_text(p.part_duration),
        !has_outside_comma(p.uri, false),
        p.independent is Some ==> parity_after(p.uri, false) == false,
        p.independent != Some(false),
    ensures
        spec_parse_partial_segment(spec_serialize_part_attrs(p)) == Ok::<
            SpecPartialSegment,
            crate::ParseTagError,
        >(p),
{
    lemma_attr_pairs_of_serialized(p);
    lemma_partial_segment_keys_distinct();
    let d = p.part_duration;
    let u = p.uri;
    let q1 = ("DURATION"@, d);
    let q2 = ("URI"@, u);
    let st0 = init_partial_segment();
    let st1 = SpecPartialSegmentBuilder { part_duration: Some(d), ..st0 };
    let st2 = SpecPartialSegmentBuilder { uri: Some(u), ..st1 };
    assert(partial_segment_apply(st0, "DURATION"@, d) == Ok::<
        SpecPartialSegmentBuilder,
        crate::ParseAttributeError,
    >(st1));
    assert(partial_segment_apply(st1, "URI"@, u) == Ok::<
        SpecPartialSegmentBuilder,
        crate::ParseAttributeError,
    >(st2));
    assert(seq![q1].drop_last() =~= Seq::<(Seq<char>, Seq<char>)>::empty());
    assert(seq![q1, q2].drop_last() =~= seq![q1]);
    assert(partial_segment_fold(st0, Seq::<(Seq<char>, Seq<char>)>::empty()) == Ok::<
        SpecPartialSegmentBuilder,
        crate::ParseAttributeError,
    >(st0));
    assert(partial_segment_fold(st0, seq![q1]) == Ok::<
        SpecPartialSegmentBuilder,
        crate::ParseAttributeError,
    >(st1));
    assert(partial_segment_fold(st0, seq![q1, q2]) == Ok::<
        SpecPartialSegmentBuilder,
        crate::ParseAttributeError,
    >(st2));
    match p.independent {
        None => {
            let ps = expected_pairs(p);
            assert(ps =~= seq![q1, q2]);
            assert(partial_segment_fold(st0, seq![q1, q2]) == Ok::<
                SpecPartialSegmentBuilder,
                crate::ParseAttributeError,
            >(st2));
        },
        Some(bv) => {
            let xl = if bv {
                "YES"@
            } else {
                "FALSE"@
            };
            assert(bv == true);
            assert(parse_yes_no("YES"@) == Some(true));
            let q3 = ("INDEPENDENT"@, xl);
            let ps = expected_pairs(p);
            assert(ps =~= seq![q1, q2, q3]);
            assert(seq![q1, q2, q3].drop_last() =~= seq![q1, q2]);
            let st3 = SpecPartialSegmentBuilder { independent: Some(true), ..st2 };
            assert(partial_segment_apply(st2, "INDEPENDENT"@, xl) == Ok::<
                SpecPartialSegmentBuilder,
                crate::ParseAttributeError,
            >(st3));
            assert(partial_segment_fold(st0, seq![q1, q2, q3]) == Ok::<
                SpecPartialSegmentBuilder,
                crate::ParseAttributeError,
            >(st3));
        },
    }
}

/// Round trip: parsing, re-serializing and re-parsing a partial segment
/// yields field-for-field equal results — here in the strongest form:
/// re-parsing the serialized tag of any parsed segment gives that segment
/// back exactly.
pub proof fn lemma_partial_segment_round_trip(p: SpecPartialSegment)
    requires
        is_decimal_text(p.part_duration),
        !has_outside_comma(p.uri, false),
        p.independent is Some ==> parity_after(p.uri, false) == false,
        p.independent != Some(false),
    ensures
        spec_parse_part_tag(spec_serialize_partial_segment(p)) == Ok::<
            SpecPartialSegment,
            crate::ParseTagError,
        >(p),
{
    lemma_serialized_attrs_parse(p);
    reveal_strlit("#EXT-X-PART:");
    reveal_strlit("#EXT-X-PART");
    let pre = "#EXT-X-PART:"@;
    let a = spec_serialize_part_attrs(p);
    let t = spec_serialize_partial_segment(p);
    assert(pre.len() == 12);
    assert(forall|j: int| 0 <= j < 11 ==> #[trigger] pre[j] != ':');
    assert(pre[11] == ':');
    assert(forall|j: int| 0 <= j < 12 ==> #[trigger] t[j] == pre[j]);
    lemma_find_first(t, ':');
    match find_first(t, ':') {
        None => {
            assert(t[11] == ':');
            assert(false);
        },
        Some(i) => {
            if i < 11 {
                assert(t[i] != ':');
                assert(false);
            }
            if i > 11 {
                assert(t[11] != ':');
                assert(false);
            }
            assert(i == 11);
            assert(t.take(11) =~= "#EXT-X-PART"@);
            assert(t.skip(12) =~= a);
        },
    }
}

proof fn lemma_assoc_lookup_push(
    ps: Seq<(Seq<char>, Seq<char>)>,
    q: (Seq<char>, Seq<char>),
    k: Seq<char>,
)
    ensures
        assoc_lookup(ps.push(q), k) == (match assoc_lookup(ps, k) {
            Some(v) => Some(v),
            None => if q.0 == k {
                Some(q.1)
            } else {
                None::<Seq<char>>
            },
        }),
    decreases ps.len(),
{
    if ps.len() == 0 {
        assert(ps.push(q) =~= seq![q]);
        assert(seq![q].first() == q);
        assert(seq![q].drop_first() =~= Seq::<(Seq<char>, Seq<char>)>::empty());
    } else {
        assert(ps.push(q).first() == ps.first());
        assert(ps.push(q).drop_first() =~= ps.drop_first().push(q));
        lemma_assoc_lookup_push(ps.drop_first(), q, k);
    }
}

/// Under unique names, the folded builder fields are exactly the mapping's
/// values: last-wins collapsing and in-order application agree.
proof fn lemma_ps_fold_fields(st: SpecPartialSegmentBuilder, ps: Seq<(Seq<char>, Seq<char>)>)
    requires
        unique_keys(ps),
    ensures
        partial_segment_fold(st, ps) matches Ok(m) ==> {
            &&& m.part_duration == (match assoc_lookup(ps, "DURATION"@) {
                Some(v) => Some(v),
                None => st.part_duration,
            })
            &&& (match assoc_lookup(ps, "DURATION"@) {
                Some(v) => is_decimal_text(v),
                None => true,
            })
            &&& m.uri == (match assoc_lookup(ps, "URI"@) {
                Some(v) => Some(v),
                None => st.uri,
            })
            &&& m.independent == (match assoc_lookup(ps, "INDEPENDENT"@) {
                Some(v) => parse_yes_no(v),
                None => st.independent,
            })
            &&& (match assoc_lookup(ps, "INDEPENDENT"@) {
                Some(v) => parse_yes_no(v) is Some,
                None => true,
            })
        },
    decreases ps.len(),
{
    lemma_partial_segment_keys_distinct();
    if ps.len() > 0 {
        let qs = ps.drop_last();
        let q = ps.last();
        assert(forall|i: int| 0 <= i < qs.len() ==> (#[trigger] qs[i]) == ps[i]);
        assert(unique_keys(qs)) by {
            assert(forall|i: int, j: int|
                0 <= i < j < qs.len() ==> (#[trigger] qs[i]).0 != (#[trigger] qs[j]).0);
        }
        lemma_ps_fold_fields(st, qs);
        assert(qs.push(q) =~= ps);
        lemma_assoc_lookup_push(qs, q, "DURATION"@);
        lemma_assoc_lookup_push(qs, q, "URI"@);
        lemma_assoc_lookup_push(qs, q, "INDEPENDENT"@);
        if assoc_lookup(qs, q.0) is Some {
            lemma_assoc_lookup_mem(qs, q.0, assoc_lookup(qs, q.0).unwrap());
            let i = choose|i: int|
                0 <= i < qs.len() && (#[trigger] qs[i]) == (q.0, assoc_lookup(qs, q.0).unwrap());
            assert(ps[i].0 == ps[ps.len() - 1].0);
            assert(false);
        }
    }
}

/// Parsing then serializing a partial segment is idempotent on the
/// `DURATION` and `URI` fields and on `INDEPENDENT`'s presence: the
/// serialized attribute list maps the two names to exactly the raw values
/// of the input, and carries `INDEPENDENT` exactly when the input did.
pub proof fn lemma_parse_then_serialize_preserves_fields(s: Seq<char>, p: SpecPartialSegment)
    requires
        spec_parse_partial_segment(s) == Ok::<SpecPartialSegment, ParseTagError>(p),
        !has_outside_comma(p.uri, false),
        p.independent is Some ==> parity_after(p.uri, false) == false,
    ensures
        assoc_lookup(attr_pairs(spec_serialize_part_attrs(p)), "DURATION"@) == assoc_lookup(
            attr_pairs(s),
            "DURATION"@,
        ),
        assoc_lookup(attr_pairs(spec_serialize_part_attrs(p)), "URI"@) == assoc_lookup(
            attr_pairs(s),
            "URI"@,
        ),
        assoc_has_key(attr_pairs(spec_serialize_part_attrs(p)), "INDEPENDENT"@) <==> assoc_has_key(
            attr_pairs(s),
            "INDEPENDENT"@,
        ),
{
    lemma_partial_segment_keys_distinct();
    lemma_dedup_unique(elems_pairs(split_attr_elems(s)));
    lemma_ps_fold_fields(init_partial_segment(), attr_pairs(s));
    assert(assoc_lookup(attr_pairs(s), "DURATION"@) == Some(p.part_duration));
    assert(assoc_lookup(attr_pairs(s), "URI"@) == Some(p.uri));
    assert(is_decimal_text(p.part_duration));
    lemma_attr_pairs_of_serialized(p);
    let t = attr_pairs(spec_serialize_part_attrs(p));
    let q1 = ("DURATION"@, p.part_duration);
    let q2 = ("URI"@, p.uri);
    match p.independent {
        None => {
            assert(t =~= seq![q1, q2]);
            assert(t.first() == q1);
            assert(t.drop_first() =~= seq![q2]);
            assert(seq![q2].first() == q2);
            assert(seq![q2].drop_first() =~= Seq::<(Seq<char>, Seq<char>)>::empty());
            assert(assoc_lookup(t, "DURATION"@) == Some(p.part_duration));
            assert(assoc_lookup(seq![q2], "URI"@) == Some(p.uri));
            assert(assoc_lookup(t, "URI"@) == Some(p.uri));
            assert(assoc_lookup(Seq::<(Seq<char>, Seq<char>)>::empty(), "INDEPENDENT"@) is None);
            assert(assoc_lookup(seq![q2], "INDEPENDENT"@) is None);
            assert(assoc_lookup(t, "INDEPENDENT"@) is None);
            assert(assoc_lookup(attr_pairs(s), "INDEPENDENT"@) is None);
        },
        Some(bv) => {
            let xl = if bv {
                "YES"@
            } else {
                "FALSE"@
            };
            let q3 = ("INDEPENDENT"@, xl);
            assert(t =~= seq![q1, q2, q3]);
            assert(t.first() == q1);
            assert(t.drop_first() =~= seq![q2, q3]);
            assert(seq![q2, q3].first() == q2);
            assert(seq![q2, q3].drop_first() =~= seq![q3]);
            assert(seq![q3].first() == q3);
            assert(seq![q3].drop_first() =~= Seq::<(Seq<char>, Seq<char>)>::empty());
            assert(assoc_lookup(t, "DURATION"@) == Some(p.part_duration));
            assert(assoc_lookup(seq![q2, q3], "URI"@) == Some(p.uri));
            assert(assoc_lookup(t, "URI"@) == Some(p.uri));
            assert(assoc_lookup(seq![q3], "INDEPENDENT"@) == Some(xl));
            assert(assoc_lookup(seq![q2, q3], "INDEPENDENT"@) == Some(xl));
            assert(assoc_lookup(t, "INDEPENDENT"@) == Some(xl));
            assert(assoc_lookup(attr_pairs(s), "INDEPENDENT"@) is Some);
        },
    }
}

proof fn lemma_trim_id(s: Seq<char>)
    requires
        s.len() > 0,
        !is_ws_char(s.first()),
        !is_ws_char(s.last()),
    ensures
        trim_end_spec(s) == s,
        trim_spec(s) == s,
{
    assert(trim_end_spec(s) == s);
    assert(trim_start_spec(s) == s);
}

/// What an `#EXT-X-PART` tag line does to the scan state: its attribute
/// list parses into one more partial segment of the segment in progress,
/// and a failing attribute list fails the document — the segment-level
/// failure is not swallowed.
pub proof fn lemma_step_part_line(
    pb: SpecMediaPlaylistBuilder,
    sb: SpecMediaSegmentBuilder,
    a: Seq<char>,
)
    requires
        a.len() == 0 || !is_ws_char(a.last()),
    ensures
        spec_step(pb, sb, "#EXT-X-PART:"@ + a) == (match spec_parse_partial_segment(a) {
            Ok(p) => Ok::<(SpecMediaPlaylistBuilder, SpecMediaSegmentBuilder), ParsePlaylistError>(
                (pb, SpecMediaSegmentBuilder { partial_segments: sb.partial_segments.push(p), ..sb }),
            ),
            Err(_) => Err(ParsePlaylistError::BUILDER_ERROR),
        }),
{
    reveal_strlit("#EXT-X-PART:");
    reveal_strlit("#EXT");
    reveal_strlit("#EXT-X-ENDLIST");
    reveal_strlit("EXT-X-PART");
    reveal_strlit("EXTINF");
    reveal_strlit("EXT-X-PROGRAM-DATE-TIME");
    reveal_strlit("EXT-X-TARGETDURATION");
    reveal_strlit("EXT-X-VERSION");
    reveal_strlit("EXT-X-PART-INF");
    reveal_strlit("EXT-X-MEDIA-SEQUENCE");
    reveal_strlit("EXT-X-SKIP");
    reveal_strlit("EXT-X-PRELOAD-HINT");
    reveal_strlit("EXT-X-RENDITION-REPORT");
    reveal_strlit("EXT-X-SERVER-CONTROL");
    let pre = "#EXT-X-PART:"@;
    let l = pre + a;
    assert(pre.len() == 12);
    assert(forall|j: int| 0 <= j < 12 ==> #[trigger] l[j] == pre[j]);
    assert(l.first() == '#');
    if a.len() == 0 {
        assert(l.last() == ':');
    } else {
        assert(l.last() == a.last());
    }
    lemma_trim_id(l);
    assert(has_prefix(l, "#EXT"@)) by {
        assert("#EXT"@.len() == 4);
        assert(l.subrange(0, 4) =~= "#EXT"@);
    }
    assert(trim_spec(l) != "#EXT-X-ENDLIST"@) by {
        assert("#EXT-X-ENDLIST"@.len() == 14);
        if l.len() == 14 {
            assert(l[11] == ':');
            assert("#EXT-X-ENDLIST"@[11] == 'I');
        }
    }
    lemma_find_first(l, ':');
    assert(forall|j: int| 0 <= j < 11 ==> #[trigger] pre[j] != ':');
    match find_first(l, ':') {
        None => {
            assert(l[11] == ':');
            assert(false);
        },
        Some(i) => {
            if i < 11 {
                assert(l[i] != ':');
                assert(false);
            }
            if i > 11 {
                assert(l[11] != ':');
                assert(false);
            }
            assert(i == 11);
        },
    }
    let name = l.subrange(1, 11);
    assert(name =~= "EXT-X-PART"@);
    assert("EXT-X-PART"@.len() == 10);
    assert("EXT-X-TARGETDURATION"@.len() == 20);
    assert("EXT-X-VERSION"@.len() == 13);
    assert("EXT-X-PART-INF"@.len() == 14);
    assert("EXT-X-MEDIA-SEQUENCE"@.len() == 20);
    assert("EXT-X-SKIP"@.len() == 10);
    assert("EXT-X-PRELOAD-HINT"@.len() == 18);
    assert("EXT-X-RENDITION-REPORT"@.len() == 22);
    assert("EXT-X-SERVER-CONTROL"@.len() == 20);
    assert("EXT-X-PART"@ != "EXT-X-SKIP"@) by {
        assert("EXT-X-PART"@[6] == 'P');
        assert("EXT-X-SKIP"@[6] == 'S');
    }
    assert(media_playlist_tag_of("EXT-X-PART"@) is None);
    assert("EXTINF"@.len() == 6);
    assert("EXT-X-PROGRAM-DATE-TIME"@.len() == 23);
    assert(media_segment_tag_of("EXT-X-PART"@) == Some(MediaSegmentTag::Part));
    assert(l.skip(12) =~= a);
}

/// What a resource-locator line does to the scan state: it sets the
/// locator, validated, and seals the segment in progress — the
/// segment-boundary rule.
pub proof fn lemma_step_locator_line(
    pb: SpecMediaPlaylistBuilder,
    sb: SpecMediaSegmentBuilder,
    u: Seq<char>,
)
    requires
        u.len() > 0,
        u.first() != '#',
        !is_ws_char(u.first()),
        !is_ws_char(u.last()),
    ensures
        spec_step(pb, sb, u) == (if uri_reference_ok(u) && sb.duration is Some {
            Ok::<(SpecMediaPlaylistBuilder, SpecMediaSegmentBuilder), ParsePlaylistError>(
                (
                    SpecMediaPlaylistBuilder {
                        media_segments: pb.media_segments.push(
                            SpecMediaSegment {
                                duration: sb.duration.unwrap(),
                                uri: u,
                                partial_segments: sb.partial_segments,
                                program_date_time: sb.program_date_time,
                            },
                        ),
                        ..pb
                    },
                    init_media_segment(),
                ),
            )
        } else {
            Err(ParsePlaylistError::BUILDER_ERROR)
        }),
{
    reveal_strlit("#EXT");
    lemma_trim_id(u);
    assert(!has_prefix(u, "#EXT"@)) by {
        if has_prefix(u, "#EXT"@) {
            assert(u.subrange(0, 4)[0] == u[0]);
            assert("#EXT"@[0] == '#');
            assert(false);
        }
    }
    assert(trim_spec(u).len() > 0);
    let sb2 = SpecMediaSegmentBuilder { uri: Some(u), ..sb };
    if uri_reference_ok(u) {
        assert(media_segment_tag_apply(sb, MediaSegmentTag::Uri, u) == Ok::<
            SpecMediaSegmentBuilder,
            ParseTagError,
        >(sb2));
    }
}

/// Two consecutive `EXT-X-PART` tag lines followed by one
/// resource-locator line produce exactly one media segment, holding the
/// two partial segments in order of appearance.
pub proof fn lemma_two_parts_then_locator(
    pb: SpecMediaPlaylistBuilder,
    sb: SpecMediaSegmentBuilder,
    a1: Seq<char>,
    a2: Seq<char>,
    u: Seq<char>,
    p1: SpecPartialSegment,
    p2: SpecPartialSegment,
)
    requires
        spec_parse_partial_segment(a1) == Ok::<SpecPartialSegment, ParseTagError>(p1),
        spec_parse_partial_segment(a2) == Ok::<SpecPartialSegment, ParseTagError>(p2),
        a1.len() == 0 || !is_ws_char(a1.last()),
        a2.len() == 0 || !is_ws_char(a2.last()),
        u.len() > 0,
        u.first() != '#',
        !is_ws_char(u.first()),
        !is_ws_char(u.last()),
        uri_reference_ok(u),
        sb.duration is Some,
    ensures
        spec_scan(pb, sb, seq!["#EXT-X-PART:"@ + a1, "#EXT-X-PART:"@ + a2, u]) == Ok::<
            (SpecMediaPlaylistBuilder, SpecMediaSegmentBuilder),
            ParsePlaylistError,
        >(
            (
                SpecMediaPlaylistBuilder {
                    media_segments: pb.media_segments.push(
                        SpecMediaSegment {
                            duration: sb.duration.unwrap(),
                            uri: u,
                            partial_segments: sb.partial_segments + seq![p1, p2],
                            program_date_time: sb.program_date_time,
                        },
                    ),
                    ..pb
                },
                init_media_segment(),
            ),
        ),
{
    let l1 = "#EXT-X-PART:"@ + a1;
    let l2 = "#EXT-X-PART:"@ + a2;
    let lines = seq![l1, l2, u];
    lemma_step_part_line(pb, sb, a1);
    let sb1 = SpecMediaSegmentBuilder { partial_segments: sb.partial_segments.push(p1), ..sb };
    lemma_step_part_line(pb, sb1, a2);
    let sb2 = SpecMediaSegmentBuilder { partial_segments: sb1.partial_segments.push(p2), ..sb1 };
    lemma_step_locator_line(pb, sb2, u);
    assert(sb.partial_segments.push(p1).push(p2) =~= sb.partial_segments + seq![p1, p2]);
    assert(lines.first() == l1);
    assert(lines.drop_first() =~= seq![l2, u]);
    assert(seq![l2, u].first() == l2);
    assert(seq![l2, u].drop_first() =~= seq![u]);
    assert(seq![u].first() == u);
    assert(seq![u].drop_first() =~= Seq::<Seq<char>>::empty());
    let fin = spec_step(pb, sb2, u);
    assert(fin is Ok);
    assert(spec_scan(fin.unwrap().0, fin.unwrap().1, Seq::<Seq<char>>::empty()) == fin);
    assert(spec_scan(pb, sb2, seq![u]) == fin);
    assert(spec_scan(pb, sb1, seq![l2, u]) == fin);
    assert(spec_scan(pb, sb, lines) == fin);
}

/// An `INDEPENDENT` value outside the vocabulary fails the owning
/// `EXT-X-PART` tag line, and through it the whole document scan.
pub proof fn lemma_independent_error_fails_document(
    pb: SpecMediaPlaylistBuilder,
    sb: SpecMediaSegmentBuilder,
    a: Seq<char>,
    v: Seq<char>,
)
    requires
        assoc_lookup(attr_pairs(a), "INDEPENDENT"@) == Some(v),
        parse_yes_no(v) is None,
        a.len() == 0 || !is_ws_char(a.last()),
    ensures
        spec_step(pb, sb, "#EXT-X-PART:"@ + a) == Err::<
            (SpecMediaPlaylistBuilder, SpecMediaSegmentBuilder),
            ParsePlaylistError,
        >(ParsePlaylistError::BUILDER_ERROR),
{
    lemma_independent_outside_vocabulary(a, v);
    lemma_step_part_line(pb, sb, a);
}

} // verus!

//! The attribute-list parser: splits the text after a tag's colon into
//! `NAME=VALUE` pairs. Commas inside double-quoted spans do not split;
//! fragments without `=` are dropped; a repeated name keeps its last value,
//! so the result is a mapping with unique names in order of first appearance.

use vstd::prelude::*;

use crate::chars::find_first;

use crate::chars::str_eq;
use crate::chars::str_find;

verus! {

/// Splits `s` at commas that lie outside double quotes, `cur` being the
/// element under construction and `inq` the quote parity so far.
pub open spec fn split_acc(s: Seq<char>, cur: Seq<char>, inq: bool) -> Seq<Seq<char>>
    decreases s.len(),
{
    if s.len() == 0 {
        seq![cur]
    } else if s.first() == ',' && !inq {
        seq![cur] + split_acc(s.drop_first(), Seq::empty(), false)
    } else {
        split_acc(
            s.drop_first(),
            cur.push(s.first()),
            if s.first() == '"' {
                !inq
            } else {
                inq
            },
        )
    }
}

/// The comma-separated elements of an attribute list.
pub open spec fn split_attr_elems(s: Seq<char>) -> Seq<Seq<char>> {
    split_acc(s, Seq::empty(), false)
}

/// An element's name/value pair: the parts before and after its first `=`,
/// or nothing when it has no `=`.
pub open spec fn split_eq(e: Seq<char>) -> Option<(Seq<char>, Seq<char>)> {
    match find_first(e, '=') {
        None => None,
        Some(i) => Some((e.take(i), e.skip(i + 1))),
    }
}

/// The name/value pairs of the elements, in order, `=`-less elements dropped.
pub open spec fn elems_pairs(elems: Seq<Seq<char>>) -> Seq<(Seq<char>, Seq<char>)>
    decreases elems.len(),
{
    if elems.len() == 0 {
        Seq::empty()
    } else {
        elems_pairs(elems.drop_last()) + (match split_eq(elems.last()) {
            None => Seq::empty(),
            Some(p) => seq![p],
        })
    }
}

/// Writes value `v` under name `k`: replaces the value in place if the name
/// is present, else appends the pair.
pub open spec fn assoc_set(
    ps: Seq<(Seq<char>, Seq<char>)>,
    k: Seq<char>,
    v: Seq<char>,
) -> Seq<(Seq<char>, Seq<char>)>
    decreases ps.len(),
{
    if ps.len() == 0 {
        seq![(k, v)]
    } else if ps.first().0 == k {
        seq![(k, v)] + ps.drop_first()
    } else {
        seq![ps.first()] + assoc_set(ps.drop_first(), k, v)
    }
}

/// Collapses repeated names, the last value winning.
pub open spec fn dedup_pairs(ps: Seq<(Seq<char>, Seq<char>)>) -> Seq<(Seq<char>, Seq<char>)>
    decreases ps.len(),
{
    if ps.len() == 0 {
        Seq::empty()
    } else {
        assoc_set(dedup_pairs(ps.drop_last()), ps.last().0, ps.last().1)
    }
}

/// The attribute mapping denoted by the text after a tag's colon.
pub open spec fn attr_pairs(s: Seq<char>) -> Seq<(Seq<char>, Seq<char>)> {
    dedup_pairs(elems_pairs(split_attr_elems(s)))
}

/// The quote parity after scanning `e` from parity `inq`.
pub open spec fn parity_after(e: Seq<char>, inq: bool) -> bool
    decreases e.len(),
{
    if e.len() == 0 {
        inq
    } else {
        parity_after(
            e.drop_first(),
            if e.first() == '"' {
                !inq
            } else {
                inq
            },
        )
    }
}

/// Whether a scan of `e` from parity `inq` meets a comma outside quotes —
/// that is, whether `e` would split.
pub open spec fn has_outside_comma(e: Seq<char>, inq: bool) -> bool
    decreases e.len(),
{
    if e.len() == 0 {
        false
    } else if e.first() == ',' && !inq {
        true
    } else {
        has_outside_comma(
            e.drop_first(),
            if e.first() == '"' {
                !inq
            } else {
                inq
            },
        )
    }
}

/// Scanning a concatenation: parity chains, and an outside comma lies in
/// one part or the other.
pub proof fn lemma_scan_concat(a: Seq<char>, b: Seq<char>, inq: bool)
    ensures
        parity_after(a + b, inq) == parity_after(b, parity_after(a, inq)),
        has_outside_comma(a + b, inq) == (has_outside_comma(a, inq) || has_outside_comma(
            b,
            parity_after(a, inq),
        )),
    decreases a.len(),
{
    if a.len() == 0 {
        assert(a + b =~= b);
    } else {
        assert((a + b).first() == a.first());
        assert((a + b).drop_first() =~= a.drop_first() + b);
        lemma_scan_concat(
            a.drop_first(),
            b,
            if a.first() == '"' {
                !inq
            } else {
                inq
            },
        );
    }
}

/// A text without commas and quotes neither splits nor changes parity.
pub proof fn lemma_scan_plain(e: Seq<char>, inq: bool)
    requires
        forall|j: int| 0 <= j < e.len() ==> (#[trigger] e[j]) != ',' && e[j] != '"',
    ensures
        !has_outside_comma(e, inq),
        parity_after(e, inq) == inq,
    decreases e.len(),
{
    if e.len() > 0 {
        assert(forall|j: int|
            0 <= j < e.drop_first().len() ==> (#[trigger] e.drop_first()[j]) == e[j + 1]);
        lemma_scan_plain(e.drop_first(), inq);
    }
}

/// A part of the text that would not split is absorbed whole into the
/// element under construction.
pub proof fn lemma_split_acc_absorb(e: Seq<char>, rest: Seq<char>, cur: Seq<char>, inq: bool)
    requires
        !has_outside_comma(e, inq),
    ensures
        split_acc(e + rest, cur, inq) == split_acc(rest, cur + e, parity_after(e, inq)),
    decreases e.len(),
{
    if e.len() == 0 {
        assert(e + rest =~= rest);
        assert(cur + e =~= cur);
    } else {
        assert((e + rest).first() == e.first());
        assert((e + rest).drop_first() =~= e.drop_first() + rest);
        assert(cur.push(e.first()) + e.drop_first() =~= cur + e);
        lemma_split_acc_absorb(
            e.drop_first(),
            rest,
            cur.push(e.first()),
            if e.first() == '"' {
                !inq
            } else {
                inq
            },
        );
    }
}

/// A comma outside quotes closes the element under construction.
pub proof fn lemma_split_acc_comma(rest: Seq<char>, cur: Seq<char>)
    ensures
        split_acc(seq![','] + rest, cur, false) == seq![cur] + split_acc(
            rest,
            Seq::empty(),
            false,
        ),
{
    assert((seq![','] + rest).first() == ',');
    assert((seq![','] + rest).drop_first() =~= rest);
}

/// The value under name `k`, at its first occurrence.
pub open spec fn assoc_lookup(ps: Seq<(Seq<char>, Seq<char>)>, k: Seq<char>) -> Option<Seq<char>>
    decreases ps.len(),
{
    if ps.len() == 0 {
        None
    } else if ps.first().0 == k {
        Some(ps.first().1)
    } else {
        assoc_lookup(ps.drop_first(), k)
    }
}

pub open spec fn assoc_has_key(ps: Seq<(Seq<char>, Seq<char>)>, k: Seq<char>) -> bool {
    assoc_lookup(ps, k) is Some
}

pub open spec fn unique_keys(ps: Seq<(Seq<char>, Seq<char>)>) -> bool {
    forall|i: int, j: int| 0 <= i < j < ps.len() ==> (#[trigger] ps[i]).0 != (#[trigger] ps[j]).0
}

pub proof fn lemma_assoc_set_lookup(
    ps: Seq<(Seq<char>, Seq<char>)>,
    k: Seq<char>,
    v: Seq<char>,
    k2: Seq<char>,
)
    ensures
        assoc_lookup(assoc_set(ps, k, v), k2) == if k2 == k {
            Some(v)
        } else {
            assoc_lookup(ps, k2)
        },
    decreases ps.len(),
{
    let r = assoc_set(ps, k, v);
    if ps.len() == 0 {
        assert(r =~= seq![(k, v)]);
        assert(r.first() == (k, v));
        if k2 != k {
            assert(r.drop_first() =~= Seq::<(Seq<char>, Seq<char>)>::empty());
            assert(assoc_lookup(r, k2) == assoc_lookup(r.drop_first(), k2));
            assert(assoc_lookup(r.drop_first(), k2) is None);
        }
    } else if ps.first().0 != k {
        lemma_assoc_set_lookup(ps.drop_first(), k, v, k2);
        assert(r == seq![ps.first()] + assoc_set(ps.drop_first(), k, v));
        assert(r.first() == ps.first());
        assert(r.len() > 0);
        assert(r.drop_first() =~= assoc_set(ps.drop_first(), k, v));
        if k2 == ps.first().0 {
            assert(assoc_lookup(r, k2) == Some(ps.first().1));
            assert(assoc_lookup(ps, k2) == Some(ps.first().1));
        } else {
            assert(assoc_lookup(r, k2) == assoc_lookup(assoc_set(ps.drop_first(), k, v), k2));
            assert(assoc_lookup(ps, k2) == assoc_lookup(ps.drop_first(), k2));
        }
    } else {
        assert(r == seq![(k, v)] + ps.drop_first());
        assert(r.first() == (k, v));
        assert(r.len() > 0);
        if k2 == k {
            assert(assoc_lookup(r, k2) == Some(v));
        } else {
            assert(r.drop_first() =~= ps.drop_first());
            assert(assoc_lookup(r, k2) == assoc_lookup(ps.drop_first(), k2));
            assert(assoc_lookup(ps, k2) == assoc_lookup(ps.drop_first(), k2));
        }
    }
}

pub proof fn lemma_assoc_set_unique(ps: Seq<(Seq<char>, Seq<char>)>, k: Seq<char>, v: Seq<char>)
    requires
        unique_keys(ps),
    ensures
        unique_keys(assoc_set(ps, k, v)),
        assoc_set(ps, k, v).len() >= ps.len(),
    decreases ps.len(),
{
    let r = assoc_set(ps, k, v);
    if ps.len() == 0 {
    } else if ps.first().0 == k {
        assert forall|i: int, j: int| 0 <= i < j < r.len() implies (#[trigger] r[i]).0 != (
        #[trigger] r[j]).0 by {
            assert(r[0] == (k, v));
            if i > 0 {
                assert(r[i] == ps[i]);
            }
            assert(r[j] == ps[j]);
            if i == 0 {
                assert(ps[j].0 != ps[0].0);
            }
        }
    } else {
        assert(unique_keys(ps.drop_first())) by {
            assert forall|i: int, j: int|
                0 <= i < j < ps.drop_first().len() implies (#[trigger] ps.drop_first()[i]).0 != (
            #[trigger] ps.drop_first()[j]).0 by {
                assert(ps.drop_first()[i] == ps[i + 1]);
                assert(ps.drop_first()[j] == ps[j + 1]);
            }
        }
        lemma_assoc_set_unique(ps.drop_first(), k, v);
        let rr = assoc_set(ps.drop_first(), k, v);
        lemma_assoc_set_lookup(ps.drop_first(), k, v, ps.first().0);
        lemma_assoc_lookup_none(rr, ps.first().0);
        lemma_assoc_lookup_none(ps.drop_first(), ps.first().0);
        assert forall|i: int, j: int| 0 <= i < j < r.len() implies (#[trigger] r[i]).0 != (
        #[trigger] r[j]).0 by {
            assert(r[0] == ps.first());
            if i > 0 {
                assert(r[i] == rr[i - 1]);
            }
            assert(r[j] == rr[j - 1]);
            if i == 0 {
                if ps.first().0 == k {
                } else {
                    assert(assoc_lookup(ps, ps.first().0) == Some(ps.first().1));
                    assert(forall|m: int|
                        0 <= m < ps.drop_first().len() ==> (#[trigger] ps.drop_first()[m]) == ps[m
                            + 1]);
                }
            }
        }
    }
}

/// A key that `assoc_lookup` misses heads no pair, and the other way round.
pub proof fn lemma_assoc_lookup_none(ps: Seq<(Seq<char>, Seq<char>)>, k: Seq<char>)
    ensures
        (assoc_lookup(ps, k) is None) <==> (forall|i: int|
            0 <= i < ps.len() ==> (#[trigger] ps[i]).0 != k),
    decreases ps.len(),
{
    if ps.len() > 0 {
        lemma_assoc_lookup_none(ps.drop_first(), k);
        assert(forall|i: int|
            0 <= i < ps.drop_first().len() ==> (#[trigger] ps.drop_first()[i]) == ps[i + 1]);
        if ps.first().0 != k {
            if assoc_lookup(ps, k) is None {
                assert forall|i: int| 0 <= i < ps.len() implies (#[trigger] ps[i]).0 != k by {
                    if i > 0 {
                        assert(ps.drop_first()[i - 1] == ps[i]);
                    }
                }
            }
        }
    }
}

/// Every attribute mapping has unique names.
pub proof fn lemma_dedup_unique(ps: Seq<(Seq<char>, Seq<char>)>)
    ensures
        unique_keys(dedup_pairs(ps)),
    decreases ps.len(),
{
    if ps.len() > 0 {
        lemma_dedup_unique(ps.drop_last());
        lemma_assoc_set_unique(dedup_pairs(ps.drop_last()), ps.last().0, ps.last().1);
    }
}

/// The views of a vector of owned name/value pairs.
pub open spec fn kv_view(v: Seq<(String, String)>) -> Seq<(Seq<char>, Seq<char>)> {
    Seq::new(v.len(), |i: int| (v[i].0@, v[i].1@))
}

/// The views of a vector of borrowed elements.
pub open spec fn elems_view(v: Seq<&str>) -> Seq<Seq<char>> {
    Seq::new(v.len(), |i: int| v[i]@)
}

pub proof fn lemma_assoc_set_replace(
    ps: Seq<(Seq<char>, Seq<char>)>,
    k: Seq<char>,
    v: Seq<char>,
    idx: int,
)
    requires
        0 <= idx < ps.len(),
        ps[idx].0 == k,
        forall|j: int| 0 <= j < idx ==> (#[trigger] ps[j]).0 != k,
    ensures
        assoc_set(ps, k, v) =~= ps.update(idx, (k, v)),
    decreases ps.len(),
{
    if idx == 0 {
        assert(assoc_set(ps, k, v) =~= seq![(k, v)] + ps.drop_first());
    } else {
        assert(ps.first().0 != k);
        assert(forall|j: int|
            0 <= j < ps.drop_first().len() ==> (#[trigger] ps.drop_first()[j]) == ps[j + 1]);
        lemma_assoc_set_replace(ps.drop_first(), k, v, idx - 1);
    }
}

pub proof fn lemma_assoc_set_append(ps: Seq<(Seq<char>, Seq<char>)>, k: Seq<char>, v: Seq<char>)
    requires
        forall|j: int| 0 <= j < ps.len() ==> (#[trigger] ps[j]).0 != k,
    ensures
        assoc_set(ps, k, v) =~= ps.push((k, v)),
    decreases ps.len(),
{
    if ps.len() > 0 {
        assert(forall|j: int|
            0 <= j < ps.drop_first().len() ==> (#[trigger] ps.drop_first()[j]) == ps[j + 1]);
        lemma_assoc_set_append(ps.drop_first(), k, v);
    }
}

/// Splits `s` at every tab, `cur` being the element under construction:
/// the internal list syntax of `RECENTLY-REMOVED-DATERANGES`.
pub open spec fn tab_split_acc(s: Seq<char>, cur: Seq<char>) -> Seq<Seq<char>>
    decreases s.len(),
{
    if s.len() == 0 {
        seq![cur]
    } else if s.first() == '\t' {
        seq![cur] + tab_split_acc(s.drop_first(), Seq::empty())
    } else {
        tab_split_acc(s.drop_first(), cur.push(s.first()))
    }
}

/// The tab-delimited items of a raw attribute value, in order.
pub open spec fn tab_split(s: Seq<char>) -> Seq<Seq<char>> {
    tab_split_acc(s, Seq::empty())
}

/// The views of a vector of owned strings.
pub open spec fn strings_view(v: Seq<String>) -> Seq<Seq<char>> {
    Seq::new(v.len(), |i: int| v[i]@)
}

/// Splits a raw value at tabs into its ordered items.
pub fn split_tab_list(s: &str) -> (r: Vec<String>)
    ensures
        strings_view(r@) =~= tab_split(s@),
{
    let n = s.unicode_len();
    let mut out: Vec<String> = Vec::new();
    let mut start: usize = 0;
    let mut i: usize = 0;
    proof {
        assert(s@.skip(0) =~= s@);
        assert(s@.subrange(0, 0) =~= Seq::<char>::empty());
        assert(strings_view(out@) =~= Seq::<Seq<char>>::empty());
        assert(strings_view(out@) + tab_split_acc(s@, Seq::<char>::empty()) =~= tab_split_acc(
            s@,
            Seq::<char>::empty(),
        ));
    }
    while i < n
        invariant
            start <= i <= n,
            n == s@.len(),
            tab_split(s@) =~= strings_view(out@) + tab_split_acc(
                s@.skip(i as int),
                s@.subrange(start as int, i as int),
            ),
        decreases n - i,
    {
        let c = s.get_char(i);
        proof {
            assert(s@.skip(i as int).first() == s@[i as int]);
            assert(s@.skip(i as int).drop_first() =~= s@.skip(i + 1));
        }
        if c == '\t' {
            let e = s.substring_char(start, i).to_owned();
            proof {
                assert(e@ =~= s@.subrange(start as int, i as int));
                assert(s@.subrange(i + 1, i + 1) =~= Seq::<char>::empty());
                assert(strings_view(out@.push(e)) =~= strings_view(out@) + seq![e@]);
                assert(strings_view(out@) + tab_split_acc(
                    s@.skip(i as int),
                    s@.subrange(start as int, i as int),
                ) =~= strings_view(out@.push(e)) + tab_split_acc(
                    s@.skip(i + 1),
                    s@.subrange(i + 1, i + 1),
                ));
            }
            out.push(e);
            start = i + 1;
        } else {
            proof {
                assert(s@.subrange(start as int, i as int).push(s@[i as int]) =~= s@.subrange(
                    start as int,
                    i + 1,
                ));
            }
        }
        i = i + 1;
    }
    let e = s.substring_char(start, n).to_owned();
    proof {
        assert(e@ =~= s@.subrange(start as int, n as int));
        assert(s@.skip(n as int) =~= Seq::<char>::empty());
        assert(strings_view(out@.push(e)) =~= strings_view(out@) + seq![e@]);
    }
    out.push(e);
    out
}

/// Splits one tag's attribute text into its name/value mapping: unique
/// names in order of first appearance, each with its last value.
pub fn read_attributes(s: &str) -> (r: Vec<(String, String)>)
    ensures
        kv_view(r@) =~= attr_pairs(s@),
        unique_keys(kv_view(r@)),
{
    let n = s.unicode_len();
    let mut elems: Vec<&str> = Vec::new();
    let mut start: usize = 0;
    let mut i: usize = 0;
    let mut inq: bool = false;
    proof {
        assert(s@.skip(0) =~= s@);
        assert(s@.subrange(0, 0) =~= Seq::<char>::empty());
        assert(elems_view(elems@) =~= Seq::<Seq<char>>::empty());
        assert(elems_view(elems@) + split_acc(s@, Seq::<char>::empty(), false) =~= split_acc(
            s@,
            Seq::<char>::empty(),
            false,
        ));
    }
    while i < n
        invariant
            start <= i <= n,
            n == s@.len(),
            split_attr_elems(s@) =~= elems_view(elems@) + split_acc(
                s@.skip(i as int),
                s@.subrange(start as int, i as int),
                inq,
            ),
        decreases n - i,
    {
        let c = s.get_char(i);
        proof {
            assert(s@.skip(i as int).first() == s@[i as int]);
            assert(s@.skip(i as int).drop_first() =~= s@.skip(i + 1));
        }
        if c == ',' && !inq {
            let e = s.substring_char(start, i);
            proof {
                assert(e@ =~= s@.subrange(start as int, i as int));
                assert(s@.subrange(i + 1, i + 1) =~= Seq::<char>::empty());
                assert(elems_view(elems@.push(e)) =~= elems_view(elems@) + seq![e@]);
                assert(elems_view(elems@) + split_acc(
                    s@.skip(i as int),
                    s@.subrange(start as int, i as int),
                    inq,
                ) =~= elems_view(elems@.push(e)) + split_acc(
                    s@.skip(i + 1),
                    s@.subrange(i + 1, i + 1),
                    false,
                ));
            }
            elems.push(e);
            start = i + 1;
        } else {
            proof {
                assert(s@.subrange(start as int, i as int).push(s@[i as int]) =~= s@.subrange(
                    start as int,
                    i + 1,
                ));
            }
            if c == '"' {
                inq = !inq;
            }
        }
        i = i + 1;
    }
    let e = s.substring_char(start, n);
    proof {
        assert(e@ =~= s@.subrange(start as int, n as int));
        assert(s@.skip(n as int) =~= Seq::<char>::empty());
        assert(elems_view(elems@.push(e)) =~= elems_view(elems@) + seq![e@]);
    }
    elems.push(e);
    let ghost all_elems = elems_view(elems@);
    assert(all_elems =~= split_attr_elems(s@));

    let mut out: Vec<(String, String)> = Vec::new();
    let mut t: usize = 0;
    while t < elems.len()
        invariant
            t <= elems@.len(),
            all_elems == elems_view(elems@),
            kv_view(out@) =~= dedup_pairs(elems_pairs(all_elems.take(t as int))),
            unique_keys(kv_view(out@)),
        decreases elems@.len() - t,
    {
        let e: &str = elems[t];
        let en = e.unicode_len();
        proof {
            assert(all_elems.take(t + 1).drop_last() =~= all_elems.take(t as int));
            assert(all_elems.take(t + 1).last() == e@);
        }
        match str_find(e, '=') {
            None => {
                proof {
                    assert(elems_pairs(all_elems.take(t + 1)) =~= elems_pairs(
                        all_elems.take(t as int),
                    ));
                }
            },
            Some(j) => {
                proof {
                    crate::chars::lemma_find_first(e@, '=');
                }
                let k = e.substring_char(0, j).to_owned();
                let v = e.substring_char(j + 1, en).to_owned();
                proof {
                    assert(k@ =~= e@.take(j as int));
                    assert(v@ =~= e@.skip(j + 1));
                    assert(elems_pairs(all_elems.take(t + 1)) =~= elems_pairs(
                        all_elems.take(t as int),
                    ).push((k@, v@)));
                    assert(elems_pairs(all_elems.take(t + 1)).drop_last() =~= elems_pairs(
                        all_elems.take(t as int),
                    ));
                }
                let mut idx: usize = 0;
                let mut found: bool = false;
                while idx < out.len() && !found
                    invariant
                        idx <= out@.len(),
                        found ==> idx < out@.len() && out@[idx as int].0@ == k@,
                        forall|j2: int| 0 <= j2 < idx ==> (#[trigger] kv_view(out@)[j2]).0 != k@,
                    decreases
                            out@.len() - idx + (if found {
                                0int
                            } else {
                                1int
                            }),
                {
                    if str_eq(out[idx].0.as_str(), k.as_str()) {
                        found = true;
                    } else {
                        idx = idx + 1;
                    }
                }
                let ghost prev = kv_view(out@);
                if found {
                    proof {
                        lemma_assoc_set_replace(prev, k@, v@, idx as int);
                    }
                    out[idx] = (k, v);
                    proof {
                        assert(kv_view(out@) =~= prev.update(idx as int, (k@, v@)));
                        lemma_dedup_unique(elems_pairs(all_elems.take(t + 1)));
                    }
                } else {
                    proof {
                        assert(forall|j2: int|
                            0 <= j2 < prev.len() ==> (#[trigger] prev[j2]).0 != k@);
                        lemma_assoc_set_append(prev, k@, v@);
                    }
                    out.push((k, v));
                    proof {
                        assert(kv_view(out@) =~= prev.push((k@, v@)));
                        lemma_dedup_unique(elems_pairs(all_elems.take(t + 1)));
                    }
                }
            },
        }
        t = t + 1;
    }
    proof {
        assert(all_elems.take(elems@.len() as int) =~= all_elems);
    }
    out
}

} // verus!

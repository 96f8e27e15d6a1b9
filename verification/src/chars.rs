//! Character classes and string scanning helpers shared by the playlist
//! parser: whitespace trimming, prefix tests, and first-occurrence search.

use vstd::prelude::*;

verus! {

/// Digit characters of the decimal number grammar.
pub open spec fn is_digit_char(c: char) -> bool {
    48 <= c as int && c as int <= 57
}

pub fn digit_char(c: char) -> (r: bool)
    ensures
        r == is_digit_char(c),
{
    let u = c as u32;
    48 <= u && u <= 57
}

/// The whitespace characters stripped from line ends: space, tab, carriage
/// return and line feed.
pub open spec fn is_ws_char(c: char) -> bool {
    c == ' ' || c == '\t' || c == '\r' || c == '\n'
}

pub fn ws_char(c: char) -> (r: bool)
    ensures
        r == is_ws_char(c),
{
    c == ' ' || c == '\t' || c == '\r' || c == '\n'
}

/// `s` with every trailing whitespace character removed.
pub open spec fn trim_end_spec(s: Seq<char>) -> Seq<char>
    decreases s.len(),
{
    if s.len() > 0 && is_ws_char(s.last()) {
        trim_end_spec(s.drop_last())
    } else {
        s
    }
}

/// `s` with every leading whitespace character removed.
pub open spec fn trim_start_spec(s: Seq<char>) -> Seq<char>
    decreases s.len(),
{
    if s.len() > 0 && is_ws_char(s.first()) {
        trim_start_spec(s.drop_first())
    } else {
        s
    }
}

/// `s` with whitespace removed from both ends.
pub open spec fn trim_spec(s: Seq<char>) -> Seq<char> {
    trim_start_spec(trim_end_spec(s))
}

/// Index of the first occurrence of `c` in `s`, if any.
pub open spec fn find_first(s: Seq<char>, c: char) -> Option<int>
    decreases s.len(),
{
    if s.len() == 0 {
        None
    } else if s.first() == c {
        Some(0int)
    } else {
        match find_first(s.drop_first(), c) {
            None => None,
            Some(i) => Some(i + 1),
        }
    }
}

pub proof fn lemma_find_first(s: Seq<char>, c: char)
    ensures
        match find_first(s, c) {
            None => forall|j: int| 0 <= j < s.len() ==> s[j] != c,
            Some(i) => 0 <= i < s.len() && s[i] == c && (forall|j: int| 0 <= j < i ==> s[j] != c),
        },
    decreases s.len(),
{
    if s.len() > 0 && s.first() != c {
        lemma_find_first(s.drop_first(), c);
        assert forall|j: int| 0 <= j < s.len() implies s.drop_first()[j - 1] == s[j] || j == 0 by {}
    }
}

/// Whether `p` is a prefix of `s`.
pub open spec fn has_prefix(s: Seq<char>, p: Seq<char>) -> bool {
    s.len() >= p.len() && s.subrange(0, p.len() as int) =~= p
}

/// Equality test between two string slices, stated over their views.
pub fn str_eq(a: &str, b: &str) -> (r: bool)
    ensures
        r == (a@ == b@),
{
    let an = a.unicode_len();
    let bn = b.unicode_len();
    if an != bn {
        assert(a@ !~= b@);
        return false;
    }
    let mut i: usize = 0;
    while i < an
        invariant
            i <= an,
            an == a@.len(),
            an == b@.len(),
            forall|j: int| 0 <= j < i ==> a@[j] == b@[j],
        decreases an - i,
    {
        if a.get_char(i) != b.get_char(i) {
            return false;
        }
        i = i + 1;
    }
    assert(a@ =~= b@);
    true
}

/// Whether `s` begins with `p`, stated over the views.
pub fn str_starts_with(s: &str, p: &str) -> (r: bool)
    ensures
        r == has_prefix(s@, p@),
{
    let sn = s.unicode_len();
    let pn = p.unicode_len();
    if sn < pn {
        return false;
    }
    let mut i: usize = 0;
    while i < pn
        invariant
            i <= pn,
            pn == p@.len(),
            sn == s@.len(),
            sn >= pn,
            forall|j: int| 0 <= j < i ==> s@[j] == p@[j],
        decreases pn - i,
    {
        if s.get_char(i) != p.get_char(i) {
            assert(!has_prefix(s@, p@));
            return false;
        }
        i = i + 1;
    }
    assert(s@.subrange(0, p@.len() as int) =~= p@);
    true
}

/// First index of `c` in `s`, matching `find_first` on the view.
pub fn str_find(s: &str, c: char) -> (r: Option<usize>)
    ensures
        match r {
            None => find_first(s@, c) is None,
            Some(i) => find_first(s@, c) == Some(i as int),
        },
{
    let n = s.unicode_len();
    let mut i: usize = 0;
    while i < n
        invariant
            i <= n,
            n == s@.len(),
            forall|j: int| 0 <= j < i ==> s@[j] != c,
        decreases n - i,
    {
        if s.get_char(i) == c {
            proof {
                lemma_find_first(s@, c);
                match find_first(s@, c) {
                    None => {
                        assert(false);
                    },
                    Some(k) => {
                        assert(k == i);
                    },
                }
            }
            return Some(i);
        }
        i = i + 1;
    }
    proof {
        lemma_find_first(s@, c);
    }
    None
}

pub proof fn lemma_trim_end_take(s: Seq<char>, e: int)
    requires
        0 <= e <= s.len(),
        forall|j: int| e <= j < s.len() ==> is_ws_char(s[j]),
        e == 0 || !is_ws_char(s[e - 1]),
    ensures
        trim_end_spec(s) =~= s.take(e),
    decreases s.len(),
{
    if e == s.len() {
        if s.len() > 0 {
            assert(!is_ws_char(s.last()));
        }
        assert(trim_end_spec(s) == s);
        assert(s.take(e) =~= s);
    } else {
        assert(is_ws_char(s.last()));
        lemma_trim_end_take(s.drop_last(), e);
        assert(s.drop_last().take(e) =~= s.take(e));
    }
}

pub proof fn lemma_trim_start_skip(s: Seq<char>, b: int)
    requires
        0 <= b <= s.len(),
        forall|j: int| 0 <= j < b ==> is_ws_char(s[j]),
        b == s.len() || !is_ws_char(s[b]),
    ensures
        trim_start_spec(s) =~= s.skip(b),
    decreases b,
{
    if b == 0 {
        if s.len() > 0 {
            assert(!is_ws_char(s.first()));
        }
        assert(s.skip(0) =~= s);
    } else {
        assert(is_ws_char(s.first()));
        assert(trim_start_spec(s) == trim_start_spec(s.drop_first()));
        lemma_trim_start_skip(s.drop_first(), b - 1);
        assert(s.drop_first().skip(b - 1) =~= s.skip(b));
    }
}

/// Trimming the end keeps a prefix of the string.
pub proof fn lemma_trim_end_is_prefix(s: Seq<char>)
    ensures
        trim_end_spec(s).len() <= s.len(),
        trim_end_spec(s) =~= s.take(trim_end_spec(s).len() as int),
    decreases s.len(),
{
    if s.len() > 0 && is_ws_char(s.last()) {
        lemma_trim_end_is_prefix(s.drop_last());
        assert(s.drop_last().take(trim_end_spec(s).len() as int) =~= s.take(
            trim_end_spec(s).len() as int,
        ));
    } else {
        assert(s.take(s.len() as int) =~= s);
    }
}

/// A non-whitespace character survives end trimming.
pub proof fn lemma_trim_end_keeps_nonws(s: Seq<char>, j: int)
    requires
        0 <= j < s.len(),
        !is_ws_char(s[j]),
    ensures
        trim_end_spec(s).len() > j,
    decreases s.len(),
{
    if s.len() > 0 && is_ws_char(s.last()) {
        assert(j < s.len() - 1);
        lemma_trim_end_keeps_nonws(s.drop_last(), j);
    }
}

/// `s` with trailing whitespace removed.
pub fn str_trim_end(s: &str) -> (r: &str)
    ensures
        r@ =~= trim_end_spec(s@),
{
    let n = s.unicode_len();
    let mut e: usize = n;
    while e > 0 && ws_char(s.get_char(e - 1))
        invariant
            e <= n,
            n == s@.len(),
            forall|j: int| e <= j < s@.len() ==> is_ws_char(s@[j]),
        decreases e,
    {
        e = e - 1;
    }
    proof {
        lemma_trim_end_take(s@, e as int);
    }
    s.substring_char(0, e)
}

/// `s` with whitespace removed from both ends.
pub fn str_trim(s: &str) -> (r: &str)
    ensures
        r@ =~= trim_spec(s@),
{
    let t = str_trim_end(s);
    let n = t.unicode_len();
    let mut b: usize = 0;
    while b < n && ws_char(t.get_char(b))
        invariant
            b <= n,
            n == t@.len(),
            forall|j: int| 0 <= j < b ==> is_ws_char(t@[j]),
        decreases n - b,
    {
        b = b + 1;
    }
    proof {
        lemma_trim_start_skip(t@, b as int);
    }
    t.substring_char(b, n)
}

} // verus!

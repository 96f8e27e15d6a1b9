//! Textual number grammars of the playlist format: unsigned integers
//! (`EXT-X-TARGETDURATION`, `LAST-MSN`, ...) and decimal durations, which
//! are kept in their textual form so that serialization reproduces the
//! document exactly.

use vstd::prelude::*;

use crate::chars::find_first;
use crate::chars::is_digit_char;

use crate::chars::digit_char;
use crate::chars::str_find;

verus! {

/// Whether every character of `s` is a decimal digit.
pub open spec fn all_digits(s: Seq<char>) -> bool {
    forall|j: int| 0 <= j < s.len() ==> is_digit_char(#[trigger] s[j])
}

/// Numeric value of a digit string, most significant digit first.
pub open spec fn dec_val(s: Seq<char>) -> int
    decreases s.len(),
{
    if s.len() == 0 {
        0
    } else {
        dec_val(s.drop_last()) * 10 + (s.last() as int - 48)
    }
}

/// The value a digit string denotes as a `u32`: defined exactly when the
/// string is non-empty, all digits, and the value fits.
pub open spec fn spec_parse_u32(s: Seq<char>) -> Option<u32> {
    if s.len() > 0 && all_digits(s) && dec_val(s) <= u32::MAX {
        Some(dec_val(s) as u32)
    } else {
        None
    }
}

proof fn lemma_dec_val_nonneg(s: Seq<char>)
    requires
        all_digits(s),
    ensures
        dec_val(s) >= 0,
    decreases s.len(),
{
    if s.len() > 0 {
        assert(all_digits(s.drop_last()));
        lemma_dec_val_nonneg(s.drop_last());
    }
}

proof fn lemma_dec_val_prefix_le(s: Seq<char>, i: int)
    requires
        all_digits(s),
        0 <= i <= s.len(),
    ensures
        dec_val(s.take(i)) <= dec_val(s),
    decreases s.len() - i,
{
    assert(all_digits(s.take(i)));
    lemma_dec_val_nonneg(s.take(i));
    if i < s.len() {
        assert(s.take(i + 1).drop_last() =~= s.take(i));
        assert(s.take(i + 1).last() == s[i]);
        assert(dec_val(s.take(i + 1)) == dec_val(s.take(i)) * 10 + (s[i] as int - 48));
        lemma_dec_val_prefix_le(s, i + 1);
    } else {
        assert(s.take(i) =~= s);
    }
}

/// Parses a non-empty all-digit string into a `u32`; rejects any other
/// input, including values that do not fit.
pub fn parse_u32(s: &str) -> (r: Option<u32>)
    ensures
        r == spec_parse_u32(s@),
{
    let n = s.unicode_len();
    if n == 0 {
        return None;
    }
    let mut acc: u32 = 0;
    let mut i: usize = 0;
    while i < n
        invariant
            i <= n,
            n == s@.len(),
            n > 0,
            all_digits(s@.take(i as int)),
            acc == dec_val(s@.take(i as int)),
        decreases n - i,
    {
        let c = s.get_char(i);
        if !digit_char(c) {
            assert(!all_digits(s@));
            return None;
        }
        let d: u32 = (c as u32) - 48;
        proof {
            assert(s@.take(i + 1).drop_last() =~= s@.take(i as int));
            assert(s@.take(i + 1).last() == s@[i as int]);
        }
        if acc > (u32::MAX - d) / 10 {
            proof {
                assert(dec_val(s@.take(i + 1)) == acc * 10 + d);
                assert(acc * 10 + d > u32::MAX) by (nonlinear_arith)
                    requires
                        acc > (u32::MAX - d) / 10,
                        d <= 9,
                ;
                if all_digits(s@) {
                    lemma_dec_val_prefix_le(s@, i + 1);
                }
            }
            return None;
        }
        acc = acc * 10 + d;
        i = i + 1;
    }
    proof {
        assert(s@.take(n as int) =~= s@);
    }
    Some(acc)
}

/// An unsigned decimal literal: digits, optionally followed by a point and
/// at least one more digit.
pub open spec fn is_unsigned_decimal(s: Seq<char>) -> bool {
    match find_first(s, '.') {
        None => s.len() > 0 && all_digits(s),
        Some(i) => 0 < i && all_digits(s.take(i)) && i + 1 < s.len() && all_digits(
            s.skip(i + 1),
        ),
    }
}

/// A decimal literal with an optional leading minus sign.
pub open spec fn is_decimal_text(s: Seq<char>) -> bool {
    if s.len() > 0 && s.first() == '-' {
        is_unsigned_decimal(s.drop_first())
    } else {
        is_unsigned_decimal(s)
    }
}

fn str_all_digits(s: &str) -> (r: bool)
    ensures
        r == all_digits(s@),
{
    let n = s.unicode_len();
    let mut i: usize = 0;
    while i < n
        invariant
            i <= n,
            n == s@.len(),
            forall|j: int| 0 <= j < i ==> is_digit_char(#[trigger] s@[j]),
        decreases n - i,
    {
        if !digit_char(s.get_char(i)) {
            return false;
        }
        i = i + 1;
    }
    true
}

fn str_is_unsigned_decimal(s: &str) -> (r: bool)
    ensures
        r == is_unsigned_decimal(s@),
{
    let n = s.unicode_len();
    match str_find(s, '.') {
        None => n > 0 && str_all_digits(s),
        Some(i) => {
            proof {
                crate::chars::lemma_find_first(s@, '.');
            }
            if i == 0 {
                return false;
            }
            let head = s.substring_char(0, i);
            if !str_all_digits(head) {
                assert(head@ =~= s@.take(i as int));
                return false;
            }
            if i + 1 >= n {
                return false;
            }
            let tail = s.substring_char(i + 1, n);
            assert(head@ =~= s@.take(i as int));
            assert(tail@ =~= s@.skip(i + 1));
            str_all_digits(tail)
        },
    }
}

/// Whether `s` is a decimal literal, sign included.
pub fn str_is_decimal(s: &str) -> (r: bool)
    ensures
        r == is_decimal_text(s@),
{
    let n = s.unicode_len();
    if n > 0 && s.get_char(0) == '-' {
        let body = s.substring_char(1, n);
        assert(body@ =~= s@.drop_first());
        str_is_unsigned_decimal(body)
    } else {
        str_is_unsigned_decimal(s)
    }
}

/// A decimal number kept in the exact textual form it had in the document
/// (for example `0.33334` or `-6.0`).
#[derive(Debug)]
pub struct Decimal {
    pub text: String,
}

impl View for Decimal {
    type V = Seq<char>;

    open spec fn view(&self) -> Seq<char> {
        self.text@
    }
}

impl Decimal {
    /// A well-formed value holds decimal-literal text.
    pub open spec fn wf(&self) -> bool {
        is_decimal_text(self.text@)
    }

    /// Accepts exactly the decimal-literal strings.
    pub fn parse(s: &str) -> (r: Option<Decimal>)
        ensures
            match r {
                Some(d) => is_decimal_text(s@) && d@ == s@ && d.wf(),
                None => !is_decimal_text(s@),
            },
    {
        if str_is_decimal(s) {
            Some(Decimal { text: s.to_owned() })
        } else {
            None
        }
    }

    /// The textual form, unchanged from the document.
    pub fn as_text(&self) -> (r: &str)
        ensures
            r@ == self@,
    {
        self.text.as_str()
    }
}

} // verus!

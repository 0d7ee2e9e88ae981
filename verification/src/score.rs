//! Candidate scoring: the score constants of each icon tier, and parsing the
//! leading numeric token of a `sizes` attribute (`"32x32"` scores 32).

use vstd::prelude::*;
use vstd::string::StrSliceExecFns;
use crate::links::{AttrsView, IconAttrs};
use crate::strutil::str_eq;

verus! {

/// Highest score a `sizes` attribute can declare; a larger number is treated
/// as unparseable, as a 32-bit signed parse would be.
pub const MAX_DECLARED_SCORE: u64 = 2147483647;

/// Score of an SVG-typed icon link: above every declared raster size.
pub const SVG_SCORE: u64 = 18446744073709551615;

/// Default score of a generic icon link without a usable `sizes` attribute.
pub const DEFAULT_ICON_SCORE: u64 = 16;

/// Default score of an apple-touch-icon link without a usable `sizes`
/// attribute; such icons are conventionally 180x180.
pub const DEFAULT_APPLE_SCORE: u64 = 180;

/// Score of the fixed well-known fallback paths: below any explicitly sized
/// or defaulted icon link.
pub const WELL_KNOWN_SCORE: u64 = 10;

/// A decimal digit.
pub open spec fn is_score_digit(c: char) -> bool {
    '0' as u32 <= c as u32 && c as u32 <= '9' as u32
}

/// The value of a decimal digit.
pub open spec fn digit_val(c: char) -> int {
    c as u32 - '0' as u32
}

/// Every character of `s` is a decimal digit.
pub open spec fn all_digits(s: Seq<char>) -> bool {
    forall|i: int| 0 <= i < s.len() ==> is_score_digit(#[trigger] s[i])
}

/// The value of the digit string `s`, read left to right.
pub open spec fn digits_value(s: Seq<char>) -> int
    decreases s.len(),
{
    if s.len() == 0 {
        0
    } else {
        digits_value(s.drop_last()) * 10 + digit_val(s.last())
    }
}

/// Position of the first `'x'` in `s`, or `s.len()` if there is none.
pub open spec fn x_split_pos(s: Seq<char>) -> int
    decreases s.len(),
{
    if s.len() == 0 {
        0
    } else if s[0] == 'x' {
        0
    } else {
        1 + x_split_pos(s.drop_first())
    }
}

/// The part of `s` before its first `'x'`: the leading token of a
/// `"<W>x<H>"` sizes attribute.
pub open spec fn token_before_x(s: Seq<char>) -> Seq<char> {
    s.take(x_split_pos(s))
}

/// The score a sizes attribute declares: the value of its leading token when
/// that token is a nonempty digit string no larger than
/// [`MAX_DECLARED_SCORE`], and nothing otherwise.
pub open spec fn parse_score_spec(s: Seq<char>) -> Option<u64> {
    let t = token_before_x(s);
    if t.len() > 0 && all_digits(t) && digits_value(t) <= MAX_DECLARED_SCORE {
        Some(digits_value(t) as u64)
    } else {
        None
    }
}

pub proof fn lemma_x_split_pos_bounds(s: Seq<char>)
    ensures
        0 <= x_split_pos(s) <= s.len(),
        x_split_pos(s) < s.len() ==> s[x_split_pos(s)] == 'x',
        forall|j: int| 0 <= j < x_split_pos(s) ==> s[j] != 'x',
    decreases s.len(),
{
    if s.len() > 0 && s[0] != 'x' {
        lemma_x_split_pos_bounds(s.drop_first());
        assert forall|j: int| 0 <= j < x_split_pos(s) implies s[j] != 'x' by {
            if j > 0 {
                assert(s.drop_first()[j - 1] == s[j]);
            }
        }
    }
}

pub proof fn lemma_x_split_pos_from_scan(s: Seq<char>, i: int)
    requires
        0 <= i <= s.len(),
        forall|j: int| 0 <= j < i ==> s[j] != 'x',
        i == s.len() || s[i] == 'x',
    ensures
        x_split_pos(s) == i,
    decreases i,
{
    if i == 0 {
    } else {
        assert(s[0] != 'x');
        assert forall|j: int| 0 <= j < i - 1 implies s.drop_first()[j] != 'x' by {
            assert(s.drop_first()[j] == s[j + 1]);
        }
        if i < s.len() {
            assert(s.drop_first()[i - 1] == s[i]);
        }
        lemma_x_split_pos_from_scan(s.drop_first(), i - 1);
    }
}

pub proof fn lemma_digits_value_nonneg(s: Seq<char>)
    requires
        all_digits(s),
    ensures
        digits_value(s) >= 0,
    decreases s.len(),
{
    if s.len() > 0 {
        assert forall|j: int| 0 <= j < s.drop_last().len() implies is_score_digit(
            #[trigger] s.drop_last()[j],
        ) by {
            assert(s.drop_last()[j] == s[j]);
        }
        lemma_digits_value_nonneg(s.drop_last());
        assert(is_score_digit(s.last()));
    }
}

pub proof fn lemma_digits_take_step(s: Seq<char>, i: int)
    requires
        0 <= i < s.len(),
    ensures
        digits_value(s.take(i + 1)) == digits_value(s.take(i)) * 10 + digit_val(s[i]),
{
    assert(s.take(i + 1).drop_last() =~= s.take(i));
    assert(s.take(i + 1).last() == s[i]);
}

pub proof fn lemma_digits_value_mono(s: Seq<char>, k: int, m: int)
    requires
        0 <= k <= m <= s.len(),
        all_digits(s.take(m)),
    ensures
        digits_value(s.take(k)) <= digits_value(s.take(m)),
    decreases m - k,
{
    if k < m {
        assert forall|j: int| 0 <= j < m - 1 implies is_score_digit(
            #[trigger] s.take(m - 1)[j],
        ) by {
            assert(s.take(m - 1)[j] == s.take(m)[j]);
        }
        lemma_digits_value_mono(s, k, m - 1);
        lemma_digits_take_step(s, m - 1);
        assert forall|j: int| 0 <= j < m - 1 implies is_score_digit(
            #[trigger] s.take(m - 1)[j],
        ) by {
            assert(s.take(m - 1)[j] == s.take(m)[j]);
        }
        lemma_digits_value_nonneg(s.take(m - 1));
        assert(is_score_digit(s.take(m)[m - 1]));
    }
}

/// Parses the leading numeric token of a sizes attribute.
pub fn parse_score(sizes: &str) -> (r: Option<u64>)
    ensures
        r == parse_score_spec(sizes@),
{
    let n = sizes.unicode_len();
    let mut i: usize = 0;
    let mut acc: u64 = 0;
    while i < n
        invariant
            n == sizes@.len(),
            i <= n,
            forall|j: int| 0 <= j < i ==> sizes@[j] != 'x',
            all_digits(sizes@.take(i as int)),
            acc as int == digits_value(sizes@.take(i as int)),
            acc <= MAX_DECLARED_SCORE,
        decreases n - i,
    {
        let c = sizes.get_char(i);
        if c == 'x' {
            proof {
                lemma_x_split_pos_from_scan(sizes@, i as int);
            }
            if i == 0 {
                return None;
            }
            return Some(acc);
        }
        let cu = c as u32;
        if cu < '0' as u32 || cu > '9' as u32 {
            proof {
                lemma_x_split_pos_bounds(sizes@);
                let p = x_split_pos(sizes@);
                if p <= i {
                    assert(sizes@[p] == 'x');
                    assert(false);
                }
                assert(token_before_x(sizes@)[i as int] == sizes@[i as int]);
                assert(!is_score_digit(sizes@[i as int]));
            }
            return None;
        }
        let d = cu - 48;
        let acc2 = acc * 10 + d as u64;
        proof {
            lemma_digits_take_step(sizes@, i as int);
            assert forall|j: int| 0 <= j < i + 1 implies is_score_digit(
                #[trigger] sizes@.take(i + 1)[j],
            ) by {
                assert(sizes@.take(i + 1)[j] == sizes@[j]);
                if j < i {
                    assert(sizes@.take(i as int)[j] == sizes@[j]);
                }
            }
        }
        if acc2 > MAX_DECLARED_SCORE {
            proof {
                lemma_x_split_pos_bounds(sizes@);
                let p = x_split_pos(sizes@);
                if p <= i {
                    assert(sizes@[p] == 'x');
                    assert(false);
                }
                let t = token_before_x(sizes@);
                if t.len() > 0 && all_digits(t) && digits_value(t) <= MAX_DECLARED_SCORE {
                    lemma_digits_value_mono(sizes@, i + 1, p);
                    assert(false);
                }
            }
            return None;
        }
        acc = acc2;
        i += 1;
    }
    proof {
        lemma_x_split_pos_from_scan(sizes@, n as int);
        assert(sizes@.take(n as int) =~= sizes@);
    }
    if n == 0 {
        return None;
    }
    Some(acc)
}

/// The SVG media type that marks a vector icon link.
pub open spec fn svg_mime_spec() -> Seq<char> {
    "image/svg+xml"@
}

/// The score of one matched link: [`SVG_SCORE`] for an SVG-typed link, the
/// declared size of its `sizes` attribute otherwise, and the tier default
/// `dflt` when no size is usable.
pub open spec fn score_of_attrs_spec(a: AttrsView, dflt: u64) -> u64 {
    if a.mime == Some(svg_mime_spec()) {
        SVG_SCORE
    } else {
        match a.sizes {
            Some(s) => match parse_score_spec(s) {
                Some(v) => v,
                None => dflt,
            },
            None => dflt,
        }
    }
}

/// Scores one matched link.
pub fn score_of_attrs(a: &IconAttrs, dflt: u64) -> (r: u64)
    ensures
        r == score_of_attrs_spec(a@, dflt),
{
    match &a.mime {
        Some(m) => {
            if str_eq(m.as_str(), "image/svg+xml") {
                return SVG_SCORE;
            }
        },
        None => {},
    }
    match &a.sizes {
        Some(s) => match parse_score(s.as_str()) {
            Some(v) => v,
            None => dflt,
        },
        None => dflt,
    }
}

} // verus!

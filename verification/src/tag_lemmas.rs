//! What resolving and stripping do together: the escape sequences that
//! tags resolve to are settled and hidden, and no tag is left in a text
//! that was stripped.

use vstd::prelude::*;
use crate::escapes::{
    has_no_markup, is_parameter, markup_close, markup_end, settled, stripped,
};
use crate::strip_lemmas::{lemma_control_sequence_settled, lemma_stripped_has_no_markup};
use crate::tags::{
    color_code, color_opener, color_tag, color_tag_end, color_tag_value, decimal, digit_char,
    digits_end, digits_value, has_at, is_digit, number_start, reset_code, reset_tag, resolved,
    resolved_from, tag_closer, tag_code, tag_end,
};

verus! {

/// A run of digits ends inside the text and holds only digits.
pub proof fn lemma_digits_end_bounds(s: Seq<char>, i: int)
    requires
        0 <= i <= s.len(),
    ensures
        i <= digits_end(s, i) <= s.len(),
        forall|k: int| i <= k < digits_end(s, i) ==> is_digit(#[trigger] s[k]),
    decreases s.len() - i,
{
    if i < s.len() && is_digit(s[i]) {
        lemma_digits_end_bounds(s, i + 1);
    }
}

/// A decimal numeral holds only digits.
pub proof fn lemma_decimal_digits(v: nat)
    ensures
        decimal(v).len() >= 1,
        forall|k: int| 0 <= k < decimal(v).len() ==> is_digit(#[trigger] decimal(v)[k]),
    decreases v,
{
    if v >= 10 {
        lemma_decimal_digits(v / 10);
        assert(is_digit(digit_char(v % 10)));
    } else {
        assert(is_digit(digit_char(v)));
    }
}

/// The reset sequence is settled, and nothing of it is shown.
pub proof fn lemma_reset_code_settled()
    ensures
        settled(reset_code()),
        stripped(reset_code()) == Seq::<char>::empty(),
{
    lemma_control_sequence_settled(reset_code());
}

/// A colour sequence is settled, and nothing of it is shown: it can
/// colour a border.
pub proof fn a_colour_sequence_is_settled(v: nat)
    ensures
        settled(color_code(v)),
        stripped(color_code(v)) == Seq::<char>::empty(),
{
    let x = color_code(v);
    lemma_decimal_digits(v);
    assert forall|j: int| 2 <= j < x.len() - 1 implies is_parameter(#[trigger] x[j]) by {
        if j >= 7 {
            assert(x[j] == decimal(v)[j - 7]);
            assert(is_digit(decimal(v)[j - 7]));
        }
    }
    lemma_control_sequence_settled(x);
}

/// A `}}` that no line feed and no `}` comes before is the closing one.
pub proof fn lemma_markup_close_is(s: Seq<char>, j: int, e: int)
    requires
        0 <= j <= e,
        e + 1 < s.len(),
        forall|k: int| j <= k < e ==> s[k] != '\n' && s[k] != '}',
        s[e] == '}',
        s[e + 1] == '}',
    ensures
        markup_close(s, j) == e,
    decreases e - j,
{
    if j < e {
        lemma_markup_close_is(s, j + 1, e);
    }
}

/// Every well-formed tag is markup.
pub proof fn lemma_tag_is_markup(s: Seq<char>, p: int)
    requires
        tag_end(s, p) > p,
    ensures
        markup_end(s, p) > p,
{
    if has_at(s, p, reset_tag()) {
        let sub = s.subrange(p, p + 9);
        assert forall|k: int| 0 <= k < 9 implies s[p + k] == #[trigger] reset_tag()[k] by {
            assert(sub[k] == s[p + k]);
        }
        assert(s[p] == reset_tag()[0] && s[p + 1] == reset_tag()[1]);
        assert forall|k: int| p + 2 <= k < p + 7 implies s[k] != '\n' && s[k] != '}' by {
            assert(s[k] == reset_tag()[k - p]);
        }
        assert(s[p + 7] == reset_tag()[7] && s[p + 8] == reset_tag()[8]);
        lemma_markup_close_is(s, p + 2, p + 7);
    } else {
        let k0 = number_start(s, p);
        let d = digits_end(s, k0);
        assert(color_tag_end(s, p) > p);
        let sub = s.subrange(p, p + 7);
        assert forall|k: int| 0 <= k < 7 implies s[p + k] == #[trigger] color_opener()[k] by {
            assert(sub[k] == s[p + k]);
        }
        assert(s[p] == color_opener()[0] && s[p + 1] == color_opener()[1]);
        lemma_digits_end_bounds(s, k0);
        let close = s.subrange(d, d + 2);
        assert(close[0] == s[d] && close[1] == s[d + 1]);
        assert(s[d] == tag_closer()[0] && s[d + 1] == tag_closer()[1]);
        assert forall|k: int| p + 2 <= k < d implies s[k] != '\n' && s[k] != '}' by {
            if k < p + 7 {
                assert(s[k] == color_opener()[k - p]);
            } else if k < k0 {
                assert(s[k] == '+');
            } else {
                assert(is_digit(s[k]));
            }
        }
        lemma_markup_close_is(s, p + 2, d);
    }
}

/// No well-formed tag begins anywhere in a text without markup.
pub proof fn lemma_no_markup_no_tag(s: Seq<char>)
    requires
        has_no_markup(s),
    ensures
        forall|p: int| #[trigger] tag_end(s, p) == p,
{
    assert forall|p: int| #[trigger] tag_end(s, p) == p by {
        if tag_end(s, p) > p {
            lemma_tag_is_markup(s, p);
            assert(0 <= p < s.len());
            assert(markup_end(s, p) == p);
        }
        if tag_end(s, p) < p {
            assert(false);
        }
    }
}

/// Resolving a text and stripping the result leaves no colour tag: no
/// well-formed tag begins anywhere in what is left.
pub proof fn stripping_leaves_no_tag(t: Seq<char>)
    ensures
        forall|p: int| #[trigger] tag_end(stripped(resolved(t)), p) == p,
{
    lemma_stripped_has_no_markup(resolved(t));
    lemma_no_markup_no_tag(stripped(resolved(t)));
}

/// Digits up to a character that is none are a run of digits.
pub proof fn lemma_digits_end_is(s: Seq<char>, i: int, e: int)
    requires
        0 <= i <= e <= s.len(),
        forall|k: int| i <= k < e ==> is_digit(#[trigger] s[k]),
        e < s.len() ==> !is_digit(s[e]),
    ensures
        digits_end(s, i) == e,
    decreases e - i,
{
    if i < e {
        lemma_digits_end_is(s, i + 1, e);
    }
}

/// The digits of a decimal numeral spell its number.
pub proof fn lemma_decimal_value(s: Seq<char>, i: int, v: nat)
    requires
        0 <= i,
        i + decimal(v).len() <= s.len(),
        s.subrange(i, i + decimal(v).len()) == decimal(v),
    ensures
        digits_value(s, i, i + decimal(v).len()) == v,
    decreases v,
{
    let n = decimal(v).len() as int;
    lemma_decimal_digits(v);
    assert(s[i + n - 1] == s.subrange(i, i + n)[n - 1]);
    if v >= 10 {
        lemma_decimal_digits(v / 10);
        assert(s.subrange(i, i + n - 1) == decimal(v / 10)) by {
            assert(s.subrange(i, i + n - 1) =~= s.subrange(i, i + n).drop_last());
            assert(decimal(v).drop_last() =~= decimal(v / 10));
        }
        lemma_decimal_value(s, i, v / 10);
        assert(s[i + n - 1] == digit_char(v % 10));
    } else {
        assert(n == 1);
        assert(s[i] == digit_char(v));
        assert(digits_value(s, i, i) == 0);
    }
}

/// The tag of a colour of the palette resolves to the sequence of that
/// colour.
pub proof fn a_colour_tag_resolves_to_its_sequence(v: nat)
    requires
        v <= 255,
    ensures
        resolved(color_tag(v)) == color_code(v),
{
    let s = color_tag(v);
    let n = decimal(v).len() as int;
    lemma_decimal_digits(v);
    assert(s.subrange(0, 7) =~= color_opener());
    assert(s.subrange(7, 7 + n) =~= decimal(v));
    assert(s.subrange(7 + n, 9 + n) =~= tag_closer());
    assert(!has_at(s, 0, reset_tag())) by {
        if s.len() >= 9 {
            assert(s.subrange(0, 9)[2] == 'c');
            assert(reset_tag()[2] == 'r');
        }
    }
    assert(s[7] == decimal(v)[0]);
    assert(is_digit(decimal(v)[0]));
    assert(number_start(s, 0) == 7);
    assert forall|k: int| 7 <= k < 7 + n implies is_digit(#[trigger] s[k]) by {
        assert(s[k] == decimal(v)[k - 7]);
        assert(is_digit(decimal(v)[k - 7]));
    }
    assert(s[7 + n] == '}');
    lemma_digits_end_is(s, 7, 7 + n);
    lemma_decimal_value(s, 7, v);
    assert(color_tag_value(s, 0) == v);
    assert(tag_end(s, 0) == 9 + n);
    assert(tag_code(s, 0) == color_code(v));
    assert(resolved_from(s, 9 + n) == Seq::<char>::empty());
    assert(color_code(v) + Seq::<char>::empty() == color_code(v));
}

} // verus!

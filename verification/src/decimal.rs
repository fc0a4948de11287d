//! Decimal notation for quantities held in thousandths: `"0.75"` for `750`.
//!
//! A decimal is an optional sign, digits, and optionally a point followed by
//! digits, with at least one digit in all. Digits after the third place behind
//! the point are dropped. Nothing else is a decimal: no exponent, no spaces, no
//! named values.

use crate::config::clamped;
use vstd::prelude::*;
use vstd::string::{StrSliceExecFns, StringExecFns};

verus! {

/// The digits before the point count up to this and no further while reading.
const WHOLE_CAP: u64 = 10_000_000_000_000_000;

/// Whether `c` is one of the ten digits.
pub open spec fn is_digit(c: char) -> bool {
    '0' <= c <= '9'
}

/// The number that the digit `c` stands for.
pub open spec fn digit_value(c: char) -> int {
    c as int - '0' as int
}

/// The digit that stands for `d`, for `d` from 0 to 9.
pub open spec fn digit_char(d: int) -> char {
    ('0' as int + d) as char
}

/// Whether `s` consists of digits only.
pub open spec fn all_digits(s: Seq<char>) -> bool {
    forall|i: int| 0 <= i < s.len() ==> is_digit(#[trigger] s[i])
}

/// The number that a run of digits stands for; 0 for the empty run.
pub open spec fn digits_value(s: Seq<char>) -> int
    decreases s.len(),
{
    if s.len() == 0 {
        0
    } else {
        digits_value(s.drop_last()) * 10 + digit_value(s.last())
    }
}

/// Length of the longest run of digits that `body` starts with.
pub open spec fn whole_len(body: Seq<char>) -> int
    decreases body.len(),
{
    if body.len() > 0 && is_digit(body[0]) {
        1 + whole_len(body.skip(1))
    } else {
        0
    }
}

/// The value of the digit at place `i` of `s`, 0 where `s` has no such place.
pub open spec fn digit_at(s: Seq<char>, i: int) -> int {
    if 0 <= i < s.len() {
        digit_value(s[i])
    } else {
        0
    }
}

/// The thousandths that the digits behind the point stand for: the first three
/// places count, missing places count as 0.
pub open spec fn fraction_milli(fraction: Seq<char>) -> int {
    digit_at(fraction, 0) * 100 + digit_at(fraction, 1) * 10 + digit_at(fraction, 2)
}

/// Whether `s` begins with a sign.
pub open spec fn has_sign(s: Seq<char>) -> bool {
    s.len() > 0 && (s[0] == '+' || s[0] == '-')
}

/// What follows the sign of `s`, all of `s` where it has none.
pub open spec fn body_of(s: Seq<char>) -> Seq<char> {
    if has_sign(s) {
        s.skip(1)
    } else {
        s
    }
}

/// The thousandths that an unsigned decimal stands for; `None` where `body` is
/// no unsigned decimal.
pub open spec fn magnitude_milli(body: Seq<char>) -> Option<int> {
    let w = whole_len(body);
    if w == body.len() {
        if w >= 1 {
            Some(digits_value(body.take(w)) * 1000)
        } else {
            None
        }
    } else if body[w] == '.' {
        let fraction = body.skip(w + 1);
        if all_digits(fraction) && w + fraction.len() >= 1 {
            Some(digits_value(body.take(w)) * 1000 + fraction_milli(fraction))
        } else {
            None
        }
    } else {
        None
    }
}

/// The thousandths that a decimal stands for; `None` where `s` is no decimal.
pub open spec fn decimal_milli(s: Seq<char>) -> Option<int> {
    match magnitude_milli(body_of(s)) {
        Some(m) => Some(
            if s.len() > 0 && s[0] == '-' {
                -m
            } else {
                m
            },
        ),
        None => None,
    }
}

/// `v` limited to what an `i64` holds.
pub open spec fn saturated(v: int) -> int {
    clamped(v, i64::MIN as int, i64::MAX as int)
}

/// The digits of `n`, without leading zeros; `"0"` for 0.
pub open spec fn digits_of(n: nat) -> Seq<char>
    decreases n,
{
    if n < 10 {
        seq![digit_char(n as int)]
    } else {
        digits_of(n / 10).push(digit_char((n % 10) as int))
    }
}

/// The point and the digits behind it for `f` thousandths, `f` below 1000:
/// nothing for 0, else as many places as are needed.
pub open spec fn fraction_text(f: int) -> Seq<char> {
    if f == 0 {
        Seq::empty()
    } else if f % 100 == 0 {
        seq!['.', digit_char(f / 100)]
    } else if f % 10 == 0 {
        seq!['.', digit_char(f / 100), digit_char(f / 10 % 10)]
    } else {
        seq!['.', digit_char(f / 100), digit_char(f / 10 % 10), digit_char(f % 10)]
    }
}

/// The shortest decimal for `v` thousandths.
pub open spec fn milli_text(v: int) -> Seq<char> {
    let m = if v < 0 {
        -v
    } else {
        v
    };
    let sign = if v < 0 {
        seq!['-']
    } else {
        Seq::empty()
    };
    sign + digits_of((m / 1000) as nat) + fraction_text(m % 1000)
}

/// `whole_len` is the one place up to which `body` holds digits and at which it
/// ends or holds something else.
pub proof fn lemma_whole_len(body: Seq<char>)
    ensures
        0 <= whole_len(body) <= body.len(),
        forall|i: int| 0 <= i < whole_len(body) ==> is_digit(#[trigger] body[i]),
        whole_len(body) < body.len() ==> !is_digit(body[whole_len(body)]),
    decreases body.len(),
{
    if body.len() > 0 && is_digit(body[0]) {
        let rest = body.skip(1);
        lemma_whole_len(rest);
        assert forall|i: int| 0 <= i < whole_len(body) implies is_digit(#[trigger] body[i]) by {
            if i > 0 {
                assert(body[i] == rest[i - 1]);
            }
        }
        if whole_len(body) < body.len() {
            assert(body[whole_len(body)] == rest[whole_len(rest)]);
        }
    }
}

/// The digits of a number are digits, at least one, and stand for the number.
pub proof fn lemma_digits_of(n: nat)
    ensures
        digits_of(n).len() >= 1,
        all_digits(digits_of(n)),
        digits_value(digits_of(n)) == n,
    decreases n,
{
    if n < 10 {
        let d = digits_of(n);
        assert(d.drop_last().len() == 0);
        assert(digits_value(d.drop_last()) == 0);
        assert(d.last() == digit_char(n as int));
    } else {
        lemma_digits_of(n / 10);
        let d = digits_of(n);
        assert(d.drop_last() =~= digits_of(n / 10));
        assert(d.last() == digit_char((n % 10) as int));
        assert forall|i: int| 0 <= i < d.len() implies is_digit(#[trigger] d[i]) by {
            if i < d.len() - 1 {
                assert(d[i] == digits_of(n / 10)[i]);
            }
        }
    }
}

/// The text for `f` thousandths behind the point is empty for 0; else it is a
/// point and one to three digits that stand for `f`.
pub proof fn lemma_fraction_text(f: int)
    requires
        0 <= f < 1000,
    ensures
        f == 0 ==> fraction_text(f).len() == 0,
        f != 0 ==> {
            &&& fraction_text(f).len() >= 2
            &&& fraction_text(f)[0] == '.'
            &&& all_digits(fraction_text(f).skip(1))
            &&& fraction_milli(fraction_text(f).skip(1)) == f
        },
{
    if f != 0 {
        let places = fraction_text(f).skip(1);
        let d0 = digit_char(f / 100);
        let d1 = digit_char(f / 10 % 10);
        let d2 = digit_char(f % 10);
        assert(is_digit(d0) && is_digit(d1) && is_digit(d2));
        assert(digit_value(d0) == f / 100 && digit_value(d1) == f / 10 % 10 && digit_value(d2)
            == f % 10);
        if f % 100 == 0 {
            assert(places =~= seq![d0]);
        } else if f % 10 == 0 {
            assert(places =~= seq![d0, d1]);
        } else {
            assert(places =~= seq![d0, d1, d2]);
        }
    }
}

/// Writing a magnitude as an unsigned decimal and reading it gives it back.
pub proof fn lemma_magnitude_round_trip(m: int)
    requires
        m >= 0,
    ensures
        magnitude_milli(digits_of((m / 1000) as nat) + fraction_text(m % 1000)) == Some(m),
        is_digit((digits_of((m / 1000) as nat) + fraction_text(m % 1000))[0]),
{
    let whole = digits_of((m / 1000) as nat);
    let f = m % 1000;
    let tail = fraction_text(f);
    let body = whole + tail;
    lemma_digits_of((m / 1000) as nat);
    lemma_fraction_text(f);
    assert(body[0] == whole[0]);
    lemma_whole_len(body);
    let w = whole_len(body);
    assert(w == whole.len()) by {
        if w < whole.len() {
            assert(body[w] == whole[w]);
        }
        if w > whole.len() {
            assert(body[whole.len() as int] == tail[0]);
        }
    }
    assert(body.take(w) =~= whole);
    if f != 0 {
        assert(body[w] == tail[0]);
        assert(body.skip(w + 1) =~= tail.skip(1));
    }
}

/// Writing thousandths as a decimal and reading the decimal gives them back.
pub proof fn lemma_text_round_trip(v: int)
    ensures
        decimal_milli(milli_text(v)) == Some(v),
{
    let m = if v < 0 {
        -v
    } else {
        v
    };
    let text = milli_text(v);
    let body = digits_of((m / 1000) as nat) + fraction_text(m % 1000);
    lemma_magnitude_round_trip(m);
    if v < 0 {
        assert(text[0] == '-');
        assert(text.skip(1) =~= body);
    } else {
        assert(text =~= body);
    }
}

/// The single digit `d` as text.
fn digit_str(d: u64) -> (text: &'static str)
    requires
        d < 10,
    ensures
        text@ == seq![digit_char(d as int)],
{
    proof {
        reveal_strlit("0");
        reveal_strlit("1");
        reveal_strlit("2");
        reveal_strlit("3");
        reveal_strlit("4");
        reveal_strlit("5");
        reveal_strlit("6");
        reveal_strlit("7");
        reveal_strlit("8");
        reveal_strlit("9");
    }
    let text: &'static str = if d == 0 {
        "0"
    } else if d == 1 {
        "1"
    } else if d == 2 {
        "2"
    } else if d == 3 {
        "3"
    } else if d == 4 {
        "4"
    } else if d == 5 {
        "5"
    } else if d == 6 {
        "6"
    } else if d == 7 {
        "7"
    } else if d == 8 {
        "8"
    } else {
        "9"
    };
    proof {
        assert(text@ =~= seq![digit_char(d as int)]);
    }
    text
}

/// Appends the digits of `n` to `out`.
fn push_digits(out: &mut String, n: u64)
    ensures
        final(out)@ == old(out)@ + digits_of(n as nat),
    decreases n,
{
    if n >= 10 {
        push_digits(out, n / 10);
    }
    out.append(digit_str(n % 10));
    proof {
        assert(out@ =~= old(out)@ + digits_of(n as nat));
    }
}

/// Writes `value` thousandths as the shortest decimal: `1000` as `"1"`, `750` as
/// `"0.75"`, `-5` as `"-0.005"`.
pub fn format_milli(value: i64) -> (text: String)
    ensures
        text@ == milli_text(value as int),
        decimal_milli(text@) == Some(value as int),
{
    let magnitude: u64 = if value < 0 {
        (-(value + 1)) as u64 + 1
    } else {
        value as u64
    };
    let whole: u64 = magnitude / 1000;
    let fraction: u64 = magnitude % 1000;
    let mut text: String = String::new();
    if value < 0 {
        text.append("-");
        proof {
            reveal_strlit("-");
            assert(text@ =~= seq!['-']);
        }
    }
    push_digits(&mut text, whole);
    if fraction != 0 {
        proof {
            reveal_strlit(".");
        }
        text.append(".");
        text.append(digit_str(fraction / 100));
        if fraction % 100 != 0 {
            text.append(digit_str(fraction / 10 % 10));
            if fraction % 10 != 0 {
                text.append(digit_str(fraction % 10));
            }
        }
    }
    proof {
        assert(text@ =~= milli_text(value as int));
        lemma_text_round_trip(value as int);
    }
    text
}

/// The thousandths counted so far among the first `count` places of `fraction`.
spec fn fraction_so_far(fraction: Seq<char>, count: int) -> int {
    (if count > 0 {
        digit_at(fraction, 0) * 100
    } else {
        0
    }) + (if count > 1 {
        digit_at(fraction, 1) * 10
    } else {
        0
    }) + (if count > 2 {
        digit_at(fraction, 2)
    } else {
        0
    })
}

/// Reads a decimal as thousandths. A value too large for an `i64` is limited to
/// the nearest one; text that is no decimal gives `None`.
pub fn parse_milli(text: &str) -> (value: Option<i64>)
    ensures
        value == match decimal_milli(text@) {
            Some(v) => Some(saturated(v) as i64),
            None => None::<i64>,
        },
{
    let ghost s = text@;
    if !text.is_ascii() {
        proof {
            lemma_decimal_is_ascii(s);
        }
        return None;
    }
    let n: usize = text.unicode_len();
    let mut negative: bool = false;
    let mut start: usize = 0;
    if n > 0 {
        let first: u8 = text.get_ascii(0);
        if first == 45 {
            negative = true;
            start = 1;
        } else if first == 43 {
            start = 1;
        }
    }
    let ghost body = body_of(s);
    assert(body =~= s.skip(start as int));
    let mut i: usize = start;
    let mut whole: u64 = 0;
    let mut more: bool = true;
    while more && i < n
        invariant
            text@ == s,
            text.is_ascii(),
            n == s.len(),
            start <= i <= n,
            forall|k: int| start <= k < i ==> is_digit(#[trigger] s[k]),
            whole as int == if digits_value(s.subrange(start as int, i as int)) < WHOLE_CAP {
                digits_value(s.subrange(start as int, i as int))
            } else {
                WHOLE_CAP as int
            },
            digits_value(s.subrange(start as int, i as int)) >= 0,
            !more ==> i < n && !is_digit(s[i as int]),
        decreases n - i + if more { 1nat } else { 0nat },
    {
        let b: u8 = text.get_ascii(i);
        if b < 48 || b > 57 {
            more = false;
        } else {
            proof {
                let next = s.subrange(start as int, i + 1);
                assert(next.drop_last() =~= s.subrange(start as int, i as int));
                assert(next.last() == s[i as int]);
            }
            if whole < WHOLE_CAP {
                let grown: u64 = whole * 10 + (b - 48) as u64;
                whole = if grown < WHOLE_CAP {
                    grown
                } else {
                    WHOLE_CAP
                };
            }
            i += 1;
        }
    }
    let ghost w = i - start;
    proof {
        lemma_whole_len(body);
        assert(i < n ==> !is_digit(s[i as int]));
        assert(whole_len(body) == w) by {
            if whole_len(body) < w {
                assert(body[whole_len(body)] == s[start + whole_len(body)]);
            }
            if whole_len(body) > w {
                assert(body[w] == s[i as int]);
            }
        }
        assert(body.take(w) =~= s.subrange(start as int, i as int));
    }
    let mut fraction: u64 = 0;
    if i == n {
        if i == start {
            return None;
        }
    } else {
        let point: u8 = text.get_ascii(i);
        assert(body[w] == s[i as int]);
        if point != 46 {
            return None;
        }
        let from: usize = i + 1;
        let ghost places = body.skip(w + 1);
        assert(places =~= s.skip(from as int));
        let mut j: usize = from;
        assert(decimal_milli(s) is Some ==> all_digits(places));
        while j < n
            invariant
                decimal_milli(s) is Some ==> all_digits(places),
                text@ == s,
                text.is_ascii(),
                n == s.len(),
                from <= j <= n,
                places == s.skip(from as int),
                forall|k: int| from <= k < j ==> is_digit(#[trigger] s[k]),
                fraction as int == fraction_so_far(places, j - from),
                fraction <= 999,
            decreases n - j,
        {
            let b: u8 = text.get_ascii(j);
            if b < 48 || b > 57 {
                proof {
                    assert(places[j - from] == s[j as int]);
                    assert(!all_digits(places));
                }
                return None;
            }
            proof {
                assert(places[j - from] == s[j as int]);
            }
            let d: u64 = (b - 48) as u64;
            if j - from == 0 {
                fraction = fraction + d * 100;
            } else if j - from == 1 {
                fraction = fraction + d * 10;
            } else if j - from == 2 {
                fraction = fraction + d;
            }
            j += 1;
        }
        proof {
            assert forall|k: int| 0 <= k < places.len() implies is_digit(#[trigger] places[k]) by {
                assert(places[k] == s[from + k]);
            }
            assert(fraction as int == fraction_milli(places));
        }
        if i == start && from == n {
            return None;
        }
    }
    let magnitude: u64 = whole * 1000 + fraction;
    if negative {
        if magnitude > 9_223_372_036_854_775_807 {
            Some(i64::MIN)
        } else {
            Some(-(magnitude as i64))
        }
    } else {
        if magnitude > 9_223_372_036_854_775_807 {
            Some(i64::MAX)
        } else {
            Some(magnitude as i64)
        }
    }
}

/// A decimal holds no character outside ASCII.
pub proof fn lemma_decimal_is_ascii(s: Seq<char>)
    ensures
        decimal_milli(s) is Some ==> vstd::utf8::is_ascii_chars(s),
{
    if decimal_milli(s) is Some {
        let body = body_of(s);
        lemma_whole_len(body);
        let w = whole_len(body);
        assert forall|i: int| 0 <= i < s.len() implies '\0' <= #[trigger] s[i] <= '\u{7f}' by {
            let shift: int = if has_sign(s) {
                1
            } else {
                0
            };
            if i >= shift {
                let k = i - shift;
                assert(body[k] == s[i]);
                if k < w {
                    assert(is_digit(body[k]));
                } else if k > w {
                    let fraction = body.skip(w + 1);
                    assert(fraction[k - w - 1] == body[k]);
                    assert(is_digit(fraction[k - w - 1]));
                }
            }
        }
    }
}

} // verus!

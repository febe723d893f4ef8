//! The three literal grammars that decide what a raw value "looks like".
//!
//! * a boolean literal is `true` or `false`;
//! * an integer literal is an optional sign followed by one or more decimal
//!   digits, and it is integer text when its value fits in 128 signed bits;
//! * floating-point text is an optional sign followed by `inf`, `infinity` or
//!   `nan` in any letter case, or by a number: digits with at most one point
//!   and at least one digit, optionally followed by an exponent, which is `e`
//!   or `E`, an optional sign and one or more digits.

use vstd::prelude::*;

verus! {

/// A decimal digit.
pub open spec fn is_digit(c: char) -> bool {
    '0' <= c && c <= '9'
}

/// A plus or minus sign.
pub open spec fn is_sign(c: char) -> bool {
    c == '+' || c == '-'
}

/// The number that a decimal digit stands for.
pub open spec fn digit_value(c: char) -> nat {
    (c as u32 - '0' as u32) as nat
}

/// The index just past an optional sign at `from`.
pub open spec fn sign_end(s: Seq<char>, from: int) -> int {
    if 0 <= from < s.len() && is_sign(s[from]) {
        from + 1
    } else {
        from
    }
}

/// The index just past the longest run of digits that starts at `from`.
pub open spec fn digits_end(s: Seq<char>, from: int) -> int
    decreases s.len() - from,
{
    if 0 <= from < s.len() && is_digit(s[from]) {
        digits_end(s, from + 1)
    } else {
        from
    }
}

/// One or more digits from `from` to the end of `s`.
pub open spec fn is_digits_from(s: Seq<char>, from: int) -> bool {
    0 <= from < s.len() && digits_end(s, from) == s.len()
}

/// The number written by the digits `s[from..to]`, most significant first.
pub open spec fn decimal_value(s: Seq<char>, from: int, to: int) -> nat
    decreases to - from,
{
    if to <= from {
        0
    } else {
        10 * decimal_value(s, from, to - 1) + digit_value(s[to - 1])
    }
}

/// An optional sign followed by one or more digits, and nothing else.
pub open spec fn is_decimal_literal(s: Seq<char>) -> bool {
    is_digits_from(s, sign_end(s, 0))
}

/// Whether the literal carries a minus sign.
pub open spec fn is_negative(s: Seq<char>) -> bool {
    s.len() > 0 && s[0] == '-'
}

/// The number written by the digits of a decimal literal, sign aside.
pub open spec fn magnitude(s: Seq<char>) -> nat {
    decimal_value(s, sign_end(s, 0), s.len() as int)
}

/// The number that a decimal literal denotes.
pub open spec fn literal_value(s: Seq<char>) -> int {
    if is_negative(s) {
        -(magnitude(s) as int)
    } else {
        magnitude(s) as int
    }
}

/// A decimal literal whose value lies in `min..=max`.
pub open spec fn is_signed_text(s: Seq<char>, min: int, max: int) -> bool {
    is_decimal_literal(s) && min <= literal_value(s) <= max
}

/// A decimal literal without a minus sign whose value is at most `max`.
pub open spec fn is_unsigned_text(s: Seq<char>, max: int) -> bool {
    is_decimal_literal(s) && !is_negative(s) && magnitude(s) <= max
}

/// `true` or `false`.
pub open spec fn is_boolean_text(s: Seq<char>) -> bool {
    s == "true"@ || s == "false"@
}

/// A decimal literal that fits in 128 signed bits.
pub open spec fn is_integer_text(s: Seq<char>) -> bool {
    is_signed_text(s, i128::MIN as int, i128::MAX as int)
}

/// `s[from..]` spells `lower` when letter case is ignored; `upper` is `lower`
/// in capitals.
pub open spec fn spells_from(s: Seq<char>, from: int, lower: Seq<char>, upper: Seq<char>) -> bool {
    &&& 0 <= from
    &&& s.len() - from == lower.len()
    &&& forall|i: int|
        0 <= i < lower.len() ==> s[from + i] == lower[i] || s[from + i] == #[trigger] upper[i]
}

/// `s[from..]` is `inf`, `infinity` or `nan` in any letter case.
pub open spec fn is_special_from(s: Seq<char>, from: int) -> bool {
    ||| spells_from(s, from, "inf"@, "INF"@)
    ||| spells_from(s, from, "infinity"@, "INFINITY"@)
    ||| spells_from(s, from, "nan"@, "NAN"@)
}

/// `s[from..]` is an exponent: `e` or `E`, an optional sign, one or more digits.
pub open spec fn is_exponent_from(s: Seq<char>, from: int) -> bool {
    &&& 0 <= from < s.len()
    &&& (s[from] == 'e' || s[from] == 'E')
    &&& is_digits_from(s, sign_end(s, from + 1))
}

/// `s[from..]` is a number: digits, at most one point, at least one digit
/// before or after it, and an optional exponent.
pub open spec fn is_number_from(s: Seq<char>, from: int) -> bool {
    let whole_end = digits_end(s, from);
    let has_point = 0 <= whole_end < s.len() && s[whole_end] == '.';
    let fraction_end = if has_point {
        digits_end(s, whole_end + 1)
    } else {
        whole_end
    };
    let digits = (whole_end - from) + if has_point {
        fraction_end - (whole_end + 1)
    } else {
        0
    };
    digits > 0 && (fraction_end == s.len() || is_exponent_from(s, fraction_end))
}

/// Text that denotes a floating-point number.
pub open spec fn is_floating_point_text(s: Seq<char>) -> bool {
    let body = sign_end(s, 0);
    is_special_from(s, body) || is_number_from(s, body)
}

/// The run of digits that starts at `from` ends at or after `from`, inside
/// `s`, holds digits only, and stops at a character that is no digit.
pub proof fn lemma_digits_end(s: Seq<char>, from: int)
    requires
        0 <= from <= s.len(),
    ensures
        from <= digits_end(s, from) <= s.len(),
        forall|i: int| from <= i < digits_end(s, from) ==> is_digit(#[trigger] s[i]),
        digits_end(s, from) < s.len() ==> !is_digit(s[digits_end(s, from)]),
    decreases s.len() - from,
{
    if from < s.len() && is_digit(s[from]) {
        lemma_digits_end(s, from + 1);
    }
}

/// A run of digits from `from` to `to` ends where the longest run from `from` does.
pub proof fn lemma_digits_run(s: Seq<char>, from: int, to: int)
    requires
        0 <= from <= to <= s.len(),
        forall|i: int| from <= i < to ==> is_digit(#[trigger] s[i]),
    ensures
        digits_end(s, from) == digits_end(s, to),
    decreases to - from,
{
    if from < to {
        lemma_digits_run(s, from + 1, to);
    }
}

/// Reading more digits never makes the number smaller.
pub proof fn lemma_decimal_value_grows(s: Seq<char>, from: int, mid: int, to: int)
    requires
        from <= mid <= to,
    ensures
        decimal_value(s, from, mid) <= decimal_value(s, from, to),
    decreases to - mid,
{
    if mid < to {
        lemma_decimal_value_grows(s, from, mid, to - 1);
    }
}

/// The number under a digit character.
pub fn digit_of(c: char) -> (d: u8)
    requires
        is_digit(c),
    ensures
        d == digit_value(c),
        d <= 9,
{
    let code: u32 = c as u32;
    let zero: u32 = '0' as u32;
    (code - zero) as u8
}

/// Whether `c` is a decimal digit.
pub fn digit_char(c: char) -> (r: bool)
    ensures
        r == is_digit(c),
{
    '0' <= c && c <= '9'
}

/// The index just past an optional sign at `from`.
pub fn skip_sign(cs: &Vec<char>, from: usize) -> (r: usize)
    requires
        from <= cs@.len(),
    ensures
        r == sign_end(cs@, from as int),
        from <= r <= cs@.len(),
{
    if from < cs.len() && (cs[from] == '+' || cs[from] == '-') {
        from + 1
    } else {
        from
    }
}

/// The index just past the digits that start at `from`.
pub fn skip_digits(cs: &Vec<char>, from: usize) -> (r: usize)
    requires
        from <= cs@.len(),
    ensures
        r == digits_end(cs@, from as int),
        from <= r <= cs@.len(),
{
    let mut i: usize = from;
    while i < cs.len() && digit_char(cs[i])
        invariant
            from <= i <= cs@.len(),
            forall|j: int| from <= j < i ==> is_digit(#[trigger] cs@[j]),
        decreases cs@.len() - i,
    {
        i += 1;
    }
    proof {
        lemma_digits_run(cs@, from as int, i as int);
    }
    i
}

/// Whether `cs` is `true` or `false`.
pub fn is_boolean_literal(cs: &Vec<char>) -> (r: bool)
    ensures
        r == is_boolean_text(cs@),
{
    proof {
        reveal_strlit("true");
        reveal_strlit("false");
    }
    if cs.len() == 4 {
        let r = cs[0] == 't' && cs[1] == 'r' && cs[2] == 'u' && cs[3] == 'e';
        if r {
            assert(cs@ =~= "true"@);
        }
        r
    } else if cs.len() == 5 {
        let r = cs[0] == 'f' && cs[1] == 'a' && cs[2] == 'l' && cs[3] == 's' && cs[4] == 'e';
        if r {
            assert(cs@ =~= "false"@);
        }
        r
    } else {
        false
    }
}

/// Reads a decimal literal: whether it carries a minus sign, and the number
/// its digits write. `None` when `cs` is no decimal literal or the number does
/// not fit in 128 bits.
pub fn parse_decimal(cs: &Vec<char>) -> (r: Option<(bool, u128)>)
    ensures
        r == if is_decimal_literal(cs@) && magnitude(cs@) <= u128::MAX {
            Some((is_negative(cs@), magnitude(cs@) as u128))
        } else {
            None::<(bool, u128)>
        },
{
    let start = skip_sign(cs, 0);
    if start >= cs.len() {
        return None;
    }
    let negative = cs[0] == '-';
    let mut acc: u128 = 0;
    let mut i: usize = start;
    while i < cs.len()
        invariant
            start <= i <= cs@.len(),
            start == sign_end(cs@, 0),
            forall|j: int| start <= j < i ==> is_digit(#[trigger] cs@[j]),
            acc == decimal_value(cs@, start as int, i as int),
        decreases cs@.len() - i,
    {
        let c = cs[i];
        if !digit_char(c) {
            proof {
                lemma_digits_run(cs@, start as int, i as int);
            }
            return None;
        }
        let d = digit_of(c);
        proof {
            lemma_decimal_value_grows(cs@, start as int, i + 1, cs@.len() as int);
        }
        let widened = match acc.checked_mul(10) {
            Some(t) => t.checked_add(d as u128),
            None => None,
        };
        match widened {
            Some(v) => {
                acc = v;
            },
            None => {
                return None;
            },
        }
        i += 1;
    }
    proof {
        lemma_digits_run(cs@, start as int, cs@.len() as int);
    }
    Some((negative, acc))
}

/// Reads a decimal literal whose value lies in `min..=max`.
pub fn parse_signed(cs: &Vec<char>, min: i128, max: i128) -> (r: Option<i128>)
    ensures
        r is Some <==> is_signed_text(cs@, min as int, max as int),
        r matches Some(v) ==> v == literal_value(cs@),
{
    match parse_decimal(cs) {
        None => None,
        Some((negative, m)) => {
            if m <= 0x7fff_ffff_ffff_ffff_ffff_ffff_ffff_ffffu128 {
                let v: i128 = if negative {
                    -(m as i128)
                } else {
                    m as i128
                };
                if min <= v && v <= max {
                    Some(v)
                } else {
                    None
                }
            } else if negative && m == 0x8000_0000_0000_0000_0000_0000_0000_0000u128 && min
                == i128::MIN {
                Some(i128::MIN)
            } else {
                None
            }
        },
    }
}

/// Reads a decimal literal without a minus sign whose value is at most
/// `max`.
pub fn parse_unsigned(cs: &Vec<char>, max: u128) -> (r: Option<u128>)
    ensures
        r is Some <==> is_unsigned_text(cs@, max as int),
        r matches Some(v) ==> v == magnitude(cs@),
{
    match parse_decimal(cs) {
        None => None,
        Some((negative, m)) => {
            if !negative && m <= max {
                Some(m)
            } else {
                None
            }
        },
    }
}

/// Whether `cs` is integer text.
pub fn is_integer_literal(cs: &Vec<char>) -> (r: bool)
    ensures
        r == is_integer_text(cs@),
{
    parse_signed(cs, i128::MIN, i128::MAX).is_some()
}

/// Whether `cs[from..]` spells `lower` when letter case is ignored.
fn spells(cs: &Vec<char>, from: usize, lower: &Vec<char>, upper: &Vec<char>) -> (r: bool)
    requires
        from <= cs@.len(),
        lower@.len() == upper@.len(),
    ensures
        r == spells_from(cs@, from as int, lower@, upper@),
{
    if cs.len() - from != lower.len() {
        return false;
    }
    let total: usize = cs.len();
    let mut i: usize = 0;
    while i < lower.len()
        invariant
            i <= lower@.len(),
            from <= cs@.len(),
            total == cs@.len(),
            cs@.len() - from == lower@.len(),
            lower@.len() == upper@.len(),
            forall|j: int|
                0 <= j < i ==> cs@[from + j] == lower@[j] || cs@[from + j] == #[trigger] upper@[j],
        decreases lower@.len() - i,
    {
        if cs[from + i] != lower[i] && cs[from + i] != upper[i] {
            return false;
        }
        i += 1;
    }
    true
}

/// Whether `cs[from..]` is `inf`, `infinity` or `nan` in any letter case.
fn is_special(cs: &Vec<char>, from: usize) -> (r: bool)
    requires
        from <= cs@.len(),
    ensures
        r == is_special_from(cs@, from as int),
{
    proof {
        reveal_strlit("inf");
        reveal_strlit("INF");
        reveal_strlit("infinity");
        reveal_strlit("INFINITY");
        reveal_strlit("nan");
        reveal_strlit("NAN");
    }
    let inf_lower = crate::text::to_chars("inf");
    let inf_upper = crate::text::to_chars("INF");
    let infinity_lower = crate::text::to_chars("infinity");
    let infinity_upper = crate::text::to_chars("INFINITY");
    let nan_lower = crate::text::to_chars("nan");
    let nan_upper = crate::text::to_chars("NAN");
    spells(cs, from, &inf_lower, &inf_upper) || spells(cs, from, &infinity_lower, &infinity_upper)
        || spells(cs, from, &nan_lower, &nan_upper)
}

/// Whether `cs[from..]` is an exponent.
fn is_exponent(cs: &Vec<char>, from: usize) -> (r: bool)
    requires
        from <= cs@.len(),
    ensures
        r == is_exponent_from(cs@, from as int),
{
    if from >= cs.len() {
        return false;
    }
    if cs[from] != 'e' && cs[from] != 'E' {
        return false;
    }
    let digits = skip_sign(cs, from + 1);
    digits < cs.len() && skip_digits(cs, digits) == cs.len()
}

/// Whether `cs` is floating-point text.
pub fn is_floating_point_literal(cs: &Vec<char>) -> (r: bool)
    ensures
        r == is_floating_point_text(cs@),
{
    let body = skip_sign(cs, 0);
    if is_special(cs, body) {
        return true;
    }
    let whole_end = skip_digits(cs, body);
    let has_point = whole_end < cs.len() && cs[whole_end] == '.';
    let mut fraction_end = whole_end;
    let mut digits: usize = whole_end - body;
    if has_point {
        fraction_end = skip_digits(cs, whole_end + 1);
        digits = digits + (fraction_end - (whole_end + 1));
    }
    digits > 0 && (fraction_end == cs.len() || is_exponent(cs, fraction_end))
}

/// Every decimal literal is floating-point text: a number without point or
/// exponent. In particular integer text is floating-point text.
pub proof fn lemma_decimal_literal_is_floating_point_text(s: Seq<char>)
    requires
        is_decimal_literal(s),
    ensures
        is_floating_point_text(s),
{
    let body = sign_end(s, 0);
    lemma_digits_end(s, body);
}

/// Boolean text is neither a decimal literal nor floating-point text.
pub proof fn lemma_boolean_text_is_no_number(s: Seq<char>)
    requires
        is_boolean_text(s),
    ensures
        !is_decimal_literal(s),
        !is_integer_text(s),
        !is_floating_point_text(s),
{
    reveal_strlit("true");
    reveal_strlit("false");
    reveal_strlit("inf");
    reveal_strlit("INF");
    reveal_strlit("infinity");
    reveal_strlit("INFINITY");
    reveal_strlit("nan");
    reveal_strlit("NAN");
    assert(sign_end(s, 0) == 0);
    assert(digits_end(s, 0) == 0);
    assert(!spells_from(s, 0, "inf"@, "INF"@));
    assert(!spells_from(s, 0, "nan"@, "NAN"@));
    if spells_from(s, 0, "infinity"@, "INFINITY"@) {
        assert(s.len() == 8);
    }
}

} // verus!

//! Numbers in decimal notation: reading an integer out of text, writing
//! one down, and telling whether text is that of a real number.
//!
//! A numeral is a non-empty run of the digits `0` to `9`. Text denotes an
//! integer when it is a numeral with at most one sign in front of it. The
//! text of a real number may also have a point in it and an exponent after
//! it, or name infinity. Nothing else is accepted, neither blanks nor
//! separators.

use vstd::prelude::*;
use vstd::string::*;
use crate::text::characters;

verus! {

/// Whether `c` is one of the ten decimal digits.
pub open spec fn is_digit(c: char) -> bool {
    '0' <= c && c <= '9'
}

/// The number that a digit stands for.
pub open spec fn digit_value(c: char) -> nat
    recommends
        is_digit(c),
{
    (c as int - '0' as int) as nat
}

/// The digit that stands for `d`.
pub open spec fn digit_char(d: nat) -> char
    recommends
        d < 10,
{
    (d + '0' as nat) as char
}

/// Whether `s` is a numeral: at least one character, and digits only.
pub open spec fn is_numeral(s: Seq<char>) -> bool {
    &&& s.len() > 0
    &&& forall|i: int| 0 <= i < s.len() ==> is_digit(#[trigger] s[i])
}

/// The number that a run of digits denotes, the last digit counting once.
pub open spec fn numeral_value(s: Seq<char>) -> nat
    decreases s.len(),
{
    if s.len() == 0 {
        0
    } else {
        10 * numeral_value(s.drop_last()) + digit_value(s.last())
    }
}

/// The numeral of `n`: its decimal digits, without leading zeros.
pub open spec fn numeral_of(n: nat) -> Seq<char>
    decreases n,
{
    if n < 10 {
        seq![digit_char(n)]
    } else {
        numeral_of(n / 10).push(digit_char(n % 10))
    }
}

/// The number that `s` denotes when read without a minus sign: a numeral,
/// or `+` and a numeral.
pub open spec fn unsigned_of(s: Seq<char>) -> Option<nat> {
    let body = if s.len() > 0 && s[0] == '+' {
        s.skip(1)
    } else {
        s
    };
    if is_numeral(body) {
        Some(numeral_value(body))
    } else {
        None
    }
}

/// The integer that `s` denotes: a numeral, or `+` or `-` and a numeral.
pub open spec fn signed_of(s: Seq<char>) -> Option<int> {
    if s.len() > 0 && s[0] == '-' {
        if is_numeral(s.skip(1)) {
            Some(-(numeral_value(s.skip(1)) as int))
        } else {
            None
        }
    } else {
        match unsigned_of(s) {
            Some(v) => Some(v as int),
            None => None,
        }
    }
}

/// What `s` denotes as a `usize`, if it denotes one.
pub open spec fn usize_of(s: Seq<char>) -> Option<usize> {
    match unsigned_of(s) {
        Some(v) => if v <= usize::MAX {
            Some(v as usize)
        } else {
            None
        },
        None => None,
    }
}

/// What `s` denotes as an `i32`, if it denotes one.
pub open spec fn i32_of(s: Seq<char>) -> Option<i32> {
    match signed_of(s) {
        Some(v) => if i32::MIN <= v <= i32::MAX {
            Some(v as i32)
        } else {
            None
        },
        None => None,
    }
}

/// The value of a numeral that does not exceed `limit`.
spec fn bounded_numeral(s: Seq<char>, limit: nat) -> Option<u64> {
    if is_numeral(s) && numeral_value(s) <= limit {
        Some(numeral_value(s) as u64)
    } else {
        None
    }
}

/// A run of digits is worth at least as much as any of its beginnings.
pub proof fn lemma_value_of_prefix(s: Seq<char>, k: int)
    requires
        0 <= k <= s.len(),
    ensures
        numeral_value(s.take(k)) <= numeral_value(s),
    decreases s.len() - k,
{
    if k == s.len() {
        assert(s.take(k) =~= s);
    } else {
        lemma_value_of_prefix(s, k + 1);
        assert(s.take(k + 1).drop_last() =~= s.take(k));
    }
}

/// Reads the numeral that `chars` holds from position `start` to its end,
/// as long as its value stays within `limit`.
fn parse_magnitude(chars: &Vec<char>, start: usize, limit: u64) -> (r: Option<u64>)
    requires
        start <= chars@.len(),
    ensures
        r == bounded_numeral(chars@.skip(start as int), limit as nat),
{
    let n = chars.len();
    if start == n {
        return None;
    }
    let ghost body = chars@.skip(start as int);
    let mut acc: u64 = 0;
    let mut i: usize = start;
    while i < n
        invariant
            start <= i <= n,
            n == chars@.len(),
            body == chars@.skip(start as int),
            acc <= limit,
            acc == numeral_value(body.take(i - start)),
            forall|j: int| 0 <= j < i - start ==> is_digit(#[trigger] body[j]),
        decreases n - i,
    {
        let c = chars[i];
        assert(c == body[i - start]);
        if !('0' <= c && c <= '9') {
            return None;
        }
        let d: u64 = (c as u32 - '0' as u32) as u64;
        let next: u128 = acc as u128 * 10 + d as u128;
        assert(body.take(i - start + 1).drop_last() =~= body.take(i - start));
        if next > limit as u128 {
            // The digits read so far are worth too much, so all of them are.
            proof {
                lemma_value_of_prefix(body, i - start + 1);
            }
            return None;
        }
        acc = next as u64;
        i = i + 1;
    }
    assert(body.take(i - start) =~= body);
    Some(acc)
}

/// Reads `text` as a `usize`.
///
/// The result is `Some` exactly when `text` is a numeral, or `+` and a
/// numeral, whose value a `usize` can hold.
pub fn parse_usize(text: &str) -> (r: Option<usize>)
    ensures
        r == usize_of(text@),
{
    let chars = characters(text);
    let start: usize = if chars.len() > 0 && chars[0] == '+' {
        1
    } else {
        0
    };
    assert(chars@.skip(0) =~= chars@);
    match parse_magnitude(&chars, start, usize::MAX as u64) {
        Some(v) => Some(v as usize),
        None => None,
    }
}

/// Reads `text` as an `i32`.
///
/// The result is `Some` exactly when `text` is a numeral, or `+` or `-` and
/// a numeral, that denotes an integer which an `i32` can hold.
pub fn parse_i32(text: &str) -> (r: Option<i32>)
    ensures
        r == i32_of(text@),
{
    let chars = characters(text);
    if chars.len() > 0 && chars[0] == '-' {
        match parse_magnitude(&chars, 1, 0x8000_0000) {
            Some(v) => Some((-(v as i64)) as i32),
            None => None,
        }
    } else {
        let start: usize = if chars.len() > 0 && chars[0] == '+' {
            1
        } else {
            0
        };
        assert(chars@.skip(0) =~= chars@);
        match parse_magnitude(&chars, start, 0x7fff_ffff) {
            Some(v) => Some(v as i32),
            None => None,
        }
    }
}

/// The text of one digit.
fn digit_text(d: u32) -> (t: &'static str)
    requires
        d < 10,
    ensures
        t@ == seq![digit_char(d as nat)],
{
    proof {
        reveal_strlit("0");
        reveal_strlit("1");
        reveal_strlit("2");
        reveal_strlit("3");
        reveal_strlit("4");
        reveal_strlit("5");
        reveal_strlit("6");
        reveal_strlit("7");
        reveal_strlit("8");
        reveal_strlit("9");
    }
    let t = match d {
        0 => "0",
        1 => "1",
        2 => "2",
        3 => "3",
        4 => "4",
        5 => "5",
        6 => "6",
        7 => "7",
        8 => "8",
        _ => "9",
    };
    t
}

/// Writes `n` down as its numeral.
pub fn format_u32(n: u32) -> (s: String)
    ensures
        s@ == numeral_of(n as nat),
    decreases n,
{
    if n < 10 {
        String::from_str(digit_text(n))
    } else {
        let mut s = format_u32(n / 10);
        s.append(digit_text(n % 10));
        s
    }
}

/// The numeral of a number is a numeral, and denotes that number.
pub proof fn lemma_numeral_round_trip(n: nat)
    ensures
        is_numeral(numeral_of(n)),
        numeral_value(numeral_of(n)) == n,
    decreases n,
{
    let s = numeral_of(n);
    if n < 10 {
        assert(numeral_value(s.drop_last()) == 0);
    } else {
        lemma_numeral_round_trip(n / 10);
        assert(s.drop_last() =~= numeral_of(n / 10));
    }
}

/// Different numbers have different numerals.
pub proof fn lemma_numeral_injective(a: nat, b: nat)
    requires
        numeral_of(a) == numeral_of(b),
    ensures
        a == b,
{
    lemma_numeral_round_trip(a);
    lemma_numeral_round_trip(b);
}

/// A numeral written by `numeral_of` starts with a zero only if it is the
/// numeral of zero, which is that one digit.
pub proof fn lemma_numeral_has_no_leading_zero(n: nat)
    ensures
        numeral_of(n).len() > 0,
        numeral_of(n)[0] == '0' <==> n == 0,
        n == 0 ==> numeral_of(n) == seq!['0'],
    decreases n,
{
    if n >= 10 {
        lemma_numeral_has_no_leading_zero(n / 10);
    }
}

/// Reading back what was written gives the number that was written, with
/// or without the reading of a sign.
pub proof fn lemma_read_back(n: nat)
    ensures
        unsigned_of(numeral_of(n)) == Some(n),
        signed_of(numeral_of(n)) == Some(n as int),
{
    lemma_numeral_round_trip(n);
}

/// Whether `c` is a sign.
pub open spec fn is_sign(c: char) -> bool {
    c == '+' || c == '-'
}

/// Whether `c` opens an exponent.
pub open spec fn is_exponent_mark(c: char) -> bool {
    c == 'e' || c == 'E'
}

/// What is left of `s` when the sign in front of it, if it has one, is
/// taken away.
pub open spec fn without_sign(s: Seq<char>) -> Seq<char> {
    if s.len() > 0 && is_sign(s[0]) {
        s.skip(1)
    } else {
        s
    }
}

/// Whether `s` is a mantissa: digits and at most one point, before, among
/// or after them, and at least one digit.
pub open spec fn is_mantissa(s: Seq<char>) -> bool {
    &&& forall|i: int| 0 <= i < s.len() ==> is_digit(#[trigger] s[i]) || s[i] == '.'
    &&& exists|i: int| 0 <= i < s.len() && is_digit(#[trigger] s[i])
    &&& forall|i: int, j: int|
        0 <= i < j < s.len() && #[trigger] s[i] == '.' ==> #[trigger] s[j] != '.'
}

/// Whether `s` is a number without a sign: a mantissa, or a mantissa, an
/// exponent mark, and a numeral with at most one sign in front.
pub open spec fn is_number(s: Seq<char>) -> bool {
    ||| is_mantissa(s)
    ||| exists|k: int|
        0 <= k < s.len() && is_exponent_mark(#[trigger] s[k]) && is_mantissa(s.take(k))
            && is_numeral(without_sign(s.skip(k + 1)))
}

/// Whether `s` is `lower` or `upper`, or mixes the two character by
/// character.
pub open spec fn in_either_case(s: Seq<char>, lower: Seq<char>, upper: Seq<char>) -> bool
    recommends
        lower.len() == upper.len(),
{
    &&& s.len() == lower.len()
    &&& forall|i: int| 0 <= i < s.len() ==> #[trigger] s[i] == lower[i] || s[i] == upper[i]
}

/// Whether `s` names infinity or the value that is not a number, in
/// letters of either case.
pub open spec fn is_special(s: Seq<char>) -> bool {
    ||| in_either_case(s, "inf"@, "INF"@)
    ||| in_either_case(s, "infinity"@, "INFINITY"@)
    ||| in_either_case(s, "nan"@, "NAN"@)
}

/// Whether `s` is the text of a real number: at most one sign, and then a
/// number in decimal or scientific notation, or a name of infinity or of
/// the value that is not a number. Nothing may stand before or after it.
pub open spec fn is_real_literal(s: Seq<char>) -> bool {
    is_number(without_sign(s)) || is_special(without_sign(s))
}

/// Whether `chars` holds a numeral from position `from` to its end.
fn is_numeral_from(chars: &Vec<char>, from: usize) -> (r: bool)
    requires
        from <= chars@.len(),
    ensures
        r == is_numeral(chars@.skip(from as int)),
{
    let n = chars.len();
    let ghost body = chars@.skip(from as int);
    if from == n {
        return false;
    }
    let mut i: usize = from;
    while i < n
        invariant
            from <= i <= n,
            n == chars@.len(),
            body == chars@.skip(from as int),
            forall|j: int| 0 <= j < i - from ==> is_digit(#[trigger] body[j]),
        decreases n - i,
    {
        let c = chars[i];
        assert(c == body[i - from]);
        if !('0' <= c && c <= '9') {
            return false;
        }
        i = i + 1;
    }
    true
}

/// Whether `chars` holds a number without a sign from position `start` to
/// its end.
fn is_number_from(chars: &Vec<char>, start: usize) -> (r: bool)
    requires
        start <= chars@.len(),
    ensures
        r == is_number(chars@.skip(start as int)),
{
    let n = chars.len();
    let ghost body = chars@.skip(start as int);
    let mut i: usize = start;
    let mut digit_seen = false;
    let mut point_seen = false;
    let mut points_apart = true;
    let mut in_mantissa = true;
    while in_mantissa && i < n
        invariant
            start <= i <= n,
            n == chars@.len(),
            body == chars@.skip(start as int),
            forall|j: int| 0 <= j < i - start ==> is_digit(#[trigger] body[j]) || body[j] == '.',
            digit_seen == exists|j: int| 0 <= j < i - start && is_digit(#[trigger] body[j]),
            point_seen == exists|j: int| 0 <= j < i - start && #[trigger] body[j] == '.',
            points_apart == forall|j: int, k: int|
                0 <= j < k < i - start && #[trigger] body[j] == '.' ==> #[trigger] body[k] != '.',
            !in_mantissa ==> i < n && !is_digit(body[i - start]) && body[i - start] != '.',
        decreases n - i + if in_mantissa { 1int } else { 0int },
    {
        let c = chars[i];
        assert(c == body[i - start]);
        if '0' <= c && c <= '9' {
            digit_seen = true;
            i = i + 1;
        } else if c == '.' {
            if point_seen {
                points_apart = false;
            }
            point_seen = true;
            i = i + 1;
        } else {
            in_mantissa = false;
        }
    }
    // The digits and points end at `m`.
    let ghost m = i - start;
    let mantissa = digit_seen && points_apart;
    assert(mantissa == is_mantissa(body.take(m))) by {
        let front = body.take(m);
        assert(forall|j: int| 0 <= j < m ==> front[j] == body[j]);
    }
    // An exponent mark with a mantissa before it can stand at `m` only.
    assert forall|k: int|
        0 <= k < body.len() && is_exponent_mark(#[trigger] body[k]) && is_mantissa(
            body.take(k),
        ) implies k == m by {
        if k > m {
            assert(body.take(k)[m] == body[m]);
        }
    }
    if i == n {
        return mantissa;
    }
    let c = chars[i];
    if !(c == 'e' || c == 'E') || !mantissa {
        return false;
    }
    let mut from: usize = i + 1;
    assert(body.skip(m + 1) =~= chars@.skip(from as int));
    if from < n && (chars[from] == '+' || chars[from] == '-') {
        assert(chars@.skip(from as int).skip(1) =~= chars@.skip(from + 1));
        from = from + 1;
    }
    is_numeral_from(chars, from)
}

/// Whether `chars` holds, from position `start` to its end, the word that
/// `lower` gives in small letters and `upper` in capital letters.
fn is_word_from(chars: &Vec<char>, start: usize, lower: &str, upper: &str) -> (r: bool)
    requires
        start <= chars@.len(),
        lower@.len() == upper@.len(),
    ensures
        r == in_either_case(chars@.skip(start as int), lower@, upper@),
{
    let n = chars.len();
    let len = lower.unicode_len();
    if n - start != len {
        return false;
    }
    let ghost body = chars@.skip(start as int);
    let mut i: usize = 0;
    while i < len
        invariant
            i <= len,
            n == chars@.len(),
            start + len == n,
            len == lower@.len(),
            len == upper@.len(),
            body == chars@.skip(start as int),
            forall|j: int| 0 <= j < i ==> #[trigger] body[j] == lower@[j] || body[j] == upper@[j],
        decreases len - i,
    {
        let c = chars[start + i];
        assert(c == body[i as int]);
        if c != lower.get_char(i) && c != upper.get_char(i) {
            return false;
        }
        i = i + 1;
    }
    true
}

/// Tells whether `text` is the text of a real number.
pub fn is_real(text: &str) -> (r: bool)
    ensures
        r == is_real_literal(text@),
{
    let chars = characters(text);
    let start: usize = if chars.len() > 0 && (chars[0] == '+' || chars[0] == '-') {
        1
    } else {
        0
    };
    assert(chars@.skip(0) =~= chars@);
    proof {
        reveal_strlit("inf");
        reveal_strlit("INF");
        reveal_strlit("infinity");
        reveal_strlit("INFINITY");
        reveal_strlit("nan");
        reveal_strlit("NAN");
    }
    is_number_from(&chars, start) || is_word_from(&chars, start, "inf", "INF") || is_word_from(
        &chars,
        start,
        "infinity",
        "INFINITY",
    ) || is_word_from(&chars, start, "nan", "NAN")
}

/// Every text that denotes an integer is the text of a real number.
pub proof fn lemma_integers_are_real(s: Seq<char>)
    requires
        signed_of(s) is Some,
    ensures
        is_real_literal(s),
{
}

} // verus!

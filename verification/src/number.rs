//! Reading numbers from command-line tokens.
//!
//! Integers are decimal: an optional sign followed by one or more ASCII
//! digits, with a value that fits in an `i64`. Anything else (blanks,
//! underscores, a lone sign, an overflowing value) is rejected.
//!
//! Floating-point values are kept as text. [`FloatText`] holds a token that
//! is known to be a well-formed decimal literal:
//!
//! ```text
//! Float    ::= Sign? ( Special | Number )
//! Special  ::= 'inf' | 'infinity' | 'nan'        (in any mix of upper and lower case)
//! Number   ::= Mantissa ( ( 'e' | 'E' ) Exponent )?
//! Mantissa ::= Digit+ | Digit+ '.' Digit* | Digit* '.' Digit+
//! Exponent ::= Sign? Digit+
//! ```
//!
//! Turning such a literal into a binary floating-point number is left to the
//! caller.

use vstd::prelude::*;
use vstd::string::*;

verus! {

/// `c` is one of the ASCII digits `0` to `9`.
pub open spec fn is_digit(c: char) -> bool {
    '0' <= c && c <= '9'
}

/// `c` is `+` or `-`.
pub open spec fn is_sign(c: char) -> bool {
    c == '+' || c == '-'
}

/// The number that the digit `c` stands for.
pub open spec fn digit_value(c: char) -> nat
    recommends
        is_digit(c),
{
    (c as int - '0' as int) as nat
}

/// Every character of `s` is an ASCII digit.
pub open spec fn all_digits(s: Seq<char>) -> bool {
    forall|i: int| 0 <= i < s.len() ==> is_digit(#[trigger] s[i])
}

/// The value of a run of digits read as a decimal number; the empty run is 0.
pub open spec fn digits_value(s: Seq<char>) -> nat
    recommends
        all_digits(s),
    decreases s.len(),
{
    if s.len() == 0 {
        0
    } else {
        digits_value(s.drop_last()) * 10 + digit_value(s.last())
    }
}

/// What is left of `s` once a leading sign, if any, is taken off.
pub open spec fn unsigned_part(s: Seq<char>) -> Seq<char> {
    if s.len() > 0 && is_sign(s[0]) {
        s.skip(1)
    } else {
        s
    }
}

/// The integer that `s` denotes, if `s` is a decimal integer that fits in an `i64`.
pub open spec fn decimal_value(s: Seq<char>) -> Option<i64> {
    let digits = unsigned_part(s);
    let magnitude = digits_value(digits) as int;
    let value = if s.len() > 0 && s[0] == '-' {
        -magnitude
    } else {
        magnitude
    };
    if digits.len() > 0 && all_digits(digits) && i64::MIN <= value <= i64::MAX {
        Some(value as i64)
    } else {
        None
    }
}

/// Reading one more digit multiplies the value so far by ten and adds the digit.
proof fn lemma_digits_value_step(s: Seq<char>, k: int)
    requires
        0 <= k < s.len(),
    ensures
        digits_value(s.take(k + 1)) == digits_value(s.take(k)) * 10 + digit_value(s[k]),
{
    assert(s.take(k + 1).drop_last() =~= s.take(k));
}

/// A prefix of a run of digits never has a larger value than the whole run.
proof fn lemma_digits_value_prefix(s: Seq<char>, k: int)
    requires
        0 <= k <= s.len(),
    ensures
        digits_value(s.take(k)) <= digits_value(s),
    decreases s.len() - k,
{
    if k == s.len() {
        assert(s.take(k) =~= s);
    } else {
        lemma_digits_value_step(s, k);
        lemma_digits_value_prefix(s, k + 1);
    }
}

/// Reads a decimal integer: an optional `+` or `-`, then digits only.
///
/// Returns `None` when `text` is not of that form or its value does not fit
/// in an `i64`.
pub fn parse_decimal(text: &str) -> (r: Option<i64>)
    ensures
        r == decimal_value(text@),
{
    if !text.is_ascii() {
        proof {
            if decimal_value(text@) is Some {
                lemma_decimal_is_ascii(text@);
            }
        }
        return None;
    }
    let n = ascii_len(text);
    let negative = n > 0 && ascii_char(text, 0) == '-';
    let start: usize = if n > 0 && (ascii_char(text, 0) == '-' || ascii_char(text, 0) == '+') {
        1
    } else {
        0
    };
    let ghost digits = unsigned_part(text@);
    if start == n {
        return None;
    }
    // The magnitude is gathered as an unsigned number: that of the least
    // `i64` is one more than that of the greatest.
    let limit: u64 = if negative {
        9223372036854775808
    } else {
        9223372036854775807
    };
    let mut magnitude: u64 = 0;
    let mut i: usize = start;
    while i < n
        invariant
            text.is_ascii(),
            start <= i <= n,
            n == text@.len(),
            digits == text@.skip(start as int),
            digits == unsigned_part(text@),
            negative <==> (text@.len() > 0 && text@[0] == '-'),
            all_digits(digits.take(i - start)),
            magnitude == digits_value(digits.take(i - start)),
            magnitude <= limit,
            9223372036854775807 <= limit <= 9223372036854775808,
            negative <==> limit == 9223372036854775808,
        decreases n - i,
    {
        let c = ascii_char(text, i);
        let ghost k = i - start;
        assert(digits[k] == c);
        if !(c >= '0' && c <= '9') {
            return None;
        }
        let d: u64 = c as u64 - '0' as u64;
        proof {
            lemma_digits_value_step(digits, k);
        }
        if magnitude > (limit - d) / 10 {
            proof {
                if all_digits(digits) {
                    lemma_digits_value_prefix(digits, k + 1);
                }
            }
            return None;
        }
        magnitude = magnitude * 10 + d;
        i += 1;
    }
    assert(digits.take(i - start) =~= digits);
    if negative {
        if magnitude == 9223372036854775808 {
            Some(i64::MIN)
        } else {
            Some(-(magnitude as i64))
        }
    } else {
        Some(magnitude as i64)
    }
}

/// Every character of a decimal integer is ASCII.
pub proof fn lemma_decimal_is_ascii(s: Seq<char>)
    requires
        decimal_value(s) is Some,
    ensures
        vstd::utf8::is_ascii_chars(s),
{
    let digits = unsigned_part(s);
    assert forall|i: int| 0 <= i < s.len() implies '\0' <= #[trigger] s[i] <= '\u{7f}' by {
        if digits.len() < s.len() && i > 0 {
            assert(is_digit(digits[i - 1]));
        }
    }
}

/// `s` has the length of `lower`, and each of its characters is the one at
/// the same place in `lower` or in `upper`.
pub open spec fn spells(s: Seq<char>, lower: Seq<char>, upper: Seq<char>) -> bool
    recommends
        lower.len() == upper.len(),
{
    &&& s.len() == lower.len()
    &&& forall|i: int| 0 <= i < s.len() ==> #[trigger] s[i] == lower[i] || s[i] == upper[i]
}

/// `s` is one of the words for a non-finite value, in any mix of cases.
pub open spec fn is_special(s: Seq<char>) -> bool {
    ||| spells(s, "inf"@, "INF"@)
    ||| spells(s, "infinity"@, "INFINITY"@)
    ||| spells(s, "nan"@, "NAN"@)
}

/// `s` is made of digits and at most one `.`, with at least one digit.
pub open spec fn is_mantissa(s: Seq<char>) -> bool {
    &&& forall|i: int| 0 <= i < s.len() ==> is_digit(#[trigger] s[i]) || s[i] == '.'
    &&& forall|i: int, j: int| 0 <= i < j < s.len() ==> !(#[trigger] s[i] == '.' && #[trigger] s[j] == '.')
    &&& exists|i: int| 0 <= i < s.len() && is_digit(#[trigger] s[i])
}

/// `s` is an optional sign followed by one or more digits.
pub open spec fn is_exponent(s: Seq<char>) -> bool {
    unsigned_part(s).len() > 0 && all_digits(unsigned_part(s))
}

/// `c` introduces an exponent.
pub open spec fn is_exponent_mark(c: char) -> bool {
    c == 'e' || c == 'E'
}

/// `s` is a mantissa, or a mantissa and an exponent with an `e` or `E` between them.
pub open spec fn is_number(s: Seq<char>) -> bool {
    ||| is_mantissa(s)
    ||| exists|k: int|
        0 <= k < s.len() && is_exponent_mark(#[trigger] s[k]) && is_mantissa(s.take(k))
            && is_exponent(s.skip(k + 1))
}

/// `s` is a well-formed floating-point literal.
pub open spec fn is_float_text(s: Seq<char>) -> bool {
    is_special(unsigned_part(s)) || is_number(unsigned_part(s))
}

/// Every character of a floating-point literal is ASCII.
pub proof fn lemma_float_text_is_ascii(s: Seq<char>)
    requires
        is_float_text(s),
    ensures
        vstd::utf8::is_ascii_chars(s),
{
    reveal_strlit("inf");
    reveal_strlit("INF");
    reveal_strlit("infinity");
    reveal_strlit("INFINITY");
    reveal_strlit("nan");
    reveal_strlit("NAN");
    let body = unsigned_part(s);
    let shift = s.len() - body.len();
    assert forall|i: int| 0 <= i < s.len() implies '\0' <= #[trigger] s[i] <= '\u{7f}' by {
        if i >= shift {
            let j = i - shift;
            assert(body[j] == s[i]);
            if !is_special(body) && !is_mantissa(body) {
                let k = choose|k: int|
                    0 <= k < body.len() && is_exponent_mark(#[trigger] body[k]) && is_mantissa(
                        body.take(k),
                    ) && is_exponent(body.skip(k + 1));
                if j < k {
                    assert(body.take(k)[j] == body[j]);
                } else if j > k {
                    let exponent = body.skip(k + 1);
                    let digits = unsigned_part(exponent);
                    let e = j - k - 1;
                    if digits.len() == exponent.len() {
                        assert(is_digit(digits[e]));
                    } else if e > 0 {
                        assert(is_digit(digits[e - 1]));
                    }
                }
            }
        }
    }
}

/// The character at place `i` of an ASCII string, found in constant time.
fn ascii_char(text: &str, i: usize) -> (c: char)
    requires
        text.is_ascii(),
        i < text@.len(),
    ensures
        c == text@[i as int],
{
    proof {
        is_ascii_spec_bytes(text);
    }
    let b = text.as_bytes()[i];
    b as char
}

/// The number of characters of an ASCII string, found in constant time.
fn ascii_len(text: &str) -> (n: usize)
    requires
        text.is_ascii(),
    ensures
        n == text@.len(),
{
    proof {
        is_ascii_spec_bytes(text);
    }
    text.as_bytes().len()
}

/// Whether what follows the first `from` characters of `text` spells the
/// word given in its two cases.
fn spells_word(text: &str, from: usize, lower: &str, upper: &str) -> (ok: bool)
    requires
        text.is_ascii(),
        lower.is_ascii(),
        upper.is_ascii(),
        lower@.len() == upper@.len(),
        from <= text@.len(),
    ensures
        ok == spells(text@.skip(from as int), lower@, upper@),
{
    let n = ascii_len(text);
    let m = ascii_len(lower);
    if n - from != m {
        return false;
    }
    let ghost rest = text@.skip(from as int);
    let mut i: usize = 0;
    while i < m
        invariant
            text.is_ascii(),
            lower.is_ascii(),
            upper.is_ascii(),
            m == lower@.len(),
            m == upper@.len(),
            from + m == n,
            n == text@.len(),
            rest == text@.skip(from as int),
            0 <= i <= m,
            forall|j: int| 0 <= j < i ==> #[trigger] rest[j] == lower@[j] || rest[j] == upper@[j],
        decreases m - i,
    {
        let c = ascii_char(text, from + i);
        assert(rest[i as int] == c);
        if c != ascii_char(lower, i) && c != ascii_char(upper, i) {
            return false;
        }
        i += 1;
    }
    true
}

/// Whether the characters of `text` from place `from` up to `to` form a mantissa.
fn check_mantissa(text: &str, from: usize, to: usize) -> (ok: bool)
    requires
        text.is_ascii(),
        from <= to <= text@.len(),
    ensures
        ok == is_mantissa(text@.subrange(from as int, to as int)),
{
    let ghost s = text@.subrange(from as int, to as int);
    let mut seen_digit = false;
    let mut seen_dot = false;
    let ghost mut digit_at: int = 0;
    let ghost mut dot_at: int = 0;
    let mut i: usize = from;
    while i < to
        invariant
            text.is_ascii(),
            from <= i <= to <= text@.len(),
            s == text@.subrange(from as int, to as int),
            forall|j: int| 0 <= j < i - from ==> is_digit(#[trigger] s[j]) || s[j] == '.',
            forall|j: int| 0 <= j < i - from && #[trigger] s[j] == '.' ==> seen_dot && j == dot_at,
            forall|j: int| 0 <= j < i - from && is_digit(#[trigger] s[j]) ==> seen_digit,
            seen_digit ==> 0 <= digit_at < i - from && is_digit(s[digit_at]),
            seen_dot ==> 0 <= dot_at < i - from && s[dot_at] == '.',
        decreases to - i,
    {
        let c = ascii_char(text, i);
        assert(s[i - from] == c);
        if c >= '0' && c <= '9' {
            seen_digit = true;
            proof {
                digit_at = i - from;
            }
        } else if c == '.' && !seen_dot {
            seen_dot = true;
            proof {
                dot_at = i - from;
            }
        } else {
            return false;
        }
        i += 1;
    }
    seen_digit
}

/// Whether the characters of `text` from place `from` on form an exponent.
fn check_exponent(text: &str, from: usize) -> (ok: bool)
    requires
        text.is_ascii(),
        from <= text@.len(),
    ensures
        ok == is_exponent(text@.skip(from as int)),
{
    let n = ascii_len(text);
    let mut i: usize = from;
    if i < n {
        let c = ascii_char(text, i);
        if c == '+' || c == '-' {
            i += 1;
        }
    }
    let start = i;
    let ghost digits = unsigned_part(text@.skip(from as int));
    if start == n {
        return false;
    }
    while i < n
        invariant
            text.is_ascii(),
            start <= i <= n,
            n == text@.len(),
            digits == text@.skip(start as int),
            digits == unsigned_part(text@.skip(from as int)),
            forall|j: int| 0 <= j < i - start ==> is_digit(#[trigger] digits[j]),
        decreases n - i,
    {
        let c = ascii_char(text, i);
        assert(digits[i - start] == c);
        if !(c >= '0' && c <= '9') {
            return false;
        }
        i += 1;
    }
    true
}

/// Whether `text` is a well-formed floating-point literal.
pub fn is_float(text: &str) -> (ok: bool)
    ensures
        ok == is_float_text(text@),
{
    if !text.is_ascii() {
        proof {
            if is_float_text(text@) {
                lemma_float_text_is_ascii(text@);
            }
        }
        return false;
    }
    let n = ascii_len(text);
    let mut start: usize = 0;
    if n > 0 {
        let c = ascii_char(text, 0);
        if c == '+' || c == '-' {
            start = 1;
        }
    }
    let ghost body = unsigned_part(text@);
    assert(body =~= text@.skip(start as int));
    proof {
        reveal_strlit("inf");
        reveal_strlit("INF");
        reveal_strlit("infinity");
        reveal_strlit("INFINITY");
        reveal_strlit("nan");
        reveal_strlit("NAN");
    }
    if spells_word(text, start, "inf", "INF") || spells_word(text, start, "infinity", "INFINITY")
        || spells_word(text, start, "nan", "NAN") {
        return true;
    }
    let mut mark: usize = start;
    let mut found = false;
    while mark < n && !found
        invariant
            text.is_ascii(),
            start <= mark <= n,
            n == text@.len(),
            forall|j: int| start <= j < mark ==> !is_exponent_mark(#[trigger] text@[j]),
            found ==> mark < n && is_exponent_mark(text@[mark as int]),
        decreases n - mark + if found { 0int } else { 1int },
    {
        let c = ascii_char(text, mark);
        if c == 'e' || c == 'E' {
            found = true;
        } else {
            mark += 1;
        }
    }
    let mantissa_ok = check_mantissa(text, start, mark);
    let ghost k = mark - start;
    assert(body.take(k) =~= text@.subrange(start as int, mark as int));
    if mark == n {
        return mantissa_ok;
    }
    let exponent_ok = check_exponent(text, mark + 1);
    assert(body.skip(k + 1) =~= text@.skip(mark + 1));
    assert(body[k] == text@[mark as int]);
    assert forall|j: int|
        0 <= j < body.len() && is_exponent_mark(#[trigger] body[j]) && is_mantissa(body.take(j))
            && is_exponent(body.skip(j + 1)) implies j == k by {
        if j > k {
            assert(body.take(j)[k] == body[k]);
        }
    }
    mantissa_ok && exponent_ok
}

/// A floating-point literal: text that is known to be well formed.
///
/// The only way to make one is [`FloatText::new`], which checks the text, so
/// a value of this type can always be handed to a floating-point reader.
#[derive(Debug, PartialEq, Eq)]
pub struct FloatText {
    text: String,
}

impl View for FloatText {
    type V = Seq<char>;

    closed spec fn view(&self) -> Seq<char> {
        self.text@
    }
}

impl FloatText {
    #[verifier::type_invariant]
    spec fn well_formed(self) -> bool {
        is_float_text(self.text@)
    }

    /// Accepts `text` if it is a well-formed floating-point literal, and
    /// hands it back unchanged if it is not.
    pub fn new(text: String) -> (r: Result<FloatText, String>)
        ensures
            r is Ok <==> is_float_text(text@),
            r matches Ok(t) ==> t@ == text@,
            r matches Err(t) ==> t@ == text@,
    {
        if is_float(text.as_str()) {
            Ok(FloatText { text })
        } else {
            Err(text)
        }
    }

    /// The literal itself.
    pub fn as_str(&self) -> (s: &str)
        ensures
            s@ == self@,
            is_float_text(s@),
    {
        proof {
            use_type_invariant(self);
        }
        self.text.as_str()
    }
}

impl Clone for FloatText {
    fn clone(&self) -> (r: Self)
        ensures
            r@ == self@,
    {
        proof {
            use_type_invariant(self);
        }
        FloatText { text: self.text.clone() }
    }
}

} // verus!

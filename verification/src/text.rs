//! Text helpers shared by the lexer, the code generator and the parser:
//! decimal rendering, literal parsing and string comparison.

use vstd::prelude::*;
use vstd::string::*;

verus! {

/// The character that stands for the digit `d`.
pub open spec fn digit_char(d: nat) -> char {
    if d == 0 { '0' }
    else if d == 1 { '1' }
    else if d == 2 { '2' }
    else if d == 3 { '3' }
    else if d == 4 { '4' }
    else if d == 5 { '5' }
    else if d == 6 { '6' }
    else if d == 7 { '7' }
    else if d == 8 { '8' }
    else { '9' }
}

/// Whether `c` is one of the ten decimal digits.
pub open spec fn is_digit(c: char) -> bool {
    exists|d: nat| d < 10 && c == #[trigger] digit_char(d)
}

/// The value of a decimal digit (0 for any other character).
pub open spec fn digit_value(c: char) -> nat {
    if c == '1' { 1 }
    else if c == '2' { 2 }
    else if c == '3' { 3 }
    else if c == '4' { 4 }
    else if c == '5' { 5 }
    else if c == '6' { 6 }
    else if c == '7' { 7 }
    else if c == '8' { 8 }
    else if c == '9' { 9 }
    else { 0 }
}

/// The decimal text of a natural number, without leading zeros.
pub open spec fn decimal(n: nat) -> Seq<char>
    decreases n,
{
    if n < 10 {
        seq![digit_char(n)]
    } else {
        decimal(n / 10).push(digit_char(n % 10))
    }
}

/// The decimal text of an integer, with a minus sign where it is negative.
pub open spec fn int_text(i: int) -> Seq<char> {
    if i < 0 {
        seq!['-'] + decimal((-i) as nat)
    } else {
        decimal(i as nat)
    }
}

/// Whether every character of `s` is a decimal digit.
pub open spec fn all_digits(s: Seq<char>) -> bool {
    forall|i: int| 0 <= i < s.len() ==> is_digit(#[trigger] s[i])
}

/// The number that a sequence of decimal digits denotes.
pub open spec fn digits_value(s: Seq<char>) -> nat
    decreases s.len(),
{
    if s.len() == 0 {
        0
    } else {
        digits_value(s.drop_last()) * 10 + digit_value(s.last())
    }
}

/// The value of an integer literal: its text is one or more decimal digits
/// and the number fits in 32 bits with sign.
pub open spec fn int_literal_value(s: Seq<char>) -> Option<i32> {
    if s.len() > 0 && all_digits(s) && digits_value(s) <= i32::MAX {
        Some(digits_value(s) as i32)
    } else {
        None
    }
}

/// `s` without its leading zeros, but for the last character.
pub open spec fn strip_leading_zeros(s: Seq<char>) -> Seq<char>
    decreases s.len(),
{
    if s.len() > 1 && s[0] == '0' {
        strip_leading_zeros(s.drop_first())
    } else {
        s
    }
}

/// `s` without its trailing zeros.
pub open spec fn strip_trailing_zeros(s: Seq<char>) -> Seq<char>
    decreases s.len(),
{
    if s.len() > 0 && s.last() == '0' {
        strip_trailing_zeros(s.drop_last())
    } else {
        s
    }
}

/// The fraction digits as they are rendered: no trailing zeros, and a
/// single zero where nothing else is left.
pub open spec fn fraction_text(frac: Seq<char>) -> Seq<char> {
    if strip_trailing_zeros(frac).len() == 0 {
        seq!['0']
    } else {
        strip_trailing_zeros(frac)
    }
}

/// The first position at or after `i` where `s` holds `c`, or the length
/// of `s` where there is none.
pub open spec fn first_index_from(s: Seq<char>, c: char, i: int) -> int
    decreases s.len() - i,
{
    if i < 0 || i >= s.len() {
        s.len() as int
    } else if s[i] == c {
        i
    } else {
        first_index_from(s, c, i + 1)
    }
}

/// The rendering of a float literal `whole.frac`: the shortest decimal text
/// of the same number that keeps a digit on both sides of the point.
/// `None` where the text is not digits, a point, and digits. See
/// [`single_precision_plain`] for the literals on which this is also how
/// a single-precision number is written.
pub open spec fn float_literal_text(s: Seq<char>) -> Option<Seq<char>> {
    let dot = first_index_from(s, '.', 0);
    if 0 < dot < s.len() && all_digits(s.subrange(0, dot)) && all_digits(
        s.subrange(dot + 1, s.len() as int),
    ) {
        Some(
            strip_leading_zeros(s.subrange(0, dot)) + seq!['.'] + fraction_text(
                s.subrange(dot + 1, s.len() as int),
            ),
        )
    } else {
        None
    }
}

/// The one-character text of the digit `d`.
pub fn digit_str(d: usize) -> (r: &'static str)
    requires
        d < 10,
    ensures
        r@ == seq![digit_char(d as nat)],
{
    proof {
        reveal_strlit("0");
        reveal_strlit("1");
        reveal_strlit("2");
        reveal_strlit("3");
        reveal_strlit("4");
        reveal_strlit("5");
        reveal_strlit("6");
        reveal_strlit("7");
        reveal_strlit("8");
        reveal_strlit("9");
    }
    let r = if d == 0 { "0" }
    else if d == 1 { "1" }
    else if d == 2 { "2" }
    else if d == 3 { "3" }
    else if d == 4 { "4" }
    else if d == 5 { "5" }
    else if d == 6 { "6" }
    else if d == 7 { "7" }
    else if d == 8 { "8" }
    else { "9" };
    assert(r@ =~= seq![digit_char(d as nat)]);
    r
}

/// Renders `n` in decimal.
pub fn decimal_string(n: usize) -> (r: String)
    ensures
        r@ == decimal(n as nat),
    decreases n,
{
    if n < 10 {
        String::from_str(digit_str(n))
    } else {
        let mut s = decimal_string(n / 10);
        s.append(digit_str(n % 10));
        assert(s@ =~= decimal((n / 10) as nat).push(digit_char((n % 10) as nat)));
        s
    }
}

/// Renders a 32-bit integer in decimal.
pub fn int_string(i: i32) -> (r: String)
    ensures
        r@ == int_text(i as int),
{
    if i < 0 {
        let m: i64 = -(i as i64);
        proof {
            reveal_strlit("-");
        }
        let mut s = String::from_str("-");
        let d = decimal_string(m as usize);
        s.append(d.as_str());
        assert(s@ =~= seq!['-'] + decimal((-(i as int)) as nat));
        s
    } else {
        decimal_string(i as usize)
    }
}

/// Whether two texts are the same sequence of characters.
pub fn str_eq(a: &str, b: &str) -> (r: bool)
    ensures
        r == (a@ == b@),
{
    let x = String::from_str(a);
    let y = String::from_str(b);
    x == y
}

/// The value of a character as a decimal digit, if it is one.
pub fn digit_of(c: char) -> (r: Option<u8>)
    ensures
        r is Some <==> is_digit(c),
        r matches Some(d) ==> d < 10 && d == digit_value(c) && c == digit_char(d as nat),
{
    let r: Option<u8> = if c == '0' { Some(0) }
    else if c == '1' { Some(1) }
    else if c == '2' { Some(2) }
    else if c == '3' { Some(3) }
    else if c == '4' { Some(4) }
    else if c == '5' { Some(5) }
    else if c == '6' { Some(6) }
    else if c == '7' { Some(7) }
    else if c == '8' { Some(8) }
    else if c == '9' { Some(9) }
    else { None };
    proof {
        if r is Some {
            assert(c == digit_char(r->0 as nat));
        }
    }
    r
}

/// A prefix of a digit sequence denotes no more than the whole.
pub proof fn lemma_digits_value_prefix(s: Seq<char>, k: int)
    requires
        0 <= k <= s.len(),
    ensures
        digits_value(s.take(k)) <= digits_value(s),
    decreases s.len() - k,
{
    if k == s.len() {
        assert(s.take(k) =~= s);
    } else {
        assert(s.take(k + 1).drop_last() =~= s.take(k));
        lemma_digits_value_prefix(s, k + 1);
    }
}

/// Reads an integer literal: one or more decimal digits whose number fits
/// in 32 bits with sign.
pub fn parse_int_literal(s: &str) -> (r: Option<i32>)
    ensures
        r == int_literal_value(s@),
{
    let n: usize = s.unicode_len();
    if n == 0 {
        return None;
    }
    let mut acc: i32 = 0;
    let mut i: usize = 0;
    while i < n
        invariant
            i <= n,
            n == s@.len(),
            all_digits(s@.take(i as int)),
            acc >= 0,
            acc == digits_value(s@.take(i as int)),
        decreases n - i,
    {
        let c = s.get_char(i);
        proof {
            assert(s@.take(i as int + 1).drop_last() =~= s@.take(i as int));
            assert(s@.take(i as int + 1).last() == c);
        }
        match digit_of(c) {
            None => {
                assert(!is_digit(s@[i as int]));
                return None;
            },
            Some(d) => {
                if acc > (i32::MAX - (d as i32)) / 10 {
                    proof {
                        lemma_digits_value_prefix(s@, i as int + 1);
                    }
                    return None;
                }
                acc = acc * 10 + (d as i32);
                proof {
                    assert forall|j: int| 0 <= j < i + 1 implies is_digit(
                        #[trigger] s@.take(i as int + 1)[j],
                    ) by {
                        if j < i {
                            assert(s@.take(i as int + 1)[j] == s@.take(i as int)[j]);
                        }
                    }
                }
                i = i + 1;
            },
        }
    }
    assert(s@.take(n as int) =~= s@);
    Some(acc)
}

/// Finds the first position of `c` in `s`, or the length of `s`.
pub fn find_char(s: &str, c: char) -> (r: usize)
    ensures
        r == first_index_from(s@, c, 0),
        r <= s@.len(),
{
    let n: usize = s.unicode_len();
    let mut i: usize = 0;
    while i < n
        invariant
            i <= n,
            n == s@.len(),
            first_index_from(s@, c, 0) == first_index_from(s@, c, i as int),
        decreases n - i,
    {
        if s.get_char(i) == c {
            return i;
        }
        i = i + 1;
    }
    i
}

/// Whether the characters of `s` from `from` up to `to` are all digits.
pub fn all_digits_between(s: &str, from: usize, to: usize) -> (r: bool)
    requires
        from <= to <= s@.len(),
    ensures
        r == all_digits(s@.subrange(from as int, to as int)),
{
    let mut i: usize = from;
    while i < to
        invariant
            from <= i <= to,
            to <= s@.len(),
            all_digits(s@.subrange(from as int, i as int)),
        decreases to - i,
    {
        let c = s.get_char(i);
        if digit_of(c).is_none() {
            assert(s@.subrange(from as int, to as int)[i - from] == c);
            return false;
        }
        proof {
            assert forall|j: int| 0 <= j < i + 1 - from implies is_digit(
                #[trigger] s@.subrange(from as int, i as int + 1)[j],
            ) by {
                if j < i - from {
                    assert(s@.subrange(from as int, i as int + 1)[j] == s@.subrange(
                        from as int,
                        i as int,
                    )[j]);
                }
            }
        }
        i = i + 1;
    }
    true
}

/// Renders a float literal; see [`float_literal_text`].
pub fn float_literal_string(s: &str) -> (r: Option<String>)
    ensures
        r is Some <==> float_literal_text(s@) is Some,
        r matches Some(t) ==> Some(t@) == float_literal_text(s@),
{
    let n: usize = s.unicode_len();
    let dot: usize = find_char(s, '.');
    if dot == 0 || dot >= n {
        return None;
    }
    if !all_digits_between(s, 0, dot) || !all_digits_between(s, dot + 1, n) {
        return None;
    }
    let mut a: usize = 0;
    while a + 1 < dot && s.get_char(a) == '0'
        invariant
            a < dot < n,
            n == s@.len(),
            strip_leading_zeros(s@.subrange(0, dot as int)) == strip_leading_zeros(
                s@.subrange(a as int, dot as int),
            ),
        decreases dot - a,
    {
        assert(s@.subrange(a as int, dot as int).drop_first() =~= s@.subrange(
            a as int + 1,
            dot as int,
        ));
        a = a + 1;
    }
    let mut b: usize = n;
    while b > dot + 1 && s.get_char(b - 1) == '0'
        invariant
            dot < b <= n,
            n == s@.len(),
            strip_trailing_zeros(s@.subrange(dot as int + 1, n as int)) == strip_trailing_zeros(
                s@.subrange(dot as int + 1, b as int),
            ),
        decreases b,
    {
        assert(s@.subrange(dot as int + 1, b as int).drop_last() =~= s@.subrange(
            dot as int + 1,
            b as int - 1,
        ));
        b = b - 1;
    }
    proof {
        reveal_strlit(".");
        reveal_strlit("0");
    }
    let mut out = String::from_str(s.substring_char(a, dot));
    out.append(".");
    if b == dot + 1 {
        out.append("0");
    } else {
        out.append(s.substring_char(dot + 1, b));
    }
    proof {
        let frac = s@.subrange(dot as int + 1, n as int);
        let kept = s@.subrange(dot as int + 1, b as int);
        assert(strip_trailing_zeros(kept) == kept);
        assert(strip_leading_zeros(s@.subrange(a as int, dot as int)) == s@.subrange(
            a as int,
            dot as int,
        ));
        assert("."@ =~= seq!['.']);
        assert("0"@ =~= seq!['0']);
    }
    Some(out)
}

/// Ten to the power `n`.
pub open spec fn pow10(n: nat) -> nat
    decreases n,
{
    if n == 0 {
        1
    } else {
        10 * pow10((n - 1) as nat)
    }
}

/// The whole part of a float literal: what stands before the point.
pub open spec fn whole_part(s: Seq<char>) -> Seq<char> {
    s.subrange(0, first_index_from(s, '.', 0))
}

/// The fraction part of a float literal: what stands after the point.
pub open spec fn fraction_part(s: Seq<char>) -> Seq<char> {
    s.subrange(first_index_from(s, '.', 0) + 1, s.len() as int)
}

/// The digits of a float literal that carry its value: those of both
/// parts, without the zeros at either end.
pub open spec fn significant_digits(s: Seq<char>) -> Seq<char> {
    strip_trailing_zeros(
        strip_leading_zeros(
            strip_leading_zeros(whole_part(s)) + strip_trailing_zeros(fraction_part(s)),
        ),
    )
}

/// The float literals that a single-precision number holds to the digit
/// and that are written without an exponent: at most six significant
/// digits, a whole part of at most sixteen digits, and, below one, at
/// most three zeros right after the point. On these the rendering of
/// [`float_literal_text`] is also the shortest text that reads back to
/// the nearest single-precision number. On others that number may have
/// other digits (`16777217.0` is held as `16777216.0`) or be written with
/// an exponent; the rendering keeps the literal's own number even then,
/// as [`lemma_float_text_keeps_number`] shows.
pub open spec fn single_precision_plain(s: Seq<char>) -> bool {
    &&& float_literal_text(s) is Some
    &&& significant_digits(s).len() <= 6
    &&& strip_leading_zeros(whole_part(s)).len() <= 16
    &&& (strip_leading_zeros(whole_part(s)) != seq!['0'] || strip_trailing_zeros(
        fraction_part(s),
    ).len() == 0 || exists|i: int|
        0 <= i < 4 && i < fraction_part(s).len() && #[trigger] fraction_part(s)[i] != '0')
}

/// A zero in front does not change what digits denote.
pub proof fn lemma_leading_zero_value(s: Seq<char>)
    requires
        s.len() > 0,
        s[0] == '0',
    ensures
        digits_value(s.drop_first()) == digits_value(s),
    decreases s.len(),
{
    if s.len() == 1 {
        assert(s.drop_first() =~= Seq::<char>::empty());
        assert(s.drop_last() =~= Seq::<char>::empty());
    } else {
        lemma_leading_zero_value(s.drop_last());
        assert(s.drop_first().drop_last() =~= s.drop_last().drop_first());
    }
}

/// Digits without their leading zeros denote the same number.
pub proof fn lemma_strip_leading_zeros_value(s: Seq<char>)
    ensures
        digits_value(strip_leading_zeros(s)) == digits_value(s),
    decreases s.len(),
{
    if s.len() > 1 && s[0] == '0' {
        lemma_leading_zero_value(s);
        lemma_strip_leading_zeros_value(s.drop_first());
    }
}

/// Each trailing zero that is stripped divides the number by ten.
pub proof fn lemma_strip_trailing_zeros_value(s: Seq<char>)
    ensures
        strip_trailing_zeros(s).len() <= s.len(),
        digits_value(s) == digits_value(strip_trailing_zeros(s)) * pow10(
            (s.len() - strip_trailing_zeros(s).len()) as nat,
        ),
    decreases s.len(),
{
    if s.len() > 0 && s.last() == '0' {
        let rest = s.drop_last();
        lemma_strip_trailing_zeros_value(rest);
        let kept = strip_trailing_zeros(rest);
        let k = (rest.len() - kept.len()) as nat;
        assert(strip_trailing_zeros(s) == kept);
        assert(digits_value(s) == digits_value(rest) * 10 + digit_value('0'));
        assert(pow10(k + 1) == 10 * pow10(k));
        assert(digits_value(kept) * pow10(k) * 10 == digits_value(kept) * (10 * pow10(k)))
            by (nonlinear_arith);
        assert((s.len() - kept.len()) as nat == k + 1);
    } else {
        assert(strip_trailing_zeros(s) == s);
        assert(pow10(0) == 1);
        assert(digits_value(s) * 1 == digits_value(s));
    }
}

/// Powers of ten multiply.
pub proof fn lemma_pow10_adds(a: nat, b: nat)
    ensures
        pow10(a + b) == pow10(a) * pow10(b),
    decreases a,
{
    if a == 0 {
        assert(pow10(0) == 1);
    } else {
        lemma_pow10_adds((a - 1) as nat, b);
        assert(pow10(a + b) == 10 * pow10((a - 1 + b) as nat));
        assert(10 * (pow10((a - 1) as nat) * pow10(b)) == (10 * pow10((a - 1) as nat)) * pow10(b))
            by (nonlinear_arith);
    }
}

/// The rendering of a float literal denotes the literal's own number: the
/// whole parts denote the same, and the fractions are the same part of
/// one: `frac / 10^len(frac) == f / 10^len(f)`.
pub proof fn lemma_float_text_keeps_number(s: Seq<char>)
    requires
        float_literal_text(s) is Some,
    ensures
        ({
            let w = strip_leading_zeros(whole_part(s));
            let f = fraction_text(fraction_part(s));
            &&& float_literal_text(s) == Some(w + seq!['.'] + f)
            &&& digits_value(w) == digits_value(whole_part(s))
            &&& f.len() >= 1
            &&& digits_value(fraction_part(s)) * pow10(f.len()) == digits_value(f) * pow10(
                fraction_part(s).len(),
            )
        }),
{
    let frac = fraction_part(s);
    let kept = strip_trailing_zeros(frac);
    lemma_strip_leading_zeros_value(whole_part(s));
    lemma_strip_trailing_zeros_value(frac);
    if kept.len() == 0 {
        let one = seq!['0'];
        assert(one.drop_last() =~= Seq::<char>::empty());
        assert(digits_value(one.drop_last()) == 0);
        assert(one.last() == '0');
        assert(digits_value(one) == digits_value(one.drop_last()) * 10 + digit_value(one.last()));
        assert(digits_value(one) == 0);
        assert(digits_value(frac) == 0) by (nonlinear_arith)
            requires
                digits_value(frac) == digits_value(kept) * pow10((frac.len() - kept.len()) as nat),
                digits_value(kept) == 0,
        ;
        assert(digits_value(frac) * pow10(1) == 0 * pow10(frac.len())) by (nonlinear_arith)
            requires
                digits_value(frac) == 0,
        ;
    } else {
        let k = (frac.len() - kept.len()) as nat;
        lemma_pow10_adds(k, kept.len());
        assert(digits_value(kept) * pow10(k) * pow10(kept.len()) == digits_value(kept) * (pow10(k)
            * pow10(kept.len()))) by (nonlinear_arith);
    }
}

} // verus!

//! Decimal text: what a run of digits is worth, how an amount is written,
//! and how a number is spelled out again.

use vstd::prelude::*;
use vstd::string::*;
use vstd::utf8::is_ascii_chars;

verus! {

/// Fractional digits that an amount carries.
pub const FRACTION_DIGITS: usize = 4;

/// The largest cap that a running value can be held to without leaving the
/// machine's numbers.
pub const CAP_LIMIT: u64 = 1_000_000_000_000_000_000;

/// The codes of the characters that decimal text is made of.
const MINUS: u8 = 45;

const PLUS: u8 = 43;

const POINT: u8 = 46;

const ZERO: u8 = 48;

const NINE: u8 = 57;

/// Whether `c` is one of `0` to `9`.
pub open spec fn is_digit(c: char) -> bool {
    '0' <= c <= '9'
}

/// The number that the digit `c` stands for.
pub open spec fn digit_of(c: char) -> int {
    c as int - '0' as int
}

/// The character for a number below ten.
pub open spec fn digit_char(d: int) -> char {
    (d + '0' as int) as char
}

/// Whether `s` holds digits only.
pub open spec fn all_digits(s: Seq<char>) -> bool {
    forall|i: int| 0 <= i < s.len() ==> is_digit(#[trigger] s[i])
}

/// The number that the digits of `s` spell, read in base ten.
pub open spec fn digits_value(s: Seq<char>) -> int
    decreases s.len(),
{
    if s.len() == 0 {
        0
    } else {
        10 * digits_value(s.drop_last()) + digit_of(s.last())
    }
}

/// How many digits `s` starts with.
pub open spec fn digit_run(s: Seq<char>) -> int
    decreases s.len(),
{
    if s.len() > 0 && is_digit(s[0]) {
        1 + digit_run(s.drop_first())
    } else {
        0
    }
}

/// `n` zeros.
pub open spec fn zeros(n: int) -> Seq<char> {
    Seq::new(n as nat, |i: int| '0')
}

/// One where `s` starts with a sign, else zero.
pub open spec fn sign_len(s: Seq<char>) -> int {
    if s.len() > 0 && (s[0] == '-' || s[0] == '+') {
        1
    } else {
        0
    }
}

/// Whether `s` starts with a minus sign.
pub open spec fn is_negative(s: Seq<char>) -> bool {
    s.len() > 0 && s[0] == '-'
}

/// The digits before the point of the decimal text `s`.
pub open spec fn whole_digits(s: Seq<char>) -> Seq<char> {
    let body = s.skip(sign_len(s));
    body.take(digit_run(body))
}

/// What follows the whole digits of `s`: nothing, or a point and the
/// fractional digits.
pub open spec fn point_and_fraction(s: Seq<char>) -> Seq<char> {
    let body = s.skip(sign_len(s));
    body.skip(digit_run(body))
}

/// The digits behind the point of the decimal text `s`.
pub open spec fn fraction_digits(s: Seq<char>) -> Seq<char> {
    let tail = point_and_fraction(s);
    if tail.len() == 0 {
        tail
    } else {
        tail.skip(1)
    }
}

/// Whether `s` is decimal text: an optional sign, one digit or more, and
/// then nothing, or a point and at most four digits.
pub open spec fn is_decimal(s: Seq<char>) -> bool {
    let tail = point_and_fraction(s);
    let frac = fraction_digits(s);
    &&& whole_digits(s).len() > 0
    &&& tail.len() > 0 ==> tail[0] == '.'
    &&& frac.len() <= FRACTION_DIGITS
    &&& all_digits(frac)
}

/// The magnitude of the decimal text `s` in raw steps: its digits read as one
/// number, the fraction padded with zeros to four digits.
pub open spec fn decimal_magnitude(s: Seq<char>) -> int {
    let frac = fraction_digits(s);
    digits_value(whole_digits(s) + frac + zeros(FRACTION_DIGITS - frac.len()))
}

/// The raw steps that the text `s` stands for, if it is decimal text.
pub open spec fn decimal_value(s: Seq<char>) -> Option<int> {
    if !is_decimal(s) {
        None
    } else if is_negative(s) {
        Some(-decimal_magnitude(s))
    } else {
        Some(decimal_magnitude(s))
    }
}

/// The digits that spell `n` in base ten, with no zero in front but for
/// zero itself.
pub open spec fn decimal_digits(n: nat) -> Seq<char>
    decreases n,
{
    if n < 10 {
        seq![digit_char(n as int)]
    } else {
        decimal_digits(n / 10).push(digit_char((n % 10) as int))
    }
}

/// `v`, or `cap + 1` where `v` is larger than `cap`.
pub open spec fn capped(v: int, cap: int) -> int {
    if v > cap {
        cap + 1
    } else {
        v
    }
}

/// A run of digits is worth zero or more.
pub proof fn lemma_digits_value_nonnegative(s: Seq<char>)
    requires
        all_digits(s),
    ensures
        digits_value(s) >= 0,
    decreases s.len(),
{
    if s.len() > 0 {
        lemma_digits_value_nonnegative(s.drop_last());
    }
}

/// One more digit at the end: ten times the value so far, and the digit.
pub proof fn lemma_digits_value_push(s: Seq<char>, c: char)
    ensures
        digits_value(s.push(c)) == 10 * digits_value(s) + digit_of(c),
{
    assert(s.push(c).drop_last() =~= s);
}

/// Where `s` starts with `k` digits and then ends or goes on with another
/// character, its run of digits is `k` long.
pub proof fn lemma_digit_run(s: Seq<char>, k: int)
    requires
        0 <= k <= s.len(),
        all_digits(s.take(k)),
        k < s.len() ==> !is_digit(s[k]),
    ensures
        digit_run(s) == k,
    decreases k,
{
    if k == 0 {
    } else {
        assert(s.take(k)[0] == s[0]);
        let rest = s.drop_first();
        assert forall|i: int| 0 <= i < rest.take(k - 1).len() implies is_digit(
            #[trigger] rest.take(k - 1)[i],
        ) by {
            assert(rest.take(k - 1)[i] == s.take(k)[i + 1]);
        }
        lemma_digit_run(rest, k - 1);
    }
}

/// The text of one digit.
fn digit_text(d: u8) -> (r: &'static str)
    requires
        d < 10,
    ensures
        r@ == seq![digit_char(d as int)],
{
    proof {
        reveal_strlit("0");
        reveal_strlit("1");
        reveal_strlit("2");
        reveal_strlit("3");
        reveal_strlit("4");
        reveal_strlit("5");
        reveal_strlit("6");
        reveal_strlit("7");
        reveal_strlit("8");
        reveal_strlit("9");
    }
    let r = match d {
        0 => "0",
        1 => "1",
        2 => "2",
        3 => "3",
        4 => "4",
        5 => "5",
        6 => "6",
        7 => "7",
        8 => "8",
        _ => "9",
    };
    r
}

/// Spells a number in base ten.
pub fn decimal_string(n: u128) -> (s: String)
    ensures
        s@ == decimal_digits(n as nat),
    decreases n,
{
    if n < 10 {
        String::from_str(digit_text(n as u8))
    } else {
        let mut s = decimal_string(n / 10);
        s.append(digit_text((n % 10) as u8));
        s
    }
}

/// The digits at the start of `s` are digits, and what follows them is none.
pub proof fn lemma_digit_run_is_digits(s: Seq<char>)
    ensures
        0 <= digit_run(s) <= s.len(),
        all_digits(s.take(digit_run(s))),
        digit_run(s) < s.len() ==> !is_digit(s[digit_run(s)]),
    decreases s.len(),
{
    if s.len() > 0 && is_digit(s[0]) {
        let rest = s.drop_first();
        lemma_digit_run_is_digits(rest);
        let k = digit_run(s);
        assert forall|i: int| 0 <= i < k implies is_digit(#[trigger] s.take(k)[i]) by {
            if i > 0 {
                assert(s.take(k)[i] == rest.take(k - 1)[i - 1]);
            }
        }
        if k < s.len() {
            assert(s[k] == rest[k - 1]);
        }
    }
}

/// A sign, a digit and a point are each among the first 128 characters.
proof fn lemma_decimal_char_is_ascii(c: char)
    requires
        c == '-' || c == '+' || c == '.' || is_digit(c),
    ensures
        '\0' <= c <= '\u{7f}',
{
}

/// Decimal text is made of signs, digits and a point, so of nothing beyond
/// the first 128 characters.
pub proof fn lemma_decimal_is_ascii(s: Seq<char>)
    requires
        is_decimal(s),
    ensures
        is_ascii_chars(s),
{
    let sign = sign_len(s);
    let body = s.skip(sign);
    let run = digit_run(body);
    let frac = fraction_digits(s);
    lemma_digit_run_is_digits(body);
    assert forall|i: int| 0 <= i < s.len() implies '\0' <= #[trigger] s[i] <= '\u{7f}' by {
        if i < sign {
        } else if i < sign + run {
            assert(s[i] == body.take(run)[i - sign]);
        } else if i == sign + run {
            assert(s[i] == point_and_fraction(s)[0]);
        } else {
            assert(s[i] == frac[i - sign - run - 1]);
        }
        lemma_decimal_char_is_ascii(s[i]);
    }
}

/// Where the run of digits that starts at `from` ends.
fn digits_end(s: &str, from: usize) -> (end: usize)
    requires
        is_ascii(s),
        from <= s@.len(),
    ensures
        from <= end <= s@.len(),
        end - from == digit_run(s@.skip(from as int)),
{
    proof {
        is_ascii_spec_bytes(s);
    }
    let len: usize = s.as_bytes().len();
    let ghost rest: Seq<char> = s@.skip(from as int);
    let mut end: usize = from;
    while end < len && ZERO <= s.get_ascii(end) && s.get_ascii(end) <= NINE
        invariant
            is_ascii(s),
            from <= end <= len,
            len == s@.len(),
            rest == s@.skip(from as int),
            all_digits(rest.take(end - from)),
        decreases len - end,
    {
        assert forall|i: int| 0 <= i < end + 1 - from implies is_digit(
            #[trigger] rest.take(end + 1 - from)[i],
        ) by {
            if i < end - from {
                assert(rest.take(end + 1 - from)[i] == rest.take(end - from)[i]);
            }
        }
        end = end + 1;
    }
    proof {
        lemma_digit_run(rest, end - from);
    }
    end
}

/// Takes one more digit into a capped running value.
fn take_digit(acc: u64, digit: u8, cap: u64, Ghost(seen): Ghost<Seq<char>>) -> (r: u64)
    requires
        digit < 10,
        all_digits(seen),
        cap <= CAP_LIMIT,
        acc == capped(digits_value(seen), cap as int),
    ensures
        r == capped(digits_value(seen.push(digit_char(digit as int))), cap as int),
{
    proof {
        lemma_digits_value_push(seen, digit_char(digit as int));
        lemma_digits_value_nonnegative(seen);
    }
    let next: u64 = acc * 10 + digit as u64;
    if next > cap {
        cap + 1
    } else {
        next
    }
}

/// Takes the digits of `s` from `from` up to `to` into a capped running
/// value.
fn take_digits(
    s: &str,
    from: usize,
    to: usize,
    acc: u64,
    cap: u64,
    Ghost(seen): Ghost<Seq<char>>,
) -> (r: u64)
    requires
        is_ascii(s),
        from <= to <= s@.len(),
        all_digits(s@.subrange(from as int, to as int)),
        all_digits(seen),
        cap <= CAP_LIMIT,
        acc == capped(digits_value(seen), cap as int),
    ensures
        r == capped(digits_value(seen + s@.subrange(from as int, to as int)), cap as int),
{
    let ghost digits: Seq<char> = s@.subrange(from as int, to as int);
    let mut acc: u64 = acc;
    let mut i: usize = from;
    assert(seen + digits.take(0) =~= seen);
    while i < to
        invariant
            is_ascii(s),
            from <= i <= to <= s@.len(),
            digits == s@.subrange(from as int, to as int),
            all_digits(digits),
            all_digits(seen + digits.take(i - from)),
            cap <= CAP_LIMIT,
            acc == capped(digits_value(seen + digits.take(i - from)), cap as int),
        decreases to - i,
    {
        let ghost so_far = seen + digits.take(i - from);
        let byte: u8 = s.get_ascii(i);
        assert(is_digit(digits[i - from]));
        assert(digit_char((byte - ZERO) as int) == s@[i as int]);
        acc = take_digit(acc, byte - ZERO, cap, Ghost(so_far));
        assert(seen + digits.take(i + 1 - from) =~= so_far.push(s@[i as int]));
        i = i + 1;
    }
    assert(digits.take(to - from) =~= digits);
    acc
}

/// Takes `n` zeros into a capped running value.
fn take_zeros(n: usize, acc: u64, cap: u64, Ghost(seen): Ghost<Seq<char>>) -> (r: u64)
    requires
        all_digits(seen),
        cap <= CAP_LIMIT,
        acc == capped(digits_value(seen), cap as int),
    ensures
        r == capped(digits_value(seen + zeros(n as int)), cap as int),
{
    let mut acc: u64 = acc;
    let mut i: usize = 0;
    assert(seen + zeros(0) =~= seen);
    while i < n
        invariant
            i <= n,
            all_digits(seen + zeros(i as int)),
            cap <= CAP_LIMIT,
            acc == capped(digits_value(seen + zeros(i as int)), cap as int),
        decreases n - i,
    {
        acc = take_digit(acc, 0, cap, Ghost(seen + zeros(i as int)));
        assert(seen + zeros(i + 1) =~= (seen + zeros(i as int)).push('0'));
        i = i + 1;
    }
    acc
}

/// Reads decimal text. Gives the magnitude in raw steps and whether a minus
/// sign leads, or `None` where the text is no decimal; a magnitude above
/// `cap` comes back as `cap + 1`.
pub fn read_decimal(s: &str, cap: u64) -> (r: Option<(u64, bool)>)
    requires
        cap <= CAP_LIMIT,
    ensures
        r is Some <==> is_decimal(s@),
        r matches Some((magnitude, negative)) ==> {
            &&& magnitude == capped(decimal_magnitude(s@), cap as int)
            &&& negative == is_negative(s@)
        },
{
    if !s.is_ascii() {
        proof {
            if is_decimal(s@) {
                lemma_decimal_is_ascii(s@);
            }
        }
        return None;
    }
    proof {
        is_ascii_spec_bytes(s);
    }
    let len: usize = s.as_bytes().len();
    let negative: bool = len > 0 && s.get_ascii(0) == MINUS;
    let start: usize = if len > 0 && (s.get_ascii(0) == MINUS || s.get_ascii(0) == PLUS) {
        1
    } else {
        0
    };
    let whole_end: usize = digits_end(s, start);
    if whole_end == start {
        return None;
    }
    let frac_start: usize = if whole_end == len {
        len
    } else if s.get_ascii(whole_end) == POINT {
        whole_end + 1
    } else {
        return None;
    };
    let ghost whole: Seq<char> = s@.subrange(start as int, whole_end as int);
    let ghost frac: Seq<char> = s@.subrange(frac_start as int, len as int);
    proof {
        let body = s@.skip(start as int);
        lemma_digit_run_is_digits(body);
        assert(whole =~= whole_digits(s@));
        assert(frac =~= fraction_digits(s@));
        lemma_digit_run_is_digits(s@.skip(frac_start as int));
        assert(frac =~= s@.skip(frac_start as int).take(len - frac_start));
    }
    if len - frac_start > FRACTION_DIGITS || digits_end(s, frac_start) != len {
        return None;
    }
    let acc: u64 = take_digits(s, start, whole_end, 0, cap, Ghost(Seq::empty()));
    assert(Seq::<char>::empty() + whole =~= whole);
    let acc: u64 = take_digits(s, frac_start, len, acc, cap, Ghost(whole));
    assert(all_digits(whole + frac)) by {
        assert forall|i: int| 0 <= i < (whole + frac).len() implies is_digit(
            #[trigger] (whole + frac)[i],
        ) by {
            if i < whole.len() {
                assert((whole + frac)[i] == whole[i]);
            } else {
                assert((whole + frac)[i] == frac[i - whole.len()]);
            }
        }
    }
    let acc: u64 = take_zeros(FRACTION_DIGITS - (len - frac_start), acc, cap, Ghost(whole + frac));
    Some((acc, negative))
}

} // verus!

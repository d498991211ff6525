//! Numbers as text: writing them out, and reading them back.

use vstd::arithmetic::power::pow;
use vstd::prelude::*;
use crate::text::chars_of;

verus! {

/// The character for one decimal digit.
pub open spec fn digit(d: int) -> char {
    if d == 0 {
        '0'
    } else if d == 1 {
        '1'
    } else if d == 2 {
        '2'
    } else if d == 3 {
        '3'
    } else if d == 4 {
        '4'
    } else if d == 5 {
        '5'
    } else if d == 6 {
        '6'
    } else if d == 7 {
        '7'
    } else if d == 8 {
        '8'
    } else {
        '9'
    }
}

/// `n` in decimal, without leading zeros.
pub open spec fn decimal(n: nat) -> Seq<char>
    decreases n,
{
    if n < 10 {
        seq![digit(n as int)]
    } else {
        decimal(n / 10).push(digit((n % 10) as int))
    }
}

/// `n / d` to the nearest whole number, a tie going to the even neighbour.
pub open spec fn nearest(n: nat, d: nat) -> nat {
    let q = n / d;
    let r = n % d;
    if 2 * r < d || (2 * r == d && q % 2 == 0) {
        q
    } else {
        q + 1
    }
}

pub open spec fn magnitude(i: int) -> nat {
    if i < 0 {
        (-i) as nat
    } else {
        i as nat
    }
}

pub open spec fn sign(i: int) -> Seq<char> {
    if i < 0 {
        seq!['-']
    } else {
        seq![]
    }
}

/// `n` and `w` doubled together until `n / d` takes 53 bits.
pub open spec fn widened(n: nat, d: nat, w: nat) -> (nat, nat)
    decreases
            if n < 4_503_599_627_370_496 * d {
                4_503_599_627_370_496 * d - n
            } else {
                0
            },
{
    if n == 0 || n >= 4_503_599_627_370_496 * d {
        (n, w)
    } else {
        widened(2 * n, d, 2 * w)
    }
}

/// The double nearest to `n / d`, as a whole number over a power of two. From the 53rd bit on
/// it is the nearest whole number.
pub open spec fn double(n: nat, d: nat) -> (nat, nat) {
    let (m, w) = widened(n, d, 1);
    (nearest(m, d), w)
}

/// The double nearest to `n / d` in tenths, to the nearest whole one: where `n / d` is half
/// way between two, the side on which the double lies decides.
pub open spec fn tenths(n: nat, d: nat) -> nat {
    let (q, w) = double(n, d);
    nearest(q * 10, w)
}

/// A thousandth-valued quantity to one decimal place, as a double is printed.
pub open spec fn one_place(milli: int) -> Seq<char> {
    let t = tenths(magnitude(milli), 1000);
    sign(milli) + decimal(t / 10) + seq!['.', digit((t % 10) as int)]
}

/// A millionth-valued quantity to one decimal place, as a double is printed.
pub open spec fn one_place_of_micro(micro: int) -> Seq<char> {
    let t = tenths(magnitude(micro), 1_000_000);
    sign(micro) + decimal(t / 10) + seq!['.', digit((t % 10) as int)]
}

/// A thousandth-valued quantity to the nearest whole number.
pub open spec fn no_places(milli: int) -> Seq<char> {
    sign(milli) + decimal(nearest(magnitude(milli), 1000))
}

pub open spec fn is_digit(c: char) -> bool {
    '0' <= c && c <= '9'
}

pub open spec fn digit_value(c: char) -> nat {
    (c as u32 - '0' as u32) as nat
}

pub open spec fn all_digits(s: Seq<char>) -> bool {
    forall|i: int| 0 <= i < s.len() ==> is_digit(#[trigger] s[i])
}

/// The number a run of digits spells.
pub open spec fn value_of(s: Seq<char>) -> nat
    decreases s.len(),
{
    if s.len() == 0 {
        0
    } else {
        value_of(s.drop_last()) * 10 + digit_value(s.last())
    }
}

/// How many digits `s` starts with.
pub open spec fn leading_digits(s: Seq<char>) -> nat
    decreases s.len(),
{
    if s.len() > 0 && is_digit(s[0]) {
        1 + leading_digits(s.skip(1))
    } else {
        0
    }
}

/// Why a text is not a number of the kind asked for.
#[derive(Debug, Clone, Copy, PartialEq, Eq, Structural)]
pub enum NumberError {
    Empty,
    InvalidDigit,
    TooLarge,
    TooSmall,
}

impl NumberError {
    pub open spec fn spec_text(self) -> Seq<char> {
        match self {
            NumberError::Empty => "cannot parse integer from empty string"@,
            NumberError::InvalidDigit => "invalid digit found in string"@,
            NumberError::TooLarge => "number too large to fit in target type"@,
            NumberError::TooSmall => "number too small to fit in target type"@,
        }
    }

    pub fn text(self) -> (r: &'static str)
        ensures
            r@ == self.spec_text(),
    {
        match self {
            NumberError::Empty => "cannot parse integer from empty string",
            NumberError::InvalidDigit => "invalid digit found in string",
            NumberError::TooLarge => "number too large to fit in target type",
            NumberError::TooSmall => "number too small to fit in target type",
        }
    }
}

/// Reads digits up to `max`. Digits that already spell more than `max` are too large
/// whatever comes behind them; anything else that is not a digit is invalid.
pub open spec fn digits_up_to(s: Seq<char>, max: nat) -> Result<nat, NumberError> {
    let n = leading_digits(s);
    if s.len() == 0 {
        Err(NumberError::InvalidDigit)
    } else if value_of(s.take(n as int)) > max {
        Err(NumberError::TooLarge)
    } else if n < s.len() {
        Err(NumberError::InvalidDigit)
    } else {
        Ok(value_of(s))
    }
}

/// A whole number from 0 to `max`, with an optional plus sign.
pub open spec fn unsigned(s: Seq<char>, max: nat) -> Result<nat, NumberError> {
    if s.len() == 0 {
        Err(NumberError::Empty)
    } else if s[0] == '+' {
        digits_up_to(s.skip(1), max)
    } else {
        digits_up_to(s, max)
    }
}

/// A whole number that an `i64` holds, with an optional sign.
pub open spec fn signed(s: Seq<char>) -> Result<int, NumberError> {
    if s.len() > 0 && s[0] == '-' {
        match digits_up_to(s.skip(1), 0x8000_0000_0000_0000) {
            Ok(n) => Ok(-(n as int)),
            Err(NumberError::TooLarge) => Err(NumberError::TooSmall),
            Err(e) => Err(e),
        }
    } else {
        match unsigned(s, 0x7FFF_FFFF_FFFF_FFFF) {
            Ok(n) => Ok(n as int),
            Err(e) => Err(e),
        }
    }
}

pub proof fn lemma_leading_digits(s: Seq<char>, n: nat)
    requires
        n <= s.len(),
        all_digits(s.take(n as int)),
        n < s.len() ==> !is_digit(s[n as int]),
    ensures
        leading_digits(s) == n,
    decreases n,
{
    if n > 0 {
        let t = s.skip(1);
        assert(s.take(n as int)[0] == s[0]);
        assert forall|i: int| 0 <= i < n - 1 implies is_digit(#[trigger] t.take(n - 1)[i]) by {
            assert(t.take(n - 1)[i] == s.take(n as int)[i + 1]);
        }
        lemma_leading_digits(t, (n - 1) as nat);
    }
}

pub proof fn lemma_leading_digits_bound(s: Seq<char>)
    ensures
        leading_digits(s) <= s.len(),
        all_digits(s.take(leading_digits(s) as int)),
    decreases s.len(),
{
    if s.len() > 0 && is_digit(s[0]) {
        lemma_leading_digits_bound(s.skip(1));
        let n = leading_digits(s.skip(1));
        assert forall|i: int| 0 <= i < n + 1 implies is_digit(
            #[trigger] s.take(n as int + 1)[i],
        ) by {
            if i > 0 {
                assert(s.skip(1).take(n as int)[i - 1] == s.take(n as int + 1)[i]);
            }
        }
    }
}

/// Spelling more digits never makes the number smaller.
pub proof fn lemma_value_of_prefix(s: Seq<char>, n: int)
    requires
        0 <= n <= s.len(),
    ensures
        value_of(s.take(n)) <= value_of(s),
    decreases s.len(),
{
    if n < s.len() {
        lemma_value_of_prefix(s.drop_last(), n);
        assert(s.drop_last().take(n) =~= s.take(n));
    } else {
        assert(s.take(n) =~= s);
    }
}

/// The text of one digit.
fn digit_text(d: u8) -> (r: &'static str)
    requires
        d < 10,
    ensures
        r@ == seq![digit(d as int)],
{
    proof {
        reveal_strlit("0");
        reveal_strlit("1");
        reveal_strlit("2");
        reveal_strlit("3");
        reveal_strlit("4");
        reveal_strlit("5");
        reveal_strlit("6");
        reveal_strlit("7");
        reveal_strlit("8");
        reveal_strlit("9");
    }
    let r: &'static str = if d == 0 {
        "0"
    } else if d == 1 {
        "1"
    } else if d == 2 {
        "2"
    } else if d == 3 {
        "3"
    } else if d == 4 {
        "4"
    } else if d == 5 {
        "5"
    } else if d == 6 {
        "6"
    } else if d == 7 {
        "7"
    } else if d == 8 {
        "8"
    } else {
        "9"
    };
    assert(r@ =~= seq![digit(d as int)]);
    r
}

/// `n` in decimal.
pub fn decimal_text(n: u64) -> (r: String)
    ensures
        r@ == decimal(n as nat),
    decreases n,
{
    let last = digit_text((n % 10) as u8);
    if n < 10 {
        last.to_owned()
    } else {
        let mut s = decimal_text(n / 10);
        s.append(last);
        assert(s@ =~= decimal(n as nat));
        s
    }
}

fn magnitude_of(i: i64) -> (r: u64)
    ensures
        r == magnitude(i as int),
{
    if i < 0 {
        (-(i as i128)) as u64
    } else {
        i as u64
    }
}

fn sign_text(i: i64) -> (r: &'static str)
    ensures
        r@ == sign(i as int),
{
    proof {
        reveal_strlit("-");
        reveal_strlit("");
    }
    if i < 0 {
        assert("-"@ =~= sign(i as int));
        "-"
    } else {
        assert(""@ =~= sign(i as int));
        ""
    }
}

fn nearest_of(n: u64, d: u64) -> (r: u64)
    requires
        1 < d <= 1_000_000,
    ensures
        r == nearest(n as nat, d as nat),
        r <= u64::MAX / 2 + 1,
{
    let q: u64 = n / d;
    let r: u64 = n % d;
    assert(q <= u64::MAX / 2) by (nonlinear_arith)
        requires
            q == n / d,
            d > 1,
            n <= u64::MAX,
    ;
    if 2 * r < d || (2 * r == d && q % 2 == 0) {
        q
    } else {
        q + 1
    }
}

fn nearest_wide(n: u128, d: u128) -> (r: u128)
    requires
        0 < d <= 0x1_0000_0000_0000_0000_0000_0000,
        n < u128::MAX,
    ensures
        r == nearest(n as nat, d as nat),
        r <= n / d + 1,
{
    let q: u128 = n / d;
    let r: u128 = n % d;
    assert(q <= n) by (nonlinear_arith)
        requires
            q == n / d,
            d > 0,
    ;
    if 2 * r < d || (2 * r == d && q % 2 == 0) {
        q
    } else {
        q + 1
    }
}

/// `n / d` in tenths, through the nearest double.
fn tenths_of(n: u64, d: u64) -> (r: u64)
    requires
        1000 <= d <= 1_000_000,
    ensures
        r == tenths(n as nat, d as nat),
{
    let wide: u128 = d as u128;
    let full: u128 = 4_503_599_627_370_496 * wide;
    let mut m: u128 = n as u128;
    let mut w: u128 = 1;
    while m != 0 && m < full
        invariant
            wide == d,
            1000 <= d <= 1_000_000,
            full == 4_503_599_627_370_496 * wide,
            widened(n as nat, d as nat, 1) == widened(m as nat, d as nat, w as nat),
            m == n * w,
            m < 2 * full || m <= u64::MAX,
            w >= 1,
            n == 0 ==> w == 1,
            n != 0 ==> w <= m,
        decreases
                if m < full {
                    full - m
                } else {
                    0
                },
    {
        m = 2 * m;
        assert(m == n * (2 * w)) by (nonlinear_arith)
            requires
                m == 2 * (n * w),
        ;
        w = 2 * w;
    }
    let q: u128 = nearest_wide(m, wide);
    assert(q <= m / 1000 + 1) by (nonlinear_arith)
        requires
            q <= m / wide + 1,
            wide >= 1000,
            m >= 0,
    ;
    let t: u128 = nearest_wide(q * 10, w);
    assert(t <= (n + 1000) / 100 + 1) by {
        assert(100 * (q * 10) <= m + 1000);
        assert(100 * (q * 10) <= (n + 1000) * w) by (nonlinear_arith)
            requires
                100 * (q * 10) <= m + 1000,
                m == n * w,
                w >= 1,
        ;
        let x = (q * 10) as int / w as int;
        assert(100 * x <= n + 1000) by (nonlinear_arith)
            requires
                x == (q * 10) as int / w as int,
                100 * (q * 10) <= (n + 1000) * w,
                w >= 1,
        ;
    }
    t as u64
}

fn with_place(sign: &str, t: u64) -> (r: String)
    ensures
        r@ == sign@ + decimal((t / 10) as nat) + seq!['.', digit((t % 10) as int)],
{
    let mut s = sign.to_owned();
    s.append(decimal_text(t / 10).as_str());
    proof {
        reveal_strlit(".");
    }
    s.append(".");
    s.append(digit_text((t % 10) as u8));
    assert(s@ =~= sign@ + decimal((t / 10) as nat) + seq!['.', digit((t % 10) as int)]);
    s
}

/// A thousandth-valued quantity, not below zero, to one decimal place.
pub fn one_place_of(milli: u64) -> (r: String)
    ensures
        r@ == one_place(milli as int),
{
    proof {
        reveal_strlit("");
        assert(""@ =~= sign(milli as int));
    }
    with_place("", tenths_of(milli, 1000))
}

/// A thousandth-valued quantity to one decimal place.
pub fn one_place_text(milli: i64) -> (r: String)
    ensures
        r@ == one_place(milli as int),
{
    with_place(sign_text(milli), tenths_of(magnitude_of(milli), 1000))
}

/// A millionth-valued quantity to one decimal place.
pub fn one_place_of_micro_text(micro: i64) -> (r: String)
    ensures
        r@ == one_place_of_micro(micro as int),
{
    with_place(sign_text(micro), tenths_of(magnitude_of(micro), 1_000_000))
}

/// A thousandth-valued quantity, not below zero, to the nearest whole number.
pub fn no_places_of(milli: u64) -> (r: String)
    ensures
        r@ == no_places(milli as int),
{
    let s = decimal_text(nearest_of(milli, 1000));
    assert(s@ =~= no_places(milli as int));
    s
}

/// A thousandth-valued quantity to the nearest whole number.
pub fn no_places_text(milli: i64) -> (r: String)
    ensures
        r@ == no_places(milli as int),
{
    let t: u64 = nearest_of(magnitude_of(milli), 1000);
    let mut s = sign_text(milli).to_owned();
    s.append(decimal_text(t).as_str());
    s
}

/// Reads digits from `from` on.
fn read_digits(chars: &Vec<char>, from: usize, max: u64) -> (r: Result<u64, NumberError>)
    requires
        from <= chars@.len(),
    ensures
        match r {
            Ok(n) => n <= max && digits_up_to(chars@.skip(from as int), max as nat) == Ok::<
                nat,
                NumberError,
            >(n as nat),
            Err(e) => digits_up_to(chars@.skip(from as int), max as nat) == Err::<
                nat,
                NumberError,
            >(e),
        },
{
    let ghost s = chars@.skip(from as int);
    let len: usize = chars.len();
    if from == len {
        return Err(NumberError::InvalidDigit);
    }
    let mut i: usize = from;
    let mut n: u64 = 0;
    assert(s.take(0) =~= seq![]);
    while i < len
        invariant
            len == chars@.len(),
            from <= i <= len,
            from < len,
            s == chars@.skip(from as int),
            all_digits(s.take(i - from)),
            n == value_of(s.take(i - from)),
            n <= max,
        decreases len - i,
    {
        let c: char = chars[i];
        assert(c == s[i - from]);
        if c < '0' || c > '9' {
            proof {
                lemma_leading_digits(s, (i - from) as nat);
            }
            return Err(NumberError::InvalidDigit);
        }
        let d: u64 = (c as u32 - 48) as u64;
        let wide: u128 = (n as u128) * 10 + (d as u128);
        assert(s.take(i + 1 - from).drop_last() =~= s.take(i - from));
        assert(s.take(i + 1 - from).last() == c);
        assert(wide == value_of(s.take(i + 1 - from)));
        assert forall|j: int| 0 <= j < i + 1 - from implies is_digit(
            #[trigger] s.take(i + 1 - from)[j],
        ) by {
            if j < i - from {
                assert(s.take(i + 1 - from)[j] == s.take(i - from)[j]);
            }
        }
        if wide > max as u128 {
            proof {
                lemma_leading_digits_bound(s);
                let k = leading_digits(s);
                if k < i + 1 - from {
                    assert(s.take(i + 1 - from)[k as int] == s[k as int]);
                    assert(is_digit(s[k as int]));
                    lemma_leading_digits_stop(s);
                }
                lemma_value_of_prefix(s.take(k as int), i + 1 - from);
                assert(s.take(k as int).take(i + 1 - from) =~= s.take(i + 1 - from));
            }
            return Err(NumberError::TooLarge);
        }
        n = wide as u64;
        i = i + 1;
    }
    proof {
        lemma_leading_digits(s, (len - from) as nat);
        assert(s.take(len - from) =~= s);
    }
    Ok(n)
}

pub proof fn lemma_leading_digits_stop(s: Seq<char>)
    ensures
        leading_digits(s) < s.len() ==> !is_digit(s[leading_digits(s) as int]),
    decreases s.len(),
{
    if s.len() > 0 && is_digit(s[0]) {
        lemma_leading_digits_stop(s.skip(1));
    }
}

/// Reads a whole number from 0 to `max`.
pub fn parse_up_to(s: &str, max: u64) -> (r: Result<u64, NumberError>)
    ensures
        match r {
            Ok(n) => n <= max && unsigned(s@, max as nat) == Ok::<nat, NumberError>(n as nat),
            Err(e) => unsigned(s@, max as nat) == Err::<nat, NumberError>(e),
        },
{
    let chars = chars_of(s);
    if chars.len() == 0 {
        return Err(NumberError::Empty);
    }
    if chars[0] == '+' {
        read_digits(&chars, 1, max)
    } else {
        assert(s@.skip(0) =~= s@);
        read_digits(&chars, 0, max)
    }
}

/// Reads a whole number that an `i64` holds.
pub fn parse_signed(s: &str) -> (r: Result<i64, NumberError>)
    ensures
        match r {
            Ok(n) => signed(s@) == Ok::<int, NumberError>(n as int),
            Err(e) => signed(s@) == Err::<int, NumberError>(e),
        },
{
    let chars = chars_of(s);
    if chars.len() > 0 && chars[0] == '-' {
        match read_digits(&chars, 1, 0x8000_0000_0000_0000) {
            Ok(n) => Ok((-(n as i128)) as i64),
            Err(NumberError::TooLarge) => Err(NumberError::TooSmall),
            Err(e) => Err(e),
        }
    } else {
        match parse_up_to(s, 0x7FFF_FFFF_FFFF_FFFF) {
            Ok(n) => Ok(n as i64),
            Err(e) => Err(e),
        }
    }
}

/// What is written in decimal reads back as itself.
pub proof fn decimal_reads_back(n: nat, max: nat)
    ensures
        unsigned(decimal(n), max) == (if n <= max {
            Ok::<nat, NumberError>(n)
        } else {
            Err(NumberError::TooLarge)
        }),
{
    lemma_decimal(n);
    let s = decimal(n);
    assert(s.take(s.len() as int) =~= s);
    lemma_leading_digits(s, s.len());
    assert(is_digit(s[0]));
}

/// Decimal text is digits, at least one, that spell the number.
pub proof fn lemma_decimal(n: nat)
    ensures
        decimal(n).len() > 0,
        all_digits(decimal(n)),
        value_of(decimal(n)) == n,
    decreases n,
{
    if n < 10 {
        assert(decimal(n).drop_last() =~= seq![]);
        assert(value_of(seq![]) == 0);
    } else {
        lemma_decimal(n / 10);
        assert(decimal(n).drop_last() =~= decimal(n / 10));
        assert forall|i: int| 0 <= i < decimal(n).len() implies is_digit(
            #[trigger] decimal(n)[i],
        ) by {
            if i < decimal(n / 10).len() {
                assert(decimal(n)[i] == decimal(n / 10)[i]);
            }
        }
    }
}

/// The number that the first `k` digits spell, zeros standing behind the last.
pub open spec fn first_digits(s: Seq<char>, k: int) -> nat
    decreases k,
{
    if k <= 0 {
        0
    } else {
        first_digits(s, k - 1) * 10 + (if k - 1 < s.len() {
            digit_value(s[k - 1])
        } else {
            0
        })
    }
}

/// Whether anything but zeros stands from digit `point` on.
pub open spec fn any_from(digits: Seq<char>, point: int) -> bool {
    exists|i: int| point <= i && 0 <= i < digits.len() && #[trigger] digits[i] != '0'
}

/// Digits with the decimal point behind the first `point` of them, as a whole number: what
/// stands behind the point is dropped, or counts as one more where it is anything.
pub open spec fn rounded(digits: Seq<char>, point: int, outward: bool) -> nat {
    first_digits(digits, point) + (if outward && any_from(digits, point) {
        1nat
    } else {
        0
    })
}

/// The exponent of a decimal number: nothing, or `e` and a whole number.
pub open spec fn exponent(s: Seq<char>) -> Option<int> {
    if s.len() == 0 {
        Some(0)
    } else if s[0] == 'e' || s[0] == 'E' {
        let t = s.skip(1);
        let signed = t.len() > 0 && (t[0] == '+' || t[0] == '-');
        let d = if signed {
            t.skip(1)
        } else {
            t
        };
        if d.len() > 0 && all_digits(d) {
            if signed && t[0] == '-' {
                Some(-(value_of(d) as int))
            } else {
                Some(value_of(d) as int)
            }
        } else {
            None
        }
    } else {
        None
    }
}

/// Whether a point follows the digits that a text starts with.
pub open spec fn pointed(s: Seq<char>) -> bool {
    let after = s.skip(leading_digits(s) as int);
    after.len() > 0 && after[0] == '.'
}

/// What stands behind that point.
pub open spec fn behind_point(s: Seq<char>) -> Seq<char> {
    s.skip(leading_digits(s) as int).skip(1)
}

/// The digits on both sides of the point.
pub open spec fn mantissa(s: Seq<char>) -> Seq<char> {
    s.take(leading_digits(s) as int) + (if pointed(s) {
        behind_point(s).take(leading_digits(behind_point(s)) as int)
    } else {
        seq![]
    })
}

/// What stands behind those digits.
pub open spec fn behind_mantissa(s: Seq<char>) -> Seq<char> {
    if pointed(s) {
        behind_point(s).skip(leading_digits(behind_point(s)) as int)
    } else {
        s.skip(leading_digits(s) as int)
    }
}

/// A decimal number without a sign, in thousandths: digits, a point and digits behind it
/// (either side may be missing, not both), an exponent.
pub open spec fn unsigned_milli(s: Seq<char>, outward: bool) -> Option<nat> {
    match exponent(behind_mantissa(s)) {
        Some(e) if mantissa(s).len() > 0 => Some(
            rounded(mantissa(s), leading_digits(s) + e + 3, outward),
        ),
        _ => None,
    }
}

/// A decimal number in thousandths, where an `i64` holds it. One between two thousandths is
/// taken for the one nearer to zero, or for the other where it goes `outward`.
pub open spec fn milli(s: Seq<char>, outward: bool) -> Option<int> {
    let signed = s.len() > 0 && (s[0] == '+' || s[0] == '-');
    let body = if signed {
        s.skip(1)
    } else {
        s
    };
    match unsigned_milli(body, outward) {
        Some(m) if m <= i64::MAX => Some(
            if signed && s[0] == '-' {
                -(m as int)
            } else {
                m as int
            },
        ),
        _ => None,
    }
}

/// What is written in decimal reads back as that many thousand thousandths, either way.
pub proof fn decimal_reads_back_in_milli(n: nat, outward: bool)
    requires
        n * 1000 <= i64::MAX,
    ensures
        milli(decimal(n), outward) == Some(n as int * 1000),
{
    lemma_decimal(n);
    let s = decimal(n);
    let k = s.len() as int;
    assert(is_digit(s[0]));
    assert(s.take(k) =~= s);
    lemma_leading_digits(s, s.len());
    assert(s.take(k) + seq![] =~= s);
    assert(s.skip(k) =~= seq![]);
    lemma_first_digits_all(s, k);
    reveal_with_fuel(first_digits, 4);
    assert(first_digits(s, k + 3) == n * 1000);
}

/// A number of thousandths, in full: whole, or with three places.
pub open spec fn thousandths(m: nat) -> Seq<char> {
    decimal(m / 1000) + (if m % 1000 == 0 {
        seq![]
    } else {
        seq![
            '.',
            digit((m / 100 % 10) as int),
            digit((m / 10 % 10) as int),
            digit((m % 10) as int),
        ]
    })
}

/// A number of thousandths, in full.
pub fn thousandths_text(m: u64) -> (r: String)
    ensures
        r@ == thousandths(m as nat),
{
    let mut s = decimal_text(m / 1000);
    if m % 1000 != 0 {
        proof {
            reveal_strlit(".");
        }
        s.append(".");
        s.append(digit_text((m / 100 % 10) as u8));
        s.append(digit_text((m / 10 % 10) as u8));
        s.append(digit_text((m % 10) as u8));
    }
    assert(s@ =~= thousandths(m as nat));
    s
}

proof fn lemma_three_more(t: Seq<char>, a: char, b: char, c: char)
    ensures
        value_of(t + seq![a, b, c]) == value_of(t) * 1000 + digit_value(a) * 100 + digit_value(b) * 10
            + digit_value(c),
{
    let one = t.push(a);
    let two = one.push(b);
    let all = two.push(c);
    assert(t + seq![a, b, c] =~= all);
    assert(one.drop_last() =~= t);
    assert(value_of(one) == value_of(t) * 10 + digit_value(a));
    assert(two.drop_last() =~= one);
    assert(value_of(two) == value_of(one) * 10 + digit_value(b));
    assert(all.drop_last() =~= two);
    assert(value_of(all) == value_of(two) * 10 + digit_value(c));
}

/// Digits, a point and three digits more, taken apart.
proof fn lemma_three_places(t: Seq<char>, a: char, b: char, c: char)
    requires
        t.len() > 0,
        all_digits(t),
        is_digit(a) && is_digit(b) && is_digit(c),
    ensures
        ({
            let s = t + seq!['.', a, b, c];
            &&& leading_digits(s) == t.len()
            &&& mantissa(s) == t + seq![a, b, c]
            &&& behind_mantissa(s).len() == 0
            &&& is_digit(s[0])
        }),
{
    let s = t + seq!['.', a, b, c];
    let n = t.len();
    let tail = seq![a, b, c];
    assert(s.take(n as int) =~= t);
    assert(s[n as int] == '.');
    lemma_leading_digits(s, n);
    assert(s.skip(n as int)[0] == '.');
    assert(behind_point(s) =~= tail);
    assert(tail.take(3) =~= tail);
    lemma_leading_digits(tail, 3);
    assert(mantissa(s) =~= t + tail);
    assert(is_digit(t[0]) && s[0] == t[0]);
}

proof fn lemma_reads_three_places(t: Seq<char>, a: char, b: char, c: char, outward: bool)
    requires
        t.len() > 0,
        all_digits(t),
        is_digit(a) && is_digit(b) && is_digit(c),
        value_of(t + seq![a, b, c]) <= i64::MAX,
    ensures
        milli(t + seq!['.', a, b, c], outward) == Some(value_of(t + seq![a, b, c]) as int),
{
    let s = t + seq!['.', a, b, c];
    let all = t + seq![a, b, c];
    lemma_three_places(t, a, b, c);
    assert(exponent(behind_mantissa(s)) == Some(0int));
    assert(all.take(all.len() as int) =~= all);
    lemma_first_digits_all(all, all.len() as int);
    assert(!any_from(all, all.len() as int));
    assert(rounded(all, all.len() as int, outward) == value_of(all));
    assert(unsigned_milli(s, outward) == Some(value_of(all)));
}

proof fn lemma_digit(d: int)
    requires
        0 <= d < 10,
    ensures
        is_digit(digit(d)),
        digit_value(digit(d)) == d,
{
}

proof fn lemma_three_digits(m: nat)
    ensures
        ({
            let (a, b, c) = (
                digit((m / 100 % 10) as int),
                digit((m / 10 % 10) as int),
                digit((m % 10) as int),
            );
            &&& is_digit(a) && is_digit(b) && is_digit(c)
            &&& digit_value(a) * 100 + digit_value(b) * 10 + digit_value(c) == m % 1000
        }),
{
    lemma_three_places_of(m);
    lemma_digit((m / 100 % 10) as int);
    lemma_digit((m / 10 % 10) as int);
    lemma_digit((m % 10) as int);
    lemma_digits_weigh(
        digit((m / 100 % 10) as int),
        digit((m / 10 % 10) as int),
        digit((m % 10) as int),
        m,
    );
}

proof fn lemma_three_places_of(m: nat)
    ensures
        (m / 100 % 10) * 100 + (m / 10 % 10) * 10 + m % 10 == m % 1000,
{
    let a = m as int / 10;
    let b = a / 10;
    let k = b / 10;
    vstd::arithmetic::div_mod::lemma_div_denominator(m as int, 10, 10);
    vstd::arithmetic::div_mod::lemma_div_denominator(m as int, 100, 10);
    assert(m as int / 100 == b);
    assert(m as int / 1000 == k);
    assert(m == 10 * a + m % 10);
    assert(a == 10 * b + a % 10);
    assert(b == 10 * k + b % 10);
    assert(m % 1000 == m - 1000 * k);
}

proof fn lemma_digits_weigh(a: char, b: char, c: char, m: nat)
    requires
        digit_value(a) == m / 100 % 10,
        digit_value(b) == m / 10 % 10,
        digit_value(c) == m % 10,
    ensures
        digit_value(a) * 100 + digit_value(b) * 10 + digit_value(c) == m % 1000,
{
    lemma_three_places_of(m);
}

/// What is written in thousandths reads back as that many of them, either way.
pub proof fn thousandths_read_back(m: nat, outward: bool)
    requires
        m <= i64::MAX,
    ensures
        milli(thousandths(m), outward) == Some(m as int),
{
    let k = m / 1000;
    let t = decimal(k);
    lemma_decimal(k);
    if m % 1000 == 0 {
        assert(thousandths(m) =~= t);
        decimal_reads_back_in_milli(k, outward);
    } else {
        let (a, b, c) = (
            digit((m / 100 % 10) as int),
            digit((m / 10 % 10) as int),
            digit((m % 10) as int),
        );
        lemma_three_digits(m);
        lemma_three_more(t, a, b, c);
        let v = value_of(t + seq![a, b, c]);
        assert(v == m);
        lemma_reads_three_places(t, a, b, c, outward);
    }
}

/// A number of thousandths is written in digits, and a point that stands at neither end.
pub proof fn lemma_thousandths(m: nat)
    ensures
        thousandths(m).len() > 0,
        is_digit(thousandths(m)[0]) && is_digit(thousandths(m).last()),
        forall|i: int|
            0 <= i < thousandths(m).len() ==> is_digit(#[trigger] thousandths(m)[i])
                || thousandths(m)[i] == '.',
{
    let t = decimal(m / 1000);
    let s = thousandths(m);
    lemma_decimal(m / 1000);
    lemma_three_digits(m);
    assert(is_digit(t[0]) && is_digit(t.last()));
    assert(s[0] == t[0]);
    assert forall|i: int| 0 <= i < s.len() implies is_digit(#[trigger] s[i]) || s[i] == '.' by {
        if i < t.len() {
            assert(s[i] == t[i]);
        }
    }
    if m % 1000 == 0 {
        assert(s =~= t);
    } else {
        assert(s.last() == digit((m % 10) as int));
    }
}

proof fn lemma_first_digits_grow(s: Seq<char>, j: int, k: int)
    requires
        j <= k,
    ensures
        first_digits(s, j) <= first_digits(s, k),
    decreases k - j,
{
    if j < k {
        lemma_first_digits_grow(s, j, k - 1);
    }
}

proof fn lemma_first_digits_all(s: Seq<char>, k: int)
    requires
        0 <= k <= s.len(),
    ensures
        first_digits(s, k) == value_of(s.take(k)),
    decreases k,
{
    if k > 0 {
        lemma_first_digits_all(s, k - 1);
        assert(s.take(k).drop_last() =~= s.take(k - 1));
    }
}

proof fn lemma_any_from_start(digits: Seq<char>, point: int)
    requires
        point <= 0,
    ensures
        any_from(digits, point) == any_from(digits, 0),
{
    if any_from(digits, point) {
        let i = choose|i: int| point <= i && 0 <= i < digits.len() && #[trigger] digits[i] != '0';
        assert(0 <= i);
    }
}

proof fn lemma_first_digits_zero(s: Seq<char>, k: int)
    requires
        forall|i: int| 0 <= i < s.len() ==> s[i] == '0',
    ensures
        first_digits(s, k) == 0,
    decreases k,
{
    if k > 0 {
        lemma_first_digits_zero(s, k - 1);
    }
}

/// Nineteen zeros behind a digit other than zero are more than an `i64` holds.
proof fn lemma_first_digits_huge(s: Seq<char>, i: int, k: int)
    requires
        0 <= i < s.len(),
        all_digits(s),
        s[i] != '0',
        s.len() + 19 <= k,
    ensures
        first_digits(s, k) > i64::MAX,
{
    let n = s.len() as int;
    assert(is_digit(s[i]));
    assert(first_digits(s, i + 1) >= 1);
    lemma_first_digits_grow(s, i + 1, n);
    reveal_with_fuel(first_digits, 20);
    assert(first_digits(s, n + 19) >= 10_000_000_000_000_000_000);
    lemma_first_digits_grow(s, n + 19, k);
}

/// An exponent as read: exact, or too far from zero to matter which it is.
enum Exponent {
    Exact(i128),
    Huge,
    Tiny,
}

impl Exponent {
    spec fn means(self, e: int) -> bool {
        match self {
            Exponent::Exact(x) => -FAR < x < FAR && e == x,
            Exponent::Huge => e >= FAR,
            Exponent::Tiny => e <= -FAR,
        }
    }
}

/// An exponent at or past this moves the decimal point out of any text.
const FAR: u128 = 1_000_000_000_000_000_000_000_000_000_000;

/// Reads the exponent that `chars` holds from `from` on.
fn read_exponent(chars: &Vec<char>, from: usize) -> (r: Option<Exponent>)
    requires
        from <= chars@.len(),
    ensures
        match r {
            None => exponent(chars@.skip(from as int)) is None,
            Some(x) => exponent(chars@.skip(from as int)) matches Some(e) && x.means(e),
        },
{
    let ghost s = chars@.skip(from as int);
    let len: usize = chars.len();
    if from == len {
        return Some(Exponent::Exact(0));
    }
    if chars[from] != 'e' && chars[from] != 'E' {
        return None;
    }
    let ghost t = s.skip(1);
    let signed = from + 1 < len && (chars[from + 1] == '+' || chars[from + 1] == '-');
    let negative = signed && chars[from + 1] == '-';
    let start: usize = if signed {
        from + 2
    } else {
        from + 1
    };
    let ghost d = if signed {
        t.skip(1)
    } else {
        t
    };
    assert(d =~= chars@.skip(start as int));
    if start == len {
        return None;
    }
    let mut i: usize = start;
    let mut n: u128 = 0;
    assert(d.take(0) =~= seq![]);
    while i < len
        invariant
            len == chars@.len(),
            start <= i <= len,
            d == chars@.skip(start as int),
            all_digits(d.take(i - start)),
            !all_digits(d) ==> exponent(chars@.skip(from as int)) is None,
            n <= FAR,
            n == FAR ==> value_of(d.take(i - start)) >= FAR,
            n < FAR ==> value_of(d.take(i - start)) == n,
        decreases len - i,
    {
        let c: char = chars[i];
        assert(c == d[i - start]);
        if c < '0' || c > '9' {
            return None;
        }
        assert(d.take(i + 1 - start).drop_last() =~= d.take(i - start));
        assert forall|j: int| 0 <= j < i + 1 - start implies is_digit(
            #[trigger] d.take(i + 1 - start)[j],
        ) by {
            if j < i - start {
                assert(d.take(i + 1 - start)[j] == d.take(i - start)[j]);
            }
        }
        let wide: u128 = n * 10 + ((c as u32 - 48) as u128);
        n = if wide >= FAR {
            FAR
        } else {
            wide
        };
        i = i + 1;
    }
    assert(d.take(len - start) =~= d);
    if n < FAR {
        if negative {
            Some(Exponent::Exact(-(n as i128)))
        } else {
            Some(Exponent::Exact(n as i128))
        }
    } else if negative {
        Some(Exponent::Tiny)
    } else {
        Some(Exponent::Huge)
    }
}

/// Counts the digits that stand in `chars` from `from` on.
fn count_digits(chars: &Vec<char>, from: usize) -> (r: usize)
    requires
        from <= chars@.len(),
    ensures
        r == leading_digits(chars@.skip(from as int)),
        from + r <= chars@.len(),
{
    let ghost s = chars@.skip(from as int);
    let len: usize = chars.len();
    let mut i: usize = from;
    assert(s.take(0) =~= seq![]);
    while i < len && chars[i] >= '0' && chars[i] <= '9'
        invariant
            len == chars@.len(),
            from <= i <= len,
            s == chars@.skip(from as int),
            all_digits(s.take(i - from)),
        decreases len - i,
    {
        assert forall|j: int| 0 <= j < i + 1 - from implies is_digit(
            #[trigger] s.take(i + 1 - from)[j],
        ) by {
            if j < i - from {
                assert(s.take(i + 1 - from)[j] == s.take(i - from)[j]);
            }
        }
        i = i + 1;
    }
    proof {
        lemma_leading_digits(s, (i - from) as nat);
    }
    i - from
}

/// Whether anything but zeros stands from digit `from` on.
fn find_any(digits: &Vec<char>, from: usize) -> (r: bool)
    ensures
        r == any_from(digits@, from as int),
{
    let len: usize = digits.len();
    let mut j: usize = from;
    while j < len && digits[j] == '0'
        invariant
            len == digits@.len(),
            from <= j,
            forall|i: int| from <= i < j && i < len ==> digits@[i] == '0',
        decreases len - j,
    {
        j = j + 1;
    }
    if j < len {
        assert(digits@[j as int] != '0');
        true
    } else {
        false
    }
}

/// Digits with the point behind the first `point` of them, where an `i64` holds the result.
fn round_digits(digits: &Vec<char>, point: i128, outward: bool) -> (r: Option<i64>)
    requires
        all_digits(digits@),
        point < 2 * FAR,
    ensures
        match r {
            Some(m) => 0 <= m && m == rounded(digits@, point as int, outward),
            None => rounded(digits@, point as int, outward) > i64::MAX,
        },
{
    let len: usize = digits.len();
    if point < 0 {
        let any = find_any(digits, 0);
        proof {
            lemma_any_from_start(digits@, point as int);
        }
        return Some(
            if outward && any {
                1
            } else {
                0
            },
        );
    }
    let mut z: usize = 0;
    while z < len && digits[z] == '0'
        invariant
            len == digits@.len(),
            z <= len,
            forall|i: int| 0 <= i < z ==> digits@[i] == '0',
        decreases len - z,
    {
        z = z + 1;
    }
    if z == len {
        proof {
            lemma_first_digits_zero(digits@, point as int);
        }
        return Some(0);
    }
    let mut k: i128 = 0;
    let mut n: i128 = 0;
    while k < point
        invariant
            0 <= k <= point,
            point < 2 * FAR,
            len == digits@.len(),
            all_digits(digits@),
            n == first_digits(digits@, k as int),
            n <= i64::MAX,
        decreases point - k,
    {
        let d: i128 = if k < len as i128 {
            assert(is_digit(digits@[k as int]));
            (digits[k as usize] as u32 - 48) as i128
        } else {
            0
        };
        n = n * 10 + d;
        k = k + 1;
        if n > i64::MAX as i128 {
            proof {
                lemma_first_digits_grow(digits@, k as int, point as int);
            }
            return None;
        }
    }
    if outward && point < len as i128 && find_any(digits, point as usize) {
        n = n + 1;
    }
    if n > i64::MAX as i128 {
        None
    } else {
        Some(n as i64)
    }
}

/// Digits with the point `e` places behind the first `n` of them, in thousandths.
fn scale(digits: &Vec<char>, n: usize, e: &Exponent, outward: bool) -> (r: Option<i64>)
    requires
        all_digits(digits@),
        n <= digits@.len(),
    ensures
        forall|x: int| #[trigger]
            e.means(x) ==> match r {
                Some(m) => 0 <= m && m == rounded(digits@, n + x + 3, outward),
                None => rounded(digits@, n + x + 3, outward) > i64::MAX,
            },
{
    match e {
        Exponent::Exact(e) => {
            if *e <= -(FAR as i128) || *e >= FAR as i128 {
                return None;
            }
            round_digits(digits, n as i128 + *e + 3, outward)
        },
        Exponent::Tiny => {
            let any = find_any(digits, 0);
            let count: usize = digits.len();
            assert forall|x: int| #[trigger] e.means(x) implies any_from(digits@, n + x + 3)
                == any && n + x + 3 < 0 by {
                assert(n <= count);
                lemma_any_from_start(digits@, n + x + 3);
            }
            Some(
                if outward && any {
                    1
                } else {
                    0
                },
            )
        },
        Exponent::Huge => {
            let count: usize = digits.len();
            let mut z: usize = 0;
            while z < count && digits[z] == '0'
                invariant
                    count == digits@.len(),
                    z <= count,
                    forall|i: int| 0 <= i < z ==> digits@[i] == '0',
                decreases count - z,
            {
                z = z + 1;
            }
            if z < count {
                assert forall|x: int| #[trigger] e.means(x) implies rounded(
                    digits@,
                    n + x + 3,
                    outward,
                ) > i64::MAX by {
                    lemma_first_digits_huge(digits@, z as int, n + x + 3);
                }
                None
            } else {
                assert forall|x: int| #[trigger] e.means(x) implies rounded(
                    digits@,
                    n + x + 3,
                    outward,
                ) == 0 by {
                    lemma_first_digits_zero(digits@, n + x + 3);
                }
                Some(0)
            }
        },
    }
}

/// Adds the characters from `from` up to `to` to `out`.
fn push_range(out: &mut Vec<char>, chars: &Vec<char>, from: usize, to: usize)
    requires
        from <= to <= chars@.len(),
    ensures
        final(out)@ == old(out)@ + chars@.subrange(from as int, to as int),
{
    let ghost had = out@;
    let mut i: usize = from;
    assert(out@ =~= had + chars@.subrange(from as int, i as int));
    while i < to
        invariant
            from <= i <= to,
            to <= chars@.len(),
            out@ == had + chars@.subrange(from as int, i as int),
        decreases to - i,
    {
        out.push(chars[i]);
        i = i + 1;
        assert(out@ =~= had + chars@.subrange(from as int, i as int));
    }
}

/// Reads the digits on both sides of the point from `from` on: the digits, how many stand
/// before the point, and where they end.
fn read_mantissa(chars: &Vec<char>, from: usize) -> (r: (Vec<char>, usize, usize))
    requires
        from <= chars@.len(),
    ensures
        r.0@ == mantissa(chars@.skip(from as int)),
        all_digits(r.0@),
        r.1 == leading_digits(chars@.skip(from as int)),
        r.1 <= r.0@.len(),
        r.2 <= chars@.len(),
        chars@.skip(r.2 as int) == behind_mantissa(chars@.skip(from as int)),
{
    let ghost s = chars@.skip(from as int);
    let len: usize = chars.len();
    let n: usize = count_digits(chars, from);
    let point: usize = from + n;
    assert(s.skip(n as int) =~= chars@.skip(point as int));
    let mut digits: Vec<char> = Vec::new();
    push_range(&mut digits, chars, from, point);
    assert(digits@ =~= s.take(n as int));
    proof {
        lemma_leading_digits_bound(s);
    }
    if point < len && chars[point] == '.' {
        let f: usize = count_digits(chars, point + 1);
        let ghost tail = behind_point(s);
        assert(tail =~= chars@.skip(point + 1));
        let end: usize = point + 1 + f;
        push_range(&mut digits, chars, point + 1, end);
        proof {
            lemma_leading_digits_bound(tail);
            assert(digits@ =~= s.take(n as int) + tail.take(f as int));
            assert(tail.skip(f as int) =~= chars@.skip(end as int));
            assert forall|j: int| 0 <= j < digits@.len() implies is_digit(
                #[trigger] digits@[j],
            ) by {
                if j < n {
                    assert(digits@[j] == s.take(n as int)[j]);
                } else {
                    assert(digits@[j] == tail.take(f as int)[j - n]);
                }
            }
        }
        (digits, n, end)
    } else {
        assert(digits@ =~= s.take(n as int) + seq![]);
        (digits, n, point)
    }
}

/// Reads a decimal number without a sign that stands in `chars` from `from` on.
fn read_milli(chars: &Vec<char>, from: usize, outward: bool) -> (r: Option<i64>)
    requires
        from <= chars@.len(),
    ensures
        match r {
            Some(m) => 0 <= m && unsigned_milli(chars@.skip(from as int), outward) == Some(
                m as nat,
            ),
            None => unsigned_milli(chars@.skip(from as int), outward) matches Some(m) ==> m
                > i64::MAX,
        },
{
    let (digits, n, end) = read_mantissa(chars, from);
    match read_exponent(chars, end) {
        Some(e) if digits.len() > 0 => scale(&digits, n, &e, outward),
        _ => None,
    }
}

/// Reads a decimal number in thousandths, towards zero where the text gives more places.
pub fn parse_milli(text: &str) -> (r: Option<i64>)
    ensures
        match r {
            Some(m) => milli(text@, false) == Some(m as int),
            None => milli(text@, false) is None,
        },
{
    parse_thousandths(text, false)
}

/// Reads a decimal number in thousandths, away from zero where the text gives more places: a
/// number past a limit in whole thousandths stays past it.
pub fn parse_milli_outward(text: &str) -> (r: Option<i64>)
    ensures
        match r {
            Some(m) => milli(text@, true) == Some(m as int),
            None => milli(text@, true) is None,
        },
{
    parse_thousandths(text, true)
}

fn parse_thousandths(text: &str, outward: bool) -> (r: Option<i64>)
    ensures
        match r {
            Some(m) => milli(text@, outward) == Some(m as int),
            None => milli(text@, outward) is None,
        },
{
    let chars = chars_of(text);
    if chars.len() > 0 && (chars[0] == '+' || chars[0] == '-') {
        match read_milli(&chars, 1, outward) {
            Some(m) => if chars[0] == '-' {
                Some(-m)
            } else {
                Some(m)
            },
            None => None,
        }
    } else {
        assert(text@.skip(0) =~= text@);
        read_milli(&chars, 0, outward)
    }
}

/// The upper case of a letter that the words for no finite number hold.
pub open spec fn capital(c: char) -> char {
    if c == 'a' {
        'A'
    } else if c == 'f' {
        'F'
    } else if c == 'i' {
        'I'
    } else if c == 'n' {
        'N'
    } else if c == 't' {
        'T'
    } else {
        'Y'
    }
}

/// Whether a text is a lower-case word, whatever the case of its letters.
pub open spec fn alike(s: Seq<char>, word: Seq<char>) -> bool {
    s.len() == word.len() && forall|i: int|
        0 <= i < s.len() ==> (#[trigger] s[i] == word[i] || s[i] == capital(word[i]))
}

/// How a text that names no finite number, but not a number or an infinite one, is shown.
pub open spec fn not_finite(s: Seq<char>) -> Option<Seq<char>> {
    let signed = s.len() > 0 && (s[0] == '+' || s[0] == '-');
    let body = if signed {
        s.skip(1)
    } else {
        s
    };
    if alike(body, seq!['n', 'a', 'n']) {
        Some("NaN"@)
    } else if alike(body, seq!['i', 'n', 'f']) || alike(
        body,
        seq!['i', 'n', 'f', 'i', 'n', 'i', 't', 'y'],
    ) {
        if signed && s[0] == '-' {
            Some("-inf"@)
        } else {
            Some("inf"@)
        }
    } else {
        None
    }
}

fn capital_of(c: char) -> (r: char)
    ensures
        r == capital(c),
{
    if c == 'a' {
        'A'
    } else if c == 'f' {
        'F'
    } else if c == 'i' {
        'I'
    } else if c == 'n' {
        'N'
    } else if c == 't' {
        'T'
    } else {
        'Y'
    }
}

fn is_alike(chars: &Vec<char>, from: usize, word: &[char]) -> (r: bool)
    requires
        from <= chars@.len(),
    ensures
        r == alike(chars@.skip(from as int), word@),
{
    let n: usize = word.len();
    let len: usize = chars.len();
    let ghost s = chars@.skip(from as int);
    if len - from != n {
        return false;
    }
    let mut i: usize = 0;
    while i < n
        invariant
            n == word@.len(),
            s == chars@.skip(from as int),
            len == chars@.len(),
            from + n == len,
            i <= n,
            forall|j: int| 0 <= j < i ==> (#[trigger] s[j] == word@[j] || s[j] == capital(word@[j])),
        decreases n - i,
    {
        let c: char = chars[from + i];
        assert(c == s[i as int]);
        if c != word[i] && c != capital_of(word[i]) {
            return false;
        }
        i = i + 1;
    }
    true
}

/// How a text that names no finite number is shown, where it is one.
pub fn parse_not_finite(text: &str) -> (r: Option<&'static str>)
    ensures
        match r {
            Some(shown) => not_finite(text@) == Some(shown@),
            None => not_finite(text@) is None,
        },
{
    let chars = chars_of(text);
    let signed = chars.len() > 0 && (chars[0] == '+' || chars[0] == '-');
    let from: usize = if signed {
        1
    } else {
        0
    };
    assert(text@.skip(0) =~= text@);
    let nan: [char; 3] = ['n', 'a', 'n'];
    let inf: [char; 3] = ['i', 'n', 'f'];
    let infinity: [char; 8] = ['i', 'n', 'f', 'i', 'n', 'i', 't', 'y'];
    assert(nan@ =~= seq!['n', 'a', 'n']);
    assert(inf@ =~= seq!['i', 'n', 'f']);
    assert(infinity@ =~= seq!['i', 'n', 'f', 'i', 'n', 'i', 't', 'y']);
    if is_alike(&chars, from, nan.as_slice()) {
        Some("NaN")
    } else if is_alike(&chars, from, inf.as_slice()) || is_alike(
        &chars,
        from,
        infinity.as_slice(),
    ) {
        if signed && chars[0] == '-' {
            Some("-inf")
        } else {
            Some("inf")
        }
    } else {
        None
    }
}

/// A quotient to the nearest whole number is off by half at most, and by a half only where it
/// is even.
pub proof fn nearest_is_off_by_half_at_most(n: nat, d: nat)
    requires
        d > 0,
    ensures
        -d <= 2 * (d * nearest(n, d)) - 2 * n <= d,
        2 * (d * nearest(n, d)) - 2 * n == d || 2 * (d * nearest(n, d)) - 2 * n == -d ==> nearest(
            n,
            d,
        ) % 2 == 0,
{
    let (q, r) = (n / d, n % d);
    assert(n == d * q + r && 0 <= r < d) by (nonlinear_arith)
        requires
            d > 0,
            q == n / d,
            r == n % d,
    ;
    assert(d * (q + 1) == d * q + d) by (nonlinear_arith);
}

proof fn lemma_widened(n: nat, d: nat, w: nat)
    requires
        n > 0,
        d > 0,
        w > 0,
    ensures
        widened(n, d, w).0 * w == n * widened(n, d, w).1,
        widened(n, d, w).0 >= 4_503_599_627_370_496 * d,
        widened(n, d, w).1 > 0,
    decreases
            if n < 4_503_599_627_370_496 * d {
                4_503_599_627_370_496 * d - n
            } else {
                0
            },
{
    if n < 4_503_599_627_370_496 * d {
        lemma_widened(2 * n, d, 2 * w);
        let (m, v) = widened(2 * n, d, 2 * w);
        assert(m * w == n * v) by (nonlinear_arith)
            requires
                m * (2 * w) == (2 * n) * v,
        ;
    }
}

/// Up to four hundred million million over any divisor, a quotient in tenths is off by half a
/// tenth at most.
pub proof fn tenths_are_off_by_half_at_most(n: nat, d: nat)
    requires
        0 < d,
        n <= 400_000_000_000_000,
    ensures
        -d <= 2 * (d * tenths(n, d)) - 20 * n <= d,
{
    let (m, v) = widened(n, d, 1);
    let q = nearest(m, d);
    let t = nearest(q * 10, v);
    if n == 0 {
        assert(m == 0 && v == 1);
        nearest_is_off_by_half_at_most(0, d);
        assert(0nat / d == 0 && 0nat % d == 0) by (nonlinear_arith)
            requires
                d > 0,
        ;
        assert(q == 0);
        assert(t == 0);
        assert(d * 0 == 0) by (nonlinear_arith);
    } else {
        lemma_widened(n, d, 1);
        assert(m == n * v);
        nearest_is_off_by_half_at_most(m, d);
        nearest_is_off_by_half_at_most(q * 10, v);
        assert(v > 10 * d) by (nonlinear_arith)
            requires
                n * v >= 4_503_599_627_370_496 * d,
                0 < n <= 400_000_000_000_000,
                d > 0,
                v > 0,
        ;
        let a = d * q - m;
        let b = v * t - 10 * q;
        assert(v * (2 * (d * t) - 20 * n) == 2 * d * b + 20 * a) by (nonlinear_arith)
            requires
                m == n * v,
                a == d * q - m,
                b == v * t - 10 * q,
        ;
        let x = 2 * (d * t) - 20 * n;
        assert(-(v * d + 10 * d) <= v * x <= v * d + 10 * d) by (nonlinear_arith)
            requires
                v * x == 2 * d * b + 20 * a,
                -d <= 2 * a <= d,
                -v <= 2 * b <= v,
                d > 0,
        ;
        assert(-d <= x <= d) by (nonlinear_arith)
            requires
                -(v * d + 10 * d) <= v * x <= v * d + 10 * d,
                v > 10 * d,
                d > 0,
        ;
    }
}

proof fn lemma_digits_joined(t: Seq<char>, u: Seq<char>)
    requires
        all_digits(t),
        all_digits(u),
    ensures
        all_digits(t + u),
{
    assert forall|i: int| 0 <= i < (t + u).len() implies is_digit(#[trigger] (t + u)[i]) by {
        if i < t.len() {
            assert((t + u)[i] == t[i]);
        } else {
            assert((t + u)[i] == u[i - t.len()]);
        }
    }
}

/// Digits, a point and digits, taken apart.
proof fn lemma_point(t: Seq<char>, u: Seq<char>)
    requires
        all_digits(t),
        all_digits(u),
    ensures
        ({
            let s = t + seq!['.'] + u;
            &&& leading_digits(s) == t.len()
            &&& mantissa(s) == t + u
            &&& behind_mantissa(s).len() == 0
        }),
{
    let s = t + seq!['.'] + u;
    let n = t.len();
    assert(s.take(n as int) =~= t);
    assert(s[n as int] == '.');
    lemma_leading_digits(s, n);
    assert(s.skip(n as int)[0] == '.');
    assert(behind_point(s) =~= u);
    assert(u.take(u.len() as int) =~= u);
    lemma_leading_digits(u, u.len());
    assert(mantissa(s) =~= t + u);
}

/// A decimal number with places, in thousandths: up to three places it is exact, and what stands
/// behind the third is dropped, or counts as one thousandth more where it is anything and goes
/// outward.
pub proof fn places_count_up_to_the_third(t: Seq<char>, u: Seq<char>, outward: bool)
    requires
        all_digits(t),
        all_digits(u),
        t.len() + u.len() > 0,
    ensures
        ({
            let m = unsigned_milli(t + seq!['.'] + u, outward);
            &&& u.len() == 0 ==> m == Some(value_of(t) * 1000)
            &&& u.len() == 1 ==> m == Some(value_of(t + u) * 100)
            &&& u.len() == 2 ==> m == Some(value_of(t + u) * 10)
            &&& u.len() == 3 ==> m == Some(value_of(t + u))
            &&& u.len() > 3 && (!outward || forall|i: int| 3 <= i < u.len() ==> u[i] == '0') ==> m
                == Some(value_of(t + u.take(3)))
            &&& u.len() > 3 && outward && (exists|i: int| 3 <= i < u.len() && #[trigger] u[i] != '0')
                ==> m == Some(value_of(t + u.take(3)) + 1)
        }),
{
    let s = t + seq!['.'] + u;
    let all = t + u;
    let n = t.len() as int;
    lemma_point(t, u);
    assert(exponent(behind_mantissa(s)) == Some(0int));
    if u.len() <= 3 {
        assert(!any_from(all, n + 3));
        lemma_first_digits_all(all, all.len() as int);
        assert(all.take(all.len() as int) =~= all);
        reveal_with_fuel(first_digits, 4);
        if u.len() == 0 {
            assert(all =~= t);
        }
    } else {
        lemma_first_digits_all(all, n + 3);
        assert(all.take(n + 3) =~= t + u.take(3));
        if exists|i: int| 3 <= i < u.len() && #[trigger] u[i] != '0' {
            let i = choose|i: int| 3 <= i < u.len() && #[trigger] u[i] != '0';
            assert(all[n + i] == u[i]);
            assert(any_from(all, n + 3));
        } else {
            assert forall|i: int| n + 3 <= i < all.len() implies all[i] == '0' by {
                assert(all[i] == u[i - n]);
            }
        }
    }
}

/// A sign in front of a number turns it round, or does nothing.
pub proof fn a_sign_turns_a_number_round(s: Seq<char>, outward: bool)
    requires
        s.len() > 0,
        s[0] != '+' && s[0] != '-',
    ensures
        milli(seq!['+'] + s, outward) == milli(s, outward),
        milli(seq!['-'] + s, outward) == (match milli(s, outward) {
            Some(m) => Some(-m),
            None => None,
        }),
{
    assert((seq!['+'] + s).skip(1) =~= s);
    assert((seq!['-'] + s).skip(1) =~= s);
}

proof fn lemma_zeros_behind(s: Seq<char>, j: nat)
    ensures
        first_digits(s, s.len() as int + j) == value_of(s) * pow(10, j),
    decreases j,
{
    reveal(pow);
    if j == 0 {
        lemma_first_digits_all(s, s.len() as int);
        assert(s.take(s.len() as int) =~= s);
    } else {
        lemma_zeros_behind(s, (j - 1) as nat);
        let (v, p) = (value_of(s), pow(10, (j - 1) as nat));
        assert((v * p) * 10 == v * (10 * p)) by (nonlinear_arith);
    }
}

/// An exponent moves the point: to the right by as many places as it says, or to the left.
pub proof fn an_exponent_moves_the_point(t: Seq<char>, k: nat, outward: bool)
    requires
        t.len() > 0,
        all_digits(t),
    ensures
        unsigned_milli(t + seq!['e'] + decimal(k), outward) == Some(
            (value_of(t) * pow(10, k + 3)) as nat,
        ),
        unsigned_milli(t + seq!['e', '-'] + decimal(k), false) == (if k <= 3 {
            Some((value_of(t) * pow(10, (3 - k) as nat)) as nat)
        } else if k - 3 <= t.len() {
            Some(value_of(t.take(t.len() - (k - 3))))
        } else {
            Some(0)
        }),
{
    let d = decimal(k);
    let n = t.len();
    lemma_decimal(k);
    assert(is_digit(d[0]));
    let s = t + seq!['e'] + d;
    assert(s.take(n as int) =~= t);
    assert(s[n as int] == 'e');
    lemma_leading_digits(s, n);
    let after = s.skip(n as int);
    assert(after[0] == 'e');
    assert(mantissa(s) =~= t);
    assert(after.skip(1) =~= d);
    assert(exponent(behind_mantissa(s)) == Some(k as int));
    lemma_zeros_behind(t, k + 3);
    assert(!any_from(t, n as int + k + 3));
    let s = t + seq!['e', '-'] + d;
    assert(s.take(n as int) =~= t);
    assert(s[n as int] == 'e');
    lemma_leading_digits(s, n);
    let after = s.skip(n as int);
    assert(after[0] == 'e');
    assert(mantissa(s) =~= t);
    assert(after.skip(1)[0] == '-');
    assert(after.skip(1).skip(1) =~= d);
    assert(exponent(behind_mantissa(s)) == Some(-(k as int)));
    if k <= 3 {
        lemma_zeros_behind(t, (3 - k) as nat);
    } else if k - 3 <= n {
        lemma_first_digits_all(t, n - (k - 3));
    }
}

proof fn lemma_place(a: nat, b: int)
    requires
        0 <= b < 10,
        (a * 10 + b) * 100 <= i64::MAX,
    ensures
        ({
            let s = decimal(a) + seq!['.', digit(b)];
            &&& is_digit(s[0])
            &&& milli(s, false) == Some((a * 10 + b) * 100)
        }),
{
    let t = decimal(a);
    let u = seq![digit(b)];
    lemma_decimal(a);
    lemma_digit(b);
    let s = t + seq!['.', digit(b)];
    assert(s =~= t + seq!['.'] + u);
    places_count_up_to_the_third(t, u, false);
    assert((t + u).drop_last() =~= t);
    assert(value_of(t + u) == a * 10 + b);
    assert(is_digit(t[0]) && s[0] == t[0]);
}

proof fn lemma_signed_place(i: int, t: nat)
    requires
        t * 100 <= i64::MAX,
    ensures
        milli(sign(i) + decimal(t / 10) + seq!['.', digit((t % 10) as int)], false) == Some(
            if i < 0 {
                -(t * 100)
            } else {
                (t * 100) as int
            },
        ),
{
    let s = decimal(t / 10) + seq!['.', digit((t % 10) as int)];
    lemma_place(t / 10, (t % 10) as int);
    a_sign_turns_a_number_round(s, false);
    let w = sign(i) + decimal(t / 10) + seq!['.', digit((t % 10) as int)];
    if i < 0 {
        assert(w =~= seq!['-'] + s);
    } else {
        assert(w =~= s);
    }
}

/// What is shown to one place reads as a whole number of tenths, and is off by half a tenth at
/// most: thousandths by fifty, millionths by fifty thousand.
pub proof fn one_place_is_off_by_half_a_tenth_at_most(i: int)
    requires
        -400_000_000_000_000 <= i <= 400_000_000_000_000,
    ensures
        milli(one_place(i), false) matches Some(x) && x % 100 == 0 && -50 <= x - i <= 50,
        milli(one_place_of_micro(i), false) matches Some(x) && x % 100 == 0 && -50_000 <= x * 1000
            - i <= 50_000,
{
    let n = magnitude(i);
    tenths_are_off_by_half_at_most(n, 1000);
    lemma_signed_place(i, tenths(n, 1000));
    tenths_are_off_by_half_at_most(n, 1_000_000);
    lemma_signed_place(i, tenths(n, 1_000_000));
}

/// What is shown without places reads as a whole number, and is off by half at most, by a half
/// only where it is even.
pub proof fn no_places_is_off_by_half_at_most(i: int)
    requires
        -400_000_000_000_000 <= i <= 400_000_000_000_000,
    ensures
        milli(no_places(i), false) matches Some(x) && x % 1000 == 0 && -500 <= x - i <= 500 && (x - i
            == 500 || x - i == -500 ==> x % 2000 == 0),
{
    let n = magnitude(i);
    let q = nearest(n, 1000);
    nearest_is_off_by_half_at_most(n, 1000);
    decimal_reads_back_in_milli(q, false);
    lemma_decimal(q);
    let s = decimal(q);
    assert(is_digit(s[0]));
    a_sign_turns_a_number_round(s, false);
    if i < 0 {
        assert(no_places(i) =~= seq!['-'] + s);
    } else {
        assert(no_places(i) =~= s);
    }
}

proof fn lemma_leading_zeros(z: Seq<char>, d: Seq<char>)
    requires
        forall|i: int| 0 <= i < z.len() ==> z[i] == '0',
    ensures
        value_of(z + d) == value_of(d),
    decreases z.len() + d.len(),
{
    if d.len() > 0 {
        assert((z + d).drop_last() =~= z + d.drop_last());
        lemma_leading_zeros(z, d.drop_last());
    } else if z.len() > 0 {
        assert((z + d).drop_last() =~= z.drop_last() + d);
        lemma_leading_zeros(z.drop_last(), d);
    } else {
        assert(z + d =~= d);
    }
}

/// A whole number may have a plus sign and zeros in front. It is taken up to the largest allowed
/// and too large beyond.
pub proof fn a_plus_and_zeros_in_front_do_not_count(z: Seq<char>, n: nat, max: nat)
    requires
        forall|i: int| 0 <= i < z.len() ==> z[i] == '0',
    ensures
        n <= max ==> unsigned(z + decimal(n), max) == Ok::<nat, NumberError>(n),
        n > max ==> unsigned(z + decimal(n), max) == Err::<nat, NumberError>(NumberError::TooLarge),
        unsigned(seq!['+'] + z + decimal(n), max) == unsigned(z + decimal(n), max),
{
    lemma_decimal(n);
    lemma_leading_zeros(z, decimal(n));
    assert(all_digits(z));
    lemma_digits_joined(z, decimal(n));
    let s = z + decimal(n);
    assert(is_digit(s[0]));
    assert(s.take(s.len() as int) =~= s);
    lemma_leading_digits(s, s.len());
    assert(seq!['+'] + z + decimal(n) =~= seq!['+'] + s);
    assert((seq!['+'] + s).skip(1) =~= s);
}

/// Only digits make a whole number, at least one of them, behind a plus sign or none.
pub proof fn only_digits_make_a_number(s: Seq<char>, max: nat)
    ensures
        unsigned(s, max) matches Ok(n) ==> n <= max && s.len() > 0 && (is_digit(s[0]) || (s[0] == '+'
            && s.len() > 1)) && forall|i: int| 0 < i < s.len() ==> is_digit(#[trigger] s[i]),
        unsigned(s, max) == Err::<nat, NumberError>(NumberError::Empty) <==> s.len() == 0,
{
    if s.len() > 0 {
        let b = if s[0] == '+' {
            s.skip(1)
        } else {
            s
        };
        lemma_leading_digits_bound(b);
        if unsigned(s, max) is Ok {
            assert(b.take(b.len() as int) =~= b);
            assert forall|i: int| 0 < i < s.len() implies is_digit(#[trigger] s[i]) by {
                if s[0] == '+' {
                    assert(is_digit(b[i - 1]));
                } else {
                    assert(is_digit(b[i]));
                }
            }
            assert(is_digit(b[0]));
        }
    }
}

/// A signed number is a whole number with a minus sign in front, down to the least that 64 bits
/// hold, or one without, up to the largest.
pub proof fn a_minus_makes_a_number_negative(n: nat)
    ensures
        n <= 0x8000_0000_0000_0000 ==> signed(seq!['-'] + decimal(n)) == Ok::<int, NumberError>(
            -(n as int),
        ),
        n > 0x8000_0000_0000_0000 ==> signed(seq!['-'] + decimal(n)) == Err::<int, NumberError>(
            NumberError::TooSmall,
        ),
        n <= 0x7FFF_FFFF_FFFF_FFFF ==> signed(decimal(n)) == Ok::<int, NumberError>(n as int),
        n > 0x7FFF_FFFF_FFFF_FFFF ==> signed(decimal(n)) == Err::<int, NumberError>(
            NumberError::TooLarge,
        ),
{
    lemma_decimal(n);
    let s = decimal(n);
    assert(is_digit(s[0]));
    decimal_reads_back(n, 0x7FFF_FFFF_FFFF_FFFF);
    decimal_reads_back(n, 0x8000_0000_0000_0000);
    assert((seq!['-'] + s).skip(1) =~= s);
}

/// A sign before a word for no finite number turns an infinite one round and says nothing of one
/// that is not a number.
pub proof fn a_sign_turns_an_infinity_round(s: Seq<char>)
    requires
        s.len() > 0,
        s[0] != '+' && s[0] != '-',
    ensures
        not_finite(seq!['+'] + s) == not_finite(s),
        not_finite(s) == Some("inf"@) ==> not_finite(seq!['-'] + s) == Some("-inf"@),
        not_finite(s) == Some("NaN"@) ==> not_finite(seq!['-'] + s) == Some("NaN"@),
        not_finite(s) is None ==> not_finite(seq!['-'] + s) is None,
        not_finite(s) is Some ==> not_finite(s) == Some("inf"@) || not_finite(s) == Some("NaN"@),
{
    reveal_strlit("NaN");
    reveal_strlit("inf");
    assert("NaN"@[0] == 'N' && "inf"@[0] == 'i');
    assert((seq!['+'] + s).skip(1) =~= s);
    assert((seq!['-'] + s).skip(1) =~= s);
}

/// The words for no finite number are `nan`, `inf` and `infinity`, in letters of either case.
pub proof fn only_three_words_name_no_finite_number(s: Seq<char>)
    requires
        s.len() > 0,
        s[0] != '+' && s[0] != '-',
    ensures
        not_finite(s) == Some("NaN"@) <==> s.len() == 3 && (s[0] == 'n' || s[0] == 'N') && (s[1]
            == 'a' || s[1] == 'A') && (s[2] == 'n' || s[2] == 'N'),
        not_finite(s) == Some("inf"@) <==> (s.len() == 3 || s.len() == 8) && (s[0] == 'i' || s[0]
            == 'I') && (s[1] == 'n' || s[1] == 'N') && (s[2] == 'f' || s[2] == 'F') && (s.len() == 8
            ==> (s[3] == 'i' || s[3] == 'I') && (s[4] == 'n' || s[4] == 'N') && (s[5] == 'i' || s[5]
            == 'I') && (s[6] == 't' || s[6] == 'T') && (s[7] == 'y' || s[7] == 'Y')),
{
    reveal_strlit("NaN");
    reveal_strlit("inf");
    assert("NaN"@[0] == 'N' && "inf"@[0] == 'i');
    let (nan, inf) = (seq!['n', 'a', 'n'], seq!['i', 'n', 'f']);
    let infinity = seq!['i', 'n', 'f', 'i', 'n', 'i', 't', 'y'];
    if s.len() == 3 {
        assert(alike(s, nan) <==> (s[0] == nan[0] || s[0] == 'N') && (s[1] == nan[1] || s[1] == 'A')
            && (s[2] == nan[2] || s[2] == 'N'));
        assert(alike(s, inf) <==> (s[0] == inf[0] || s[0] == 'I') && (s[1] == inf[1] || s[1] == 'N')
            && (s[2] == inf[2] || s[2] == 'F'));
    }
    if s.len() == 8 {
        assert(alike(s, infinity) <==> (s[0] == infinity[0] || s[0] == 'I') && (s[1] == infinity[1]
            || s[1] == 'N') && (s[2] == infinity[2] || s[2] == 'F') && (s[3] == infinity[3] || s[3]
            == 'I') && (s[4] == infinity[4] || s[4] == 'N') && (s[5] == infinity[5] || s[5] == 'I')
            && (s[6] == infinity[6] || s[6] == 'T') && (s[7] == infinity[7] || s[7] == 'Y'));
    }
}

}

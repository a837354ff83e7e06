use vstd::prelude::*;
use crate::error::LinkError;

verus! {

/// The largest number of fractional digits that an exact decimal can carry.
pub const MAX_SCALE: u32 = 28;

/// One more than the largest magnitude of an exact decimal's significand:
/// 2 to the 96th.
pub const MANTISSA_LIMIT: i128 = 0x1_0000_0000_0000_0000_0000_0000;

/// An exact decimal number: `mantissa` divided by ten to the power `scale`,
/// with a sign. Never a binary floating-point value.
#[derive(Clone, Copy, Debug, PartialEq, Eq, Structural)]
pub struct ExactDecimal {
    /// Whether the sign is negative.
    pub negative: bool,
    /// The significant digits, read as one integer that carries the sign.
    pub mantissa: i128,
    /// The number of fractional digits.
    pub scale: u32,
}

impl ExactDecimal {
    /// Whether significand and scale are within the representable range,
    /// and the significand on the side of zero that the sign names.
    pub open spec fn wf(&self) -> bool {
        &&& -MANTISSA_LIMIT < self.mantissa < MANTISSA_LIMIT
        &&& self.scale <= MAX_SCALE
        &&& self.negative ==> self.mantissa <= 0
        &&& !self.negative ==> self.mantissa >= 0
    }
}

/// The decimal that `text` is parsed to as an exact decimal string, if any.
pub uninterp spec fn exact_decimal(text: Seq<char>) -> Option<ExactDecimal>;

/// The character for a digit.
pub open spec fn digit_char(d: nat) -> char
    recommends
        d < 10,
{
    (0x30 + d) as u8 as char
}

/// The decimal digits of `n` without leading zeros; none for zero.
pub open spec fn digits(n: nat) -> Seq<char>
    decreases n,
{
    if n == 0 {
        Seq::empty()
    } else {
        digits(n / 10).push(digit_char(n % 10))
    }
}

/// The canonical text of the non-negative decimal `mantissa / 10^scale`:
/// all its digits, exactly `scale` of them behind the point, a single `0`
/// before the point where the value is below one, and no point where
/// `scale` is zero.
pub open spec fn decimal_text(mantissa: nat, scale: nat) -> Seq<char> {
    let d = digits(mantissa);
    let padded = if d.len() < scale {
        Seq::new((scale - d.len()) as nat, |i: int| '0') + d
    } else {
        d
    };
    let whole = padded.subrange(0, padded.len() - scale);
    let fraction = padded.subrange(padded.len() - scale, padded.len() as int);
    let head = if whole.len() == 0 {
        seq!['0']
    } else {
        whole
    };
    if scale == 0 {
        head
    } else {
        head + seq!['.'] + fraction
    }
}

/// The value of a digit.
pub open spec fn digit_value(c: char) -> Option<nat> {
    if '0' <= c <= '9' {
        Some((c as u32 - 0x30) as nat)
    } else {
        None
    }
}

/// The number that a string of digits denotes, the empty string denoting
/// zero; none where a character is no digit.
pub open spec fn number_of(text: Seq<char>) -> Option<nat>
    decreases text.len(),
{
    if text.len() == 0 {
        Some(0)
    } else {
        match (number_of(text.drop_last()), digit_value(text.last())) {
            (Some(n), Some(d)) => Some(n * 10 + d),
            _ => None,
        }
    }
}

/// The place of the first point in `text`; the length of `text` where
/// there is none.
pub open spec fn point_index(text: Seq<char>) -> nat
    decreases text.len(),
{
    if text.len() == 0 || text[0] == '.' {
        0
    } else {
        1 + point_index(text.drop_first())
    }
}

/// The decimal that a plain decimal text denotes, as significand and
/// scale: the text is one or more digits, and optionally a point and
/// further digits; the digits together are the significand, and the number
/// of those behind the point is the scale.
pub open spec fn decimal_reading(text: Seq<char>) -> Option<(nat, nat)> {
    let i = point_index(text);
    let whole = text.take(i as int);
    let fraction = if i < text.len() {
        text.skip(i as int + 1)
    } else {
        Seq::empty()
    };
    if whole.len() == 0 {
        None
    } else {
        match number_of(whole + fraction) {
            Some(mantissa) => Some((mantissa, fraction.len())),
            None => None,
        }
    }
}

/// Whether `c` can stand in a decimal string: a digit, the point, a sign,
/// or the separator `_`.
pub open spec fn is_decimal_char(c: char) -> bool {
    digit_value(c) is Some || c == '.' || c == '+' || c == '-' || c == '_'
}

/// Whether `text` is made of such characters and holds at least one digit.
/// The empty string is none, and neither is a number in scientific
/// notation or one with a space in it.
pub open spec fn is_decimal_string(text: Seq<char>) -> bool {
    &&& forall|i: int| 0 <= i < text.len() ==> is_decimal_char(#[trigger] text[i])
    &&& exists|i: int| 0 <= i < text.len() && digit_value(#[trigger] text[i]) is Some
}

/// Whether `scale` fractional digits are more than `max_decimals` allows.
pub open spec fn exceeds(scale: u32, max_decimals: Option<u32>) -> bool {
    max_decimals is Some && scale > max_decimals->0
}

/// The verdict on an amount, given what its text was parsed to: it must be
/// a decimal, not negative, and with no more fractional digits than allowed.
pub open spec fn amount_verdict(parsed: Option<ExactDecimal>, max_decimals: Option<u32>) -> Result<
    ExactDecimal,
    LinkError,
> {
    match parsed {
        None => Err(LinkError::InvalidAmount),
        Some(d) => if d.negative {
            Err(LinkError::InvalidAmount)
        } else if exceeds(d.scale, max_decimals) {
            Err(LinkError::TooManyDecimals { scale: d.scale, max: max_decimals->0 })
        } else {
            Ok(d)
        },
    }
}

/// What normalizing an amount gives, given what its text was parsed to: the
/// canonical text of the decimal, or the verdict's error.
pub open spec fn normalized(parsed: Option<ExactDecimal>, max_decimals: Option<u32>) -> Result<
    Seq<char>,
    LinkError,
> {
    match amount_verdict(parsed, max_decimals) {
        Ok(d) => Ok(decimal_text(d.mantissa as nat, d.scale as nat)),
        Err(e) => Err(e),
    }
}

/// Parses with `rust_decimal::Decimal::from_str_exact` and reads sign,
/// significand and scale off the result. Not proved: that the result is the
/// decimal that the text denotes, that its significand is below 2^96 in
/// magnitude and on the side of zero that its sign names, that its scale
/// is at most 28, and that only a text of digits, point, sign and `_` with
/// at least one digit is parsed at all.
#[verifier::external_body]
fn parse_exact(text: &str) -> (res: Option<ExactDecimal>)
    ensures
        res == exact_decimal(text@),
        res matches Some(d) ==> d.wf(),
        res is Some ==> is_decimal_string(text@),
{
    match rust_decimal::Decimal::from_str_exact(text) {
        Ok(d) => Some(
            ExactDecimal {
                negative: d.is_sign_negative(),
                mantissa: d.mantissa(),
                scale: d.scale(),
            },
        ),
        Err(_) => None,
    }
}

/// Writes a non-negative decimal with `Display` of `rust_decimal::Decimal`,
/// built by `from_i128_with_scale`. Not proved: that the text is
/// `decimal_text` of significand and scale.
#[verifier::external_body]
fn decimal_to_string(mantissa: i128, scale: u32) -> (res: String)
    requires
        0 <= mantissa < MANTISSA_LIMIT,
        scale <= MAX_SCALE,
    ensures
        res@ == decimal_text(mantissa as nat, scale as nat),
{
    rust_decimal::Decimal::from_i128_with_scale(mantissa, scale).to_string()
}

/// Judges a parsed amount: refuses what is no decimal, what is negative, and
/// what has more fractional digits than `max_decimals` allows.
pub fn check_amount(parsed: Option<ExactDecimal>, max_decimals: Option<u32>) -> (res: Result<
    ExactDecimal,
    LinkError,
>)
    ensures
        res == amount_verdict(parsed, max_decimals),
{
    match parsed {
        None => Err(LinkError::InvalidAmount),
        Some(d) => {
            if d.negative {
                return Err(LinkError::InvalidAmount);
            }
            match max_decimals {
                Some(max) => {
                    if d.scale > max {
                        return Err(LinkError::TooManyDecimals { scale: d.scale, max });
                    }
                },
                None => {},
            }
            Ok(d)
        },
    }
}

/// The canonical text of a non-negative decimal.
pub fn canonical_text(d: &ExactDecimal) -> (text: String)
    requires
        d.wf(),
        !d.negative,
    ensures
        text@ == decimal_text(d.mantissa as nat, d.scale as nat),
{
    decimal_to_string(d.mantissa, d.scale)
}

/// Normalizes an amount: parses `text` as an exact decimal, refuses a
/// negative one and one with more fractional digits than `max_decimals`,
/// and returns the canonical text of what was parsed. That text reads back
/// as the parsed decimal, digit for digit. A text that holds anything but
/// digits, point, sign and `_`, or no digit at all, is refused.
pub fn normalize_amount(text: &str, max_decimals: Option<u32>) -> (res: Result<String, LinkError>)
    ensures
        match res {
            Ok(s) => normalized(exact_decimal(text@), max_decimals) == Ok::<Seq<char>, LinkError>(
                s@,
            ),
            Err(e) => normalized(exact_decimal(text@), max_decimals) == Err::<
                Seq<char>,
                LinkError,
            >(e),
        },
        exact_decimal(text@) is None ==> res == Err::<String, LinkError>(LinkError::InvalidAmount),
        !is_decimal_string(text@) ==> res == Err::<String, LinkError>(LinkError::InvalidAmount),
        exact_decimal(text@) is Some && exact_decimal(text@)->0.negative ==> res == Err::<
            String,
            LinkError,
        >(LinkError::InvalidAmount),
        exact_decimal(text@) is Some && !exact_decimal(text@)->0.negative && exceeds(
            exact_decimal(text@)->0.scale,
            max_decimals,
        ) ==> res == Err::<String, LinkError>(
            LinkError::TooManyDecimals {
                scale: exact_decimal(text@)->0.scale,
                max: max_decimals->0,
            },
        ),
        exact_decimal(text@) is Some && !exact_decimal(text@)->0.negative && !exceeds(
            exact_decimal(text@)->0.scale,
            max_decimals,
        ) ==> res is Ok && decimal_reading(res->Ok_0@) == Some(
            (exact_decimal(text@)->0.mantissa as nat, exact_decimal(text@)->0.scale as nat),
        ),
{
    let parsed = parse_exact(text);
    match check_amount(parsed, max_decimals) {
        Ok(d) => {
            proof {
                lemma_canonical_text_reads_back(d.mantissa as nat, d.scale as nat);
            }
            Ok(canonical_text(&d))
        },
        Err(e) => Err(e),
    }
}

/// Whether every character of `text` is a digit.
pub open spec fn all_digits(text: Seq<char>) -> bool {
    forall|i: int| 0 <= i < text.len() ==> digit_value(#[trigger] text[i]) is Some
}

proof fn lemma_digits(n: nat)
    ensures
        number_of(digits(n)) == Some(n),
        all_digits(digits(n)),
    decreases n,
{
    if n > 0 {
        lemma_digits(n / 10);
        let d = digit_char(n % 10);
        assert(digit_value(d) == Some(n % 10));
        assert(digits(n).drop_last() =~= digits(n / 10));
        assert(digits(n).last() == d);
    }
}

proof fn lemma_leading_zeros(k: nat, text: Seq<char>)
    ensures
        number_of(Seq::new(k, |i: int| '0') + text) == number_of(text),
    decreases text.len(), k,
{
    let zeros = Seq::new(k, |i: int| '0');
    if text.len() > 0 {
        lemma_leading_zeros(k, text.drop_last());
        assert((zeros + text).drop_last() =~= zeros + text.drop_last());
        assert((zeros + text).last() == text.last());
    } else if k > 0 {
        let fewer = Seq::new((k - 1) as nat, |i: int| '0');
        lemma_leading_zeros((k - 1) as nat, text);
        assert((zeros + text).drop_last() =~= fewer + text);
        assert(digit_value('0') == Some(0nat));
    } else {
        assert(zeros + text =~= text);
    }
}

proof fn lemma_point_index(head: Seq<char>, tail: Seq<char>)
    requires
        all_digits(head),
    ensures
        point_index(head) == head.len(),
        point_index(head + seq!['.'] + tail) == head.len(),
    decreases head.len(),
{
    if head.len() > 0 {
        assert(digit_value(head[0]) is Some);
        assert forall|i: int| 0 <= i < head.drop_first().len() implies digit_value(
            #[trigger] head.drop_first()[i],
        ) is Some by {
            assert(head.drop_first()[i] == head[i + 1]);
        }
        lemma_point_index(head.drop_first(), tail);
        assert((head + seq!['.'] + tail).drop_first() =~= head.drop_first() + seq!['.'] + tail);
    }
}

/// The canonical text of a decimal reads back as that decimal: its digits
/// are the significand's, and as many of them stand behind the point as
/// the scale says. No digit is lost, added or rounded.
pub proof fn lemma_canonical_text_reads_back(mantissa: nat, scale: nat)
    ensures
        decimal_reading(decimal_text(mantissa, scale)) == Some((mantissa, scale)),
{
    let d = digits(mantissa);
    lemma_digits(mantissa);
    let zeros = Seq::new((scale - d.len()) as nat, |i: int| '0');
    let padded = if d.len() < scale {
        zeros + d
    } else {
        d
    };
    assert(number_of(padded) == Some(mantissa)) by {
        if d.len() < scale {
            lemma_leading_zeros((scale - d.len()) as nat, d);
        }
    }
    assert(digit_value('0') == Some(0nat));
    assert(all_digits(padded));
    let whole = padded.subrange(0, padded.len() - scale);
    let fraction = padded.subrange(padded.len() - scale, padded.len() as int);
    let head = if whole.len() == 0 {
        seq!['0']
    } else {
        whole
    };
    assert(all_digits(head));
    assert(number_of(head + fraction) == Some(mantissa)) by {
        if whole.len() == 0 {
            assert(fraction =~= padded);
            assert(head =~= Seq::new(1, |i: int| '0'));
            lemma_leading_zeros(1, padded);
        } else {
            assert(head + fraction =~= padded);
        }
    }
    let text = decimal_text(mantissa, scale);
    if scale == 0 {
        assert(text =~= head);
        assert(fraction =~= Seq::<char>::empty());
        assert(head + fraction =~= head);
        lemma_point_index(head, Seq::empty());
        assert(text.take(head.len() as int) =~= head);
    } else {
        assert(text =~= head + seq!['.'] + fraction);
        lemma_point_index(head, fraction);
        assert(text.take(head.len() as int) =~= head);
        assert(text.skip(head.len() as int + 1) =~= fraction);
    }
}

} // verus!

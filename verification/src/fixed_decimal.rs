//! Exact fixed-point decimal amounts.
//!
//! An [`UnsignedAssetCount`] is a non-negative decimal number with exactly
//! four fractional digits, stored as an integer count of `1e-4` units backed
//! by a `u64` (range `0` to `1844674407370955.1615`). No operation rounds or
//! wraps: arithmetic is overflow-checked, and the text codec is lossless.

use vstd::prelude::*;
use vstd::string::StringSliceAdditionalSpecFns;

verus! {

/// The byte `'0'`.
pub const BYTE_ZERO: u8 = 48;

/// The byte `'9'`.
pub const BYTE_NINE: u8 = 57;

/// The byte `'.'`.
pub const BYTE_DOT: u8 = 46;

/// Number of `1e-4` fractions per whole unit.
pub const FRACTIONS_PER_UNIT: u64 = 10000;

/// Number of fractional decimal digits carried by every amount.
pub const PRECISION: u64 = 4;

/// An unsigned amount of assets, counted in `1e-4` fractions.
#[derive(Copy, Clone, Debug, PartialEq, Eq, Structural)]
pub struct UnsignedAssetCount(u64);

/// Why a piece of text failed to parse as a fixed-point decimal.
#[derive(Copy, Clone, Debug, PartialEq, Eq, Structural)]
pub enum ParseFixedDecimalError {
    /// The magnitude of the number is too large for the backing integer.
    TooLarge,
    /// The input carries more fractional digits than the supported precision.
    TooManyFractionalDigits,
    /// Unexpected byte at the given position.
    InvalidChar(usize),
    /// The input holds no digit at all.
    NoDigits,
}

impl View for UnsignedAssetCount {
    type V = u64;

    closed spec fn view(&self) -> u64 {
        self.0
    }
}

impl UnsignedAssetCount {
    /// Build an amount from a raw count of `1e-4` fractions.
    pub fn new(fractions: u64) -> (r: Self)
        ensures
            r@ == fractions,
    {
        UnsignedAssetCount(fractions)
    }

    /// The raw count of `1e-4` fractions.
    pub fn fractions(&self) -> (r: u64)
        ensures
            r == self@,
    {
        self.0
    }

    /// The amount holding `fractions` raw fractions, as a specification-level
    /// value.
    pub closed spec fn spec_from(fractions: u64) -> UnsignedAssetCount {
        UnsignedAssetCount(fractions)
    }

    /// Exact addition; `None` when the sum does not fit the backing integer.
    pub fn checked_add(self, v: Self) -> (r: Option<Self>)
        ensures
            self@ + v@ <= u64::MAX ==> (r matches Some(x) && x@ == self@ + v@),
            self@ + v@ > u64::MAX ==> r is None,
    {
        match self.0.checked_add(v.0) {
            Some(f) => Some(UnsignedAssetCount(f)),
            None => None,
        }
    }

    /// Exact subtraction; `None` when the result would be negative.
    pub fn checked_sub(self, v: Self) -> (r: Option<Self>)
        ensures
            self@ >= v@ ==> (r matches Some(x) && x@ == self@ - v@),
            self@ < v@ ==> r is None,
    {
        match self.0.checked_sub(v.0) {
            Some(f) => Some(UnsignedAssetCount(f)),
            None => None,
        }
    }
}

impl Default for UnsignedAssetCount {
    /// The zero amount.
    fn default() -> (r: Self)
        ensures
            r@ == 0,
    {
        UnsignedAssetCount(0)
    }
}

/// The raw fraction count of a specification-level amount is the count it
/// was built from.
pub broadcast proof fn lemma_spec_from(fractions: u64)
    ensures
        (#[trigger] UnsignedAssetCount::spec_from(fractions))@ == fractions,
{
}

/// Amounts with the same raw fraction count are the same amount.
pub proof fn lemma_amount_ext(a: UnsignedAssetCount, b: UnsignedAssetCount)
    requires
        a@ == b@,
    ensures
        a == b,
{
}

/// Whether `b` is an ASCII decimal digit.
pub open spec fn is_ascii_digit(b: u8) -> bool {
    BYTE_ZERO <= b <= BYTE_NINE
}

/// Multiply the accumulated fraction count by ten until `frac_digits`
/// reaches the full precision, failing on overflow.
///
/// Mirrors the zero-padding of missing fractional digits at the end of a
/// parse: `"1.2"` means `1.2000`.
pub open spec fn spec_pad(acc: int, frac_digits: int) -> Result<u64, ParseFixedDecimalError>
    decreases PRECISION - frac_digits,
{
    if frac_digits >= PRECISION {
        Ok(acc as u64)
    } else {
        let acc10 = acc * 10;
        if acc10 > u64::MAX {
            Err(ParseFixedDecimalError::TooLarge)
        } else {
            spec_pad(acc10, frac_digits + 1)
        }
    }
}

/// One left-to-right scan of the decimal grammar, from byte `i` onwards.
///
/// `acc` is the value of the digits read so far (as a fraction count),
/// `has_digit` records whether any digit was read, and `frac_digits` is
/// `Some(count)` once the decimal separator has been passed.
pub open spec fn spec_lex(
    s: Seq<u8>,
    i: int,
    acc: int,
    has_digit: bool,
    frac_digits: Option<int>,
) -> Result<u64, ParseFixedDecimalError>
    decreases s.len() - i,
{
    if i < 0 || i >= s.len() {
        if !has_digit {
            Err(ParseFixedDecimalError::NoDigits)
        } else {
            spec_pad(
                acc,
                match frac_digits {
                    Option::None => 0,
                    Option::Some(d) => d,
                },
            )
        }
    } else if is_ascii_digit(s[i]) {
        if frac_digits == Option::Some(PRECISION as int) {
            Err(ParseFixedDecimalError::TooManyFractionalDigits)
        } else {
            let acc2 = acc * 10 + (s[i] - BYTE_ZERO);
            if acc2 > u64::MAX {
                Err(ParseFixedDecimalError::TooLarge)
            } else {
                spec_lex(
                    s,
                    i + 1,
                    acc2,
                    true,
                    match frac_digits {
                        Option::None => Option::None,
                        Option::Some(d) => Option::Some(d + 1),
                    },
                )
            }
        }
    } else if s[i] == BYTE_DOT {
        match frac_digits {
            Option::None => spec_lex(s, i + 1, acc, has_digit, Option::Some(0)),
            Option::Some(_) => Err(ParseFixedDecimalError::InvalidChar(i as usize)),
        }
    } else {
        Err(ParseFixedDecimalError::InvalidChar(i as usize))
    }
}

/// The value denoted by `s` under the fixed-point decimal grammar:
/// a run of digits, at most one `.`, at most four digits after it,
/// at least one digit in total, and a magnitude that fits the backing
/// integer. Missing fractional digits count as zeros.
pub open spec fn spec_parse(s: Seq<u8>) -> Result<u64, ParseFixedDecimalError> {
    spec_lex(s, 0, 0, false, Option::None)
}

impl UnsignedAssetCount {
    /// Parse a decimal amount from bytes.
    ///
    /// Accepts a run of decimal digits with an optional single `.` followed
    /// by up to four fractional digits; shorter fractions are zero-padded.
    /// Rejects everything else with the error dictated by a left-to-right
    /// scan of the input.
    pub fn parse(s: &[u8]) -> (r: Result<Self, ParseFixedDecimalError>)
        ensures
            match r {
                Ok(a) => spec_parse(s@) == Ok::<u64, ParseFixedDecimalError>(a@),
                Err(e) => spec_parse(s@) == Err::<u64, ParseFixedDecimalError>(e),
            },
    {
        let mut acc: u64 = 0;
        let mut has_digit: bool = false;
        let mut in_frac: bool = false;
        let mut frac_count: u64 = 0;
        let mut i: usize = 0;
        while i < s.len()
            invariant
                0 <= i <= s@.len(),
                frac_count <= PRECISION,
                !in_frac ==> frac_count == 0,
                spec_parse(s@) == spec_lex(
                    s@,
                    i as int,
                    acc as int,
                    has_digit,
                    if in_frac {
                        Option::Some(frac_count as int)
                    } else {
                        Option::<int>::None
                    },
                ),
            decreases s@.len() - i,
        {
            let b = s[i];
            if BYTE_ZERO <= b && b <= BYTE_NINE {
                if in_frac && frac_count == PRECISION {
                    return Err(ParseFixedDecimalError::TooManyFractionalDigits);
                }
                let acc10 = match acc.checked_mul(10) {
                    Some(x) => x,
                    None => {
                        return Err(ParseFixedDecimalError::TooLarge);
                    },
                };
                acc = match acc10.checked_add((b - BYTE_ZERO) as u64) {
                    Some(x) => x,
                    None => {
                        return Err(ParseFixedDecimalError::TooLarge);
                    },
                };
                has_digit = true;
                if in_frac {
                    frac_count = frac_count + 1;
                }
            } else if b == BYTE_DOT {
                if in_frac {
                    return Err(ParseFixedDecimalError::InvalidChar(i));
                }
                in_frac = true;
            } else {
                return Err(ParseFixedDecimalError::InvalidChar(i));
            }
            i = i + 1;
        }
        if !has_digit {
            return Err(ParseFixedDecimalError::NoDigits);
        }
        if !in_frac {
            frac_count = 0;
        }
        while frac_count < PRECISION
            invariant
                frac_count <= PRECISION,
                spec_parse(s@) == spec_pad(acc as int, frac_count as int),
            decreases PRECISION - frac_count,
        {
            acc = match acc.checked_mul(10) {
                Some(x) => x,
                None => {
                    return Err(ParseFixedDecimalError::TooLarge);
                },
            };
            frac_count = frac_count + 1;
        }
        Ok(UnsignedAssetCount(acc))
    }

    /// Parse a decimal amount from text; see [`UnsignedAssetCount::parse`].
    pub fn from_str(s: &str) -> (r: Result<Self, ParseFixedDecimalError>)
        ensures
            match r {
                Ok(a) => spec_parse(s.spec_bytes()) == Ok::<u64, ParseFixedDecimalError>(a@),
                Err(e) => spec_parse(s.spec_bytes()) == Err::<u64, ParseFixedDecimalError>(e),
            },
    {
        Self::parse(s.as_bytes())
    }
}

/// The decimal digits of `n`, most significant first, with no leading
/// zeros (the value zero is the single digit `0`).
pub open spec fn spec_digits(n: int) -> Seq<u8>
    decreases n,
{
    if n < 10 {
        seq![(n + BYTE_ZERO) as u8]
    } else {
        spec_digits(n / 10).push((n % 10 + BYTE_ZERO) as u8)
    }
}

/// The four zero-padded fractional digits of a fraction count `f`
/// (`0 <= f < 10000`), most significant first.
pub open spec fn spec_frac_digits(f: int) -> Seq<u8> {
    seq![
        (f / 1000 % 10 + BYTE_ZERO) as u8,
        (f / 100 % 10 + BYTE_ZERO) as u8,
        (f / 10 % 10 + BYTE_ZERO) as u8,
        (f % 10 + BYTE_ZERO) as u8,
    ]
}

/// The canonical rendering of a fraction count `v`: the whole units without
/// leading zeros, a literal `.`, and exactly four fractional digits.
pub open spec fn spec_format(v: int) -> Seq<u8> {
    spec_digits(v / (FRACTIONS_PER_UNIT as int)) + seq![BYTE_DOT] + spec_frac_digits(
        v % (FRACTIONS_PER_UNIT as int),
    )
}

/// Append the decimal digits of `n` to `out`.
pub fn push_digits(n: u64, out: &mut Vec<u8>)
    ensures
        final(out)@ == old(out)@ + spec_digits(n as int),
    decreases n,
{
    if n < 10 {
        out.push((n as u8) + BYTE_ZERO);
        proof {
            assert(out@ =~= old(out)@ + spec_digits(n as int));
        }
    } else {
        push_digits(n / 10, out);
        out.push(((n % 10) as u8) + BYTE_ZERO);
        proof {
            assert(out@ =~= old(out)@ + spec_digits(n as int));
        }
    }
}

/// Relies on `String::from_utf8`: bytes below `0x80` are valid UTF-8 and
/// decode to exactly those characters.
#[verifier::external_body]
fn ascii_string(v: Vec<u8>) -> (s: String)
    requires
        forall|i: int| 0 <= i < v@.len() ==> v@[i] < 0x80,
    ensures
        s@ == v@.map_values(|b: u8| b as char),
{
    match String::from_utf8(v) {
        Ok(s) => s,
        Err(_) => String::new(),
    }
}

impl UnsignedAssetCount {
    /// Render the amount as bytes: the whole units without leading zeros,
    /// a literal `.`, and exactly four fractional digits.
    pub fn format_bytes(&self) -> (v: Vec<u8>)
        ensures
            v@ == spec_format(self@ as int),
    {
        let units = self.0 / FRACTIONS_PER_UNIT;
        let frac = self.0 % FRACTIONS_PER_UNIT;
        let mut out: Vec<u8> = Vec::new();
        push_digits(units, &mut out);
        out.push(BYTE_DOT);
        out.push(((frac / 1000) as u8) + BYTE_ZERO);
        out.push(((frac / 100 % 10) as u8) + BYTE_ZERO);
        out.push(((frac / 10 % 10) as u8) + BYTE_ZERO);
        out.push(((frac % 10) as u8) + BYTE_ZERO);
        proof {
            assert(frac / 1000 % 10 == frac / 1000) by {
                assert(frac / 1000 < 10);
            };
            assert(out@ =~= spec_format(self@ as int));
        }
        out
    }

    /// Render the amount as text; see [`UnsignedAssetCount::format_bytes`].
    pub fn format(&self) -> (s: String)
        ensures
            s@ == spec_format(self@ as int).map_values(|b: u8| b as char),
    {
        let bytes = self.format_bytes();
        proof {
            lemma_format_shape(self@ as int);
        }
        ascii_string(bytes)
    }
}

/// The digits of a non-negative number: at least one byte, every byte an
/// ASCII digit, a single `0` only for values below ten, and no leading zero
/// otherwise.
pub proof fn lemma_digits_shape(n: int)
    requires
        n >= 0,
    ensures
        spec_digits(n).len() >= 1,
        forall|k: int|
            0 <= k < spec_digits(n).len() ==> is_ascii_digit(#[trigger] spec_digits(n)[k]),
        n >= 1 ==> spec_digits(n)[0] != BYTE_ZERO,
        n < 10 <==> spec_digits(n).len() == 1,
    decreases n,
{
    if n >= 10 {
        lemma_digits_shape(n / 10);
        assert(spec_digits(n) == spec_digits(n / 10).push((n % 10 + BYTE_ZERO) as u8));
        assert(n / 10 >= 1);
        assert(spec_digits(n)[0] == spec_digits(n / 10)[0]);
    }
}

/// Every rendered amount is at least six bytes long, carries the decimal
/// separator exactly four bytes before the end, is a digit everywhere else,
/// and never starts with a superfluous zero.
pub proof fn lemma_format_shape(v: int)
    requires
        0 <= v <= u64::MAX,
    ensures
        spec_format(v).len() >= 6,
        spec_format(v)[spec_format(v).len() - 5] == BYTE_DOT,
        forall|k: int|
            0 <= k < spec_format(v).len() && k != spec_format(v).len() - 5 ==> is_ascii_digit(
                #[trigger] spec_format(v)[k],
            ),
        spec_format(v).len() > 6 ==> spec_format(v)[0] != BYTE_ZERO,
        forall|k: int| 0 <= k < spec_format(v).len() ==> #[trigger] spec_format(v)[k] < 0x80,
{
    let u = v / (FRACTIONS_PER_UNIT as int);
    let f = v % (FRACTIONS_PER_UNIT as int);
    lemma_digits_shape(u);
    assert(0 <= f < 10000);
    let s = spec_format(v);
    let d = spec_digits(u);
    assert(s.len() == d.len() + 5);
    assert(forall|k: int| 0 <= k < d.len() ==> s[k] == #[trigger] d[k]);
    assert(s[d.len() as int] == BYTE_DOT);
    assert(is_ascii_digit(s[d.len() + 1 as int]));
    assert(is_ascii_digit(s[d.len() + 2 as int]));
    assert(is_ascii_digit(s[d.len() + 3 as int]));
    assert(is_ascii_digit(s[d.len() + 4 as int]));
    if s.len() > 6 {
        assert(d.len() > 1);
        assert(u >= 10);
    }
}


/// Lexing the rendered digits of `n` from position `i` accumulates exactly
/// `n`, when no decimal separator has been passed yet.
proof fn lemma_lex_digit_run(s: Seq<u8>, i: int, n: int, has_digit: bool)
    requires
        0 <= n <= u64::MAX,
        0 <= i,
        i + spec_digits(n).len() <= s.len(),
        forall|k: int| 0 <= k < spec_digits(n).len() ==> s[i + k] == #[trigger] spec_digits(n)[k],
    ensures
        spec_lex(s, i, 0, has_digit, Option::None) == spec_lex(
            s,
            i + spec_digits(n).len(),
            n,
            true,
            Option::None,
        ),
    decreases n,
{
    lemma_digits_shape(n);
    if n < 10 {
        assert(spec_digits(n)[0] == (n + BYTE_ZERO) as u8);
        assert(s[i + 0] == spec_digits(n)[0]);
        assert(s[i] == (n + BYTE_ZERO) as u8);
        assert(spec_lex(s, i, 0, has_digit, Option::None) == spec_lex(
            s,
            i + 1,
            n,
            true,
            Option::None,
        ));
    } else {
        let q = n / 10;
        let r = n % 10;
        vstd::arithmetic::div_mod::lemma_fundamental_div_mod(n, 10);
        lemma_digits_shape(q);
        let dq = spec_digits(q);
        assert(spec_digits(n) == dq.push((r + BYTE_ZERO) as u8));
        assert forall|k: int| 0 <= k < dq.len() implies s[i + k] == #[trigger] dq[k] by {
            assert(spec_digits(n)[k] == dq[k]);
            assert(s[i + k] == spec_digits(n)[k]);
        };
        lemma_lex_digit_run(s, i, q, has_digit);
        let j = i + dq.len();
        assert(spec_digits(n)[j - i] == (r + BYTE_ZERO) as u8);
        assert(s[j] == (r + BYTE_ZERO) as u8);
        assert(spec_lex(s, j, q, true, Option::None) == spec_lex(
            s,
            j + 1,
            q * 10 + r,
            true,
            Option::None,
        ));
        assert(q * 10 + r == n);
    }
}

/// Whether parsing `s` succeeds with exactly the value `v`.
pub open spec fn parses_to(s: Seq<u8>, v: u64) -> bool {
    spec_parse(s) == Ok::<u64, ParseFixedDecimalError>(v)
}

/// Round-trip law: parsing the canonical rendering of any amount yields
/// exactly that amount back.
pub proof fn lemma_format_parse_roundtrip(a: UnsignedAssetCount)
    ensures
        parses_to(spec_format(a@ as int), a@),
{
    let v = a@ as int;
    let fpu = FRACTIONS_PER_UNIT as int;
    let u = v / fpu;
    let f = v % fpu;
    vstd::arithmetic::div_mod::lemma_fundamental_div_mod(v, fpu);
    assert(0 <= f < 10000);
    assert(0 <= u);
    assert(u <= v) by {
        assert(u * 10000 <= v);
    };
    let s = spec_format(v);
    let d = spec_digits(u);
    let dl = d.len() as int;
    lemma_digits_shape(u);
    assert(s.len() == dl + 5);
    assert(forall|k: int| 0 <= k < dl ==> s[k] == #[trigger] d[k]);
    lemma_lex_digit_run(s, 0, u, false);
    assert(s[dl] == BYTE_DOT);
    assert(spec_lex(s, dl, u, true, Option::None) == spec_lex(
        s,
        dl + 1,
        u,
        true,
        Option::Some(0),
    ));
    let d3 = f / 1000 % 10;
    let d2 = f / 100 % 10;
    let d1 = f / 10 % 10;
    let d0 = f % 10;
    assert(f == 1000 * d3 + 100 * d2 + 10 * d1 + d0) by {
        vstd::arithmetic::div_mod::lemma_breakdown(f, 1000, 10);
        vstd::arithmetic::div_mod::lemma_breakdown(f, 100, 10);
        vstd::arithmetic::div_mod::lemma_breakdown(f, 10, 10);
        vstd::arithmetic::div_mod::lemma_small_mod(f as nat, 10000);
    };
    assert(0 <= d3 <= 9 && 0 <= d2 <= 9 && 0 <= d1 <= 9 && 0 <= d0 <= 9);
    assert(s[dl + 1] == (d3 + BYTE_ZERO) as u8);
    assert(s[dl + 2] == (d2 + BYTE_ZERO) as u8);
    assert(s[dl + 3] == (d1 + BYTE_ZERO) as u8);
    assert(s[dl + 4] == (d0 + BYTE_ZERO) as u8);
    let a1 = u * 10 + d3;
    let a2 = a1 * 10 + d2;
    let a3 = a2 * 10 + d1;
    let a4 = a3 * 10 + d0;
    assert(a1 * 1000 + 100 * d2 + 10 * d1 + d0 == v);
    assert(a1 <= v);
    assert(a2 * 100 + 10 * d1 + d0 == v);
    assert(a2 <= v);
    assert(a3 * 10 + d0 == v);
    assert(a3 <= v);
    assert(a4 == v);
    assert(spec_lex(s, dl + 1, u, true, Option::Some(0)) == spec_lex(
        s,
        dl + 2,
        a1,
        true,
        Option::Some(1),
    ));
    assert(spec_lex(s, dl + 2, a1, true, Option::Some(1)) == spec_lex(
        s,
        dl + 3,
        a2,
        true,
        Option::Some(2),
    ));
    assert(spec_lex(s, dl + 3, a2, true, Option::Some(2)) == spec_lex(
        s,
        dl + 4,
        a3,
        true,
        Option::Some(3),
    ));
    assert(spec_lex(s, dl + 4, a3, true, Option::Some(3)) == spec_lex(
        s,
        dl + 5,
        a4,
        true,
        Option::Some(4),
    ));
    assert(spec_lex(s, dl + 5, a4, true, Option::Some(4)) == spec_pad(a4, 4));
    assert(spec_pad(a4, 4) == Ok::<u64, ParseFixedDecimalError>(a@));
    assert(parses_to(spec_format(a@ as int), a@));
}

} // verus!

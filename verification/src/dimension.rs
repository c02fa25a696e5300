//! CSS length values: a dimension is a number and a unit, e.g. `4px`, `.7em`,
//! `1in`. Magnitudes are kept as exact nonnegative rationals (`Scalar`), so
//! the absolute units convert exactly: one inch is 96 pixels, one centimetre
//! is 9600/254 pixels, one millimetre a tenth of that.

use vstd::prelude::*;

use crate::chars::{
    chars_of, is_alpha, is_alpha_char, is_digit, is_digit_char, is_whitespace_char, is_ws_char,
    spec_trim, to_lower, to_lower_char, trim_chars,
};

verus! {

/// Mantissas of parsed numbers are kept below this bound (one quadrillion,
/// fifteen decimal digits), so that unit conversion never overflows a `u64`.
pub const MAX_MANTISSA: u64 = 1000000000000000;

/// At most this many digits after the decimal point are representable.
pub const MAX_FRAC_DIGITS: u64 = 15;

/// An exact nonnegative rational magnitude, `num / den`.
#[derive(Debug, Clone, Copy, PartialEq, Eq, Structural)]
pub struct Scalar {
    pub num: u64,
    pub den: u64,
}

/// The characters the number scanner collects: ASCII digits and the dot.
pub open spec fn is_numeric_part(c: char) -> bool {
    is_digit_char(c) || c == '.'
}

/// The digits and dots of `s`, in order, wherever they stand.
pub open spec fn collect_numeric(s: Seq<char>) -> Seq<char>
    decreases s.len(),
{
    if s.len() == 0 {
        Seq::empty()
    } else {
        let rest = collect_numeric(s.drop_first());
        if is_numeric_part(s[0]) {
            seq![s[0]] + rest
        } else {
            rest
        }
    }
}

/// The state of the number scanner after reading a numeric text from the
/// left: the mantissa (all digits run together), the count of dots, the
/// count of digits after the first dot, and the count of all digits.
pub ghost struct NumScan {
    pub mantissa: int,
    pub dots: int,
    pub frac: int,
    pub digits: int,
}

pub open spec fn scan_step(st: NumScan, c: char) -> NumScan {
    if c == '.' {
        NumScan { dots: st.dots + 1, ..st }
    } else if is_digit_char(c) {
        NumScan {
            mantissa: st.mantissa * 10 + (c as int - '0' as int),
            frac: if st.dots > 0 {
                st.frac + 1
            } else {
                st.frac
            },
            digits: st.digits + 1,
            ..st
        }
    } else {
        st
    }
}

pub open spec fn scan_of(t: Seq<char>) -> NumScan
    decreases t.len(),
{
    if t.len() == 0 {
        NumScan { mantissa: 0, dots: 0, frac: 0, digits: 0 }
    } else {
        scan_step(scan_of(t.drop_last()), t.last())
    }
}

/// A numeric text is accepted when it has at most one dot, at least one
/// digit, and it fits the representable range.
pub open spec fn valid_number(t: Seq<char>) -> bool {
    let st = scan_of(t);
    st.dots <= 1 && st.digits >= 1 && st.mantissa < MAX_MANTISSA && st.frac <= MAX_FRAC_DIGITS
}

pub open spec fn pow10(n: int) -> int
    decreases n,
{
    if n <= 0 {
        1
    } else {
        10 * pow10(n - 1)
    }
}

/// The number and the consumed length that the dimension parser reads out of
/// `s`: the collected digits-and-dots as an exact rational, or zero over one
/// (and length zero) when the numeric text is not accepted.
pub open spec fn spec_parse_number(s: Seq<char>) -> (Scalar, int) {
    let t = collect_numeric(s);
    let st = scan_of(t);
    if valid_number(t) {
        (Scalar { num: st.mantissa as u64, den: pow10(st.frac) as u64 }, t.len() as int)
    } else {
        (Scalar { num: 0, den: 1 }, 0)
    }
}

proof fn lemma_scan_nonneg(t: Seq<char>)
    ensures
        scan_of(t).mantissa >= 0,
        scan_of(t).dots >= 0,
        scan_of(t).frac >= 0,
        scan_of(t).digits >= 0,
    decreases t.len(),
{
    if t.len() > 0 {
        lemma_scan_nonneg(t.drop_last());
    }
}

proof fn lemma_pow10_pos(n: int)
    ensures
        pow10(n) >= 1,
    decreases n,
{
    if n > 0 {
        lemma_pow10_pos(n - 1);
    }
}

proof fn lemma_pow10_mono(a: int, b: int)
    requires
        a <= b,
    ensures
        pow10(a) <= pow10(b),
    decreases b - a,
{
    if a < b {
        lemma_pow10_mono(a, b - 1);
        lemma_pow10_pos(b - 1);
        if b > 0 {
        } else {
        }
    }
}

proof fn lemma_pow10_15()
    ensures
        pow10(15) == 1000000000000000,
{
    reveal_with_fuel(pow10, 17);
}

fn pow10_u64(n: u64) -> (r: u64)
    requires
        n <= 15,
    ensures
        r as int == pow10(n as int),
{
    let mut r: u64 = 1;
    let mut k: u64 = 0;
    while k < n
        invariant
            k <= n <= 15,
            r as int == pow10(k as int),
        decreases n - k,
    {
        proof {
            lemma_pow10_mono(k as int, 14);
            lemma_pow10_15();
        }
        r = r * 10;
        k = k + 1;
    }
    r
}

/// Reads the number out of a dimension text: every digit and dot of the
/// text is collected, wherever it stands, and the collected text is taken as
/// the number; on an unaccepted numeric text the number is zero and nothing
/// counts as consumed.
fn parse_number_chars(v: &Vec<char>) -> (r: (Scalar, usize))
    ensures
        r.0 == spec_parse_number(v@).0,
        r.1 as int == spec_parse_number(v@).1,
{
    let ghost mut t: Seq<char> = Seq::empty();
    let mut m: u64 = 0;
    let mut dots: u64 = 0;
    let mut frac: u64 = 0;
    let mut digits: bool = false;
    let mut over: bool = false;
    let mut tlen: usize = 0;
    let mut i: usize = 0;
    proof {
        assert(v@.skip(0) =~= v@);
    }
    while i < v.len()
        invariant
            i <= v@.len(),
            tlen <= i,
            t + collect_numeric(v@.skip(i as int)) == collect_numeric(v@),
            tlen == t.len(),
            dots as int == if scan_of(t).dots <= 2 {
                scan_of(t).dots
            } else {
                2
            },
            frac as int == if scan_of(t).frac <= 16 {
                scan_of(t).frac
            } else {
                16
            },
            digits == (scan_of(t).digits >= 1),
            !over ==> m as int == scan_of(t).mantissa && scan_of(t).mantissa < MAX_MANTISSA,
            over ==> scan_of(t).mantissa >= MAX_MANTISSA,
        decreases v@.len() - i,
    {
        let c = v[i];
        proof {
            lemma_scan_nonneg(t);
            assert(v@.skip(i as int).drop_first() =~= v@.skip(i as int + 1));
        }
        if is_digit(c) || c == '.' {
            let ghost t2 = t.push(c);
            proof {
                assert(t2.drop_last() =~= t);
                assert(scan_of(t2) == scan_step(scan_of(t), c));
                assert(t + (seq![c] + collect_numeric(v@.skip(i as int + 1))) =~= t2
                    + collect_numeric(v@.skip(i as int + 1)));
            }
            if c == '.' {
                if dots < 2 {
                    dots = dots + 1;
                }
            } else {
                let d: u64 = (c as u32 - 48) as u64;
                if !over {
                    let m2 = m * 10 + d;
                    if m2 >= MAX_MANTISSA {
                        over = true;
                    } else {
                        m = m2;
                    }
                }
                if dots > 0 {
                    if frac < 16 {
                        frac = frac + 1;
                    }
                }
                digits = true;
            }
            proof {
                t = t2;
            }
            tlen = tlen + 1;
        }
        i = i + 1;
    }
    proof {
        assert(v@.skip(v@.len() as int) =~= Seq::<char>::empty());
        assert(t =~= collect_numeric(v@));
        lemma_scan_nonneg(t);
    }
    if dots <= 1 && digits && !over && frac <= 15 {
        proof {
            lemma_pow10_mono(frac as int, 15);
            lemma_pow10_pos(frac as int);
            lemma_pow10_15();
        }
        let den = pow10_u64(frac);
        (Scalar { num: m, den }, tlen)
    } else {
        (Scalar { num: 0, den: 1 }, 0)
    }
}

/// The typed representation of a CSS length unit. Absolute magnitudes are in
/// pixels; the relative variants carry the raw number, to be resolved against
/// the font context they are relative to.
#[derive(Debug, Clone, Copy, PartialEq, Eq, Structural)]
pub enum Unit {
    /// Units that are not relative to anything else; the magnitude is in
    /// pixels.
    Absolute(Scalar),
    /// Relative to the font size of the parent element.
    RelativeToParentFontSize(Scalar),
    /// Relative to the height of the element's font.
    RelativeToParentFontHeight(Scalar),
    /// Relative to the advance width of the glyph "0" of the element's font.
    RelativeToGlyph0Width(Scalar),
    /// Relative to the font size of the root element.
    RelativeToRootFontSize(Scalar),
    /// Relative to the line height of the element.
    RelativeToLineHeight(Scalar),
}

impl Default for Unit {
    /// The default unit: zero pixels.
    fn default() -> (r: Self)
        ensures
            r == Unit::Absolute(Scalar { num: 0, den: 1 }),
    {
        Unit::Absolute(Scalar { num: 0, den: 1 })
    }
}

/// `s` with every ASCII upper-case letter lowered.
pub open spec fn lower_seq(s: Seq<char>) -> Seq<char> {
    s.map_values(|c: char| to_lower_char(c))
}

/// The letters and whitespace of `s`, everything else dropped.
pub open spec fn keep_alpha_ws(s: Seq<char>) -> Seq<char>
    decreases s.len(),
{
    if s.len() == 0 {
        Seq::empty()
    } else {
        let rest = keep_alpha_ws(s.drop_first());
        if is_alpha_char(s[0]) || is_ws_char(s[0]) {
            seq![s[0]] + rest
        } else {
            rest
        }
    }
}

/// The unit keyword hidden in a unit text: trimmed, lower-cased, with
/// everything but letters and whitespace dropped.
pub open spec fn spec_unit_keyword(s: Seq<char>) -> Seq<char> {
    keep_alpha_ws(lower_seq(spec_trim(s)))
}

/// The unit the given text names, carrying the given number: `px`, `in`,
/// `cm` and `mm` convert to absolute pixels; `em` and `ex` stay relative;
/// an unrecognized suffix falls back to the plain number in pixels.
pub open spec fn spec_unit_from(s: Seq<char>, num: Scalar) -> Unit {
    let k = spec_unit_keyword(s);
    if k == "px"@ {
        Unit::Absolute(num)
    } else if k == "in"@ {
        Unit::Absolute(Scalar { num: (num.num * 96) as u64, den: num.den })
    } else if k == "cm"@ {
        Unit::Absolute(Scalar { num: (num.num * 9600) as u64, den: (num.den * 254) as u64 })
    } else if k == "mm"@ {
        Unit::Absolute(Scalar { num: (num.num * 960) as u64, den: (num.den * 254) as u64 })
    } else if k == "em"@ {
        Unit::RelativeToParentFontSize(num)
    } else if k == "ex"@ {
        Unit::RelativeToParentFontHeight(num)
    } else {
        Unit::Absolute(num)
    }
}

/// Builds the cleaned unit keyword of `v`.
fn unit_keyword_chars(v: &Vec<char>) -> (r: Vec<char>)
    ensures
        r@ == spec_unit_keyword(v@),
{
    let trimmed = trim_chars(v);
    let mut r: Vec<char> = Vec::new();
    let mut i: usize = 0;
    let ghost low = lower_seq(trimmed@);
    proof {
        assert(low.skip(0) =~= low);
    }
    while i < trimmed.len()
        invariant
            i <= trimmed@.len(),
            low == lower_seq(trimmed@),
            low.len() == trimmed@.len(),
            r@ + keep_alpha_ws(low.skip(i as int)) == keep_alpha_ws(low),
        decreases trimmed@.len() - i,
    {
        let c = to_lower(trimmed[i]);
        proof {
            assert(low[i as int] == c);
            assert(low.skip(i as int)[0] == c);
            assert(low.skip(i as int).drop_first() =~= low.skip(i as int + 1));
        }
        if is_alpha(c) || is_whitespace_char(c) {
            let ghost prev = r@;
            r.push(c);
            proof {
                assert(r@ =~= prev + seq![c]);
                assert(prev + (seq![c] + keep_alpha_ws(low.skip(i as int + 1))) =~= r@
                    + keep_alpha_ws(low.skip(i as int + 1)));
            }
        }
        i = i + 1;
    }
    proof {
        assert(low.skip(low.len() as int) =~= Seq::<char>::empty());
        assert(r@ =~= keep_alpha_ws(low));
    }
    r
}

impl Unit {
    /// Parses a unit suffix, carrying the already-parsed number. The bounds
    /// keep the pixel conversions inside a `u64`.
    pub fn from_str(s: &str, num: Scalar) -> (r: Unit)
        requires
            num.num <= 1000000000000000,
            num.den <= 1000000000000000,
        ensures
            r == spec_unit_from(s@, num),
    {
        let cs = chars_of(s);
        Unit::from_chars(&cs, num)
    }

    fn from_chars(v: &Vec<char>, num: Scalar) -> (r: Unit)
        requires
            num.num <= 1000000000000000,
            num.den <= 1000000000000000,
        ensures
            r == spec_unit_from(v@, num),
    {
        let k = unit_keyword_chars(v);
        if crate::chars::chars_eq_str(&k, "px") {
            Unit::Absolute(num)
        } else if crate::chars::chars_eq_str(&k, "in") {
            Unit::Absolute(Scalar { num: num.num * 96, den: num.den })
        } else if crate::chars::chars_eq_str(&k, "cm") {
            Unit::Absolute(Scalar { num: num.num * 9600, den: num.den * 254 })
        } else if crate::chars::chars_eq_str(&k, "mm") {
            Unit::Absolute(Scalar { num: num.num * 960, den: num.den * 254 })
        } else if crate::chars::chars_eq_str(&k, "em") {
            Unit::RelativeToParentFontSize(num)
        } else if crate::chars::chars_eq_str(&k, "ex") {
            Unit::RelativeToParentFontHeight(num)
        } else {
            Unit::Absolute(num)
        }
    }
}

/// A parsed CSS dimension: the number part and the unit part.
#[derive(Debug, Clone, Copy, PartialEq, Eq, Structural)]
pub struct Dimension {
    /// The number part of the dimension.
    pub number: Scalar,
    /// The dimension unit, carrying the converted magnitude.
    pub unit: Unit,
}

impl Default for Dimension {
    /// The default dimension: zero pixels.
    fn default() -> (r: Self)
        ensures
            r == (Dimension {
                number: Scalar { num: 0, den: 1 },
                unit: Unit::Absolute(Scalar { num: 0, den: 1 }),
            }),
    {
        Dimension {
            number: Scalar { num: 0, den: 1 },
            unit: Unit::Absolute(Scalar { num: 0, den: 1 }),
        }
    }
}

/// The dimension a text denotes: its number, and the unit read from the text
/// after the consumed numeric characters.
pub open spec fn spec_dimension(s: Seq<char>) -> Dimension {
    let (num, len) = spec_parse_number(s);
    Dimension { number: num, unit: spec_unit_from(s.skip(len), num) }
}

/// Parses a dimension from a vector of characters.
pub(crate) fn dimension_from_chars(v: &Vec<char>) -> (r: Dimension)
    ensures
        r == spec_dimension(v@),
{
    let (num, len) = parse_number_chars(v);
    proof {
        let t = collect_numeric(v@);
        if valid_number(t) {
            lemma_scan_nonneg(t);
            lemma_pow10_pos(scan_of(t).frac);
            lemma_pow10_mono(scan_of(t).frac, 15);
            lemma_pow10_15();
        }
        lemma_collect_len(v@);
    }
    assert(num.num <= 1000000000000000 && num.den <= 1000000000000000);
    let mut rest: Vec<char> = Vec::new();
    let mut i: usize = len;
    while i < v.len()
        invariant
            len <= i <= v@.len(),
            rest@ == v@.subrange(len as int, i as int),
        decreases v@.len() - i,
    {
        rest.push(v[i]);
        proof {
            assert(rest@ =~= v@.subrange(len as int, i as int + 1));
        }
        i = i + 1;
    }
    proof {
        assert(rest@ =~= v@.skip(len as int));
    }
    let unit = Unit::from_chars(&rest, num);
    Dimension { number: num, unit }
}

proof fn lemma_collect_len(s: Seq<char>)
    ensures
        collect_numeric(s).len() <= s.len(),
    decreases s.len(),
{
    if s.len() > 0 {
        lemma_collect_len(s.drop_first());
    }
}

impl Dimension {
    /// Parses a CSS dimension (number plus unit) from a string.
    pub fn from_str(s: &str) -> (r: Dimension)
        ensures
            r == spec_dimension(s@),
    {
        let cs = chars_of(s);
        dimension_from_chars(&cs)
    }
}

} // verus!

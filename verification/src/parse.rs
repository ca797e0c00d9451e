//! Parsers for the textual configuration values: rectangle and
//! resolution components, pixel ratios, and color standard names.
use vstd::prelude::*;

use vstd::string::StrSliceExecFns;

use crate::AspectRatio;

verus! {

/// The error returned when a component string cannot be parsed.
#[derive(Debug, Copy, Clone, PartialEq, Eq, Structural)]
pub enum ParseError {
    /// The wrong number of separated components.
    WrongCount,
    /// A component is not a valid number.
    BadNumber,
}

/// Whether a character is a decimal digit.
pub open spec fn is_dec_digit(c: char) -> bool {
    '0' as int <= c as int && c as int <= '9' as int
}

/// The numeric value of a decimal digit character.
pub open spec fn digit_val(c: char) -> int {
    c as int - '0' as int
}

/// The value of a sequence of decimal digits, most significant first.
pub open spec fn dec_value(s: Seq<char>) -> int
    decreases s.len(),
{
    if s.len() == 0 {
        0
    } else {
        dec_value(s.drop_last()) * 10 + digit_val(s.last())
    }
}

/// A number field may carry one leading plus sign, as `u32` parsing in
/// Rust accepts; this strips it.
pub open spec fn strip_plus(s: Seq<char>) -> Seq<char> {
    if s.len() > 0 && s[0] == '+' {
        s.drop_first()
    } else {
        s
    }
}

/// Whether a digit sequence is a valid `u32`: non-empty, all digits,
/// and within range.
pub open spec fn valid_u32_digits(s: Seq<char>) -> bool {
    &&& s.len() >= 1
    &&& (forall|i: int| #![trigger s[i]] 0 <= i < s.len() ==> is_dec_digit(s[i]))
    &&& dec_value(s) <= u32::MAX
}

/// Whether a number field (with an optional leading plus) is a valid
/// `u32`.
pub open spec fn valid_u32_field(s: Seq<char>) -> bool {
    valid_u32_digits(strip_plus(s))
}

/// The numeric value of a number field.
pub open spec fn field_value(s: Seq<char>) -> int {
    dec_value(strip_plus(s))
}

/// The value of an all-digit sequence is never negative.
proof fn lemma_dec_value_nonneg(s: Seq<char>)
    requires
        forall|i: int| #![trigger s[i]] 0 <= i < s.len() ==> is_dec_digit(s[i]),
    ensures
        dec_value(s) >= 0,
    decreases s.len(),
{
    if s.len() > 0 {
        lemma_dec_value_nonneg(s.drop_last());
        assert(dec_value(s.drop_last()) * 10 >= 0) by (nonlinear_arith)
            requires
                dec_value(s.drop_last()) >= 0,
        ;
    }
}

/// Extending an all-digit sequence never shrinks its value.
proof fn lemma_dec_value_prefix(s: Seq<char>, k: int)
    requires
        0 <= k <= s.len(),
        forall|i: int| #![trigger s[i]] 0 <= i < s.len() ==> is_dec_digit(s[i]),
    ensures
        dec_value(s) >= dec_value(s.take(k)),
    decreases s.len() - k,
{
    if k < s.len() {
        lemma_dec_value_prefix(s, k + 1);
        let t = s.take(k + 1);
        assert(t.drop_last() =~= s.take(k));
        lemma_dec_value_nonneg(s.take(k));
        assert(dec_value(s.take(k)) * 10 >= dec_value(s.take(k))) by (nonlinear_arith)
            requires
                dec_value(s.take(k)) >= 0,
        ;
        assert(digit_val(t.last()) >= 0);
    } else {
        assert(s.take(k) =~= s);
    }
}

/// The positions at which a separator character occurs, in increasing
/// order.
pub open spec fn sep_positions(s: Seq<char>, sep: char) -> Seq<int>
    decreases s.len(),
{
    if s.len() == 0 {
        seq![]
    } else if s.last() == sep {
        sep_positions(s.drop_last(), sep).push(s.len() - 1)
    } else {
        sep_positions(s.drop_last(), sep)
    }
}

/// Separator positions are in range, hold the separator, and increase
/// strictly.
proof fn lemma_sep_positions(s: Seq<char>, sep: char)
    ensures
        forall|j: int|
            #![trigger sep_positions(s, sep)[j]]
            0 <= j < sep_positions(s, sep).len() ==> {
                &&& 0 <= sep_positions(s, sep)[j] < s.len()
                &&& s[sep_positions(s, sep)[j]] == sep
            },
        forall|j: int|
            #![trigger sep_positions(s, sep)[j]]
            1 <= j < sep_positions(s, sep).len() ==> sep_positions(s, sep)[j - 1] < sep_positions(
                s,
                sep,
            )[j],
    decreases s.len(),
{
    if s.len() > 0 {
        let d = s.drop_last();
        lemma_sep_positions(d, sep);
        let pd = sep_positions(d, sep);
        let ps = sep_positions(s, sep);
        assert(forall|i: int| 0 <= i < d.len() ==> #[trigger] d[i] == s[i]);
        assert forall|j: int|
            #![trigger ps[j]]
            0 <= j < ps.len() implies {
            &&& 0 <= ps[j] < s.len()
            &&& s[ps[j]] == sep
        } by {
            if j < pd.len() {
                assert(ps[j] == pd[j]);
                assert(0 <= pd[j] < d.len() && d[pd[j]] == sep);
            } else {
                assert(s.last() == sep && ps[j] == s.len() - 1);
            }
        }
        assert forall|j: int|
            #![trigger ps[j]]
            1 <= j < ps.len() implies ps[j - 1] < ps[j] by {
            if j < pd.len() {
                assert(ps[j] == pd[j] && ps[j - 1] == pd[j - 1]);
            } else {
                assert(s.last() == sep && ps[j] == s.len() - 1);
                assert(ps[j - 1] == pd[j - 1]);
                assert(0 <= pd[j - 1] < d.len());
            }
        }
    }
}

/// Parse the character range `[from, to)` of `s` as a `u32` field: an
/// optional plus sign followed by decimal digits.
fn parse_u32_range(s: &str, from: usize, to: usize) -> (r: Option<u32>)
    requires
        from <= to <= s@.len(),
    ensures
        match r {
            Some(v) => valid_u32_field(s@.subrange(from as int, to as int)) && v as int
                == field_value(s@.subrange(from as int, to as int)),
            None => !valid_u32_field(s@.subrange(from as int, to as int)),
        },
{
    let ghost field = s@.subrange(from as int, to as int);
    let mut start = from;
    if start < to && s.get_char(start) == '+' {
        start = start + 1;
    }
    proof {
        assert(s@.subrange(start as int, to as int) =~= strip_plus(field));
    }
    let ghost digits = strip_plus(field);
    if start >= to {
        return None;
    }
    let mut v: u64 = 0;
    let mut i = start;
    while i < to
        invariant
            from <= start <= i <= to <= s@.len(),
            digits == strip_plus(s@.subrange(from as int, to as int)),
            digits =~= s@.subrange(start as int, to as int),
            forall|j: int| #![trigger digits[j]] 0 <= j < i - start ==> is_dec_digit(digits[j]),
            v as int == dec_value(digits.take(i - start)),
            v <= u32::MAX,
        decreases to - i,
    {
        let c = s.get_char(i);
        let cv = c as u32;
        if cv < 48 || cv > 57 {
            // a non-digit character invalidates the whole field
            proof {
                assert(digits[i - start] == s@[i as int]);
                assert(!is_dec_digit(digits[i - start]));
            }
            return None;
        }
        let d = cv - 48;
        v = v * 10 + (d as u64);
        proof {
            let t = digits.take(i - start + 1);
            assert(t.drop_last() =~= digits.take(i - start));
            assert(t.last() == s@[i as int]);
        }
        if v > 0xFFFFFFFF {
            // the value overflows u32; with every remaining character a
            // digit the full value could only grow, and with a non-digit
            // the field is invalid anyway
            proof {
                if valid_u32_digits(digits) {
                    lemma_dec_value_prefix(digits, i - start + 1);
                }
            }
            return None;
        }
        i = i + 1;
    }
    proof {
        assert(digits.take(i - start) =~= digits);
    }
    Some(v as u32)
}

/// The positions of a separator character in a string.
fn sep_indices(s: &str, sep: char) -> (ps: Vec<usize>)
    ensures
        ps@.map_values(|x: usize| x as int) == sep_positions(s@, sep),
        forall|j: int| #![trigger ps@[j]] 0 <= j < ps@.len() ==> ps@[j] < s@.len(),
{
    let n = s.unicode_len();
    let mut ps: Vec<usize> = Vec::new();
    let mut i: usize = 0;
    while i < n
        invariant
            i <= n,
            n == s@.len(),
            ps@.map_values(|x: usize| x as int) =~= sep_positions(s@.take(i as int), sep),
            forall|j: int| #![trigger ps@[j]] 0 <= j < ps@.len() ==> ps@[j] < i,
        decreases n - i,
    {
        let c = s.get_char(i);
        proof {
            assert(s@.take(i + 1).drop_last() =~= s@.take(i as int));
            assert(s@.take(i + 1).last() == s@[i as int]);
        }
        if c == sep {
            ps.push(i);
        }
        proof {
            assert(ps@.map_values(|x: usize| x as int) =~= sep_positions(s@.take(i + 1), sep));
        }
        i = i + 1;
    }
    proof {
        assert(s@.take(n as int) =~= s@);
    }
    ps
}

/// What a resolution string of the form `<width>x<height>` parses to:
/// the two numbers around a single `x` separator, or the reason the
/// string is rejected.
pub open spec fn resolution_of_chars(s: Seq<char>) -> Result<(int, int), ParseError> {
    let ps = sep_positions(s, 'x');
    if ps.len() != 1 {
        Err(ParseError::WrongCount)
    } else {
        let left = s.take(ps[0]);
        let right = s.skip(ps[0] + 1);
        if valid_u32_field(left) && valid_u32_field(right) {
            Ok((field_value(left), field_value(right)))
        } else {
            Err(ParseError::BadNumber)
        }
    }
}

/// Parse a resolution of the form `<width>x<height>`.
pub fn parse_resolution(s: &str) -> (r: Result<(u32, u32), ParseError>)
    ensures
        match r {
            Ok((w, h)) => resolution_of_chars(s@) == Ok::<(int, int), ParseError>(
                (w as int, h as int),
            ),
            Err(e) => resolution_of_chars(s@) == Err::<(int, int), ParseError>(e),
        },
{
    let ps = sep_indices(s, 'x');
    if ps.len() != 1 {
        return Err(ParseError::WrongCount);
    }
    let p = ps[0];
    proof {
        assert(ps@.map_values(|x: usize| x as int)[0] == p as int);
        assert(s@.subrange(0, p as int) =~= s@.take(p as int));
        assert(s@.subrange(p + 1, s@.len() as int) =~= s@.skip(p + 1));
    }
    let n = s.unicode_len();
    let left = parse_u32_range(s, 0, p);
    let right = parse_u32_range(s, p + 1, n);
    match (left, right) {
        (Some(w), Some(h)) => Ok((w, h)),
        _ => Err(ParseError::BadNumber),
    }
}

/// What a rectangle string of the form `<left>,<top>,<width>,<height>`
/// parses to: the four numbers around three comma separators, or the
/// reason the string is rejected.
pub open spec fn rect_of_chars(s: Seq<char>) -> Result<(int, int, int, int), ParseError> {
    let ps = sep_positions(s, ',');
    if ps.len() != 3 {
        Err(ParseError::WrongCount)
    } else {
        let f0 = s.take(ps[0]);
        let f1 = s.subrange(ps[0] + 1, ps[1]);
        let f2 = s.subrange(ps[1] + 1, ps[2]);
        let f3 = s.skip(ps[2] + 1);
        if valid_u32_field(f0) && valid_u32_field(f1) && valid_u32_field(f2) && valid_u32_field(
            f3,
        ) {
            Ok((field_value(f0), field_value(f1), field_value(f2), field_value(f3)))
        } else {
            Err(ParseError::BadNumber)
        }
    }
}

/// Parse a crop rectangle of the form `<left>,<top>,<width>,<height>`.
pub fn parse_rect(s: &str) -> (r: Result<(u32, u32, u32, u32), ParseError>)
    ensures
        match r {
            Ok((a, b, c, d)) => rect_of_chars(s@) == Ok::<(int, int, int, int), ParseError>(
                (a as int, b as int, c as int, d as int),
            ),
            Err(e) => rect_of_chars(s@) == Err::<(int, int, int, int), ParseError>(e),
        },
{
    let ps = sep_indices(s, ',');
    if ps.len() != 3 {
        return Err(ParseError::WrongCount);
    }
    let (p0, p1, p2) = (ps[0], ps[1], ps[2]);
    proof {
        lemma_sep_positions(s@, ',');
        let m = ps@.map_values(|x: usize| x as int);
        assert(m[0] == p0 as int && m[1] == p1 as int && m[2] == p2 as int);
        assert(sep_positions(s@, ',')[0] < sep_positions(s@, ',')[1]);
        assert(sep_positions(s@, ',')[1] < sep_positions(s@, ',')[2]);
        assert(s@.subrange(0, p0 as int) =~= s@.take(p0 as int));
        assert(s@.subrange(p2 + 1, s@.len() as int) =~= s@.skip(p2 + 1));
    }
    let n = s.unicode_len();
    let f0 = parse_u32_range(s, 0, p0);
    let f1 = parse_u32_range(s, p0 + 1, p1);
    let f2 = parse_u32_range(s, p1 + 1, p2);
    let f3 = parse_u32_range(s, p2 + 1, n);
    match (f0, f1, f2, f3) {
        (Some(a), Some(b), Some(c), Some(d)) => Ok((a, b, c, d)),
        _ => Err(ParseError::BadNumber),
    }
}

/// What a pixel ratio string of the form `<w>:<h>` parses to: the two
/// numbers around a single colon, with a non-zero denominator, or the
/// reason the string is rejected.
pub open spec fn ratio_of_chars(s: Seq<char>) -> Result<(int, int), ParseError> {
    let ps = sep_positions(s, ':');
    if ps.len() != 1 {
        Err(ParseError::WrongCount)
    } else {
        let left = s.take(ps[0]);
        let right = s.skip(ps[0] + 1);
        if valid_u32_field(left) && valid_u32_field(right) && field_value(right) != 0 {
            Ok((field_value(left), field_value(right)))
        } else {
            Err(ParseError::BadNumber)
        }
    }
}

/// Parse a pixel ratio of the form `<w>:<h>`; the height component
/// must not be zero.
pub fn parse_ratio(s: &str) -> (r: Result<AspectRatio, ParseError>)
    ensures
        match r {
            Ok(q) => ratio_of_chars(s@) == Ok::<(int, int), ParseError>(
                (q.numer as int, q.denom as int),
            ),
            Err(e) => ratio_of_chars(s@) == Err::<(int, int), ParseError>(e),
        },
{
    let ps = sep_indices(s, ':');
    if ps.len() != 1 {
        return Err(ParseError::WrongCount);
    }
    let p = ps[0];
    proof {
        assert(ps@.map_values(|x: usize| x as int)[0] == p as int);
        assert(s@.subrange(0, p as int) =~= s@.take(p as int));
        assert(s@.subrange(p + 1, s@.len() as int) =~= s@.skip(p + 1));
    }
    let n = s.unicode_len();
    let left = parse_u32_range(s, 0, p);
    let right = parse_u32_range(s, p + 1, n);
    match (left, right) {
        (Some(w), Some(h)) => {
            if h == 0 {
                Err(ParseError::BadNumber)
            } else {
                Ok(AspectRatio { numer: w, denom: h })
            }
        },
        _ => Err(ParseError::BadNumber),
    }
}

/// Options for the kind of color palette to be simulated. This does
/// not affect the image's resolution.
#[derive(Debug, Copy, Clone, Eq, PartialEq, Structural)]
pub enum ColorStandard {
    /// True color 24-bit RGB (8 bits per channel).
    True24Bit,
    /// 18-bit RGB (6 bits per channel).
    Vga18Bit,
    /// 16-bit RGB, also called High color (5-6-5 bits per R-G-B channel).
    Vga16Bit,
    /// Mode 4 of CGA: 3 colors from hardcoded sub-palettes + 1 back color.
    CgaMode4,
    /// Mode 4 of CGA, high intensity of sub-palette 1: white, cyan,
    /// magenta, and one arbitrary back color.
    CgaMode4High1,
    /// Monochrome, black and white.
    BlackWhite,
    /// All 16 colors from the CGA palette.
    FullCga,
    /// All 64 colors from the EGA palette.
    FullEga,
}

/// The error returned when a string names no color standard.
#[derive(Debug, Copy, Clone, Eq, PartialEq, Structural)]
pub struct ColorStandardParseError;

/// A character's scalar value, ASCII-lowercased.
pub open spec fn lower_char_val(c: char) -> int {
    if 'A' as int <= c as int && c as int <= 'Z' as int {
        c as int + 32
    } else {
        c as int
    }
}

/// Whether `s`, ASCII-lowercased, spells the (lower-case) keyword.
pub open spec fn matches_keyword(s: Seq<char>, kw: Seq<char>) -> bool {
    s.map_values(|c: char| lower_char_val(c)) == kw.map_values(|c: char| c as int)
}

/// Which color standard (if any) a string names, matched
/// case-insensitively over ASCII.
pub open spec fn color_standard_of_chars(s: Seq<char>) -> Option<ColorStandard> {
    if matches_keyword(s, "true"@) || matches_keyword(s, "24bit"@) {
        Some(ColorStandard::True24Bit)
    } else if matches_keyword(s, "vga"@) || matches_keyword(s, "18bit"@) {
        Some(ColorStandard::Vga18Bit)
    } else if matches_keyword(s, "high"@) || matches_keyword(s, "16bit"@) {
        Some(ColorStandard::Vga16Bit)
    } else if matches_keyword(s, "cga"@) || matches_keyword(s, "cgamode4"@) {
        Some(ColorStandard::CgaMode4)
    } else if matches_keyword(s, "cgamode4high1"@) {
        Some(ColorStandard::CgaMode4High1)
    } else if matches_keyword(s, "fullcga"@) {
        Some(ColorStandard::FullCga)
    } else if matches_keyword(s, "ega"@) {
        Some(ColorStandard::FullEga)
    } else if matches_keyword(s, "bw"@) {
        Some(ColorStandard::BlackWhite)
    } else {
        None
    }
}

/// Whether `s`, ASCII-lowercased, equals the keyword.
fn str_eq_lower(s: &str, kw: &str) -> (b: bool)
    ensures
        b == matches_keyword(s@, kw@),
{
    let n = s.unicode_len();
    let m = kw.unicode_len();
    if n != m {
        return false;
    }
    let mut i: usize = 0;
    while i < n
        invariant
            i <= n,
            n == s@.len() && n == kw@.len(),
            forall|j: int|
                #![trigger s@[j]]
                0 <= j < i ==> lower_char_val(s@[j]) == kw@[j] as int,
        decreases n - i,
    {
        let c = s.get_char(i) as u32;
        let lc = if c >= 65 && c <= 90 {
            c + 32
        } else {
            c
        };
        let k = kw.get_char(i) as u32;
        if lc != k {
            proof {
                assert(lower_char_val(s@[i as int]) != kw@[i as int] as int);
                assert(s@.map_values(|c: char| lower_char_val(c))[i as int] != kw@.map_values(
                    |c: char| c as int,
                )[i as int]);
            }
            return false;
        }
        i = i + 1;
    }
    proof {
        assert(s@.map_values(|c: char| lower_char_val(c)) =~= kw@.map_values(
            |c: char| c as int,
        ));
    }
    true
}

impl ColorStandard {
    /// Parse a color standard name, matched case-insensitively.
    pub fn from_str(s: &str) -> (r: Result<ColorStandard, ColorStandardParseError>)
        ensures
            match r {
                Ok(cs) => color_standard_of_chars(s@) == Some(cs),
                Err(_) => color_standard_of_chars(s@) is None,
            },
    {
        if str_eq_lower(s, "true") || str_eq_lower(s, "24bit") {
            Ok(ColorStandard::True24Bit)
        } else if str_eq_lower(s, "vga") || str_eq_lower(s, "18bit") {
            Ok(ColorStandard::Vga18Bit)
        } else if str_eq_lower(s, "high") || str_eq_lower(s, "16bit") {
            Ok(ColorStandard::Vga16Bit)
        } else if str_eq_lower(s, "cga") || str_eq_lower(s, "cgamode4") {
            Ok(ColorStandard::CgaMode4)
        } else if str_eq_lower(s, "cgamode4high1") {
            Ok(ColorStandard::CgaMode4High1)
        } else if str_eq_lower(s, "fullcga") {
            Ok(ColorStandard::FullCga)
        } else if str_eq_lower(s, "ega") {
            Ok(ColorStandard::FullEga)
        } else if str_eq_lower(s, "bw") {
            Ok(ColorStandard::BlackWhite)
        } else {
            Err(ColorStandardParseError)
        }
    }
}


} // verus!

//! Template rendering for decimal-time values.
//!
//! The template language has three placeholders: `%Y` for the year, `%d`
//! for the day of year (both decimal, no padding) and `%f` for the day
//! fraction. Every occurrence is substituted by literal text replacement;
//! unrecognized placeholders are left untouched, and there is no escape
//! mechanism. The fraction is rendered as the decimal expansion of
//! `day_micros / MICROS_PER_DAY`, truncated after `FRAC_DIGIT_CAP` digits
//! when it does not terminate, and then stripped of all leading `'0'`
//! characters, so noon renders as `.5` and midnight as the empty string.

use vstd::prelude::*;
use vstd::string::StrSliceExecFns;
use vstd::string::StringExecFns;
use vstd::arithmetic::div_mod::lemma_fundamental_div_mod;
use crate::decimal::{DecimalTime, MICROS_PER_DAY};

verus! {

/// Most fraction digits ever rendered. Every fraction with a terminating
/// decimal expansion needs at most 13 digits (the denominator is
/// 2^13 * 3^3 * 5^8), so the cap only truncates expansions that would
/// never end.
pub const FRAC_DIGIT_CAP: u64 = 16;

/// The character for one decimal digit value.
pub open spec fn spec_digit_char(d: int) -> char {
    if d == 0 {
        '0'
    } else if d == 1 {
        '1'
    } else if d == 2 {
        '2'
    } else if d == 3 {
        '3'
    } else if d == 4 {
        '4'
    } else if d == 5 {
        '5'
    } else if d == 6 {
        '6'
    } else if d == 7 {
        '7'
    } else if d == 8 {
        '8'
    } else {
        '9'
    }
}

/// Decimal digits of a non-negative integer, most significant first,
/// without padding; zero renders as "0".
pub open spec fn spec_nat_chars(n: int) -> Seq<char>
    recommends
        n >= 0,
    decreases n,
{
    if n < 10 {
        seq![spec_digit_char(n)]
    } else {
        spec_nat_chars(n / 10).push(spec_digit_char(n % 10))
    }
}

/// Decimal rendering of a signed integer: a leading minus sign for
/// negative values, no padding.
pub open spec fn spec_int_chars(n: int) -> Seq<char> {
    if n < 0 {
        seq!['-'] + spec_nat_chars(-n)
    } else {
        spec_nat_chars(n)
    }
}

/// Digits of the decimal expansion of `rem / MICROS_PER_DAY`, produced by
/// long division, ending when the remainder reaches zero or after `fuel`
/// digits.
pub open spec fn spec_frac_digits(rem: int, fuel: nat) -> Seq<char>
    recommends
        0 <= rem < MICROS_PER_DAY,
    decreases fuel,
{
    if rem <= 0 || fuel == 0 {
        Seq::empty()
    } else {
        seq![spec_digit_char(rem * 10 / (MICROS_PER_DAY as int))] + spec_frac_digits(
            rem * 10 % (MICROS_PER_DAY as int),
            (fuel - 1) as nat,
        )
    }
}

/// The day fraction `micros / MICROS_PER_DAY` in decimal notation, before
/// zero-stripping: zero renders as "0", everything else as "0." followed
/// by the expansion digits.
pub open spec fn spec_fraction_chars(micros: int) -> Seq<char> {
    if micros == 0 {
        seq!['0']
    } else {
        seq!['0', '.'] + spec_frac_digits(micros, FRAC_DIGIT_CAP as nat)
    }
}

/// The text with every leading `'0'` character removed.
pub open spec fn spec_trim_zeros(s: Seq<char>) -> Seq<char>
    decreases s.len(),
{
    if s.len() > 0 && s[0] == '0' {
        spec_trim_zeros(s.skip(1))
    } else {
        s
    }
}

/// The template with every occurrence of `%Y`, `%d` and `%f` replaced by
/// `y`, `d` and `f`; all other text, including unrecognized placeholders
/// and a trailing lone `'%'`, is kept as it stands.
pub open spec fn spec_substitute(t: Seq<char>, y: Seq<char>, d: Seq<char>, f: Seq<char>) -> Seq<
    char,
>
    decreases t.len(),
{
    if t.len() == 0 {
        Seq::empty()
    } else if t.len() >= 2 && t[0] == '%' && t[1] == 'Y' {
        y + spec_substitute(t.skip(2), y, d, f)
    } else if t.len() >= 2 && t[0] == '%' && t[1] == 'd' {
        d + spec_substitute(t.skip(2), y, d, f)
    } else if t.len() >= 2 && t[0] == '%' && t[1] == 'f' {
        f + spec_substitute(t.skip(2), y, d, f)
    } else {
        seq![t[0]] + spec_substitute(t.skip(1), y, d, f)
    }
}

/// What `DecimalTime::format` returns: the template with the year, the
/// day of year and the zero-stripped day fraction substituted in.
pub open spec fn spec_format(dt: DecimalTime, t: Seq<char>) -> Seq<char> {
    spec_substitute(
        t,
        spec_int_chars(dt.year as int),
        spec_nat_chars(dt.day_of_year as int),
        spec_trim_zeros(spec_fraction_chars(dt.day_micros as int)),
    )
}

/// The one-character string for a decimal digit value.
fn digit_str(d: u8) -> (r: &'static str)
    requires
        d < 10,
    ensures
        r@ == seq![spec_digit_char(d as int)],
{
    proof {
        reveal_strlit("0");
        reveal_strlit("1");
        reveal_strlit("2");
        reveal_strlit("3");
        reveal_strlit("4");
        reveal_strlit("5");
        reveal_strlit("6");
        reveal_strlit("7");
        reveal_strlit("8");
        reveal_strlit("9");
    }
    let r: &'static str = if d == 0 {
        "0"
    } else if d == 1 {
        "1"
    } else if d == 2 {
        "2"
    } else if d == 3 {
        "3"
    } else if d == 4 {
        "4"
    } else if d == 5 {
        "5"
    } else if d == 6 {
        "6"
    } else if d == 7 {
        "7"
    } else if d == 8 {
        "8"
    } else {
        "9"
    };
    proof {
        assert(r@ =~= seq![spec_digit_char(d as int)]);
    }
    r
}

/// Appends the decimal digits of `n` to `out`.
fn push_digits(n: u64, out: &mut String)
    ensures
        final(out)@ == old(out)@ + spec_nat_chars(n as int),
    decreases n,
{
    if n >= 10 {
        push_digits(n / 10, out);
        out.append(digit_str((n % 10) as u8));
        proof {
            assert(out@ =~= old(out)@ + spec_nat_chars(n as int));
        }
    } else {
        out.append(digit_str(n as u8));
        proof {
            assert(out@ =~= old(out)@ + spec_nat_chars(n as int));
        }
    }
}

/// Decimal rendering of the year, minus sign included when negative.
fn year_string(y: i32) -> (r: String)
    ensures
        r@ == spec_int_chars(y as int),
{
    if y < 0 {
        let mag: u64 = (-(y as i64)) as u64;
        let mut out: String = "-".to_owned();
        proof {
            reveal_strlit("-");
            assert(out@ =~= seq!['-']);
        }
        push_digits(mag, &mut out);
        proof {
            assert(out@ =~= spec_int_chars(y as int));
        }
        out
    } else {
        let mut out = String::new();
        push_digits(y as u64, &mut out);
        proof {
            assert(out@ =~= spec_int_chars(y as int));
        }
        out
    }
}

/// Decimal rendering of the day of year.
fn day_string(d: u32) -> (r: String)
    ensures
        r@ == spec_nat_chars(d as int),
{
    let mut out = String::new();
    push_digits(d as u64, &mut out);
    proof {
        assert(out@ =~= spec_nat_chars(d as int));
    }
    out
}

/// The day fraction in decimal notation, before zero-stripping.
fn fraction_string(micros: u64) -> (r: String)
    requires
        micros < MICROS_PER_DAY,
    ensures
        r@ == spec_fraction_chars(micros as int),
{
    if micros == 0 {
        let r: String = "0".to_owned();
        proof {
            reveal_strlit("0");
            assert(r@ =~= spec_fraction_chars(0));
        }
        return r;
    }
    let mut out: String = "0.".to_owned();
    proof {
        reveal_strlit("0.");
        assert(out@ =~= seq!['0', '.']);
    }
    let mut rem: u64 = micros;
    let mut fuel: u64 = FRAC_DIGIT_CAP;
    while rem > 0 && fuel > 0
        invariant
            rem < MICROS_PER_DAY,
            out@ + spec_frac_digits(rem as int, fuel as nat) == seq!['0', '.']
                + spec_frac_digits(micros as int, FRAC_DIGIT_CAP as nat),
        decreases fuel,
    {
        let prod: u64 = rem * 10;
        let digit: u64 = prod / MICROS_PER_DAY;
        let new_rem: u64 = prod % MICROS_PER_DAY;
        proof {
            lemma_fundamental_div_mod(prod as int, MICROS_PER_DAY as int);
            assert(digit < 10);
            assert(spec_frac_digits(rem as int, fuel as nat) =~= seq![
                spec_digit_char(digit as int),
            ] + spec_frac_digits(new_rem as int, (fuel - 1) as nat));
        }
        let ghost out_before = out@;
        out.append(digit_str(digit as u8));
        proof {
            assert(out@ + spec_frac_digits(new_rem as int, (fuel - 1) as nat) =~= out_before
                + spec_frac_digits(rem as int, fuel as nat));
        }
        rem = new_rem;
        fuel = fuel - 1;
    }
    proof {
        assert(spec_frac_digits(rem as int, fuel as nat) =~= Seq::<char>::empty());
        assert(out@ =~= out@ + Seq::<char>::empty());
        assert(out@ =~= spec_fraction_chars(micros as int));
    }
    out
}

/// Stripping every leading `'0'` leaves the suffix that starts at the
/// first non-zero character.
proof fn lemma_trim_zeros_skip(s: Seq<char>, i: int)
    requires
        0 <= i <= s.len(),
        forall|j: int| 0 <= j < i ==> s[j] == '0',
        i < s.len() ==> s[i] != '0',
    ensures
        spec_trim_zeros(s) == s.skip(i),
    decreases i,
{
    if i == 0 {
        assert(s.skip(0) =~= s);
    } else {
        assert(s[0] == '0');
        lemma_trim_zeros_skip(s.skip(1), i - 1);
        assert(s.skip(1).skip(i - 1) =~= s.skip(i));
    }
}

/// Removes every leading `'0'` character.
fn trim_leading_zeros(s: &str) -> (r: String)
    ensures
        r@ == spec_trim_zeros(s@),
{
    let n = s.unicode_len();
    let mut i: usize = 0;
    while i < n && s.get_char(i) == '0'
        invariant
            i <= n,
            n == s@.len(),
            forall|j: int| 0 <= j < i ==> s@[j] == '0',
        decreases n - i,
    {
        i = i + 1;
    }
    let rest = s.substring_char(i, n);
    proof {
        lemma_trim_zeros_skip(s@, i as int);
        assert(rest@ =~= s@.skip(i as int));
    }
    rest.to_owned()
}

impl DecimalTime {
    /// Renders the value through a template: every `%Y` becomes the year,
    /// every `%d` the day of year (both decimal, unpadded), and every
    /// `%f` the day fraction, written as the decimal expansion of
    /// `day_micros / MICROS_PER_DAY` with all leading `'0'` characters
    /// stripped — noon gives `.5`, midnight the empty string. Any other
    /// text, `%` signs included, is copied through unchanged; no input
    /// is rejected.
    pub fn format(&self, fmt_str: &str) -> (r: String)
        requires
            self.wf(),
        ensures
            r@ == spec_format(*self, fmt_str@),
    {
        let ysub = year_string(self.year);
        let dsub = day_string(self.day_of_year);
        let frac = fraction_string(self.day_micros);
        let fsub = trim_leading_zeros(frac.as_str());
        let ghost y = ysub@;
        let ghost d = dsub@;
        let ghost f = fsub@;
        let ghost t = fmt_str@;
        let n = fmt_str.unicode_len();
        let mut out = String::new();
        let mut i: usize = 0;
        proof {
            assert(t.skip(0) =~= t);
            assert(out@ + spec_substitute(t, y, d, f) =~= spec_substitute(t, y, d, f));
        }
        while i < n
            invariant
                i <= n,
                n == t.len(),
                t == fmt_str@,
                y == ysub@,
                d == dsub@,
                f == fsub@,
                out@ + spec_substitute(t.skip(i as int), y, d, f) == spec_substitute(t, y, d, f),
            decreases n - i,
        {
            let ghost out_before = out@;
            let ghost rest = t.skip(i as int);
            let c = fmt_str.get_char(i);
            if c == '%' && i + 1 < n {
                let c2 = fmt_str.get_char(i + 1);
                proof {
                    assert(rest.len() >= 2);
                    assert(rest[0] == c);
                    assert(rest[1] == c2);
                    assert(rest.skip(2) =~= t.skip(i as int + 2));
                }
                if c2 == 'Y' {
                    out.append(ysub.as_str());
                    i = i + 2;
                    proof {
                        assert(out@ + spec_substitute(t.skip(i as int), y, d, f) =~= out_before
                            + spec_substitute(rest, y, d, f));
                    }
                } else if c2 == 'd' {
                    out.append(dsub.as_str());
                    i = i + 2;
                    proof {
                        assert(out@ + spec_substitute(t.skip(i as int), y, d, f) =~= out_before
                            + spec_substitute(rest, y, d, f));
                    }
                } else if c2 == 'f' {
                    out.append(fsub.as_str());
                    i = i + 2;
                    proof {
                        assert(out@ + spec_substitute(t.skip(i as int), y, d, f) =~= out_before
                            + spec_substitute(rest, y, d, f));
                    }
                } else {
                    let piece = fmt_str.substring_char(i, i + 1);
                    out.append(piece);
                    i = i + 1;
                    proof {
                        assert(rest.skip(1) =~= t.skip(i as int));
                        assert(piece@ =~= seq![rest[0]]);
                        assert(out@ + spec_substitute(t.skip(i as int), y, d, f) =~= out_before
                            + spec_substitute(rest, y, d, f));
                    }
                }
            } else {
                proof {
                    assert(rest.len() >= 1);
                    assert(rest[0] == c);
                    assert(rest.skip(1) =~= t.skip(i as int + 1));
                }
                let piece = fmt_str.substring_char(i, i + 1);
                out.append(piece);
                i = i + 1;
                proof {
                    assert(piece@ =~= seq![rest[0]]);
                    assert(out@ + spec_substitute(t.skip(i as int), y, d, f) =~= out_before
                        + spec_substitute(rest, y, d, f));
                }
            }
        }
        proof {
            assert(t.skip(n as int) =~= Seq::<char>::empty());
            assert(out@ =~= out@ + Seq::<char>::empty());
        }
        out
    }
}

} // verus!

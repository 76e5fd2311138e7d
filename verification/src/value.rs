//! Values as a netlist writes them: a decimal number and a unit suffix.
//!
//! `4.7k`, `100n`, `1e-3`, `1.5meg`, `5V`, `1mA`, `100us`. The number is
//! read exactly; the suffix shifts its decimal exponent.
use vstd::prelude::*;
use crate::decimal::Decimal;
use crate::text::{chars_of, digit, digit_value, is_digit, is_letter, letter, lower, to_lower};

verus! {

/// Why a word is not a value.
#[derive(Clone, Copy, Debug, PartialEq, Eq, Structural)]
pub enum ValueError {
    /// The word does not begin with a number, or something other than
    /// letters follows the number.
    Malformed,
    /// The letters after the number are no suffix of the grammar in use.
    UnknownUnit,
    /// The digits do not fit into 64 bits, or the decimal exponent does not
    /// fit into 32.
    OutOfRange,
}

/// Which suffixes a value may carry.
#[derive(Clone, Copy, Debug, PartialEq, Eq, Structural)]
pub enum UnitKind {
    /// The scale factors `f p n u m k meg g t`, each followed by any letters
    /// of a unit, or the bare unit letters `v` and `a`.
    Value,
    /// The time units `fs ps ns us ms s`.
    Time,
    /// The units of a source on the command line: `v mv uv a ma ua na`.
    Source,
}

/// How many digits stand in `s` from place `i` on without a break.
pub open spec fn digit_run(s: Seq<char>, i: int) -> int
    decreases s.len() - i,
{
    if 0 <= i < s.len() && is_digit(s[i]) {
        1 + digit_run(s, i + 1)
    } else {
        0
    }
}

/// The number `v` with the digits of `s` written behind it.
pub open spec fn append_digits(v: nat, s: Seq<char>) -> nat
    decreases s.len(),
{
    if s.len() == 0 {
        v
    } else {
        append_digits(v, s.drop_last()) * 10 + digit_value(s.last())
    }
}

/// Whether the character is a sign.
pub open spec fn is_sign(c: char) -> bool {
    c == '+' || c == '-'
}

/// The parts of a number at the head of a word.
pub struct Literal {
    /// Whether a minus sign leads.
    pub negative: bool,
    /// The digits before the point.
    pub whole: Seq<char>,
    /// The digits after the point.
    pub fraction: Seq<char>,
    /// Whether the exponent has a minus sign.
    pub exponent_negative: bool,
    /// The digits of the exponent; none where the number has no exponent.
    pub exponent: Seq<char>,
    /// Where the number ends in the word.
    pub end: int,
}

/// The number at the head of `s`: an optional sign, digits with an optional
/// point among them, and an optional exponent `e` with its own sign and at
/// least one digit. At least one digit must stand before the exponent.
pub open spec fn read_literal(s: Seq<char>) -> Option<Literal> {
    let signed = s.len() > 0 && is_sign(s[0]);
    let start = if signed { 1int } else { 0int };
    let w = digit_run(s, start);
    let whole_end = start + w;
    let pointed = whole_end < s.len() && s[whole_end] == '.';
    let f = if pointed { digit_run(s, whole_end + 1) } else { 0 };
    let mantissa_end = if pointed { whole_end + 1 + f } else { whole_end };
    let marked = mantissa_end < s.len() && lower(s[mantissa_end]) == 'e';
    let exponent_signed = marked && mantissa_end + 1 < s.len() && is_sign(s[mantissa_end + 1]);
    let q = if exponent_signed { mantissa_end + 2 } else { mantissa_end + 1 };
    let x = if marked { digit_run(s, q) } else { 0 };
    if w + f == 0 {
        None
    } else {
        Some(
            Literal {
                negative: signed && s[0] == '-',
                whole: s.subrange(start, whole_end),
                fraction: if pointed { s.subrange(whole_end + 1, mantissa_end) } else { Seq::empty() },
                exponent_negative: x > 0 && exponent_signed && s[mantissa_end + 1] == '-',
                exponent: if x > 0 { s.subrange(q, q + x) } else { Seq::empty() },
                end: if x > 0 { q + x } else { mantissa_end },
            },
        )
    }
}

/// Whether every character of the word is an ASCII letter.
pub open spec fn all_letters(s: Seq<char>) -> bool {
    forall|i: int| 0 <= i < s.len() ==> is_letter(#[trigger] s[i])
}

/// The decimal exponent of a scale factor, by its first letter.
pub open spec fn scale_of_letter(c: char) -> Option<int> {
    if c == 'f' {
        Some(-15)
    } else if c == 'p' {
        Some(-12)
    } else if c == 'n' {
        Some(-9)
    } else if c == 'u' {
        Some(-6)
    } else if c == 'm' {
        Some(-3)
    } else if c == 'k' {
        Some(3)
    } else if c == 'g' {
        Some(9)
    } else if c == 't' {
        Some(12)
    } else {
        None
    }
}

/// The decimal exponent that a suffix in lower case stands for.
///
/// For values, `meg` is looked for before `m`; whatever letters follow a
/// scale factor name the unit and change nothing.
pub open spec fn scale_of(kind: UnitKind, suffix: Seq<char>) -> Option<int> {
    if suffix.len() == 0 {
        Some(0)
    } else {
        match kind {
            UnitKind::Value => {
                if suffix.len() >= 3 && suffix[0] == 'm' && suffix[1] == 'e' && suffix[2] == 'g' {
                    Some(6)
                } else if scale_of_letter(suffix[0]) is Some {
                    scale_of_letter(suffix[0])
                } else if suffix.len() == 1 && (suffix[0] == 'v' || suffix[0] == 'a') {
                    Some(0)
                } else {
                    None
                }
            },
            UnitKind::Time => {
                if suffix.len() == 1 && suffix[0] == 's' {
                    Some(0)
                } else if suffix.len() == 2 && suffix[1] == 's' && (suffix[0] == 'f' || suffix[0]
                    == 'p' || suffix[0] == 'n' || suffix[0] == 'u' || suffix[0] == 'm') {
                    scale_of_letter(suffix[0])
                } else {
                    None
                }
            },
            UnitKind::Source => {
                if suffix.len() == 1 && (suffix[0] == 'v' || suffix[0] == 'a') {
                    Some(0)
                } else if suffix.len() == 2 && (suffix[1] == 'v' || suffix[1] == 'a') && (suffix[0]
                    == 'm' || suffix[0] == 'u') {
                    scale_of_letter(suffix[0])
                } else if suffix.len() == 2 && suffix[1] == 'a' && suffix[0] == 'n' {
                    Some(-9)
                } else {
                    None
                }
            },
        }
    }
}

/// The suffix of a word whose number ends at `end`, in lower case.
pub open spec fn suffix_of(s: Seq<char>, end: int) -> Seq<char> {
    Seq::new((s.len() - end) as nat, |i: int| lower(s[end + i]))
}

/// The digits of the number, point removed.
pub open spec fn mantissa_of(l: Literal) -> nat {
    append_digits(append_digits(0, l.whole), l.fraction)
}

/// The decimal exponent of the number with the scale of its suffix.
pub open spec fn exponent_of(l: Literal, scale: int) -> int {
    (if l.exponent_negative {
        -(append_digits(0, l.exponent) as int)
    } else {
        append_digits(0, l.exponent) as int
    }) - l.fraction.len() + scale
}

/// What a word means as a value of the given kind.
pub open spec fn value_of(kind: UnitKind, s: Seq<char>) -> Result<Decimal, ValueError> {
    match read_literal(s) {
        None => Err(ValueError::Malformed),
        Some(l) => {
            if !all_letters(s.subrange(l.end, s.len() as int)) {
                Err(ValueError::Malformed)
            } else {
                match scale_of(kind, suffix_of(s, l.end)) {
                    None => Err(ValueError::UnknownUnit),
                    Some(scale) => {
                        if mantissa_of(l) > u64::MAX || exponent_of(l, scale) < i32::MIN
                            || exponent_of(l, scale) > i32::MAX {
                            Err(ValueError::OutOfRange)
                        } else {
                            Ok(
                                Decimal {
                                    negative: l.negative,
                                    mantissa: mantissa_of(l) as u64,
                                    exponent: exponent_of(l, scale) as i32,
                                },
                            )
                        }
                    },
                }
            }
        },
    }
}

/// Appending digits never makes a number smaller.
pub proof fn lemma_append_digits_grows(v: nat, s: Seq<char>, k: int)
    requires
        0 <= k <= s.len(),
    ensures
        append_digits(v, s.take(k)) <= append_digits(v, s),
    decreases s.len(),
{
    if k < s.len() {
        lemma_append_digits_grows(v, s.drop_last(), k);
        assert(s.drop_last().take(k) =~= s.take(k));
    } else {
        assert(s.take(k) =~= s);
    }
}

/// The end of the run of digits that starts at `from`.
fn skip_digits(s: &[char], from: usize) -> (to: usize)
    requires
        from <= s@.len(),
    ensures
        to == from + digit_run(s@, from as int),
        from <= to <= s@.len(),
{
    let mut j = from;
    while j < s.len() && digit(s[j])
        invariant
            from <= j <= s@.len(),
            digit_run(s@, from as int) == (j - from) + digit_run(s@, j as int),
        decreases s@.len() - j,
    {
        j += 1;
    }
    j
}

/// `v` with the digits `s[from..to]` written behind it, or `cap` where that
/// number is not below `cap`.
fn append_capped(v: u128, s: &[char], from: usize, to: usize, cap: u128) -> (r: u128)
    requires
        from <= to <= s@.len(),
        v <= cap,
        cap <= 0x1_0000_0000_0000_0000_0000_0000_0000,
        forall|i: int| from <= i < to ==> is_digit(#[trigger] s@[i]),
    ensures
        r == (if append_digits(v as nat, s@.subrange(from as int, to as int)) < cap {
            append_digits(v as nat, s@.subrange(from as int, to as int))
        } else {
            cap as nat
        }),
{
    let mut acc = v;
    let mut i = from;
    let ghost digits = s@.subrange(from as int, to as int);
    assert(digits.take(0) =~= Seq::<char>::empty());
    while i < to
        invariant
            from <= i <= to <= s@.len(),
            cap <= 0x1_0000_0000_0000_0000_0000_0000_0000,
            digits == s@.subrange(from as int, to as int),
            forall|k: int| from <= k < to ==> is_digit(#[trigger] s@[k]),
            acc == (if append_digits(v as nat, digits.take(i - from)) < cap {
                append_digits(v as nat, digits.take(i - from))
            } else {
                cap as nat
            }),
        decreases to - i,
    {
        let d = (s[i] as u8 - 48) as u128;
        proof {
            let next = digits.take(i - from + 1);
            assert(next.drop_last() =~= digits.take(i - from));
            assert(next.last() == s@[i as int]);
        }
        acc = if acc >= cap {
            cap
        } else {
            let sum = acc * 10 + d;
            if sum >= cap {
                cap
            } else {
                sum
            }
        };
        i += 1;
    }
    assert(digits.take(to - from) =~= digits);
    acc
}

/// Whether every character from `from` on is an ASCII letter.
fn letters_from(s: &[char], from: usize) -> (r: bool)
    requires
        from <= s@.len(),
    ensures
        r == all_letters(s@.subrange(from as int, s@.len() as int)),
{
    let mut i = from;
    let ghost tail = s@.subrange(from as int, s@.len() as int);
    while i < s.len()
        invariant
            from <= i <= s@.len(),
            tail == s@.subrange(from as int, s@.len() as int),
            forall|k: int| 0 <= k < i - from ==> is_letter(#[trigger] tail[k]),
        decreases s@.len() - i,
    {
        if !letter(s[i]) {
            assert(!is_letter(tail[i - from]));
            return false;
        }
        i += 1;
    }
    true
}

fn letter_scale(c: char) -> (r: Option<i32>)
    ensures
        match r {
            Some(e) => scale_of_letter(c) == Some(e as int),
            None => scale_of_letter(c) is None,
        },
{
    if c == 'f' {
        Some(-15)
    } else if c == 'p' {
        Some(-12)
    } else if c == 'n' {
        Some(-9)
    } else if c == 'u' {
        Some(-6)
    } else if c == 'm' {
        Some(-3)
    } else if c == 'k' {
        Some(3)
    } else if c == 'g' {
        Some(9)
    } else if c == 't' {
        Some(12)
    } else {
        None
    }
}

/// The decimal exponent that the suffix from `from` on stands for.
fn suffix_scale(kind: UnitKind, s: &[char], from: usize) -> (r: Option<i32>)
    requires
        from <= s@.len(),
    ensures
        match r {
            Some(e) => scale_of(kind, suffix_of(s@, from as int)) == Some(e as int),
            None => scale_of(kind, suffix_of(s@, from as int)) is None,
        },
{
    let n = s.len() - from;
    if n == 0 {
        return Some(0);
    }
    let c0 = to_lower(s[from]);
    assert(suffix_of(s@, from as int)[0] == c0);
    match kind {
        UnitKind::Value => {
            if n >= 3 && c0 == 'm' && to_lower(s[from + 1]) == 'e' && to_lower(s[from + 2]) == 'g' {
                Some(6)
            } else {
                match letter_scale(c0) {
                    Some(e) => Some(e),
                    None => if n == 1 && (c0 == 'v' || c0 == 'a') {
                        Some(0)
                    } else {
                        None
                    },
                }
            }
        },
        UnitKind::Time => {
            if n == 1 && c0 == 's' {
                Some(0)
            } else if n == 2 && to_lower(s[from + 1]) == 's' && (c0 == 'f' || c0 == 'p' || c0 == 'n'
                || c0 == 'u' || c0 == 'm') {
                letter_scale(c0)
            } else {
                None
            }
        },
        UnitKind::Source => {
            if n == 1 && (c0 == 'v' || c0 == 'a') {
                Some(0)
            } else if n == 2 && (to_lower(s[from + 1]) == 'v' || to_lower(s[from + 1]) == 'a') && (c0
                == 'm' || c0 == 'u') {
                letter_scale(c0)
            } else if n == 2 && to_lower(s[from + 1]) == 'a' && c0 == 'n' {
                Some(-9)
            } else {
                None
            }
        },
    }
}

/// Where the parts of a number stand in a word.
struct Marks {
    negative: bool,
    whole_from: usize,
    whole_to: usize,
    fraction_from: usize,
    fraction_to: usize,
    exponent_negative: bool,
    exponent_from: usize,
    exponent_to: usize,
    end: usize,
}

impl Marks {
    /// Whether the marks are those of the literal `l` in the word `s`.
    spec fn marks(self, s: Seq<char>, l: Literal) -> bool {
        &&& self.whole_from <= self.whole_to <= s.len()
        &&& self.fraction_from <= self.fraction_to <= s.len()
        &&& self.exponent_from <= self.exponent_to <= s.len()
        &&& self.end <= s.len()
        &&& l.negative == self.negative
        &&& l.exponent_negative == self.exponent_negative
        &&& l.end == self.end
        &&& l.whole == s.subrange(self.whole_from as int, self.whole_to as int)
        &&& l.fraction == s.subrange(self.fraction_from as int, self.fraction_to as int)
        &&& l.exponent == s.subrange(self.exponent_from as int, self.exponent_to as int)
        &&& forall|k: int| self.whole_from <= k < self.whole_to ==> is_digit(#[trigger] s[k])
        &&& forall|k: int| self.fraction_from <= k < self.fraction_to ==> is_digit(#[trigger] s[k])
        &&& forall|k: int| self.exponent_from <= k < self.exponent_to ==> is_digit(#[trigger] s[k])
    }
}

/// Finds the number at the head of a word.
fn find_literal(s: &[char]) -> (r: Option<Marks>)
    ensures
        match r {
            Some(m) => read_literal(s@) matches Some(l) && m.marks(s@, l),
            None => read_literal(s@) is None,
        },
{
    let n = s.len();
    let signed = n > 0 && (s[0] == '+' || s[0] == '-');
    let negative = signed && s[0] == '-';
    let start: usize = if signed { 1 } else { 0 };
    let whole_end = skip_digits(s, start);
    let pointed = whole_end < n && s[whole_end] == '.';
    let fraction_from = if pointed { whole_end + 1 } else { whole_end };
    let mantissa_end = if pointed { skip_digits(s, whole_end + 1) } else { whole_end };
    if whole_end - start + (mantissa_end - fraction_from) == 0 {
        return None;
    }
    let marked = mantissa_end < n && to_lower(s[mantissa_end]) == 'e';
    let exponent_signed = marked && mantissa_end + 1 < n && (s[mantissa_end + 1] == '+'
        || s[mantissa_end + 1] == '-');
    let q: usize = if exponent_signed {
        mantissa_end + 2
    } else if marked {
        mantissa_end + 1
    } else {
        mantissa_end
    };
    let q_end = if marked { skip_digits(s, q) } else { q };
    let has_exponent = q_end > q;
    proof {
        lemma_digit_run_digits(s@, start as int);
        if pointed {
            lemma_digit_run_digits(s@, whole_end + 1);
        }
        if marked {
            lemma_digit_run_digits(s@, q as int);
        }
        let l = read_literal(s@).unwrap();
        assert(l.fraction =~= s@.subrange(fraction_from as int, mantissa_end as int));
        assert(l.exponent =~= s@.subrange(q as int, q_end as int));
    }
    Some(
        Marks {
            negative,
            whole_from: start,
            whole_to: whole_end,
            fraction_from,
            fraction_to: mantissa_end,
            exponent_negative: has_exponent && exponent_signed && s[mantissa_end + 1] == '-',
            exponent_from: q,
            exponent_to: q_end,
            end: if has_exponent { q_end } else { mantissa_end },
        },
    )
}

/// Reads a word as a value of the given kind.
pub fn read_value(kind: UnitKind, s: &[char]) -> (r: Result<Decimal, ValueError>)
    ensures
        r == value_of(kind, s@),
{
    let m = match find_literal(s) {
        Some(m) => m,
        None => {
            return Err(ValueError::Malformed);
        },
    };
    let ghost l = read_literal(s@).unwrap();
    if !letters_from(s, m.end) {
        return Err(ValueError::Malformed);
    }
    let scale = match suffix_scale(kind, s, m.end) {
        Some(e) => e,
        None => {
            return Err(ValueError::UnknownUnit);
        },
    };
    let limit: u128 = 0x1_0000_0000_0000_0000;
    let whole = append_capped(0, s, m.whole_from, m.whole_to, limit);
    let mantissa = append_capped(whole, s, m.fraction_from, m.fraction_to, limit);
    proof {
        lemma_append_capped(0, l.whole, l.fraction, limit as nat);
    }
    let exponent_limit: u128 = 0x1_0000_0000_0000_0000_0000;
    let written = append_capped(0, s, m.exponent_from, m.exponent_to, exponent_limit);
    if mantissa >= limit || written >= exponent_limit {
        return Err(ValueError::OutOfRange);
    }
    let magnitude = written as i128;
    let exponent: i128 = (if m.exponent_negative { -magnitude } else { magnitude }) - ((
    m.fraction_to - m.fraction_from) as i128) + (scale as i128);
    if exponent < i32::MIN as i128 || exponent > i32::MAX as i128 {
        return Err(ValueError::OutOfRange);
    }
    Ok(Decimal { negative: m.negative, mantissa: mantissa as u64, exponent: exponent as i32 })
}

/// A run of digits consists of digits.
pub proof fn lemma_digit_run_digits(s: Seq<char>, i: int)
    requires
        0 <= i <= s.len(),
    ensures
        i + digit_run(s, i) <= s.len(),
        forall|k: int| i <= k < i + digit_run(s, i) ==> is_digit(#[trigger] s[k]),
    decreases s.len() - i,
{
    if i < s.len() && is_digit(s[i]) {
        lemma_digit_run_digits(s, i + 1);
    }
}

/// Capping after the first group of digits and again after the second is
/// capping once at the end.
pub proof fn lemma_append_capped(v: nat, a: Seq<char>, b: Seq<char>, cap: nat)
    ensures
        append_digits(v, a) >= cap ==> append_digits(append_digits(v, a), b) >= cap,
        append_digits(v, a) >= cap ==> append_digits(cap, b) >= cap,
{
    lemma_append_digits_grows(append_digits(v, a), b, 0);
    assert(b.take(0) =~= Seq::<char>::empty());
    lemma_append_digits_grows(cap, b, 0);
}

/// Reads a component value: a number with a scale factor of
/// `f p n u m k meg g t`, or with the bare unit `v` or `a`.
pub fn parse_value_with_unit(text: &str) -> (r: Result<Decimal, ValueError>)
    ensures
        r == value_of(UnitKind::Value, text@),
{
    let word = chars_of(text);
    read_value(UnitKind::Value, word.as_slice())
}

/// Reads a time: a number with one of the units `fs ps ns us ms s`, or bare.
pub fn parse_time_with_unit(text: &str) -> (r: Result<Decimal, ValueError>)
    ensures
        r == value_of(UnitKind::Time, text@),
{
    let word = chars_of(text);
    read_value(UnitKind::Time, word.as_slice())
}

/// Whether `suffix` is one of the scale factors of component values, or no
/// suffix at all, and `exponent` the power of ten that it stands for.
pub open spec fn is_scale_factor(suffix: Seq<char>, exponent: int) -> bool {
    ||| suffix == Seq::<char>::empty() && exponent == 0
    ||| suffix == seq!['f'] && exponent == -15
    ||| suffix == seq!['p'] && exponent == -12
    ||| suffix == seq!['n'] && exponent == -9
    ||| suffix == seq!['u'] && exponent == -6
    ||| suffix == seq!['m'] && exponent == -3
    ||| suffix == seq!['k'] && exponent == 3
    ||| suffix == seq!['m', 'e', 'g'] && exponent == 6
    ||| suffix == seq!['g'] && exponent == 9
    ||| suffix == seq!['t'] && exponent == 12
}

/// The digit one with a scale factor behind it is read as one times the
/// power of ten of the scale factor. In particular `1meg` is a million and
/// not a thousandth with letters behind it.
pub proof fn lemma_scale_factors_read_back(suffix: Seq<char>, exponent: int)
    requires
        is_scale_factor(suffix, exponent),
    ensures
        value_of(UnitKind::Value, seq!['1'] + suffix) == Ok::<Decimal, ValueError>(
            Decimal { negative: false, mantissa: 1, exponent: exponent as i32 },
        ),
{
    let s = seq!['1'] + suffix;
    assert(s[0] == '1');
    assert(s.len() == 1 + suffix.len());
    assert(forall|i: int| 0 <= i < suffix.len() ==> s[i + 1] == suffix[i]);
    if suffix.len() > 0 {
        assert(s[1] == suffix[0]);
        assert(!is_digit(s[1]));
    }
    assert(digit_run(s, 1) == 0);
    assert(digit_run(s, 0) == 1) by {
        reveal_with_fuel(digit_run, 2);
    }
    let l = read_literal(s).unwrap();
    assert(l.end == 1);
    assert(l.whole =~= seq!['1']);
    assert(l.fraction =~= Seq::<char>::empty());
    assert(l.exponent =~= Seq::<char>::empty());
    assert(!l.negative && !l.exponent_negative);
    assert(append_digits(0, seq!['1']) == 1) by {
        reveal_with_fuel(append_digits, 2);
        assert(seq!['1'].drop_last() =~= Seq::<char>::empty());
    }
    assert(mantissa_of(l) == 1);
    assert(exponent_of(l, exponent) == exponent);
    assert(s.subrange(1, s.len() as int) =~= suffix);
    assert(all_letters(suffix));
    assert(suffix_of(s, 1) =~= suffix);
    assert(scale_of(UnitKind::Value, suffix) == Some(exponent));
}

} // verus!

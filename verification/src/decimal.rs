//! Exact decimal quantities.
//!
//! Every value that a netlist can write down (`1k`, `4.7u`, `100e-6`) is a
//! whole number of some power of ten. A [`Decimal`] keeps that number exactly,
//! as a sign, a mantissa and a decimal exponent, so that the rules of the
//! simulator (is a resistance positive? how many time steps fit into the
//! stop time?) are decided without rounding.
use vstd::prelude::*;

verus! {

/// Ten to the power `n`.
pub open spec fn pow10(n: nat) -> nat
    decreases n,
{
    if n == 0 {
        1
    } else {
        10 * pow10((n - 1) as nat)
    }
}

/// Powers of ten are at least one.
pub proof fn lemma_pow10_positive(n: nat)
    ensures
        pow10(n) >= 1,
    decreases n,
{
    if n > 0 {
        lemma_pow10_positive((n - 1) as nat);
    }
}

/// Powers of ten grow with the exponent.
pub proof fn lemma_pow10_monotonic(a: nat, b: nat)
    requires
        a <= b,
    ensures
        pow10(a) <= pow10(b),
    decreases b,
{
    if a < b {
        lemma_pow10_monotonic(a, (b - 1) as nat);
        lemma_pow10_positive((b - 1) as nat);
    }
}

/// The number `(-1)^negative · mantissa · 10^exponent`.
#[derive(Clone, Copy, Debug, PartialEq, Eq, Structural)]
pub struct Decimal {
    pub negative: bool,
    pub mantissa: u64,
    pub exponent: i32,
}

/// The smaller of two exponents, as a mathematical integer.
pub open spec fn lower_exponent(a: Decimal, b: Decimal) -> int {
    if a.exponent <= b.exponent {
        a.exponent as int
    } else {
        b.exponent as int
    }
}

impl Decimal {
    /// The mantissa with its sign.
    pub open spec fn signed(self) -> int {
        if self.negative {
            -(self.mantissa as int)
        } else {
            self.mantissa as int
        }
    }

    /// The value counted in units of `10^unit`. It is a whole number for
    /// every `unit` that is not above the exponent.
    pub open spec fn in_units(self, unit: int) -> int
        recommends
            unit <= self.exponent,
    {
        self.signed() * pow10((self.exponent - unit) as nat)
    }

    /// The absolute value counted in units of `10^unit`.
    pub open spec fn magnitude_in_units(self, unit: int) -> nat
        recommends
            unit <= self.exponent,
    {
        self.mantissa as nat * pow10((self.exponent - unit) as nat)
    }

    /// Whether the value is greater than zero.
    pub open spec fn positive(self) -> bool {
        !self.negative && self.mantissa > 0
    }

    /// Whether the value lies strictly below that of `other`.
    pub open spec fn below(self, other: Decimal) -> bool {
        self.in_units(lower_exponent(self, other)) < other.in_units(lower_exponent(self, other))
    }

    /// The whole number `n`.
    pub fn from_integer(n: u64) -> (r: Decimal)
        ensures
            r == (Decimal { negative: false, mantissa: n, exponent: 0 }),
    {
        Decimal { negative: false, mantissa: n, exponent: 0 }
    }

    /// Zero.
    pub fn zero() -> (r: Decimal)
        ensures
            r == (Decimal { negative: false, mantissa: 0, exponent: 0 }),
    {
        Decimal { negative: false, mantissa: 0, exponent: 0 }
    }

    /// `true` exactly for values greater than zero.
    pub fn is_positive(&self) -> (r: bool)
        ensures
            r == self.positive(),
    {
        !self.negative && self.mantissa > 0
    }

    /// `true` exactly for the values equal to zero.
    pub fn is_zero(&self) -> (r: bool)
        ensures
            r == (self.mantissa == 0),
    {
        self.mantissa == 0
    }

    /// The value with the opposite sign.
    pub fn negated(&self) -> (r: Decimal)
        ensures
            r == (Decimal { negative: !self.negative, mantissa: self.mantissa, exponent: self.exponent }),
    {
        Decimal { negative: !self.negative, mantissa: self.mantissa, exponent: self.exponent }
    }
}

/// `m · 10^d`, or `None` when that exceeds 128 bits.
pub fn scale_up(m: u64, d: u64) -> (r: Option<u128>)
    ensures
        match r {
            Some(v) => v == m * pow10(d as nat),
            None => m * pow10(d as nat) > u128::MAX,
        },
{
    if m == 0 {
        return Some(0);
    }
    let mut acc: u128 = m as u128;
    let mut i: u64 = 0;
    proof {
        lemma_scale_by_one(m as nat);
    }
    while i < d
        invariant
            i <= d,
            m > 0,
            acc == m * pow10(i as nat),
        decreases d - i,
    {
        match acc.checked_mul(10) {
            Some(v) => {
                assert(m * pow10((i + 1) as nat) == (m * pow10(i as nat)) * 10) by (nonlinear_arith)
                    requires
                        pow10((i + 1) as nat) == 10 * pow10(i as nat),
                ;
                acc = v;
            },
            None => {
                proof {
                    lemma_pow10_monotonic((i + 1) as nat, d as nat);
                    assert(m * pow10(d as nat) >= (m * pow10(i as nat)) * 10) by (nonlinear_arith)
                        requires
                            pow10((i + 1) as nat) == 10 * pow10(i as nat),
                            pow10((i + 1) as nat) <= pow10(d as nat),
                            m > 0,
                    ;
                }
                return None;
            },
        }
        i += 1;
    }
    Some(acc)
}

/// The distance from the lower of two exponents up to `e`.
fn exponent_gap(e: i32, other: i32) -> (d: u64)
    ensures
        d == e - (if e <= other { e as int } else { other as int }),
{
    if e <= other {
        0
    } else {
        (e as i64 - other as i64) as u64
    }
}

/// Scaling by the zeroth power of ten changes nothing.
pub proof fn lemma_scale_by_one(m: nat)
    ensures
        m * pow10(0) == m,
{
    assert(m * pow10(0) == m) by (nonlinear_arith)
        requires
            pow10(0) == 1,
    ;
}

/// The value in units is the magnitude in units, with the sign.
pub proof fn lemma_in_units_signed(d: Decimal, unit: int)
    ensures
        d.in_units(unit) == (if d.negative {
            -(d.magnitude_in_units(unit) as int)
        } else {
            d.magnitude_in_units(unit) as int
        }),
{
    let p = pow10((d.exponent - unit) as nat) as int;
    let m = d.mantissa as int;
    assert((-m) * p == -(m * p)) by (nonlinear_arith);
}

/// How many whole times the magnitude of `b` fits into that of `a`.
pub open spec fn ratio_floor(a: Decimal, b: Decimal) -> nat
    recommends
        b.mantissa > 0,
{
    a.magnitude_in_units(lower_exponent(a, b)) / b.magnitude_in_units(lower_exponent(a, b))
}

/// The sum of two decimals, counted in units of their lower exponent.
pub open spec fn sum_in_units(a: Decimal, b: Decimal) -> int {
    a.in_units(lower_exponent(a, b)) + b.in_units(lower_exponent(a, b))
}

/// The difference of two decimals, counted in units of their lower exponent.
pub open spec fn difference_in_units(a: Decimal, b: Decimal) -> int {
    a.in_units(lower_exponent(a, b)) - b.in_units(lower_exponent(a, b))
}

impl Decimal {
    /// `⌊|self| / |divisor|⌋`. `None` when the divisor is zero or the quotient
    /// does not fit into 64 bits.
    pub fn floor_ratio(&self, divisor: &Decimal) -> (r: Option<u64>)
        ensures
            match r {
                Some(q) => divisor.mantissa > 0 && q == ratio_floor(*self, *divisor),
                None => divisor.mantissa == 0 || ratio_floor(*self, *divisor) > u64::MAX,
            },
    {
        if divisor.mantissa == 0 {
            return None;
        }
        let da = exponent_gap(self.exponent, divisor.exponent);
        let db = exponent_gap(divisor.exponent, self.exponent);
        let ghost lo = lower_exponent(*self, *divisor);
        let ghost na = self.magnitude_in_units(lo);
        let ghost nb = divisor.magnitude_in_units(lo);
        proof {
            lemma_pow10_positive(db as nat);
            assert(nb >= 1) by (nonlinear_arith)
                requires
                    nb == divisor.mantissa as nat * pow10(db as nat),
                    divisor.mantissa > 0,
                    pow10(db as nat) >= 1,
            ;
        }
        match scale_up(divisor.mantissa, db) {
            None => {
                proof {
                    lemma_scale_by_one(divisor.mantissa as nat);
                    lemma_scale_by_one(self.mantissa as nat);
                }
                assert(da == 0);
                assert(na / nb == 0) by (nonlinear_arith)
                    requires
                        na < nb,
                ;
                Some(0)
            },
            Some(mb) => match scale_up(self.mantissa, da) {
                None => {
                    proof {
                        lemma_scale_by_one(divisor.mantissa as nat);
                        lemma_scale_by_one(self.mantissa as nat);
                    }
                    assert(db == 0);
                    assert(na / nb > u64::MAX) by (nonlinear_arith)
                        requires
                            na > u128::MAX,
                            0 < nb <= u64::MAX,
                    ;
                    None
                },
                Some(ma) => {
                    let q = ma / mb;
                    if q > u64::MAX as u128 {
                        None
                    } else {
                        Some(q as u64)
                    }
                },
            },
        }
    }

    /// The exact sum. `None` when its mantissa, taken at the lower of the two
    /// exponents, does not fit into 64 bits.
    pub fn plus(&self, other: &Decimal) -> (r: Option<Decimal>)
        ensures
            match r {
                Some(s) => {
                    &&& s.exponent == lower_exponent(*self, *other)
                    &&& s.signed() == sum_in_units(*self, *other)
                    &&& s.negative == (sum_in_units(*self, *other) < 0)
                },
                None => sum_in_units(*self, *other) > u64::MAX || sum_in_units(*self, *other)
                    < -(u64::MAX as int),
            },
    {
        let da = exponent_gap(self.exponent, other.exponent);
        let db = exponent_gap(other.exponent, self.exponent);
        let e = if self.exponent <= other.exponent {
            self.exponent
        } else {
            other.exponent
        };
        let ghost lo = lower_exponent(*self, *other);
        let ghost na = self.magnitude_in_units(lo);
        let ghost nb = other.magnitude_in_units(lo);
        proof {
            lemma_in_units_signed(*self, lo);
            lemma_in_units_signed(*other, lo);
            if da == 0 {
                lemma_scale_by_one(self.mantissa as nat);
            }
            if db == 0 {
                lemma_scale_by_one(other.mantissa as nat);
            }
        }
        let ma = match scale_up(self.mantissa, da) {
            Some(v) => v,
            None => {
                return None;
            },
        };
        let mb = match scale_up(other.mantissa, db) {
            Some(v) => v,
            None => {
                return None;
            },
        };
        let (negative, magnitude): (bool, u128) = if self.negative == other.negative {
            match ma.checked_add(mb) {
                Some(v) => (self.negative && v > 0, v),
                None => {
                    return None;
                },
            }
        } else if ma >= mb {
            (self.negative && ma > mb, ma - mb)
        } else {
            (other.negative, mb - ma)
        };
        if magnitude > u64::MAX as u128 {
            None
        } else {
            Some(Decimal { negative, mantissa: magnitude as u64, exponent: e })
        }
    }

    /// The exact difference `self − other`. `None` when its mantissa, taken at
    /// the lower of the two exponents, does not fit into 64 bits.
    pub fn minus(&self, other: &Decimal) -> (r: Option<Decimal>)
        ensures
            match r {
                Some(s) => {
                    &&& s.exponent == lower_exponent(*self, *other)
                    &&& s.signed() == difference_in_units(*self, *other)
                    &&& s.negative == (difference_in_units(*self, *other) < 0)
                },
                None => difference_in_units(*self, *other) > u64::MAX || difference_in_units(
                    *self,
                    *other,
                ) < -(u64::MAX as int),
            },
    {
        let n = other.negated();
        proof {
            let lo = lower_exponent(*self, *other);
            lemma_in_units_signed(*other, lo);
            lemma_in_units_signed(n, lo);
        }
        self.plus(&n)
    }

    /// The exact product with a whole number. `None` when the mantissa of the
    /// product does not fit into 64 bits.
    pub fn times(&self, k: u64) -> (r: Option<Decimal>)
        ensures
            match r {
                Some(p) => {
                    &&& p.exponent == self.exponent
                    &&& p.mantissa == self.mantissa * k
                    &&& p.negative == (self.negative && self.mantissa * k > 0)
                },
                None => self.mantissa * k > u64::MAX,
            },
    {
        match self.mantissa.checked_mul(k) {
            Some(m) => Some(
                Decimal { negative: self.negative && m > 0, mantissa: m, exponent: self.exponent },
            ),
            None => None,
        }
    }

    /// `true` exactly when the value of `self` lies strictly below that of `other`.
    pub fn less_than(&self, other: &Decimal) -> (r: bool)
        ensures
            r == self.below(*other),
    {
        let da = exponent_gap(self.exponent, other.exponent);
        let db = exponent_gap(other.exponent, self.exponent);
        let ghost lo = lower_exponent(*self, *other);
        let ghost na = self.magnitude_in_units(lo);
        let ghost nb = other.magnitude_in_units(lo);
        proof {
            lemma_in_units_signed(*self, lo);
            lemma_in_units_signed(*other, lo);
            if da == 0 {
                lemma_scale_by_one(self.mantissa as nat);
            }
            if db == 0 {
                lemma_scale_by_one(other.mantissa as nat);
            }
        }
        match (scale_up(self.mantissa, da), scale_up(other.mantissa, db)) {
            (Some(ma), Some(mb)) => {
                if self.negative {
                    if other.negative {
                        ma > mb
                    } else {
                        ma > 0 || mb > 0
                    }
                } else {
                    if other.negative {
                        false
                    } else {
                        ma < mb
                    }
                }
            },
            (None, _) => self.negative,
            (Some(_), None) => !other.negative,
        }
    }
}

} // verus!

use vstd::prelude::*;

verus! {

/// Prices strictly above this many units are sold; all others are bought.
pub const THRESHOLD: u64 = 50000;

/// Ten to the power `n`.
pub open spec fn pow10(n: nat) -> int
    decreases n,
{
    if n == 0 {
        1
    } else {
        10 * pow10((n - 1) as nat)
    }
}

/// An exact decimal number: `(-1)^negative * mantissa * 10^exponent`.
#[derive(Clone, Copy, Debug, PartialEq, Eq)]
pub struct Decimal {
    pub negative: bool,
    pub mantissa: u64,
    pub exponent: i64,
}

/// What the rule decides for a price.
#[derive(Clone, Copy, Debug, PartialEq, Eq)]
pub enum Action {
    Sell,
    Buy,
}

/// Whether the value of `d` is strictly greater than the non-negative integer `t`.
pub open spec fn exceeds(d: Decimal, t: int) -> bool {
    &&& !d.negative
    &&& if d.exponent >= 0 {
        d.mantissa * pow10(d.exponent as nat) > t
    } else {
        d.mantissa > t * pow10((-d.exponent) as nat)
    }
}

/// The rule: above the threshold sell, otherwise buy.
pub open spec fn rule(d: Decimal) -> Action {
    if exceeds(d, THRESHOLD as int) {
        Action::Sell
    } else {
        Action::Buy
    }
}

pub proof fn lemma_pow10_positive(n: nat)
    ensures
        pow10(n) >= 1,
    decreases n,
{
    if n > 0 {
        lemma_pow10_positive((n - 1) as nat);
    }
}

pub proof fn lemma_pow10_monotone(a: nat, b: nat)
    requires
        a <= b,
    ensures
        pow10(a) <= pow10(b),
    decreases b,
{
    if a < b {
        lemma_pow10_monotone(a, (b - 1) as nat);
        lemma_pow10_positive((b - 1) as nat);
    }
}

fn small_pow10(k: u32) -> (r: u128)
    requires
        k <= 14,
    ensures
        r == pow10(k as nat),
{
    proof {
        lemma_pow10_monotone(k as nat, 14);
        reveal_with_fuel(pow10, 15);
    }
    let mut r: u128 = 1;
    let mut i: u32 = 0;
    while i < k
        invariant
            i <= k <= 14,
            r == pow10(i as nat),
            pow10(k as nat) <= 100000000000000,
        decreases k - i,
    {
        proof {
            lemma_pow10_monotone((i + 1) as nat, k as nat);
        }
        r = r * 10;
        i = i + 1;
    }
    r
}

/// Chooses the action for a price: `Sell` when it is strictly above
/// `THRESHOLD`, `Buy` otherwise (the threshold itself buys).
pub fn evaluate(price: &Decimal) -> (r: Action)
    ensures
        r == rule(*price),
{
    if price.negative || price.mantissa == 0 {
        proof {
            if price.exponent >= 0 {
                lemma_pow10_positive(price.exponent as nat);
            } else {
                lemma_pow10_positive((-price.exponent) as nat);
            }
        }
        return Action::Buy;
    }
    let m = price.mantissa;
    if price.exponent >= 5 {
        proof {
            lemma_pow10_monotone(5, price.exponent as nat);
            reveal_with_fuel(pow10, 6);
            let p = pow10(price.exponent as nat);
            assert(m * p >= p) by (nonlinear_arith)
                requires
                    m >= 1,
                    p >= 0,
            ;
        }
        Action::Sell
    } else if price.exponent >= 0 {
        let p = small_pow10(price.exponent as u32);
        proof {
            lemma_pow10_monotone(price.exponent as nat, 4);
            reveal_with_fuel(pow10, 5);
            assert(m * p <= 18446744073709551615u128 * 10000) by (nonlinear_arith)
                requires
                    m <= 18446744073709551615u128,
                    p <= 10000,
            ;
        }
        if (m as u128) * p > THRESHOLD as u128 {
            Action::Sell
        } else {
            Action::Buy
        }
    } else if price.exponent <= -15 {
        proof {
            let k = (-price.exponent) as nat;
            lemma_pow10_monotone(15, k);
            reveal_with_fuel(pow10, 16);
            let p = pow10(k);
            assert(50000 * p >= 50000 * pow10(15)) by (nonlinear_arith)
                requires
                    p >= pow10(15),
            ;
        }
        Action::Buy
    } else {
        let p = small_pow10((-price.exponent) as u32);
        proof {
            lemma_pow10_monotone((-price.exponent) as nat, 14);
            reveal_with_fuel(pow10, 15);
        }
        if (m as u128) > (THRESHOLD as u128) * p {
            Action::Sell
        } else {
            Action::Buy
        }
    }
}

} // verus!

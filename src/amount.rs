use vstd::prelude::*;

verus! {

/// Ten to the power `d`.
pub open spec fn pow10(d: nat) -> nat
    decreases d,
{
    if d == 0 {
        1
    } else {
        10 * pow10((d - 1) as nat)
    }
}

pub proof fn lemma_pow10_positive(d: nat)
    ensures
        pow10(d) > 0,
    decreases d,
{
    if d > 0 {
        lemma_pow10_positive((d - 1) as nat);
    }
}

/// A raw on-chain integer together with the number of fractional digits it
/// implies: the amount it stands for is `raw / 10^decimals`.
#[derive(Clone, Copy, Debug, PartialEq, Eq)]
pub struct TokenAmount {
    pub raw: u128,
    pub decimals: u8,
}

impl TokenAmount {
    /// The amount as a fraction: numerator `raw`, denominator `10^decimals`.
    pub open spec fn numer(self) -> int {
        self.raw as int
    }

    pub open spec fn denom(self) -> int {
        pow10(self.decimals as nat) as int
    }

    pub fn new(raw: u128, decimals: u8) -> (r: TokenAmount)
        ensures
            r.raw == raw,
            r.decimals == decimals,
    {
        TokenAmount { raw, decimals }
    }

    pub fn is_zero(&self) -> (r: bool)
        ensures
            r == (self.raw == 0),
    {
        self.raw == 0
    }
}

/// Turning a raw reserve into its decimal amount and scaling that amount back
/// by `10^d`, truncating, gives the raw reserve again.
pub proof fn lemma_decimal_round_trip(raw: u128, d: u8)
    ensures
        ({
            let a = TokenAmount { raw, decimals: d };
            &&& a.denom() > 0
            &&& (a.numer() * pow10(d as nat)) / a.denom() == raw as int
        }),
{
    lemma_pow10_positive(d as nat);
    let p = pow10(d as nat) as int;
    assert((raw as int * p) / p == raw as int) by (nonlinear_arith)
        requires
            p > 0,
    ;
}

} // verus!

use vstd::prelude::*;
use crate::amount::{TokenAmount, pow10, lemma_pow10_positive};
use crate::reserves::{PoolReserves, FetchError};

verus! {

/// Which reserve slot of a pool a hop reads as its numerator.
#[derive(Clone, Copy, Debug, PartialEq, Eq)]
pub enum Side {
    Slot0,
    Slot1,
}

/// Which way round a caller wants a chain's price.
#[derive(Clone, Copy, Debug, PartialEq, Eq)]
pub enum Orientation {
    /// Units of the first asset of the chain per unit of the last one: the
    /// plain product of the hop rates.
    AssetPerReference,
    /// Units of the last asset per unit of the first one: the reciprocal.
    ReferencePerAsset,
}

/// One pool observation used as a link of a chain, with the decimal exponent
/// of each slot's token and the slot that faces the start of the chain.
#[derive(Clone, Copy, Debug, PartialEq, Eq)]
pub struct Hop {
    pub reserves: PoolReserves,
    pub decimals0: u8,
    pub decimals1: u8,
    pub numerator: Side,
}

/// Why a chain has no price.
#[derive(Clone, Copy, Debug, PartialEq, Eq)]
pub enum PriceError {
    /// The chain has no hop.
    ChainMismatch,
    /// The pool of this hop reported a zero reserve.
    ZeroReserve { hop: usize },
    /// The reserves of this hop could not be had.
    Fetch { hop: usize, cause: FetchError },
}

/// An exact price: the product of the amounts in `numer` over the product of
/// the amounts in `denom`.
#[derive(Clone, Debug)]
pub struct Price {
    pub numer: Vec<TokenAmount>,
    pub denom: Vec<TokenAmount>,
}

pub open spec fn slot_amount(h: Hop, side: Side) -> TokenAmount {
    match side {
        Side::Slot0 => TokenAmount { raw: h.reserves.reserve0, decimals: h.decimals0 },
        Side::Slot1 => TokenAmount { raw: h.reserves.reserve1, decimals: h.decimals1 },
    }
}

pub open spec fn other_side(side: Side) -> Side {
    match side {
        Side::Slot0 => Side::Slot1,
        Side::Slot1 => Side::Slot0,
    }
}

/// The amount a hop puts above the line.
pub open spec fn hop_numer(h: Hop) -> TokenAmount {
    slot_amount(h, h.numerator)
}

/// The amount a hop puts below the line.
pub open spec fn hop_denom(h: Hop) -> TokenAmount {
    slot_amount(h, other_side(h.numerator))
}

pub open spec fn hop_has_zero(h: Hop) -> bool {
    h.reserves.reserve0 == 0 || h.reserves.reserve1 == 0
}

/// The product of a sequence of integers.
pub open spec fn product(s: Seq<int>) -> int
    decreases s.len(),
{
    if s.len() == 0 {
        1
    } else {
        product(s.drop_last()) * s.last()
    }
}

/// The product of the raw integers of some amounts.
pub open spec fn raw_product(s: Seq<TokenAmount>) -> int {
    product(s.map_values(|a: TokenAmount| a.numer()))
}

/// The product of the powers of ten that scale some amounts.
pub open spec fn scale_product(s: Seq<TokenAmount>) -> int {
    product(s.map_values(|a: TokenAmount| a.denom()))
}

/// Numerator of the fraction `prod(n) / prod(d)` of decimal amounts.
pub open spec fn quotient_numer(n: Seq<TokenAmount>, d: Seq<TokenAmount>) -> int {
    raw_product(n) * scale_product(d)
}

/// Denominator of the fraction `prod(n) / prod(d)` of decimal amounts.
pub open spec fn quotient_denom(n: Seq<TokenAmount>, d: Seq<TokenAmount>) -> int {
    scale_product(n) * raw_product(d)
}

/// The amounts above the line of a chain's price.
pub open spec fn chain_numers(hops: Seq<Hop>, o: Orientation) -> Seq<TokenAmount> {
    match o {
        Orientation::AssetPerReference => hops.map_values(|h: Hop| hop_numer(h)),
        Orientation::ReferencePerAsset => hops.map_values(|h: Hop| hop_denom(h)),
    }
}

/// The amounts below the line of a chain's price.
pub open spec fn chain_denoms(hops: Seq<Hop>, o: Orientation) -> Seq<TokenAmount> {
    match o {
        Orientation::AssetPerReference => hops.map_values(|h: Hop| hop_denom(h)),
        Orientation::ReferencePerAsset => hops.map_values(|h: Hop| hop_numer(h)),
    }
}

/// The index of the first hop with a zero reserve, if `k` is one.
pub open spec fn first_zero_hop(hops: Seq<Hop>, k: int) -> bool {
    &&& 0 <= k < hops.len()
    &&& hop_has_zero(hops[k])
    &&& forall|j: int| 0 <= j < k ==> !hop_has_zero(#[trigger] hops[j])
}

/// `r` is what pricing the chain `hops` gives: no price for an empty chain,
/// the first hop with a zero reserve, or else the product of the hop rates.
pub open spec fn composed(hops: Seq<Hop>, o: Orientation, r: Result<Price, PriceError>) -> bool {
    match r {
        Ok(p) => {
            &&& hops.len() > 0
            &&& forall|j: int| 0 <= j < hops.len() ==> !hop_has_zero(#[trigger] hops[j])
            &&& p.numer@ == chain_numers(hops, o)
            &&& p.denom@ == chain_denoms(hops, o)
        },
        Err(PriceError::ChainMismatch) => hops.len() == 0,
        Err(PriceError::ZeroReserve { hop }) => first_zero_hop(hops, hop as int),
        Err(PriceError::Fetch { .. }) => false,
    }
}

impl Price {
    /// Numerator of the price as a fraction of integers.
    pub open spec fn value_numer(self) -> int {
        quotient_numer(self.numer@, self.denom@)
    }

    /// Denominator of the price as a fraction of integers.
    pub open spec fn value_denom(self) -> int {
        quotient_denom(self.numer@, self.denom@)
    }

    /// The price of one thing in another times the price of that other in a
    /// third.
    pub fn times(&self, other: &Price) -> (r: Price)
        ensures
            r.numer@ == self.numer@ + other.numer@,
            r.denom@ == self.denom@ + other.denom@,
            r.value_numer() == self.value_numer() * other.value_numer(),
            r.value_denom() == self.value_denom() * other.value_denom(),
    {
        let mut numer = self.numer.clone();
        let mut tail = other.numer.clone();
        numer.append(&mut tail);
        let mut denom = self.denom.clone();
        let mut tail = other.denom.clone();
        denom.append(&mut tail);
        proof {
            lemma_quotient_concat(self.numer@, self.denom@, other.numer@, other.denom@);
        }
        Price { numer, denom }
    }

    /// The same price the other way round.
    pub fn reciprocal(&self) -> (r: Price)
        ensures
            r.numer@ == self.denom@,
            r.denom@ == self.numer@,
            r.value_numer() == self.value_denom(),
            r.value_denom() == self.value_numer(),
    {
        proof {
            let (n, d) = (self.numer@, self.denom@);
            assert(raw_product(n) * scale_product(d) == scale_product(d) * raw_product(n)) by (nonlinear_arith);
            assert(scale_product(n) * raw_product(d) == raw_product(d) * scale_product(n)) by (nonlinear_arith);
        }
        Price { numer: self.denom.clone(), denom: self.numer.clone() }
    }
}

pub proof fn lemma_product_concat(s: Seq<int>, t: Seq<int>)
    ensures
        product(s + t) == product(s) * product(t),
    decreases t.len(),
{
    if t.len() == 0 {
        assert(s + t =~= s);
    } else {
        let t0 = t.drop_last();
        lemma_product_concat(s, t0);
        assert((s + t).drop_last() =~= s + t0);
        let (a, b, c) = (product(s), product(t0), t.last());
        assert(a * b * c == a * (b * c)) by (nonlinear_arith);
    }
}

pub proof fn lemma_product_positive(s: Seq<int>)
    requires
        forall|i: int| 0 <= i < s.len() ==> s[i] > 0,
    ensures
        product(s) > 0,
    decreases s.len(),
{
    if s.len() > 0 {
        lemma_product_positive(s.drop_last());
        let (a, b) = (product(s.drop_last()), s.last());
        assert(a * b > 0) by (nonlinear_arith)
            requires
                a > 0,
                b > 0,
        ;
    }
}

proof fn lemma_raw_scale_concat(s: Seq<TokenAmount>, t: Seq<TokenAmount>)
    ensures
        raw_product(s + t) == raw_product(s) * raw_product(t),
        scale_product(s + t) == scale_product(s) * scale_product(t),
{
    let f = |a: TokenAmount| a.numer();
    let g = |a: TokenAmount| a.denom();
    assert((s + t).map_values(f) =~= s.map_values(f) + t.map_values(f));
    assert((s + t).map_values(g) =~= s.map_values(g) + t.map_values(g));
    lemma_product_concat(s.map_values(f), t.map_values(f));
    lemma_product_concat(s.map_values(g), t.map_values(g));
}

pub proof fn lemma_quotient_concat(
    n1: Seq<TokenAmount>,
    d1: Seq<TokenAmount>,
    n2: Seq<TokenAmount>,
    d2: Seq<TokenAmount>,
)
    ensures
        quotient_numer(n1 + n2, d1 + d2) == quotient_numer(n1, d1) * quotient_numer(n2, d2),
        quotient_denom(n1 + n2, d1 + d2) == quotient_denom(n1, d1) * quotient_denom(n2, d2),
{
    lemma_raw_scale_concat(n1, n2);
    lemma_raw_scale_concat(d1, d2);
    let (a, b, c, d) = (raw_product(n1), raw_product(n2), scale_product(d1), scale_product(d2));
    assert(a * b * (c * d) == a * c * (b * d)) by (nonlinear_arith);
    let (a, b, c, d) = (scale_product(n1), scale_product(n2), raw_product(d1), raw_product(d2));
    assert(a * b * (c * d) == a * c * (b * d)) by (nonlinear_arith);
}

/// Amounts that are all non-zero give positive products.
proof fn lemma_nonzero_amounts(s: Seq<TokenAmount>)
    requires
        forall|i: int| 0 <= i < s.len() ==> s[i].raw != 0,
    ensures
        raw_product(s) > 0,
        scale_product(s) > 0,
{
    let f = |a: TokenAmount| a.numer();
    let g = |a: TokenAmount| a.denom();
    assert forall|i: int| 0 <= i < s.len() implies s.map_values(g)[i] > 0 by {
        lemma_pow10_positive(s[i].decimals as nat);
    }
    lemma_product_positive(s.map_values(f));
    lemma_product_positive(s.map_values(g));
}

impl Hop {
    /// The amount this hop puts above the line.
    pub fn numer_amount(&self) -> (r: TokenAmount)
        ensures
            r == hop_numer(*self),
    {
        match self.numerator {
            Side::Slot0 => TokenAmount::new(self.reserves.reserve0, self.decimals0),
            Side::Slot1 => TokenAmount::new(self.reserves.reserve1, self.decimals1),
        }
    }

    /// The amount this hop puts below the line.
    pub fn denom_amount(&self) -> (r: TokenAmount)
        ensures
            r == hop_denom(*self),
    {
        match self.numerator {
            Side::Slot0 => TokenAmount::new(self.reserves.reserve1, self.decimals1),
            Side::Slot1 => TokenAmount::new(self.reserves.reserve0, self.decimals0),
        }
    }
}

/// Folds a chain of hops into one price. Each hop's rate is its numerator
/// amount over its denominator amount, each amount its raw reserve over ten to
/// its token's decimals; the rates multiply into the price of the first asset
/// per unit of the last, or its reciprocal.
pub fn compose(hops: &Vec<Hop>, orientation: Orientation) -> (r: Result<Price, PriceError>)
    ensures
        composed(hops@, orientation, r),
        r matches Ok(p) ==> p.value_numer() > 0 && p.value_denom() > 0,
{
    if hops.len() == 0 {
        return Err(PriceError::ChainMismatch);
    }
    let mut above: Vec<TokenAmount> = Vec::new();
    let mut below: Vec<TokenAmount> = Vec::new();
    let mut i: usize = 0;
    while i < hops.len()
        invariant
            0 <= i <= hops@.len(),
            above@ == hops@.take(i as int).map_values(|h: Hop| hop_numer(h)),
            below@ == hops@.take(i as int).map_values(|h: Hop| hop_denom(h)),
            forall|j: int| 0 <= j < i ==> !hop_has_zero(#[trigger] hops@[j]),
        decreases hops@.len() - i,
    {
        let h = hops[i];
        if h.reserves.reserve0 == 0 || h.reserves.reserve1 == 0 {
            return Err(PriceError::ZeroReserve { hop: i });
        }
        above.push(h.numer_amount());
        below.push(h.denom_amount());
        proof {
            assert(hops@.take(i + 1) =~= hops@.take(i as int).push(hops@[i as int]));
        }
        i = i + 1;
    }
    proof {
        assert(hops@.take(i as int) =~= hops@);
        assert forall|j: int| 0 <= j < above@.len() implies above@[j].raw != 0 && below@[j].raw
            != 0 by {
            assert(!hop_has_zero(hops@[j]));
        }
        lemma_nonzero_amounts(above@);
        lemma_nonzero_amounts(below@);
        let (a, b, c, d) = (raw_product(above@), scale_product(above@), raw_product(below@), scale_product(below@));
        assert(a * d > 0 && b * c > 0 && c * b > 0 && d * a > 0) by (nonlinear_arith)
            requires
                a > 0,
                b > 0,
                c > 0,
                d > 0,
        ;
    }
    match orientation {
        Orientation::AssetPerReference => Ok(Price { numer: above, denom: below }),
        Orientation::ReferencePerAsset => Ok(Price { numer: below, denom: above }),
    }
}

} // verus!

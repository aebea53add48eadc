use vstd::prelude::*;
use crate::price::{Hop, Orientation, chain_numers, chain_denoms, quotient_numer, quotient_denom, lemma_quotient_concat};

verus! {

/// Splitting a chain in two, pricing each part and multiplying the two prices
/// gives the price of the whole chain: the same amounts, in the same order,
/// hence the same fraction.
pub proof fn law_chain_split(a: Seq<Hop>, b: Seq<Hop>, o: Orientation)
    ensures
        chain_numers(a + b, o) == chain_numers(a, o) + chain_numers(b, o),
        chain_denoms(a + b, o) == chain_denoms(a, o) + chain_denoms(b, o),
        quotient_numer(chain_numers(a + b, o), chain_denoms(a + b, o)) == quotient_numer(
            chain_numers(a, o),
            chain_denoms(a, o),
        ) * quotient_numer(chain_numers(b, o), chain_denoms(b, o)),
        quotient_denom(chain_numers(a + b, o), chain_denoms(a + b, o)) == quotient_denom(
            chain_numers(a, o),
            chain_denoms(a, o),
        ) * quotient_denom(chain_numers(b, o), chain_denoms(b, o)),
{
    assert(chain_numers(a + b, o) =~= chain_numers(a, o) + chain_numers(b, o));
    assert(chain_denoms(a + b, o) =~= chain_denoms(a, o) + chain_denoms(b, o));
    lemma_quotient_concat(chain_numers(a, o), chain_denoms(a, o), chain_numers(b, o), chain_denoms(b, o));
}

/// A chain's price of the first asset per unit of the last is the reciprocal
/// of its price of the last asset per unit of the first.
pub proof fn law_reciprocal(hops: Seq<Hop>)
    ensures
        ({
            let (na, da) = (
                chain_numers(hops, Orientation::AssetPerReference),
                chain_denoms(hops, Orientation::AssetPerReference),
            );
            let (nr, dr) = (
                chain_numers(hops, Orientation::ReferencePerAsset),
                chain_denoms(hops, Orientation::ReferencePerAsset),
            );
            &&& quotient_numer(na, da) == quotient_denom(nr, dr)
            &&& quotient_denom(na, da) == quotient_numer(nr, dr)
            &&& quotient_numer(na, da) * quotient_numer(nr, dr) == quotient_denom(na, da)
                * quotient_denom(nr, dr)
        }),
{
    let (na, da) = (
        chain_numers(hops, Orientation::AssetPerReference),
        chain_denoms(hops, Orientation::AssetPerReference),
    );
    let x = crate::price::raw_product(na);
    let y = crate::price::scale_product(da);
    let z = crate::price::scale_product(na);
    let w = crate::price::raw_product(da);
    assert(x * y == y * x && z * w == w * z) by (nonlinear_arith);
    assert(x * y * (w * z) == z * w * (y * x)) by (nonlinear_arith);
}

} // verus!

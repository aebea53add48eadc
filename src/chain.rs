use vstd::prelude::*;
use crate::price::{Hop, Orientation, Price, PriceError, Side, compose, composed};
use crate::reserves::{PoolReserves, FetchError};

verus! {

/// How to read a pool of a chain once it has answered: the decimal exponent
/// of each slot's token and the slot that faces the start of the chain.
#[derive(Clone, Copy, Debug, PartialEq, Eq)]
pub struct HopLayout {
    pub decimals0: u8,
    pub decimals1: u8,
    pub numerator: Side,
}

pub open spec fn hop_of(reserves: PoolReserves, layout: HopLayout) -> Hop {
    Hop {
        reserves,
        decimals0: layout.decimals0,
        decimals1: layout.decimals1,
        numerator: layout.numerator,
    }
}

/// The hop `k` of a chain is the first whose pool could not be read.
pub open spec fn first_failed(answers: Seq<Result<PoolReserves, FetchError>>, k: int) -> bool {
    &&& 0 <= k < answers.len()
    &&& answers[k] is Err
    &&& forall|j: int| 0 <= j < k ==> #[trigger] answers[j] is Ok
}

/// The hops of a chain whose pools all answered.
pub open spec fn answered_hops(
    answers: Seq<Result<PoolReserves, FetchError>>,
    layouts: Seq<HopLayout>,
) -> Seq<Hop> {
    Seq::new(answers.len(), |j: int| hop_of(answers[j]->Ok_0, layouts[j]))
}

/// Prices a chain from the answers of its pools, one per hop and in the order
/// of the chain. A chain with no hop, or whose answers and layouts differ in
/// number, has no price; else the first pool that could not be read is named
/// with its failure; else the answers are composed.
pub fn price_from_answers(
    answers: &Vec<Result<PoolReserves, FetchError>>,
    layouts: &Vec<HopLayout>,
    orientation: Orientation,
) -> (r: Result<Price, PriceError>)
    ensures
        answers@.len() != layouts@.len() || layouts@.len() == 0 ==> r == Err::<Price, PriceError>(
            PriceError::ChainMismatch,
        ),
        answers@.len() == layouts@.len() && layouts@.len() > 0 ==> {
            &&& forall|k: usize, c: FetchError|
                (r == Err::<Price, PriceError>(PriceError::Fetch { hop: k, cause: c })) <==> (
                first_failed(answers@, k as int) && answers@[k as int] == Err::<
                    PoolReserves,
                    FetchError,
                >(c))
            &&& (forall|j: int| 0 <= j < answers@.len() ==> #[trigger] answers@[j] is Ok) ==> composed(
                answered_hops(answers@, layouts@),
                orientation,
                r,
            )
        },
{
    if answers.len() != layouts.len() || layouts.len() == 0 {
        return Err(PriceError::ChainMismatch);
    }
    let mut hops: Vec<Hop> = Vec::new();
    let mut i: usize = 0;
    while i < answers.len()
        invariant
            0 <= i <= answers@.len(),
            answers@.len() == layouts@.len(),
            hops@ == answered_hops(answers@, layouts@).take(i as int),
            forall|j: int| 0 <= j < i ==> #[trigger] answers@[j] is Ok,
        decreases answers@.len() - i,
    {
        match answers[i] {
            Ok(reserves) => {
                let layout = layouts[i];
                hops.push(
                    Hop {
                        reserves,
                        decimals0: layout.decimals0,
                        decimals1: layout.decimals1,
                        numerator: layout.numerator,
                    },
                );
            },
            Err(cause) => {
                return Err(PriceError::Fetch { hop: i, cause });
            },
        }
        proof {
            assert(hops@ =~= answered_hops(answers@, layouts@).take(i + 1));
        }
        i = i + 1;
    }
    proof {
        assert(hops@ =~= answered_hops(answers@, layouts@));
    }
    compose(&hops, orientation)
}

} // verus!

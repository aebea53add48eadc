use pool_price::amount::TokenAmount;
use pool_price::chain::{price_from_answers, HopLayout};
use pool_price::price::{compose, Hop, Orientation, Price, PriceError, Side};
use pool_price::reserves::{decode_reserves, FetchError, PoolReserves};

fn amounts_value(s: &[TokenAmount]) -> f64 {
    let mut v = 1.0f64;
    for a in s {
        v *= a.raw as f64 / 10f64.powi(a.decimals as i32);
    }
    v
}

fn value(p: &Price) -> f64 {
    amounts_value(&p.numer) / amounts_value(&p.denom)
}

fn hop(r0: u128, r1: u128, d0: u8, d1: u8, numerator: Side) -> Hop {
    Hop {
        reserves: PoolReserves { reserve0: r0, reserve1: r1, observed_at: 0 },
        decimals0: d0,
        decimals1: d1,
        numerator,
    }
}

fn word(v: u128) -> Vec<u8> {
    let mut w = vec![0u8; 16];
    w.extend_from_slice(&v.to_be_bytes());
    w
}

fn close(a: f64, b: f64) -> bool {
    (a - b).abs() <= 1e-12 * b.abs().max(1.0)
}

#[test]
fn single_hop_ratio_is_exact() {
    let p = compose(&vec![hop(1000, 2000, 18, 18, Side::Slot0)], Orientation::AssetPerReference).unwrap();
    assert_eq!(p.numer, vec![TokenAmount::new(1000, 18)]);
    assert_eq!(p.denom, vec![TokenAmount::new(2000, 18)]);
    assert_eq!(value(&p), 0.5);
}

#[test]
fn slot_one_as_numerator() {
    let p = compose(&vec![hop(1000, 2000, 18, 6, Side::Slot1)], Orientation::AssetPerReference).unwrap();
    assert_eq!(p.numer, vec![TokenAmount::new(2000, 6)]);
    assert_eq!(p.denom, vec![TokenAmount::new(1000, 18)]);
    assert!(close(value(&p), 2e12));
}

#[test]
fn end_to_end_two_pools() {
    let e16: u128 = 10u128.pow(16);
    let e4: u128 = 10u128.pow(4);
    let pool1 = PoolReserves { reserve0: 5_000_000 * e16, reserve1: 1000 * e16, observed_at: 1 };
    let pool2 = PoolReserves { reserve0: 1000 * e16, reserve1: 2_000_000 * e4, observed_at: 2 };
    let layouts = vec![
        HopLayout { decimals0: 16, decimals1: 16, numerator: Side::Slot0 },
        HopLayout { decimals0: 16, decimals1: 4, numerator: Side::Slot0 },
    ];
    let p = price_from_answers(&vec![Ok(pool1), Ok(pool2)], &layouts, Orientation::ReferencePerAsset)
        .unwrap();
    // token/eth = 5000, eth/usdt = 0.0005, so usdt per token = 1 / 2.5
    assert_eq!(p.numer, vec![TokenAmount::new(1000 * e16, 16), TokenAmount::new(2_000_000 * e4, 4)]);
    assert_eq!(p.denom, vec![TokenAmount::new(5_000_000 * e16, 16), TokenAmount::new(1000 * e16, 16)]);
    assert!(close(value(&p), 0.4));
    let q = price_from_answers(&vec![Ok(pool1), Ok(pool2)], &layouts, Orientation::AssetPerReference)
        .unwrap();
    assert!(close(value(&q), 2.5));
}

#[test]
fn split_chain_multiplies_to_whole() {
    let ab = hop(300, 100, 18, 18, Side::Slot0);
    let bc = hop(50, 200, 18, 6, Side::Slot1);
    let cd = hop(7, 21, 8, 8, Side::Slot0);
    let o = Orientation::AssetPerReference;
    let first = compose(&vec![ab, bc], o).unwrap();
    let last = compose(&vec![cd], o).unwrap();
    let whole = compose(&vec![ab, bc, cd], o).unwrap();
    let joined = first.times(&last);
    assert_eq!(joined.numer, whole.numer);
    assert_eq!(joined.denom, whole.denom);
    assert!(close(value(&joined), value(&whole)));
    assert!(close(value(&whole), 4e12));
}

#[test]
fn reciprocal_orientations() {
    let hops = vec![hop(300, 100, 18, 18, Side::Slot0), hop(50, 200, 18, 6, Side::Slot1)];
    let a = compose(&hops, Orientation::AssetPerReference).unwrap();
    let r = compose(&hops, Orientation::ReferencePerAsset).unwrap();
    assert_eq!(a.numer, r.denom);
    assert_eq!(a.denom, r.numer);
    assert!(close(value(&a), 1.0 / value(&r)));
    let back = r.reciprocal();
    assert_eq!(back.numer, a.numer);
    assert_eq!(back.denom, a.denom);
}

#[test]
fn zero_reserve_is_rejected() {
    let good = hop(300, 100, 18, 18, Side::Slot0);
    let hops = vec![good, hop(0, 100, 18, 18, Side::Slot0), hop(5, 0, 18, 18, Side::Slot0)];
    assert_eq!(
        compose(&hops, Orientation::AssetPerReference).unwrap_err(),
        PriceError::ZeroReserve { hop: 1 }
    );
    let hops = vec![hop(5, 0, 18, 18, Side::Slot1)];
    assert_eq!(
        compose(&hops, Orientation::ReferencePerAsset).unwrap_err(),
        PriceError::ZeroReserve { hop: 0 }
    );
}

#[test]
fn empty_chain_is_rejected() {
    assert_eq!(
        compose(&vec![], Orientation::AssetPerReference).unwrap_err(),
        PriceError::ChainMismatch
    );
    assert_eq!(
        price_from_answers(&vec![], &vec![], Orientation::AssetPerReference).unwrap_err(),
        PriceError::ChainMismatch
    );
}

#[test]
fn answers_and_layouts_must_pair_up() {
    let pool = PoolReserves { reserve0: 1, reserve1: 2, observed_at: 3 };
    let layout = HopLayout { decimals0: 18, decimals1: 18, numerator: Side::Slot0 };
    assert_eq!(
        price_from_answers(&vec![Ok(pool), Ok(pool)], &vec![layout], Orientation::AssetPerReference)
            .unwrap_err(),
        PriceError::ChainMismatch
    );
}

#[test]
fn first_failed_fetch_is_named() {
    let pool = PoolReserves { reserve0: 1, reserve1: 2, observed_at: 3 };
    let layout = HopLayout { decimals0: 18, decimals1: 18, numerator: Side::Slot0 };
    let answers = vec![Ok(pool), Err(FetchError::Timeout), Err(FetchError::Rpc)];
    assert_eq!(
        price_from_answers(&answers, &vec![layout; 3], Orientation::AssetPerReference).unwrap_err(),
        PriceError::Fetch { hop: 1, cause: FetchError::Timeout }
    );
    let zero = PoolReserves { reserve0: 0, reserve1: 2, observed_at: 3 };
    assert_eq!(
        price_from_answers(&vec![Ok(pool), Ok(zero)], &vec![layout; 2], Orientation::AssetPerReference)
            .unwrap_err(),
        PriceError::ZeroReserve { hop: 1 }
    );
}

#[test]
fn decodes_three_words() {
    let r0: u128 = (1u128 << 112) - 1;
    let mut data = word(r0);
    data.extend(word(123_456_789_000_000_000_000));
    data.extend(word(1_700_000_000));
    let p = decode_reserves(&data).unwrap();
    assert_eq!(p, PoolReserves { reserve0: r0, reserve1: 123_456_789_000_000_000_000, observed_at: 1_700_000_000 });
}

#[test]
fn missing_timestamp_is_a_decode_error() {
    let mut data = word(1000);
    data.extend(word(2000));
    assert_eq!(decode_reserves(&data), Err(FetchError::Decode));
    data.extend(word(7));
    data.push(0);
    assert_eq!(decode_reserves(&data), Err(FetchError::Decode));
}

#[test]
fn oversized_words_are_decode_errors() {
    let mut data = word(1u128 << 112);
    data.extend(word(2000));
    data.extend(word(7));
    assert_eq!(decode_reserves(&data), Err(FetchError::Decode));
    let mut data = word(1000);
    data.extend(word(2000));
    data.extend(word(1u128 << 32));
    assert_eq!(decode_reserves(&data), Err(FetchError::Decode));
    let mut data = word(1000);
    data.extend(word(2000));
    data.extend(word(7));
    data[32] = 1;
    assert_eq!(decode_reserves(&data), Err(FetchError::Decode));
}

#[test]
fn decimal_amount_scales_back() {
    for (raw, d) in [(0u128, 0u8), (1, 18), (123_456_789, 6), ((1u128 << 112) - 1, 18)] {
        let a = TokenAmount::new(raw, d);
        assert_eq!((a.raw, a.decimals), (raw, d));
        let decimal = a.raw as f64 / 10f64.powi(a.decimals as i32);
        let back = (decimal * 10f64.powi(a.decimals as i32)).round() as u128;
        assert!((back as f64 - raw as f64).abs() <= raw as f64 * 1e-15);
    }
    assert!(TokenAmount::new(0, 18).is_zero());
    assert!(!TokenAmount::new(1, 18).is_zero());
}

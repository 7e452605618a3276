use asset_exchange::assets::{FungibleBucket, ResourceAddress, UNIT};
use asset_exchange::radiswap::{
    accepted_liquidity, redeemed_amount, swap_output_amount, PoolError, Radiswap, INITIAL_POOL_UNITS,
};

const A: ResourceAddress = ResourceAddress { id: 10 };
const B: ResourceAddress = ResourceAddress { id: 11 };
const UNITS: ResourceAddress = ResourceAddress { id: 12 };
const OTHER: ResourceAddress = ResourceAddress { id: 13 };

fn pool(a: u64, b: u64, fee: u64) -> (Radiswap, FungibleBucket) {
    Radiswap::instantiate_radiswap(FungibleBucket::new(A, a), FungibleBucket::new(B, b), fee, UNITS)
        .unwrap()
}

#[test]
fn instantiate_mints_initial_units() {
    let (_, units) = pool(1000 * UNIT, 1000 * UNIT, 0);
    assert_eq!(units.resource, UNITS);
    assert_eq!(units.amount, 100 * UNIT);
    assert_eq!(units.amount, INITIAL_POOL_UNITS);
}

#[test]
fn instantiate_rejects_empty_side() {
    let r = Radiswap::instantiate_radiswap(FungibleBucket::new(A, 0), FungibleBucket::new(B, 5), 0, UNITS);
    assert_eq!(r.err(), Some(PoolError::EmptyInitialLiquidity));
    let r = Radiswap::instantiate_radiswap(FungibleBucket::new(A, 5), FungibleBucket::new(B, 0), 0, UNITS);
    assert_eq!(r.err(), Some(PoolError::EmptyInitialLiquidity));
}

#[test]
fn instantiate_rejects_fee_above_one() {
    let r = Radiswap::instantiate_radiswap(
        FungibleBucket::new(A, 5),
        FungibleBucket::new(B, 5),
        UNIT + 1,
        UNITS,
    );
    assert_eq!(r.err(), Some(PoolError::InvalidFee));
    assert!(Radiswap::instantiate_radiswap(FungibleBucket::new(A, 5), FungibleBucket::new(B, 5), UNIT, UNITS)
        .is_ok());
}

#[test]
fn swap_without_fee_follows_constant_product() {
    let (mut p, _) = pool(1000 * UNIT, 1000 * UNIT, 0);
    let out = p.swap(FungibleBucket::new(A, 100 * UNIT)).unwrap();
    assert_eq!(out.resource, B);
    // 100000 / 1100 = 90.909090909..., rounded down to nine places
    assert_eq!(out.amount, 90_909_090_909);
}

#[test]
fn swap_from_side_b() {
    let (mut p, _) = pool(1000 * UNIT, 1000 * UNIT, 0);
    let out = p.swap(FungibleBucket::new(B, 100 * UNIT)).unwrap();
    assert_eq!(out.resource, A);
    assert_eq!(out.amount, 90_909_090_909);
    // the reserves moved: a second equal swap pays less
    let again = p.swap(FungibleBucket::new(B, 100 * UNIT)).unwrap();
    assert!(again.amount < out.amount);
}

#[test]
fn swap_with_fee_pays_less() {
    // fee 0.1: the input counts as 90
    let (mut p, _) = pool(1000 * UNIT, 1000 * UNIT, UNIT / 10);
    let out = p.swap(FungibleBucket::new(A, 100 * UNIT)).unwrap();
    // 1000 * 90 / 1090 = 82.568807339...
    assert_eq!(out.amount, 82_568_807_339);
}

#[test]
fn swap_of_empty_parcel_returns_empty_parcel() {
    let (mut p, _) = pool(1000 * UNIT, 1000 * UNIT, 0);
    let out = p.swap(FungibleBucket::new(A, 0)).unwrap();
    assert_eq!(out.resource, B);
    assert_eq!(out.amount, 0);
}

#[test]
fn swap_rejects_unknown_asset() {
    let (mut p, _) = pool(1000 * UNIT, 1000 * UNIT, 0);
    assert_eq!(p.swap(FungibleBucket::new(OTHER, 5)).err(), Some(PoolError::UnknownAsset));
}

#[test]
fn swap_rejects_overflowing_reserve() {
    let (mut p, _) = pool(u64::MAX - 1, 1000, 0);
    assert_eq!(p.swap(FungibleBucket::new(A, 2)).err(), Some(PoolError::Overflow));
}

#[test]
fn swap_on_emptied_pool_is_refused() {
    let (mut p, units) = pool(1000, 1000, 0);
    p.removing_liquidity(units).unwrap();
    assert_eq!(p.swap(FungibleBucket::new(A, 5)).err(), Some(PoolError::NoLiquidity));
}

#[test]
fn swaps_never_lower_product_of_reserves() {
    for fee in [0, UNIT / 100, UNIT / 3] {
        let (mut p, _) = pool(1000 * UNIT, 700 * UNIT, fee);
        let (mut ra, mut rb): (u128, u128) = (1000 * UNIT as u128, 700 * UNIT as u128);
        for (i, amount) in [5 * UNIT, 17, 300 * UNIT, 1, 42 * UNIT].iter().enumerate() {
            let from_a = i % 2 == 0;
            let input = FungibleBucket::new(if from_a { A } else { B }, *amount);
            let out = p.swap(input).unwrap();
            let before = ra * rb;
            if from_a {
                ra += *amount as u128;
                rb -= out.amount as u128;
            } else {
                rb += *amount as u128;
                ra -= out.amount as u128;
            }
            assert!(ra * rb >= before);
            if fee > 0 {
                assert!(ra * rb > before);
            }
        }
    }
}

#[test]
fn add_liquidity_in_ratio_takes_all() {
    let (mut p, _) = pool(1000 * UNIT, 2000 * UNIT, 0);
    let (la, lb, units) = p.add_liquidity(FungibleBucket::new(A, 100 * UNIT), FungibleBucket::new(B, 200 * UNIT)).unwrap();
    assert_eq!((la.resource, la.amount), (A, 0));
    assert_eq!((lb.resource, lb.amount), (B, 0));
    // 100 * 100 / 1000
    assert_eq!((units.resource, units.amount), (UNITS, 10 * UNIT));
}

#[test]
fn add_liquidity_returns_excess_of_side_b() {
    let (mut p, _) = pool(1000 * UNIT, 2000 * UNIT, 0);
    let (la, lb, units) = p.add_liquidity(FungibleBucket::new(A, 100 * UNIT), FungibleBucket::new(B, 300 * UNIT)).unwrap();
    // accepted (100, 200): 100 of side b comes back
    assert_eq!(la.amount, 0);
    assert_eq!(lb.amount, 100 * UNIT);
    assert_eq!(lb.resource, B);
    assert_eq!(units.amount, 10 * UNIT);
}

#[test]
fn add_liquidity_returns_excess_of_side_a() {
    let (mut p, _) = pool(1000 * UNIT, 2000 * UNIT, 0);
    let (la, lb, units) = p.add_liquidity(FungibleBucket::new(A, 300 * UNIT), FungibleBucket::new(B, 200 * UNIT)).unwrap();
    // accepted (100, 200): 200 of side a comes back
    assert_eq!(la.amount, 200 * UNIT);
    assert_eq!(la.resource, A);
    assert_eq!(lb.amount, 0);
    assert_eq!(units.amount, 10 * UNIT);
}

#[test]
fn add_liquidity_accepts_either_order() {
    let (mut p, _) = pool(1000 * UNIT, 2000 * UNIT, 0);
    let (la, lb, units) = p.add_liquidity(FungibleBucket::new(B, 300 * UNIT), FungibleBucket::new(A, 100 * UNIT)).unwrap();
    assert_eq!((la.resource, la.amount), (A, 0));
    assert_eq!((lb.resource, lb.amount), (B, 100 * UNIT));
    assert_eq!(units.amount, 10 * UNIT);
}

#[test]
fn add_liquidity_rejects_unknown_asset() {
    let (mut p, _) = pool(1000, 2000, 0);
    let r = p.add_liquidity(FungibleBucket::new(A, 1), FungibleBucket::new(OTHER, 2));
    assert_eq!(r.err(), Some(PoolError::UnknownAsset));
    let r = p.add_liquidity(FungibleBucket::new(A, 1), FungibleBucket::new(A, 2));
    assert_eq!(r.err(), Some(PoolError::UnknownAsset));
}

#[test]
fn refilling_emptied_pool_needs_both_sides() {
    let (mut p, units) = pool(1000, 2000, 0);
    let (a, b) = p.removing_liquidity(units).unwrap();
    assert_eq!((a.amount, b.amount), (1000, 2000));
    let r = p.add_liquidity(FungibleBucket::new(A, 0), FungibleBucket::new(B, 2));
    assert_eq!(r.err(), Some(PoolError::EmptyInitialLiquidity));
    let (la, lb, units) = p.add_liquidity(FungibleBucket::new(A, 7), FungibleBucket::new(B, 2)).unwrap();
    assert_eq!((la.amount, lb.amount), (0, 0));
    assert_eq!(units.amount, INITIAL_POOL_UNITS);
}

#[test]
fn add_liquidity_rejects_overflowing_reserve() {
    let (mut p, _) = pool(u64::MAX - 10, 1, 0);
    let r = p.add_liquidity(FungibleBucket::new(A, u64::MAX - 10), FungibleBucket::new(B, 1));
    assert_eq!(r.err(), Some(PoolError::Overflow));
}

#[test]
fn add_then_remove_returns_at_most_deposit() {
    let (mut p, _) = pool(1000 * UNIT, 3000 * UNIT, UNIT / 100);
    p.swap(FungibleBucket::new(A, 7 * UNIT + 3)).unwrap();
    let (la, lb, units) = p.add_liquidity(FungibleBucket::new(A, 10 * UNIT + 1), FungibleBucket::new(B, 100 * UNIT)).unwrap();
    let taken_a = 10 * UNIT + 1 - la.amount;
    let taken_b = 100 * UNIT - lb.amount;
    let minted = units.amount;
    let (oa, ob) = p.removing_liquidity(units).unwrap();
    assert!(oa.amount <= taken_a);
    assert!(ob.amount <= taken_b);
    // the supply of units is back where it was: redeeming the original 100 takes all
    let (ra, rb) = p.removing_liquidity(FungibleBucket::new(UNITS, INITIAL_POOL_UNITS)).unwrap();
    assert!(ra.amount > 0 && rb.amount > 0);
    assert!(minted > 0);
    assert_eq!(p.swap(FungibleBucket::new(A, 1)).err(), Some(PoolError::NoLiquidity));
}

#[test]
fn remove_liquidity_pays_share_of_reserves() {
    let (mut p, mut units) = pool(1000 * UNIT, 2000 * UNIT, 0);
    let quarter = units.take(25 * UNIT);
    let (a, b) = p.removing_liquidity(quarter).unwrap();
    assert_eq!((a.resource, a.amount), (A, 250 * UNIT));
    assert_eq!((b.resource, b.amount), (B, 500 * UNIT));
}

#[test]
fn remove_liquidity_rejects_wrong_token() {
    let (mut p, _) = pool(1000, 2000, 0);
    assert_eq!(p.removing_liquidity(FungibleBucket::new(A, 1)).err(), Some(PoolError::WrongShareToken));
}

#[test]
fn remove_liquidity_rejects_excess_units() {
    let (mut p, _) = pool(1000, 2000, 0);
    let r = p.removing_liquidity(FungibleBucket::new(UNITS, INITIAL_POOL_UNITS + 1));
    assert_eq!(r.err(), Some(PoolError::ExcessShares));
}

#[test]
fn pool_formulas_on_given_values() {
    assert_eq!(swap_output_amount(1000 * UNIT, 1000 * UNIT, 0, 100 * UNIT), 90_909_090_909);
    assert_eq!(swap_output_amount(0, 0, 0, 0), 0);
    assert_eq!(swap_output_amount(10, 10, UNIT, 5), 0);
    assert_eq!(accepted_liquidity(1000, 2000, 100, 300), (100, 200));
    assert_eq!(accepted_liquidity(1000, 2000, 300, 200), (100, 200));
    assert_eq!(accepted_liquidity(0, 2000, 300, 200), (300, 200));
    assert_eq!(accepted_liquidity(3, 2, 1, 1), (1, 0));
    assert_eq!(redeemed_amount(1000, 25, 100), 250);
    assert_eq!(redeemed_amount(1000, 0, 0), 0);
    assert_eq!(redeemed_amount(7, 1, 3), 2);
}

#[test]
fn instantiate_rejects_same_resource_on_both_sides() {
    let r = Radiswap::instantiate_radiswap(FungibleBucket::new(A, 5), FungibleBucket::new(A, 7), 0, UNITS);
    assert_eq!(r.err(), Some(PoolError::SameResource));
}

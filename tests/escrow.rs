use asset_exchange::assets::{Bucket, Holding, NonFungibleBucket, NonFungibleLocalId, ResourceAddress};
use asset_exchange::escrow::{Escrow, EscrowBadge, EscrowError, EscrowResourceSpecifier};

const OFFERED: ResourceAddress = ResourceAddress { id: 1 };
const REQUESTED: ResourceAddress = ResourceAddress { id: 2 };
const BADGE: ResourceAddress = ResourceAddress { id: 3 };
const NFT: ResourceAddress = ResourceAddress { id: 4 };

fn fungible(resource: ResourceAddress, amount: u64) -> Bucket {
    Bucket { resource, holding: Holding::Fungible(amount) }
}

fn items(resource: ResourceAddress, ids: &[u64]) -> Bucket {
    Bucket {
        resource,
        holding: Holding::NonFungible(ids.iter().map(|i| NonFungibleLocalId { id: *i }).collect()),
    }
}

fn amount_of(b: &Bucket) -> u64 {
    match &b.holding {
        Holding::Fungible(a) => *a,
        Holding::NonFungible(_) => panic!("not fungible"),
    }
}

fn ids_of(b: &Bucket) -> Vec<u64> {
    match &b.holding {
        Holding::Fungible(_) => panic!("not non-fungible"),
        Holding::NonFungible(ids) => ids.iter().map(|i| i.id).collect(),
    }
}

fn fungible_escrow() -> (Escrow, NonFungibleBucket) {
    let spec = EscrowResourceSpecifier::Fungible { resource_address: REQUESTED, amount: 50 };
    Escrow::instantiate_escrow(spec, fungible(OFFERED, 10), BADGE)
}

#[test]
fn instantiate_mints_one_badge() {
    let (e, token) = fungible_escrow();
    assert_eq!(token.resource, BADGE);
    assert_eq!(token.ids, vec![NonFungibleLocalId { id: 1 }]);
    assert_eq!(e.get_badge_data(), EscrowBadge { offered_resource: OFFERED });
}

#[test]
fn specifier_resource_address() {
    let f = EscrowResourceSpecifier::Fungible { resource_address: REQUESTED, amount: 1 };
    let n = EscrowResourceSpecifier::NonFungible {
        resource_address: NFT,
        non_fungible_local_id: NonFungibleLocalId { id: 9 },
    };
    assert_eq!(f.get_resource_address(), REQUESTED);
    assert_eq!(n.get_resource_address(), NFT);
}

#[test]
fn exchange_with_exact_payment_returns_whole_offer() {
    let (mut e, token) = fungible_escrow();
    let out = e.exchange(fungible(REQUESTED, 50)).unwrap();
    assert_eq!(out.resource, OFFERED);
    assert_eq!(amount_of(&out), 10);
    // the offer is gone: cancelling fails, and the payment can be withdrawn
    assert_eq!(e.cancel_escrow(&token).err(), Some(EscrowError::AlreadyExchanged));
    let paid = e.withdraw_resource(&token).unwrap();
    assert_eq!(paid.resource, REQUESTED);
    assert_eq!(amount_of(&paid), 50);
    assert_eq!(e.withdraw_resource(&token).err(), Some(EscrowError::NotYetExchanged));
}

#[test]
fn second_exchange_returns_empty_parcel() {
    let (mut e, token) = fungible_escrow();
    e.exchange(fungible(REQUESTED, 50)).unwrap();
    let again = e.exchange(fungible(REQUESTED, 50)).unwrap();
    assert_eq!(again.resource, OFFERED);
    assert_eq!(amount_of(&again), 0);
    let paid = e.withdraw_resource(&token).unwrap();
    assert_eq!(amount_of(&paid), 100);
}

#[test]
fn exchange_of_non_fungible_item() {
    let spec = EscrowResourceSpecifier::NonFungible {
        resource_address: NFT,
        non_fungible_local_id: NonFungibleLocalId { id: 7 },
    };
    let (mut e, token) = Escrow::instantiate_escrow(spec, items(OFFERED, &[1, 2]), BADGE);
    assert_eq!(e.exchange(items(NFT, &[8])).err(), Some(EscrowError::IdentifierMismatch));
    assert_eq!(e.exchange(items(NFT, &[7, 8])).err(), Some(EscrowError::IdentifierMismatch));
    assert_eq!(e.exchange(fungible(NFT, 1)).err(), Some(EscrowError::IdentifierMismatch));
    let out = e.exchange(items(NFT, &[7])).unwrap();
    assert_eq!(out.resource, OFFERED);
    assert_eq!(ids_of(&out), vec![1, 2]);
    let paid = e.withdraw_resource(&token).unwrap();
    assert_eq!(paid.resource, NFT);
    assert_eq!(ids_of(&paid), vec![7]);
}

#[test]
fn exchange_rejects_wrong_type_and_changes_nothing() {
    let (mut e, token) = fungible_escrow();
    assert_eq!(e.exchange(fungible(OFFERED, 50)).err(), Some(EscrowError::TypeMismatch));
    assert_eq!(e.withdraw_resource(&token).err(), Some(EscrowError::NotYetExchanged));
    let back = e.cancel_escrow(&token).unwrap();
    assert_eq!(amount_of(&back), 10);
}

#[test]
fn exchange_rejects_wrong_amount_and_changes_nothing() {
    let (mut e, token) = fungible_escrow();
    assert_eq!(e.exchange(fungible(REQUESTED, 49)).err(), Some(EscrowError::AmountMismatch));
    assert_eq!(e.exchange(fungible(REQUESTED, 51)).err(), Some(EscrowError::AmountMismatch));
    assert_eq!(e.exchange(items(REQUESTED, &[50])).err(), Some(EscrowError::AmountMismatch));
    assert_eq!(e.withdraw_resource(&token).err(), Some(EscrowError::NotYetExchanged));
    let out = e.exchange(fungible(REQUESTED, 50)).unwrap();
    assert_eq!(amount_of(&out), 10);
}

#[test]
fn exchange_rejects_overflowing_balance() {
    let spec = EscrowResourceSpecifier::Fungible { resource_address: REQUESTED, amount: u64::MAX };
    let (mut e, _) = Escrow::instantiate_escrow(spec, fungible(OFFERED, 1), BADGE);
    e.exchange(fungible(REQUESTED, u64::MAX)).unwrap();
    assert_eq!(e.exchange(fungible(REQUESTED, u64::MAX)).err(), Some(EscrowError::Overflow));
}

#[test]
fn foreign_token_is_always_refused() {
    let (mut e, token) = fungible_escrow();
    let foreign = NonFungibleBucket { resource: NFT, ids: vec![NonFungibleLocalId { id: 1 }] };
    assert_eq!(e.withdraw_resource(&foreign).err(), Some(EscrowError::Unauthorized));
    assert_eq!(e.cancel_escrow(&foreign).err(), Some(EscrowError::Unauthorized));
    e.exchange(fungible(REQUESTED, 50)).unwrap();
    assert_eq!(e.withdraw_resource(&foreign).err(), Some(EscrowError::Unauthorized));
    assert_eq!(e.cancel_escrow(&foreign).err(), Some(EscrowError::Unauthorized));
    assert!(e.withdraw_resource(&token).is_ok());
    assert_eq!(e.withdraw_resource(&foreign).err(), Some(EscrowError::Unauthorized));
}

#[test]
fn cancel_returns_offer() {
    let (mut e, token) = fungible_escrow();
    let back = e.cancel_escrow(&token).unwrap();
    assert_eq!(back.resource, OFFERED);
    assert_eq!(amount_of(&back), 10);
    assert_eq!(e.cancel_escrow(&token).err(), Some(EscrowError::AlreadyExchanged));
    // after a cancel an exact payment is still taken, for an empty parcel
    let out = e.exchange(fungible(REQUESTED, 50)).unwrap();
    assert_eq!(amount_of(&out), 0);
}

#[test]
fn escrow_with_empty_offer_is_allowed() {
    let spec = EscrowResourceSpecifier::Fungible { resource_address: REQUESTED, amount: 5 };
    let (mut e, token) = Escrow::instantiate_escrow(spec, fungible(OFFERED, 0), BADGE);
    assert_eq!(e.cancel_escrow(&token).err(), Some(EscrowError::AlreadyExchanged));
    let out = e.exchange(fungible(REQUESTED, 5)).unwrap();
    assert_eq!(out.resource, OFFERED);
    assert_eq!(amount_of(&out), 0);
}

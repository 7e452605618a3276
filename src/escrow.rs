//! A bilateral escrow: one party's offer is held until a payment that meets
//! the requested specifier arrives, and each side then goes to the other.
use vstd::prelude::*;
use crate::assets::{Bucket, Holding, NonFungibleBucket, NonFungibleLocalId, ResourceAddress, Vault};

verus! {

/// What an escrow asks for in exchange for its offer.
#[derive(PartialEq, Eq, Structural, Clone, Copy, Debug)]
pub enum EscrowResourceSpecifier {
    /// An exact amount of a fungible resource.
    Fungible { resource_address: ResourceAddress, amount: u64 },
    /// One exact item of a non-fungible resource.
    NonFungible { resource_address: ResourceAddress, non_fungible_local_id: NonFungibleLocalId },
}

impl EscrowResourceSpecifier {
    pub open spec fn resource(&self) -> ResourceAddress {
        match self {
            EscrowResourceSpecifier::Fungible { resource_address, .. } => *resource_address,
            EscrowResourceSpecifier::NonFungible { resource_address, .. } => *resource_address,
        }
    }

    pub open spec fn is_fungible(&self) -> bool {
        self is Fungible
    }

    /// Whether `h` is exactly what is asked for: the amount, or the one item.
    pub open spec fn admits(&self, h: Holding) -> bool {
        match self {
            EscrowResourceSpecifier::Fungible { amount, .. } => match h {
                Holding::Fungible(a) => a == *amount,
                Holding::NonFungible(_) => false,
            },
            EscrowResourceSpecifier::NonFungible { non_fungible_local_id, .. } => match h {
                Holding::Fungible(_) => false,
                Holding::NonFungible(ids) => ids@ == seq![*non_fungible_local_id],
            },
        }
    }

    pub fn get_resource_address(&self) -> (r: ResourceAddress)
        ensures
            r == self.resource(),
    {
        match self {
            EscrowResourceSpecifier::Fungible { resource_address, .. } => *resource_address,
            EscrowResourceSpecifier::NonFungible { resource_address, .. } => *resource_address,
        }
    }

    pub fn admits_holding(&self, h: &Holding) -> (r: bool)
        ensures
            r == self.admits(*h),
    {
        match self {
            EscrowResourceSpecifier::Fungible { amount, .. } => match h {
                Holding::Fungible(a) => *a == *amount,
                Holding::NonFungible(_) => false,
            },
            EscrowResourceSpecifier::NonFungible { non_fungible_local_id, .. } => match h {
                Holding::Fungible(_) => false,
                Holding::NonFungible(ids) => {
                    let r = ids.len() == 1 && ids[0] == *non_fungible_local_id;
                    proof {
                        if r {
                            assert(ids@ =~= seq![*non_fungible_local_id]);
                        }
                    }
                    r
                },
            },
        }
    }
}

/// The data of an escrow's authorization token: the resource it offers.
#[derive(PartialEq, Eq, Structural, Clone, Copy, Debug)]
pub struct EscrowBadge {
    pub offered_resource: ResourceAddress,
}

/// Why an escrow operation was refused. A refused operation changes nothing.
#[derive(PartialEq, Eq, Structural, Clone, Copy, Debug)]
pub enum EscrowError {
    /// The payment is not of the requested resource.
    TypeMismatch,
    /// The payment is not exactly the requested amount.
    AmountMismatch,
    /// The payment is not exactly the requested item.
    IdentifierMismatch,
    /// The token presented is not this escrow's authorization token.
    Unauthorized,
    /// Nothing has been paid in yet.
    NotYetExchanged,
    /// The offer is gone: it was exchanged or cancelled.
    AlreadyExchanged,
    /// The requested balance would not fit in 64 bits.
    Overflow,
}

/// The item identifier of an escrow's authorization token.
pub const BADGE_LOCAL_ID: u64 = 1;

/// An escrow: the offer, what is requested for it, what has been paid in,
/// and the resource of its authorization token.
#[derive(Debug)]
pub struct Escrow {
    requested_resource: EscrowResourceSpecifier,
    offered_resource: Vault,
    requested_resource_vault: Vault,
    escrow_nft: ResourceAddress,
    badge: EscrowBadge,
}

impl Escrow {
    pub closed spec fn requested(&self) -> EscrowResourceSpecifier {
        self.requested_resource
    }

    /// The vault holding the offer.
    pub closed spec fn offered(&self) -> Vault {
        self.offered_resource
    }

    /// The vault that payments go into.
    pub closed spec fn paid(&self) -> Vault {
        self.requested_resource_vault
    }

    /// The resource of this escrow's authorization token.
    pub closed spec fn badge_resource(&self) -> ResourceAddress {
        self.escrow_nft
    }

    pub closed spec fn badge_data(&self) -> EscrowBadge {
        self.badge
    }

    /// The payment vault is of the requested resource and kind, and the
    /// authorization token is a resource of its own.
    pub open spec fn wf(&self) -> bool {
        &&& self.paid().resource == self.requested().resource()
        &&& self.paid().holding.is_fungible() == self.requested().is_fungible()
        &&& self.badge_resource() != self.requested().resource()
        &&& self.badge_data().offered_resource == self.offered().resource
    }

    /// `e` and `token` are what `instantiate_escrow` returns for these arguments.
    pub open spec fn instantiated(
        e: &Escrow,
        token: &NonFungibleBucket,
        requested: EscrowResourceSpecifier,
        offer: &Bucket,
        badge_resource: ResourceAddress,
    ) -> bool {
        &&& e.wf()
        &&& e.requested() == requested
        &&& e.offered().resource == offer.resource
        &&& e.offered().holding == offer.holding
        &&& e.paid().resource == requested.resource()
        &&& e.paid().holding.is_fungible() == requested.is_fungible()
        &&& e.paid().holding.size() == 0
        &&& e.badge_resource() == badge_resource
        &&& e.badge_data() == (EscrowBadge { offered_resource: offer.resource })
        &&& token.resource == badge_resource
        &&& token.ids@ == seq![NonFungibleLocalId { id: BADGE_LOCAL_ID }]
    }

    /// Creates an escrow holding `offered_resource` until `requested_resource`
    /// is paid, and mints its one authorization token to the caller, of
    /// `badge_resource`, a resource newly allocated for it. An empty offer
    /// is accepted: such an escrow can only ever hand out an empty parcel.
    pub fn instantiate_escrow(
        requested_resource: EscrowResourceSpecifier,
        offered_resource: Bucket,
        badge_resource: ResourceAddress,
    ) -> (r: (Escrow, NonFungibleBucket))
        requires
            badge_resource != requested_resource.resource(),
        ensures
            Self::instantiated(&r.0, &r.1, requested_resource, &offered_resource, badge_resource),
    {
        let badge = EscrowBadge { offered_resource: offered_resource.resource_address() };
        let token = NonFungibleBucket {
            resource: badge_resource,
            ids: vec![NonFungibleLocalId { id: BADGE_LOCAL_ID }],
        };
        let fungible = match requested_resource {
            EscrowResourceSpecifier::Fungible { .. } => true,
            EscrowResourceSpecifier::NonFungible { .. } => false,
        };
        let escrow = Escrow {
            requested_resource_vault: Vault::new(requested_resource.get_resource_address(), fungible),
            requested_resource,
            offered_resource: Vault::with_bucket(offered_resource),
            escrow_nft: badge_resource,
            badge,
        };
        proof {
            assert(token.ids@ =~= seq![NonFungibleLocalId { id: BADGE_LOCAL_ID }]);
        }
        (escrow, token)
    }

    /// Why `exchange` refuses `payment`, if it does.
    pub open spec fn exchange_error(&self, payment: &Bucket) -> Option<EscrowError> {
        if payment.resource != self.requested().resource() {
            Some(EscrowError::TypeMismatch)
        } else if !self.requested().admits(payment.holding) {
            if self.requested().is_fungible() {
                Some(EscrowError::AmountMismatch)
            } else {
                Some(EscrowError::IdentifierMismatch)
            }
        } else if !self.paid().accepts(payment) {
            Some(EscrowError::Overflow)
        } else {
            None
        }
    }

    /// `post` and `out` are the escrow and the parcel after this escrow took
    /// `payment`: the payment is added to the paid vault, and the whole offer
    /// is handed out.
    pub open spec fn exchanged(&self, post: &Escrow, payment: &Bucket, out: &Bucket) -> bool {
        &&& post.requested() == self.requested()
        &&& post.badge_resource() == self.badge_resource()
        &&& post.badge_data() == self.badge_data()
        &&& out.resource == self.offered().resource
        &&& out.holding == self.offered().holding
        &&& post.offered().resource == self.offered().resource
        &&& post.offered().holding.same_kind(&self.offered().holding)
        &&& post.offered().holding.size() == 0
        &&& post.paid().resource == self.paid().resource
        &&& post.paid().holding.same_kind(&self.paid().holding)
        &&& post.paid().holding.size() == self.paid().holding.size() + payment.holding.size()
        &&& post.paid().holding.items() == self.paid().holding.items() + payment.holding.items()
    }

    /// Takes a payment that is exactly what was requested and hands out the
    /// whole offer. Anyone may call it; once the offer is gone, a further
    /// exact payment is still taken and an empty parcel handed out.
    pub fn exchange(&mut self, bucket_of_resource: Bucket) -> (r: Result<Bucket, EscrowError>)
        requires
            old(self).wf(),
        ensures
            final(self).wf(),
            r is Err <==> old(self).exchange_error(&bucket_of_resource) is Some,
            r matches Err(e) ==> old(self).exchange_error(&bucket_of_resource) == Some(e)
                && *final(self) == *old(self),
            r matches Ok(out) ==> old(self).exchanged(final(self), &bucket_of_resource, &out),
    {
        if bucket_of_resource.resource_address() != self.requested_resource.get_resource_address() {
            return Err(EscrowError::TypeMismatch);
        }
        if !self.requested_resource.admits_holding(&bucket_of_resource.holding) {
            return match self.requested_resource {
                EscrowResourceSpecifier::Fungible { .. } => Err(EscrowError::AmountMismatch),
                EscrowResourceSpecifier::NonFungible { .. } => Err(EscrowError::IdentifierMismatch),
            };
        }
        match self.requested_resource_vault.put(bucket_of_resource) {
            Ok(()) => Ok(self.offered_resource.take_all()),
            Err(_) => Err(EscrowError::Overflow),
        }
    }

    /// Why `withdraw_resource` refuses `token`, if it does.
    pub open spec fn withdraw_error(&self, token: &NonFungibleBucket) -> Option<EscrowError> {
        if token.resource != self.badge_resource() {
            Some(EscrowError::Unauthorized)
        } else if self.paid().holding.size() == 0 {
            Some(EscrowError::NotYetExchanged)
        } else {
            None
        }
    }

    /// Hands the whole payment to the holder of the authorization token.
    /// The token is presented, not consumed.
    pub fn withdraw_resource(&mut self, escrow_nft: &NonFungibleBucket) -> (r: Result<Bucket, EscrowError>)
        requires
            old(self).wf(),
        ensures
            final(self).wf(),
            escrow_nft.resource != old(self).badge_resource() ==> r == Err::<Bucket, EscrowError>(
                EscrowError::Unauthorized,
            ),
            r is Err <==> old(self).withdraw_error(escrow_nft) is Some,
            r matches Err(e) ==> old(self).withdraw_error(escrow_nft) == Some(e) && *final(self)
                == *old(self),
            r matches Ok(out) ==> {
                &&& out.resource == old(self).paid().resource
                &&& out.holding == old(self).paid().holding
                &&& final(self).paid().resource == old(self).paid().resource
                &&& final(self).paid().holding.same_kind(&old(self).paid().holding)
                &&& final(self).paid().holding.size() == 0
                &&& final(self).offered() == old(self).offered()
                &&& final(self).requested() == old(self).requested()
                &&& final(self).badge_resource() == old(self).badge_resource()
                &&& final(self).badge_data() == old(self).badge_data()
            },
    {
        if escrow_nft.resource_address() != self.escrow_nft {
            return Err(EscrowError::Unauthorized);
        }
        if self.requested_resource_vault.is_empty() {
            return Err(EscrowError::NotYetExchanged);
        }
        Ok(self.requested_resource_vault.take_all())
    }

    /// Why `cancel_escrow` refuses `token`, if it does.
    pub open spec fn cancel_error(&self, token: &NonFungibleBucket) -> Option<EscrowError> {
        if token.resource != self.badge_resource() {
            Some(EscrowError::Unauthorized)
        } else if self.offered().holding.size() == 0 {
            Some(EscrowError::AlreadyExchanged)
        } else {
            None
        }
    }

    /// Hands the whole offer back to the holder of the authorization token,
    /// as long as it has not been exchanged. The token is presented, not
    /// consumed.
    pub fn cancel_escrow(&mut self, escrow_nft: &NonFungibleBucket) -> (r: Result<Bucket, EscrowError>)
        requires
            old(self).wf(),
        ensures
            final(self).wf(),
            escrow_nft.resource != old(self).badge_resource() ==> r == Err::<Bucket, EscrowError>(
                EscrowError::Unauthorized,
            ),
            r is Err <==> old(self).cancel_error(escrow_nft) is Some,
            r matches Err(e) ==> old(self).cancel_error(escrow_nft) == Some(e) && *final(self)
                == *old(self),
            r matches Ok(out) ==> {
                &&& out.resource == old(self).offered().resource
                &&& out.holding == old(self).offered().holding
                &&& final(self).offered().resource == old(self).offered().resource
                &&& final(self).offered().holding.same_kind(&old(self).offered().holding)
                &&& final(self).offered().holding.size() == 0
                &&& final(self).paid() == old(self).paid()
                &&& final(self).requested() == old(self).requested()
                &&& final(self).badge_resource() == old(self).badge_resource()
                &&& final(self).badge_data() == old(self).badge_data()
            },
    {
        if escrow_nft.resource_address() != self.escrow_nft {
            return Err(EscrowError::Unauthorized);
        }
        if self.offered_resource.is_empty() {
            return Err(EscrowError::AlreadyExchanged);
        }
        Ok(self.offered_resource.take_all())
    }

    /// The data of this escrow's authorization token.
    pub fn get_badge_data(&self) -> (r: EscrowBadge)
        ensures
            r == self.badge_data(),
    {
        self.badge
    }
}

} // verus!

verus! {

/// On a new escrow, a payment that is exactly what was requested is taken,
/// and the exchange hands out the whole original offer and leaves the offer
/// vault empty.
pub proof fn lemma_exchange_returns_offer(
    e: Escrow,
    token: NonFungibleBucket,
    requested: EscrowResourceSpecifier,
    offer: Bucket,
    badge_resource: ResourceAddress,
    payment: Bucket,
    post: Escrow,
    out: Bucket,
)
    requires
        Escrow::instantiated(&e, &token, requested, &offer, badge_resource),
        payment.resource == requested.resource(),
        requested.admits(payment.holding),
    ensures
        e.exchange_error(&payment) is None,
        e.exchanged(&post, &payment, &out) ==> {
            &&& out.resource == offer.resource
            &&& out.holding == offer.holding
            &&& post.offered().holding.size() == 0
        },
{
    assert(e.paid().accepts(&payment));
}

/// Once an exchange has gone through, cancelling with the authorization
/// token fails with `AlreadyExchanged`.
pub proof fn lemma_cancel_after_exchange(
    pre: Escrow,
    post: Escrow,
    payment: Bucket,
    out: Bucket,
    token: NonFungibleBucket,
)
    requires
        pre.wf(),
        pre.exchange_error(&payment) is None,
        pre.exchanged(&post, &payment, &out),
        token.resource == pre.badge_resource(),
    ensures
        post.cancel_error(&token) == Some(EscrowError::AlreadyExchanged),
{
}

/// Before any exchange, withdrawing the payment with the authorization token
/// fails with `NotYetExchanged`.
pub proof fn lemma_withdraw_before_exchange(
    e: Escrow,
    token: NonFungibleBucket,
    requested: EscrowResourceSpecifier,
    offer: Bucket,
    badge_resource: ResourceAddress,
)
    requires
        Escrow::instantiated(&e, &token, requested, &offer, badge_resource),
    ensures
        e.withdraw_error(&token) == Some(EscrowError::NotYetExchanged),
{
}

/// A token of any other resource than the escrow's own is refused by both
/// privileged operations, whatever the escrow's state.
pub proof fn lemma_foreign_token_refused(e: Escrow, token: NonFungibleBucket)
    requires
        token.resource != e.badge_resource(),
    ensures
        e.withdraw_error(&token) == Some(EscrowError::Unauthorized),
        e.cancel_error(&token) == Some(EscrowError::Unauthorized),
{
}

/// An escrow may be created with an empty offer. It can then never be
/// cancelled, and an exact payment is taken for an empty parcel.
pub proof fn lemma_empty_offer(
    e: Escrow,
    token: NonFungibleBucket,
    requested: EscrowResourceSpecifier,
    offer: Bucket,
    badge_resource: ResourceAddress,
    payment: Bucket,
    post: Escrow,
    out: Bucket,
)
    requires
        Escrow::instantiated(&e, &token, requested, &offer, badge_resource),
        offer.holding.size() == 0,
        payment.resource == requested.resource(),
        requested.admits(payment.holding),
    ensures
        e.cancel_error(&token) == Some(EscrowError::AlreadyExchanged),
        e.exchange_error(&payment) is None,
        e.exchanged(&post, &payment, &out) ==> out.holding.size() == 0,
{
    assert(e.paid().accepts(&payment));
}

} // verus!

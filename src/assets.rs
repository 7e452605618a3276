//! Asset parcels (buckets) in transit and the containers (vaults) that hold them.
use vstd::prelude::*;

verus! {

/// One whole token, in base units: amounts are fixed-point decimals with nine
/// decimal places.
pub const UNIT: u64 = 1_000_000_000;

/// The identity of a resource, that is of one asset type on the ledger.
#[derive(PartialEq, Eq, Structural, Clone, Copy, Debug)]
pub struct ResourceAddress {
    pub id: u64,
}

/// The identifier of one item of a non-fungible resource.
#[derive(PartialEq, Eq, Structural, Clone, Copy, Debug)]
pub struct NonFungibleLocalId {
    pub id: u64,
}

/// A parcel of one fungible resource.
#[derive(Debug)]
pub struct FungibleBucket {
    pub resource: ResourceAddress,
    pub amount: u64,
}

impl FungibleBucket {
    pub fn new(resource: ResourceAddress, amount: u64) -> (r: FungibleBucket)
        ensures
            r.resource == resource,
            r.amount == amount,
    {
        FungibleBucket { resource, amount }
    }

    pub fn resource_address(&self) -> (r: ResourceAddress)
        ensures
            r == self.resource,
    {
        self.resource
    }

    pub fn amount(&self) -> (r: u64)
        ensures
            r == self.amount,
    {
        self.amount
    }

    pub fn is_empty(&self) -> (r: bool)
        ensures
            r == (self.amount == 0),
    {
        self.amount == 0
    }

    /// Splits `amount` off this parcel into a new one of the same resource.
    pub fn take(&mut self, amount: u64) -> (r: FungibleBucket)
        requires
            amount <= old(self).amount,
        ensures
            r.resource == old(self).resource,
            r.amount == amount,
            final(self).resource == old(self).resource,
            final(self).amount == old(self).amount - amount,
    {
        self.amount = self.amount - amount;
        FungibleBucket { resource: self.resource, amount }
    }
}

/// A container of one fungible resource, owned by a component.
#[derive(Debug)]
pub struct FungibleVault {
    pub resource: ResourceAddress,
    pub amount: u64,
}

impl FungibleVault {
    pub fn new(resource: ResourceAddress) -> (r: FungibleVault)
        ensures
            r.resource == resource,
            r.amount == 0,
    {
        FungibleVault { resource, amount: 0 }
    }

    pub fn with_bucket(b: FungibleBucket) -> (r: FungibleVault)
        ensures
            r.resource == b.resource,
            r.amount == b.amount,
    {
        FungibleVault { resource: b.resource, amount: b.amount }
    }

    pub fn resource_address(&self) -> (r: ResourceAddress)
        ensures
            r == self.resource,
    {
        self.resource
    }

    pub fn amount(&self) -> (r: u64)
        ensures
            r == self.amount,
    {
        self.amount
    }

    /// Deposits a parcel of this vault's resource. A parcel of another
    /// resource, or one that would take the balance past 64 bits, is handed
    /// back and the vault is left as it was.
    pub fn put(&mut self, b: FungibleBucket) -> (r: Result<(), FungibleBucket>)
        ensures
            r is Ok <==> b.resource == old(self).resource && old(self).amount + b.amount <= u64::MAX,
            r is Ok ==> final(self).resource == old(self).resource && final(self).amount
                == old(self).amount + b.amount,
            r matches Err(back) ==> back == b && *final(self) == *old(self),
    {
        if b.resource != self.resource || b.amount > u64::MAX - self.amount {
            return Err(b);
        }
        self.amount = self.amount + b.amount;
        Ok(())
    }

    /// Withdraws `amount` as a parcel.
    pub fn take(&mut self, amount: u64) -> (r: FungibleBucket)
        requires
            amount <= old(self).amount,
        ensures
            r.resource == old(self).resource,
            r.amount == amount,
            final(self).resource == old(self).resource,
            final(self).amount == old(self).amount - amount,
    {
        self.amount = self.amount - amount;
        FungibleBucket { resource: self.resource, amount }
    }
}

/// What a parcel or a container holds: an amount of a fungible resource, or
/// items of a non-fungible one.
#[derive(Debug)]
pub enum Holding {
    Fungible(u64),
    NonFungible(Vec<NonFungibleLocalId>),
}

impl Holding {
    /// The number of units held: the amount, or the count of items.
    pub open spec fn size(&self) -> nat {
        match self {
            Holding::Fungible(a) => *a as nat,
            Holding::NonFungible(ids) => ids@.len(),
        }
    }

    pub open spec fn is_fungible(&self) -> bool {
        self is Fungible
    }

    /// Whether both holdings are of the same kind.
    pub open spec fn same_kind(&self, other: &Holding) -> bool {
        self.is_fungible() == other.is_fungible()
    }

    pub open spec fn items(&self) -> Seq<NonFungibleLocalId> {
        match self {
            Holding::Fungible(_) => Seq::empty(),
            Holding::NonFungible(ids) => ids@,
        }
    }

    pub fn is_empty(&self) -> (r: bool)
        ensures
            r == (self.size() == 0),
    {
        match self {
            Holding::Fungible(a) => *a == 0,
            Holding::NonFungible(ids) => ids.len() == 0,
        }
    }

    /// An empty holding of the same kind as this one.
    pub fn empty_like(&self) -> (r: Holding)
        ensures
            r.same_kind(self),
            r.size() == 0,
    {
        match self {
            Holding::Fungible(_) => Holding::Fungible(0),
            Holding::NonFungible(_) => Holding::NonFungible(Vec::new()),
        }
    }
}

/// A parcel of any resource, fungible or not.
#[derive(Debug)]
pub struct Bucket {
    pub resource: ResourceAddress,
    pub holding: Holding,
}

impl Bucket {
    pub fn resource_address(&self) -> (r: ResourceAddress)
        ensures
            r == self.resource,
    {
        self.resource
    }

    pub fn is_empty(&self) -> (r: bool)
        ensures
            r == (self.holding.size() == 0),
    {
        self.holding.is_empty()
    }
}

/// A parcel of items of one non-fungible resource.
#[derive(Debug)]
pub struct NonFungibleBucket {
    pub resource: ResourceAddress,
    pub ids: Vec<NonFungibleLocalId>,
}

impl NonFungibleBucket {
    pub fn resource_address(&self) -> (r: ResourceAddress)
        ensures
            r == self.resource,
    {
        self.resource
    }
}

/// A container of any resource, owned by a component.
#[derive(Debug)]
pub struct Vault {
    pub resource: ResourceAddress,
    pub holding: Holding,
}

impl Vault {
    /// An empty vault of `resource`, fungible or not.
    pub fn new(resource: ResourceAddress, fungible: bool) -> (r: Vault)
        ensures
            r.resource == resource,
            r.holding.is_fungible() == fungible,
            r.holding.size() == 0,
    {
        if fungible {
            Vault { resource, holding: Holding::Fungible(0) }
        } else {
            Vault { resource, holding: Holding::NonFungible(Vec::new()) }
        }
    }

    pub fn with_bucket(b: Bucket) -> (r: Vault)
        ensures
            r.resource == b.resource,
            r.holding == b.holding,
    {
        Vault { resource: b.resource, holding: b.holding }
    }

    pub fn resource_address(&self) -> (r: ResourceAddress)
        ensures
            r == self.resource,
    {
        self.resource
    }

    pub fn is_empty(&self) -> (r: bool)
        ensures
            r == (self.holding.size() == 0),
    {
        self.holding.is_empty()
    }

    /// Whether `put(b)` is defined: same resource, same kind, and a fungible
    /// balance that stays representable.
    pub open spec fn accepts(&self, b: &Bucket) -> bool {
        &&& b.resource == self.resource
        &&& b.holding.same_kind(&self.holding)
        &&& (self.holding.is_fungible() ==> self.holding.size() + b.holding.size() <= u64::MAX)
    }

    /// Deposits a parcel: amounts add up, items are appended. A parcel that
    /// the vault does not accept is handed back and the vault is left as it was.
    pub fn put(&mut self, b: Bucket) -> (r: Result<(), Bucket>)
        ensures
            r is Ok <==> old(self).accepts(&b),
            r is Ok ==> {
                &&& final(self).resource == old(self).resource
                &&& final(self).holding.same_kind(&old(self).holding)
                &&& final(self).holding.size() == old(self).holding.size() + b.holding.size()
                &&& final(self).holding.items() == old(self).holding.items() + b.holding.items()
            },
            r matches Err(back) ==> back == b && *final(self) == *old(self),
    {
        if b.resource != self.resource {
            return Err(b);
        }
        let fits = match (&self.holding, &b.holding) {
            (Holding::Fungible(a), Holding::Fungible(x)) => *x <= u64::MAX - *a,
            (Holding::NonFungible(_), Holding::NonFungible(_)) => true,
            _ => false,
        };
        if !fits {
            return Err(b);
        }
        let Bucket { resource: _, holding } = b;
        match holding {
            Holding::Fungible(x) => {
                match &mut self.holding {
                    Holding::Fungible(a) => {
                        *a = *a + x;
                    },
                    Holding::NonFungible(_) => {},
                }
            },
            Holding::NonFungible(mut ids) => {
                match &mut self.holding {
                    Holding::Fungible(_) => {},
                    Holding::NonFungible(mine) => {
                        mine.append(&mut ids);
                    },
                }
            },
        }
        Ok(())
    }

    /// Withdraws the whole content as a parcel, leaving the vault empty.
    pub fn take_all(&mut self) -> (r: Bucket)
        ensures
            r.resource == old(self).resource,
            r.holding == old(self).holding,
            final(self).resource == old(self).resource,
            final(self).holding.same_kind(&old(self).holding),
            final(self).holding.size() == 0,
    {
        let mut holding = self.holding.empty_like();
        std::mem::swap(&mut self.holding, &mut holding);
        Bucket { resource: self.resource, holding }
    }
}

} // verus!

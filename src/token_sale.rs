//! A fixed-price sale of a token against a settlement currency.
use vstd::prelude::*;
use crate::assets::{FungibleBucket, FungibleVault, ResourceAddress, UNIT};

verus! {

/// The supply of the token for sale minted at creation: one hundred whole tokens.
pub const SALE_SUPPLY: u64 = 100 * UNIT;

/// Why a purchase was refused. A refused purchase changes nothing.
#[derive(PartialEq, Eq, Structural, Clone, Copy, Debug)]
pub enum SaleError {
    /// The payment is not in the settlement currency.
    WrongPayment,
    /// The payment is below the price.
    InsufficientPayment,
    /// Less than one whole token is left.
    SoldOut,
    /// The collected payments would not fit in 64 bits.
    Overflow,
}

/// A sale of whole tokens at a fixed price.
#[derive(Debug)]
pub struct TokenSale {
    useful_tokens_vault: FungibleVault,
    collected_xrd: FungibleVault,
    price_per_token: u64,
}

impl TokenSale {
    /// The resource for sale.
    pub closed spec fn goods(&self) -> ResourceAddress {
        self.useful_tokens_vault.resource
    }

    /// The settlement currency.
    pub closed spec fn currency(&self) -> ResourceAddress {
        self.collected_xrd.resource
    }

    /// The tokens left for sale.
    pub closed spec fn stock(&self) -> int {
        self.useful_tokens_vault.amount as int
    }

    /// The payments collected.
    pub closed spec fn collected(&self) -> int {
        self.collected_xrd.amount as int
    }

    pub closed spec fn price(&self) -> int {
        self.price_per_token as int
    }

    /// Creates a sale of `SALE_SUPPLY` newly minted tokens of `useful_token`
    /// at `price_per_token` of `currency` each.
    pub fn instantiate_token_sale(
        price_per_token: u64,
        useful_token: ResourceAddress,
        currency: ResourceAddress,
    ) -> (r: TokenSale)
        ensures
            r.goods() == useful_token,
            r.currency() == currency,
            r.stock() == SALE_SUPPLY,
            r.collected() == 0,
            r.price() == price_per_token,
    {
        TokenSale {
            useful_tokens_vault: FungibleVault::with_bucket(FungibleBucket::new(useful_token, SALE_SUPPLY)),
            collected_xrd: FungibleVault::new(currency),
            price_per_token,
        }
    }

    /// Why `buy_useful_token` refuses `payment`, if it does.
    pub open spec fn buy_error(&self, payment: &FungibleBucket) -> Option<SaleError> {
        if payment.resource != self.currency() {
            Some(SaleError::WrongPayment)
        } else if payment.amount < self.price() {
            Some(SaleError::InsufficientPayment)
        } else if self.stock() < UNIT {
            Some(SaleError::SoldOut)
        } else if self.collected() + self.price() > u64::MAX {
            Some(SaleError::Overflow)
        } else {
            None
        }
    }

    /// Takes the price out of `payment` and returns one whole token and the change.
    pub fn buy_useful_token(&mut self, payment: FungibleBucket) -> (r: Result<
        (FungibleBucket, FungibleBucket),
        SaleError,
    >)
        ensures
            r is Err <==> old(self).buy_error(&payment) is Some,
            r matches Err(e) ==> old(self).buy_error(&payment) == Some(e) && *final(self) == *old(self),
            r matches Ok((goods, change)) ==> {
                &&& goods.resource == old(self).goods()
                &&& goods.amount == UNIT
                &&& change.resource == old(self).currency()
                &&& change.amount == payment.amount - old(self).price()
                &&& final(self).goods() == old(self).goods()
                &&& final(self).currency() == old(self).currency()
                &&& final(self).price() == old(self).price()
                &&& final(self).stock() == old(self).stock() - UNIT
                &&& final(self).collected() == old(self).collected() + old(self).price()
            },
    {
        let mut payment = payment;
        if payment.resource_address() != self.collected_xrd.resource_address() {
            return Err(SaleError::WrongPayment);
        }
        if payment.amount() < self.price_per_token {
            return Err(SaleError::InsufficientPayment);
        }
        if self.useful_tokens_vault.amount() < UNIT {
            return Err(SaleError::SoldOut);
        }
        if let Err(_) = self.collected_xrd.put(payment.take(self.price_per_token)) {
            return Err(SaleError::Overflow);
        }
        Ok((self.useful_tokens_vault.take(UNIT), payment))
    }
}

} // verus!

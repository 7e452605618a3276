//! A constant-product liquidity pool over two fungible resources, with a
//! fungible pool-unit (share) token.
use vstd::prelude::*;
use crate::assets::{FungibleBucket, FungibleVault, ResourceAddress, UNIT};

verus! {

/// The pool units minted to the creator of a pool, and to the first provider
/// of an emptied pool: one hundred whole units.
pub const INITIAL_POOL_UNITS: u64 = 100 * UNIT;

/// Why a pool operation was refused. A refused operation changes nothing.
#[derive(PartialEq, Eq, Structural, Clone, Copy, Debug)]
pub enum PoolError {
    /// A pool must be created, or an emptied pool refilled, with both sides.
    EmptyInitialLiquidity,
    /// The fee rate exceeds one.
    InvalidFee,
    /// Both sides of a new pool are of the same resource.
    SameResource,
    /// A parcel's resource is neither of the pool's two resources.
    UnknownAsset,
    /// The parcel handed back is not of the pool's own pool units.
    WrongShareToken,
    /// The pool holds no reserves to swap against.
    NoLiquidity,
    /// More pool units handed back than are outstanding.
    ExcessShares,
    /// A reserve, a share count or the share supply would not fit in 64 bits.
    Overflow,
}

/// The input of a swap once the fee is taken off, rounded down to the base unit.
pub open spec fn discounted_input(fee: int, input: int) -> int {
    (UNIT - fee) * input / (UNIT as int)
}

/// The constant-product output of a swap, before the input is deposited:
/// `output_reserve * d / (input_reserve + d)`, `d` the discounted input,
/// rounded down.
pub open spec fn swap_output(input_reserve: int, output_reserve: int, fee: int, input: int) -> int {
    let d = discounted_input(fee, input);
    if input_reserve + d == 0 {
        0
    } else {
        output_reserve * d / (input_reserve + d)
    }
}

proof fn lemma_discount_bounds(fee: int, input: int)
    requires
        0 <= fee <= UNIT,
        0 <= input,
    ensures
        0 <= discounted_input(fee, input) <= input,
        fee > 0 && input > 0 ==> discounted_input(fee, input) < input,
{
    let u = UNIT as int;
    assert(0 <= (u - fee) * input <= u * input) by (nonlinear_arith)
        requires 0 <= fee <= u, 0 <= input;
    assert(u * input / u == input) by (nonlinear_arith)
        requires u > 0;
    vstd::arithmetic::div_mod::lemma_div_is_ordered((u - fee) * input, u * input, u);
    if fee > 0 && input > 0 {
        assert((u - fee) * input < u * input) by (nonlinear_arith)
            requires 0 < fee <= u, 0 < input;
        vstd::arithmetic::div_mod::lemma_div_by_multiple_is_strongly_ordered(
            (u - fee) * input, u * input, input, u);
        assert(discounted_input(fee, input) <= ((u - fee) * input) / u);
    }
}

/// `a * d / (c + d) <= a`, and strictly below `a` when `c` and `a` are positive.
proof fn lemma_share_of_reserve(a: int, c: int, d: int)
    requires
        0 <= a,
        0 <= c,
        0 <= d,
        c + d > 0,
    ensures
        0 <= a * d / (c + d) <= a,
        c > 0 && a > 0 ==> a * d / (c + d) < a,
{
    assert(0 <= a * d <= a * (c + d)) by (nonlinear_arith)
        requires 0 <= a, 0 <= c, 0 <= d;
    vstd::arithmetic::div_mod::lemma_div_is_ordered(a * d, a * (c + d), c + d);
    vstd::arithmetic::div_mod::lemma_div_pos_is_pos(a * d, c + d);
    assert(a * (c + d) / (c + d) == a) by (nonlinear_arith)
        requires c + d > 0;
    if c > 0 && a > 0 {
        assert(a * d < a * (c + d)) by (nonlinear_arith)
            requires 0 < a, 0 < c, 0 <= d;
        vstd::arithmetic::div_mod::lemma_div_by_multiple_is_strongly_ordered(
            a * d, a * (c + d), a, c + d);
    }
}

/// The output of a swap: `output_reserve * d / (input_reserve + d)` with `d`
/// the input less the fee, both rounded down to the base unit.
pub fn swap_output_amount(input_reserve: u64, output_reserve: u64, fee: u64, input: u64) -> (r: u64)
    requires
        fee <= UNIT,
    ensures
        r == swap_output(input_reserve as int, output_reserve as int, fee as int, input as int),
        r <= output_reserve,
        input_reserve > 0 && output_reserve > 0 ==> r < output_reserve,
{
    proof {
        lemma_discount_bounds(fee as int, input as int);
        assert((UNIT - fee) * input <= UNIT * u64::MAX) by (nonlinear_arith)
            requires fee <= UNIT;
    }
    let d: u128 = ((UNIT - fee) as u128) * (input as u128) / (UNIT as u128);
    let den: u128 = input_reserve as u128 + d;
    if den == 0 {
        return 0;
    }
    proof {
        lemma_share_of_reserve(output_reserve as int, input_reserve as int, d as int);
        assert(output_reserve * d <= u64::MAX * u64::MAX) by (nonlinear_arith)
            requires output_reserve <= u64::MAX, d <= u64::MAX, 0 <= d;
    }
    ((output_reserve as u128) * d / den) as u64
}

/// The amounts of the supplied `(dm, dn)` that a pool with reserves `(m, n)`
/// accepts: all of both when a reserve is empty or the ratios agree; else as
/// much as keeps the pool's ratio `m : n`, rounded down, from the side that
/// was supplied in excess.
pub open spec fn accepted_amounts(m: int, n: int, dm: int, dn: int) -> (int, int) {
    if m == 0 || n == 0 || m * dn == dm * n {
        (dm, dn)
    } else if m * dn < dm * n {
        (dn * m / n, dn)
    } else {
        (dm, dm * n / m)
    }
}

/// The pool units minted for `accepted_a` of side a, against reserve `m` of
/// side a and `supply` units outstanding, rounded down.
pub open spec fn minted_units(supply: int, m: int, accepted_a: int) -> int {
    if supply == 0 {
        INITIAL_POOL_UNITS as int
    } else {
        accepted_a * supply / m
    }
}

/// What `units` of `supply` pool units redeem of a reserve, rounded down.
pub open spec fn redeemed(reserve: int, units: int, supply: int) -> int {
    if supply == 0 {
        0
    } else {
        reserve * units / supply
    }
}

/// `x * y / z <= w` whenever `x * y <= w * z`.
proof fn lemma_div_le(x: int, y: int, z: int, w: int)
    requires
        0 <= x,
        0 <= y,
        0 < z,
        0 <= w,
        x * y <= w * z,
    ensures
        x * y / z <= w,
{
    vstd::arithmetic::div_mod::lemma_div_is_ordered(x * y, w * z, z);
    vstd::arithmetic::div_mod::lemma_div_by_multiple(w, z);
}

proof fn lemma_accepted_bounds(m: int, n: int, dm: int, dn: int)
    requires
        0 <= m,
        0 <= n,
        0 <= dm,
        0 <= dn,
    ensures
        0 <= accepted_amounts(m, n, dm, dn).0 <= dm,
        0 <= accepted_amounts(m, n, dm, dn).1 <= dn,
        m > 0 && n > 0 ==> n * accepted_amounts(m, n, dm, dn).0 < (accepted_amounts(m, n, dm, dn).1 + 1) * m,
{
    if m == 0 || n == 0 || m * dn == dm * n {
        if m > 0 && n > 0 {
            assert(n * dm < (dn + 1) * m) by (nonlinear_arith)
                requires m * dn == dm * n, m > 0;
        }
    } else if m * dn < dm * n {
        assert(dn * m == m * dn) by (nonlinear_arith);
        assert(dm * n == n * dm) by (nonlinear_arith);
        lemma_div_le(dn, m, n, dm);
        vstd::arithmetic::div_mod::lemma_div_pos_is_pos(dn * m, n);
        let q = dn * m / n;
        vstd::arithmetic::div_mod::lemma_fundamental_div_mod(dn * m, n);
        vstd::arithmetic::div_mod::lemma_mod_pos_bound(dn * m, n);
        assert(n * q <= dn * m);
        assert(n * q < (dn + 1) * m) by (nonlinear_arith)
            requires n * q <= dn * m, m > 0;
    } else {
        assert(dm * n <= dn * m) by (nonlinear_arith)
            requires !(m * dn < dm * n);
        lemma_div_le(dm, n, m, dn);
        vstd::arithmetic::div_mod::lemma_div_pos_is_pos(dm * n, m);
        let q = dm * n / m;
        vstd::arithmetic::div_mod::lemma_fundamental_div_mod(dm * n, m);
        vstd::arithmetic::div_mod::lemma_mod_pos_bound(dm * n, m);
        assert(n * dm < (q + 1) * m) by (nonlinear_arith)
            requires dm * n == m * q + (dm * n) % m, (dm * n) % m < m;
    }
}

/// The amounts of the supplied `(dm, dn)` that a pool with reserves `(m, n)` accepts.
pub fn accepted_liquidity(m: u64, n: u64, dm: u64, dn: u64) -> (r: (u64, u64))
    ensures
        r.0 == accepted_amounts(m as int, n as int, dm as int, dn as int).0,
        r.1 == accepted_amounts(m as int, n as int, dm as int, dn as int).1,
        r.0 <= dm,
        r.1 <= dn,
{
    proof {
        lemma_accepted_bounds(m as int, n as int, dm as int, dn as int);
        assert(m * dn <= u64::MAX * u64::MAX) by (nonlinear_arith)
            requires m <= u64::MAX, dn <= u64::MAX;
        assert(dm * n <= u64::MAX * u64::MAX) by (nonlinear_arith)
            requires dm <= u64::MAX, n <= u64::MAX;
    }
    let left: u128 = (m as u128) * (dn as u128);
    let right: u128 = (dm as u128) * (n as u128);
    if m == 0 || n == 0 || left == right {
        (dm, dn)
    } else if left < right {
        proof {
            assert(dn * m == m * dn) by (nonlinear_arith);
        }
        (((dn as u128) * (m as u128) / (n as u128)) as u64, dn)
    } else {
        (dm, ((dm as u128) * (n as u128) / (m as u128)) as u64)
    }
}

/// A liquidity pool: two reserves, a fee rate, and the supply of its pool units.
#[derive(Debug)]
pub struct Radiswap {
    vault_a: FungibleVault,
    vault_b: FungibleVault,
    pool_units: ResourceAddress,
    total_supply: u64,
    fee: u64,
}

impl Radiswap {
    pub closed spec fn resource_a(&self) -> ResourceAddress {
        self.vault_a.resource
    }

    pub closed spec fn resource_b(&self) -> ResourceAddress {
        self.vault_b.resource
    }

    pub closed spec fn reserve_a(&self) -> int {
        self.vault_a.amount as int
    }

    pub closed spec fn reserve_b(&self) -> int {
        self.vault_b.amount as int
    }

    /// The resource of this pool's units.
    pub closed spec fn share_resource(&self) -> ResourceAddress {
        self.pool_units
    }

    /// The pool units outstanding: all minted less all burned.
    pub closed spec fn share_supply(&self) -> int {
        self.total_supply as int
    }

    /// The fee rate, in base units of one.
    pub closed spec fn fee_rate(&self) -> int {
        self.fee as int
    }

    /// The two sides and the pool units are three distinct resources, the fee
    /// is at most one, every count fits in 64 bits, and a reserve is empty
    /// exactly when no pool units are outstanding.
    pub open spec fn wf(&self) -> bool {
        &&& 0 <= self.fee_rate() <= UNIT
        &&& 0 <= self.reserve_a() <= u64::MAX
        &&& 0 <= self.reserve_b() <= u64::MAX
        &&& 0 <= self.share_supply() <= u64::MAX
        &&& self.resource_a() != self.resource_b()
        &&& self.share_resource() != self.resource_a()
        &&& self.share_resource() != self.resource_b()
        &&& (self.reserve_a() == 0 <==> self.share_supply() == 0)
        &&& (self.reserve_b() == 0 <==> self.share_supply() == 0)
    }

    pub open spec fn product(&self) -> int {
        self.reserve_a() * self.reserve_b()
    }

    pub open spec fn same_setup(&self, other: &Radiswap) -> bool {
        &&& self.resource_a() == other.resource_a()
        &&& self.resource_b() == other.resource_b()
        &&& self.share_resource() == other.share_resource()
        &&& self.fee_rate() == other.fee_rate()
    }

    /// The reserve that a parcel of `res` is paid into by a swap.
    pub open spec fn input_reserve(&self, res: ResourceAddress) -> int {
        if res == self.resource_a() {
            self.reserve_a()
        } else {
            self.reserve_b()
        }
    }

    /// The reserve that a swap of a parcel of `res` pays out of.
    pub open spec fn output_reserve(&self, res: ResourceAddress) -> int {
        if res == self.resource_a() {
            self.reserve_b()
        } else {
            self.reserve_a()
        }
    }

    /// Why `instantiate_radiswap` refuses its arguments, if it does.
    pub open spec fn instantiate_error(a: &FungibleBucket, b: &FungibleBucket, fee: u64) -> Option<PoolError> {
        if a.amount == 0 || b.amount == 0 {
            Some(PoolError::EmptyInitialLiquidity)
        } else if fee > UNIT {
            Some(PoolError::InvalidFee)
        } else if a.resource == b.resource {
            Some(PoolError::SameResource)
        } else {
            None
        }
    }

    /// Creates a pool holding both parcels, which must be of two different
    /// resources, and mints the initial pool units
    /// to the caller. `pool_units` is a resource newly allocated for them.
    pub fn instantiate_radiswap(
        bucket_a: FungibleBucket,
        bucket_b: FungibleBucket,
        fee: u64,
        pool_units: ResourceAddress,
    ) -> (r: Result<(Radiswap, FungibleBucket), PoolError>)
        requires
            pool_units != bucket_a.resource,
            pool_units != bucket_b.resource,
        ensures
            r is Err <==> Self::instantiate_error(&bucket_a, &bucket_b, fee) is Some,
            r matches Err(e) ==> Self::instantiate_error(&bucket_a, &bucket_b, fee) == Some(e),
            r matches Ok((pool, units)) ==> {
                &&& pool.wf()
                &&& pool.resource_a() != pool.resource_b()
                &&& pool.resource_a() == bucket_a.resource
                &&& pool.resource_b() == bucket_b.resource
                &&& pool.reserve_a() == bucket_a.amount
                &&& pool.reserve_b() == bucket_b.amount
                &&& pool.fee_rate() == fee
                &&& pool.share_resource() == pool_units
                &&& pool.share_supply() == INITIAL_POOL_UNITS
                &&& units.resource == pool_units
                &&& units.amount == INITIAL_POOL_UNITS
            },
    {
        if bucket_a.is_empty() || bucket_b.is_empty() {
            return Err(PoolError::EmptyInitialLiquidity);
        }
        if fee > UNIT {
            return Err(PoolError::InvalidFee);
        }
        if bucket_a.resource_address() == bucket_b.resource_address() {
            return Err(PoolError::SameResource);
        }
        let pool = Radiswap {
            vault_a: FungibleVault::with_bucket(bucket_a),
            vault_b: FungibleVault::with_bucket(bucket_b),
            pool_units,
            total_supply: INITIAL_POOL_UNITS,
            fee,
        };
        Ok((pool, FungibleBucket::new(pool_units, INITIAL_POOL_UNITS)))
    }

    /// Why `swap` refuses `input`, if it does.
    pub open spec fn swap_error(&self, input: &FungibleBucket) -> Option<PoolError> {
        if input.resource != self.resource_a() && input.resource != self.resource_b() {
            Some(PoolError::UnknownAsset)
        } else if self.share_supply() == 0 {
            Some(PoolError::NoLiquidity)
        } else if self.input_reserve(input.resource) + input.amount > u64::MAX {
            Some(PoolError::Overflow)
        } else {
            None
        }
    }

    /// `post` and `out` are the pool and the parcel after this pool swapped `input`.
    pub open spec fn swapped(&self, post: &Radiswap, input: &FungibleBucket, out: &FungibleBucket) -> bool {
        let from_a = input.resource == self.resource_a();
        let amount = swap_output(
            self.input_reserve(input.resource),
            self.output_reserve(input.resource),
            self.fee_rate(),
            input.amount as int,
        );
        &&& post.same_setup(self)
        &&& post.share_supply() == self.share_supply()
        &&& out.resource == (if from_a { self.resource_b() } else { self.resource_a() })
        &&& out.amount == amount
        &&& if from_a {
            &&& post.reserve_a() == self.reserve_a() + input.amount
            &&& post.reserve_b() == self.reserve_b() - amount
        } else {
            &&& post.reserve_b() == self.reserve_b() + input.amount
            &&& post.reserve_a() == self.reserve_a() - amount
        }
    }

    /// Swaps a parcel of one of the pool's resources for the constant-product
    /// amount of the other. An empty parcel in gives an empty parcel out.
    pub fn swap(&mut self, input_tokens: FungibleBucket) -> (r: Result<FungibleBucket, PoolError>)
        requires
            old(self).wf(),
        ensures
            final(self).wf(),
            r is Err <==> old(self).swap_error(&input_tokens) is Some,
            r matches Err(e) ==> old(self).swap_error(&input_tokens) == Some(e) && *final(self) == *old(self),
            r matches Ok(out) ==> old(self).swapped(final(self), &input_tokens, &out),
            r matches Ok(out) ==> out.amount < old(self).output_reserve(input_tokens.resource),
    {
        let from_a = input_tokens.resource_address() == self.vault_a.resource_address();
        if !from_a && input_tokens.resource_address() != self.vault_b.resource_address() {
            return Err(PoolError::UnknownAsset);
        }
        if self.total_supply == 0 {
            return Err(PoolError::NoLiquidity);
        }
        let amount_input = input_tokens.amount();
        if from_a {
            let amount_output = swap_output_amount(
                self.vault_a.amount(), self.vault_b.amount(), self.fee, amount_input);
            if let Err(_) = self.vault_a.put(input_tokens) {
                return Err(PoolError::Overflow);
            }
            Ok(self.vault_b.take(amount_output))
        } else {
            let amount_output = swap_output_amount(
                self.vault_b.amount(), self.vault_a.amount(), self.fee, amount_input);
            if let Err(_) = self.vault_b.put(input_tokens) {
                return Err(PoolError::Overflow);
            }
            Ok(self.vault_a.take(amount_output))
        }
    }
    /// Whether `x` and `y` are parcels of side a and side b, in this order.
    pub open spec fn in_order(&self, x: &FungibleBucket, y: &FungibleBucket) -> bool {
        x.resource == self.resource_a() && y.resource == self.resource_b()
    }

    /// Whether `x` and `y` are parcels of side b and side a, in this order.
    pub open spec fn in_reverse(&self, x: &FungibleBucket, y: &FungibleBucket) -> bool {
        x.resource == self.resource_b() && y.resource == self.resource_a()
    }

    /// The amounts supplied of side a and of side b.
    pub open spec fn supplied(&self, x: &FungibleBucket, y: &FungibleBucket) -> (int, int) {
        if self.in_order(x, y) {
            (x.amount as int, y.amount as int)
        } else {
            (y.amount as int, x.amount as int)
        }
    }

    /// Why `add_liquidity` refuses `x` and `y`, if it does.
    pub open spec fn add_error(&self, x: &FungibleBucket, y: &FungibleBucket) -> Option<PoolError> {
        let (dm, dn) = self.supplied(x, y);
        let (aa, ab) = accepted_amounts(self.reserve_a(), self.reserve_b(), dm, dn);
        let units = minted_units(self.share_supply(), self.reserve_a(), aa);
        if !self.in_order(x, y) && !self.in_reverse(x, y) {
            Some(PoolError::UnknownAsset)
        } else if self.share_supply() == 0 && (dm == 0 || dn == 0) {
            Some(PoolError::EmptyInitialLiquidity)
        } else if self.reserve_a() + aa > u64::MAX || self.reserve_b() + ab > u64::MAX
            || self.share_supply() + units > u64::MAX {
            Some(PoolError::Overflow)
        } else {
            None
        }
    }

    /// `post`, the two leftovers and the minted units are the pool and the
    /// parcels after this pool took liquidity from `x` and `y`.
    pub open spec fn added(
        &self,
        post: &Radiswap,
        x: &FungibleBucket,
        y: &FungibleBucket,
        left_a: &FungibleBucket,
        left_b: &FungibleBucket,
        units: &FungibleBucket,
    ) -> bool {
        let (dm, dn) = self.supplied(x, y);
        let (aa, ab) = accepted_amounts(self.reserve_a(), self.reserve_b(), dm, dn);
        let minted = minted_units(self.share_supply(), self.reserve_a(), aa);
        &&& post.same_setup(self)
        &&& post.reserve_a() == self.reserve_a() + aa
        &&& post.reserve_b() == self.reserve_b() + ab
        &&& post.share_supply() == self.share_supply() + minted
        &&& left_a.resource == self.resource_a()
        &&& left_a.amount == dm - aa
        &&& left_b.resource == self.resource_b()
        &&& left_b.amount == dn - ab
        &&& units.resource == self.share_resource()
        &&& units.amount == minted
    }

    /// Adds liquidity in the pool's ratio from two parcels of its resources,
    /// given in either order. Returns what was not taken of side a and of
    /// side b, and the pool units minted for what was.
    pub fn add_liquidity(&mut self, bucket_a: FungibleBucket, bucket_b: FungibleBucket) -> (r: Result<
        (FungibleBucket, FungibleBucket, FungibleBucket),
        PoolError,
    >)
        requires
            old(self).wf(),
        ensures
            final(self).wf(),
            r is Err <==> old(self).add_error(&bucket_a, &bucket_b) is Some,
            r matches Err(e) ==> old(self).add_error(&bucket_a, &bucket_b) == Some(e) && *final(self) == *old(self),
            r matches Ok((left_a, left_b, units)) ==> old(self).added(
                final(self),
                &bucket_a,
                &bucket_b,
                &left_a,
                &left_b,
                &units,
            ),
    {
        let ra = self.vault_a.resource_address();
        let rb = self.vault_b.resource_address();
        let in_order = bucket_a.resource_address() == ra && bucket_b.resource_address() == rb;
        if !in_order && !(bucket_a.resource_address() == rb && bucket_b.resource_address() == ra) {
            return Err(PoolError::UnknownAsset);
        }
        let (mut side_a, mut side_b) = if in_order {
            (bucket_a, bucket_b)
        } else {
            (bucket_b, bucket_a)
        };
        let dm = side_a.amount();
        let dn = side_b.amount();
        let m = self.vault_a.amount();
        let n = self.vault_b.amount();
        if self.total_supply == 0 && (dm == 0 || dn == 0) {
            return Err(PoolError::EmptyInitialLiquidity);
        }
        let (amount_a, amount_b) = accepted_liquidity(m, n, dm, dn);
        if amount_a > u64::MAX - m || amount_b > u64::MAX - n {
            return Err(PoolError::Overflow);
        }
        let minted: u128 = if self.total_supply == 0 {
            INITIAL_POOL_UNITS as u128
        } else {
            proof {
                assert(amount_a * self.total_supply <= u64::MAX * u64::MAX) by (nonlinear_arith)
                    requires amount_a <= u64::MAX, self.total_supply <= u64::MAX;
            }
            (amount_a as u128) * (self.total_supply as u128) / (m as u128)
        };
        if minted > (u64::MAX - self.total_supply) as u128 {
            return Err(PoolError::Overflow);
        }
        let minted = minted as u64;
        let deposit_a = self.vault_a.put(side_a.take(amount_a));
        let deposit_b = self.vault_b.put(side_b.take(amount_b));
        proof {
            assert(deposit_a is Ok && deposit_b is Ok);
        }
        self.total_supply = self.total_supply + minted;
        Ok((side_a, side_b, FungibleBucket::new(self.pool_units, minted)))
    }

    /// Why `removing_liquidity` refuses `units`, if it does.
    pub open spec fn remove_error(&self, units: &FungibleBucket) -> Option<PoolError> {
        if units.resource != self.share_resource() {
            Some(PoolError::WrongShareToken)
        } else if units.amount > self.share_supply() {
            Some(PoolError::ExcessShares)
        } else {
            None
        }
    }

    /// `post` and the two parcels are the pool and what it paid out after it
    /// redeemed `units`.
    pub open spec fn removed(
        &self,
        post: &Radiswap,
        units: &FungibleBucket,
        out_a: &FungibleBucket,
        out_b: &FungibleBucket,
    ) -> bool {
        let pa = redeemed(self.reserve_a(), units.amount as int, self.share_supply());
        let pb = redeemed(self.reserve_b(), units.amount as int, self.share_supply());
        &&& post.same_setup(self)
        &&& post.share_supply() == self.share_supply() - units.amount
        &&& post.reserve_a() == self.reserve_a() - pa
        &&& post.reserve_b() == self.reserve_b() - pb
        &&& out_a.resource == self.resource_a()
        &&& out_a.amount == pa
        &&& out_b.resource == self.resource_b()
        &&& out_b.amount == pb
    }

    /// Burns pool units and pays out their share of each reserve.
    pub fn removing_liquidity(&mut self, pool_units: FungibleBucket) -> (r: Result<
        (FungibleBucket, FungibleBucket),
        PoolError,
    >)
        requires
            old(self).wf(),
        ensures
            final(self).wf(),
            r is Err <==> old(self).remove_error(&pool_units) is Some,
            r matches Err(e) ==> old(self).remove_error(&pool_units) == Some(e) && *final(self) == *old(self),
            r matches Ok((out_a, out_b)) ==> old(self).removed(final(self), &pool_units, &out_a, &out_b),
    {
        if pool_units.resource_address() != self.pool_units {
            return Err(PoolError::WrongShareToken);
        }
        let units = pool_units.amount();
        if units > self.total_supply {
            return Err(PoolError::ExcessShares);
        }
        if self.total_supply == 0 {
            return Ok((self.vault_a.take(0), self.vault_b.take(0)));
        }
        let supply = self.total_supply;
        let pa = redeemed_amount(self.vault_a.amount(), units, supply);
        let pb = redeemed_amount(self.vault_b.amount(), units, supply);
        self.total_supply = supply - units;
        Ok((self.vault_a.take(pa), self.vault_b.take(pb)))
    }
}

/// What `units` of `supply` pool units redeem of `reserve`.
pub fn redeemed_amount(reserve: u64, units: u64, supply: u64) -> (r: u64)
    requires
        units <= supply,
    ensures
        r == redeemed(reserve as int, units as int, supply as int),
        r <= reserve,
        units == supply && supply > 0 ==> r == reserve,
        units < supply && reserve > 0 ==> r < reserve,
{
    if supply == 0 {
        return 0;
    }
    proof {
        assert(reserve * units <= reserve * supply) by (nonlinear_arith)
            requires units <= supply;
        assert(reserve * supply <= u64::MAX * u64::MAX) by (nonlinear_arith)
            requires reserve <= u64::MAX, supply <= u64::MAX;
        lemma_div_le(reserve as int, units as int, supply as int, reserve as int);
        assert((reserve as int) * (supply as int) / (supply as int) == reserve) by (nonlinear_arith)
            requires supply > 0;
        if units < supply && reserve > 0 {
            assert(reserve * units < reserve * supply) by (nonlinear_arith)
                requires units < supply, reserve > 0;
            vstd::arithmetic::div_mod::lemma_div_by_multiple_is_strongly_ordered(
                reserve * units, reserve * supply, reserve as int, supply as int);
        }
    }
    ((reserve as u128) * (units as u128) / (supply as u128)) as u64
}

} // verus!

verus! {

/// `x / z < w` whenever `x < w * z`.
proof fn lemma_div_lt(x: int, z: int, w: int)
    requires
        0 <= x,
        0 < z,
        x < w * z,
    ensures
        x / z < w,
{
    vstd::arithmetic::div_mod::lemma_fundamental_div_mod(x, z);
    vstd::arithmetic::div_mod::lemma_mod_pos_bound(x, z);
    let q = x / z;
    assert(q < w) by (nonlinear_arith)
        requires x == z * q + x % z, 0 <= x % z, x < w * z, z > 0;
}

/// After a swap of `input` against reserves `(rin, rout)`, the product of the
/// reserves is at least what it was, and more when a fee was taken.
proof fn lemma_product_after_swap(rin: int, rout: int, fee: int, input: int)
    requires
        0 <= fee <= UNIT,
        0 <= rin,
        0 <= rout,
        0 <= input,
    ensures
        (rin + input) * (rout - swap_output(rin, rout, fee, input)) >= rin * rout,
        fee > 0 && input > 0 && rin > 0 && rout > 0 ==> (rin + input) * (rout - swap_output(
            rin,
            rout,
            fee,
            input,
        )) > rin * rout,
{
    let d = discounted_input(fee, input);
    let out = swap_output(rin, rout, fee, input);
    lemma_discount_bounds(fee, input);
    if rin + d == 0 {
        assert((rin + input) * rout >= rin * rout) by (nonlinear_arith)
            requires 0 <= rin, 0 <= rout, 0 <= input;
        if fee > 0 && input > 0 && rin > 0 && rout > 0 {
            assert((rin + input) * rout > rin * rout) by (nonlinear_arith)
                requires 0 < rin, 0 < rout, 0 < input;
        }
    } else {
        lemma_share_of_reserve(rout, rin, d);
        vstd::arithmetic::div_mod::lemma_fundamental_div_mod(rout * d, rin + d);
        vstd::arithmetic::div_mod::lemma_mod_pos_bound(rout * d, rin + d);
        assert(out * (rin + d) <= rout * d) by (nonlinear_arith)
            requires rout * d == (rin + d) * out + (rout * d) % (rin + d), 0 <= (rout * d) % (rin + d);
        assert(out * (input - d) <= rout * (input - d)) by (nonlinear_arith)
            requires 0 <= out <= rout, d <= input;
        assert(out * (rin + input) <= rout * input) by (nonlinear_arith)
            requires out * (rin + d) <= rout * d, out * (input - d) <= rout * (input - d);
        assert((rin + input) * (rout - out) >= rin * rout) by (nonlinear_arith)
            requires out * (rin + input) <= rout * input;
        if fee > 0 && input > 0 && rin > 0 && rout > 0 {
            assert(out * (input - d) < rout * (input - d)) by (nonlinear_arith)
                requires 0 <= out < rout, d < input;
            assert((rin + input) * (rout - out) > rin * rout) by (nonlinear_arith)
                requires out * (rin + d) <= rout * d, out * (input - d) < rout * (input - d);
        }
    }
}

/// A successful swap never lowers the product of the pool's reserves; with a
/// positive fee, a swap of a non-empty parcel raises it.
pub proof fn lemma_swap_keeps_product(
    pre: Radiswap,
    post: Radiswap,
    input: FungibleBucket,
    out: FungibleBucket,
)
    requires
        pre.wf(),
        pre.swap_error(&input) is None,
        pre.swapped(&post, &input, &out),
    ensures
        post.product() >= pre.product(),
        pre.fee_rate() > 0 && input.amount > 0 ==> post.product() > pre.product(),
{
    let ra = pre.reserve_a();
    let rb = pre.reserve_b();
    let i = input.amount as int;
    if input.resource == pre.resource_a() {
        lemma_product_after_swap(ra, rb, pre.fee_rate(), i);
    } else {
        lemma_product_after_swap(rb, ra, pre.fee_rate(), i);
        let o = out.amount as int;
        assert((ra - o) * (rb + i) == (rb + i) * (ra - o)) by (nonlinear_arith);
        assert(ra * rb == rb * ra) by (nonlinear_arith);
    }
}

/// `states` is a run of a pool in which state `i + 1` follows state `i` by a
/// successful swap of `inputs[i]`, which paid out `outputs[i]`.
pub open spec fn swap_chain(
    states: Seq<Radiswap>,
    inputs: Seq<FungibleBucket>,
    outputs: Seq<FungibleBucket>,
) -> bool {
    &&& states.len() == inputs.len() + 1
    &&& outputs.len() == inputs.len()
    &&& forall|i: int| 0 <= i < states.len() ==> #[trigger] states[i].wf()
    &&& forall|i: int|
        0 <= i < inputs.len() ==> #[trigger] swap_step(states[i], states[i + 1], inputs[i], outputs[i])
}

/// `post` and `out` follow from `pre` by a successful swap of `input`.
pub open spec fn swap_step(pre: Radiswap, post: Radiswap, input: FungibleBucket, out: FungibleBucket) -> bool {
    &&& pre.swap_error(&input) is None
    &&& pre.swapped(&post, &input, &out)
}

/// Along any sequence of successful swaps, the product of the pool's reserves
/// never decreases.
pub proof fn lemma_swaps_keep_product(
    states: Seq<Radiswap>,
    inputs: Seq<FungibleBucket>,
    outputs: Seq<FungibleBucket>,
)
    requires
        swap_chain(states, inputs, outputs),
    ensures
        forall|j: int| 0 <= j < states.len() ==> states[0].product() <= #[trigger] states[j].product(),
{
    assert forall|j: int| 0 <= j < states.len() implies states[0].product()
        <= #[trigger] states[j].product() by {
        lemma_swaps_prefix(states, inputs, outputs, j);
    }
}

proof fn lemma_swaps_prefix(
    states: Seq<Radiswap>,
    inputs: Seq<FungibleBucket>,
    outputs: Seq<FungibleBucket>,
    j: int,
)
    requires
        0 <= j < states.len(),
        swap_chain(states, inputs, outputs),
    ensures
        states[0].product() <= states[j].product(),
    decreases j,
{
    if j > 0 {
        lemma_swaps_prefix(states, inputs, outputs, j - 1);
        let i = j - 1;
        assert(states[i].wf());
        assert(swap_step(states[i], states[i + 1], inputs[i], outputs[i]));
        lemma_swap_keeps_product(states[j - 1], states[j], inputs[j - 1], outputs[j - 1]);
    }
}

/// Adding liquidity and at once redeeming all the pool units it minted pays
/// back no more of either side than the pool took, and leaves the supply of
/// pool units where it was.
pub proof fn lemma_add_then_remove(
    p0: Radiswap,
    p1: Radiswap,
    p2: Radiswap,
    x: FungibleBucket,
    y: FungibleBucket,
    left_a: FungibleBucket,
    left_b: FungibleBucket,
    units: FungibleBucket,
    out_a: FungibleBucket,
    out_b: FungibleBucket,
)
    requires
        p0.wf(),
        p0.add_error(&x, &y) is None,
        p0.added(&p1, &x, &y, &left_a, &left_b, &units),
        p1.remove_error(&units) is None,
        p1.removed(&p2, &units, &out_a, &out_b),
    ensures
        out_a.amount <= p0.supplied(&x, &y).0 - left_a.amount,
        out_b.amount <= p0.supplied(&x, &y).1 - left_b.amount,
        p2.share_supply() == p0.share_supply(),
{
    let m = p0.reserve_a();
    let n = p0.reserve_b();
    let supply = p0.share_supply();
    let (dm, dn) = p0.supplied(&x, &y);
    let (aa, ab) = accepted_amounts(m, n, dm, dn);
    let s = units.amount as int;
    lemma_accepted_bounds(m, n, dm, dn);
    if supply == 0 {
        assert((m + aa) * s / (supply + s) == aa) by (nonlinear_arith)
            requires m == 0, supply == 0, s > 0;
        assert((n + ab) * s / (supply + s) == ab) by (nonlinear_arith)
            requires n == 0, supply == 0, s > 0;
    } else {
        vstd::arithmetic::div_mod::lemma_fundamental_div_mod(aa * supply, m);
        vstd::arithmetic::div_mod::lemma_mod_pos_bound(aa * supply, m);
        assert(m * s <= aa * supply) by (nonlinear_arith)
            requires aa * supply == m * s + (aa * supply) % m, 0 <= (aa * supply) % m;
        assert((m + aa) * s <= aa * (supply + s)) by (nonlinear_arith)
            requires m * s <= aa * supply;
        lemma_div_le(m + aa, s, supply + s, aa);
        assert(n * aa * supply < (ab + 1) * m * supply) by (nonlinear_arith)
            requires n * aa < (ab + 1) * m, supply > 0;
        assert(m * (n * s) <= n * aa * supply) by (nonlinear_arith)
            requires m * s <= aa * supply, n >= 0;
        assert(n * s < (ab + 1) * supply) by (nonlinear_arith)
            requires m * (n * s) < (ab + 1) * m * supply, m > 0;
        assert((n + ab) * s < (ab + 1) * (supply + s)) by (nonlinear_arith)
            requires n * s < (ab + 1) * supply, 0 <= ab, 0 <= s;
        lemma_div_lt((n + ab) * s, supply + s, ab + 1);
    }
}

} // verus!

//! The constant-product liquidity pool: two asset reserves, a pool-share
//! ledger, and the swap / add-liquidity / remove-liquidity arithmetic.
//!
//! Quantities are integers counting indivisible subunits of an asset
//! (`SUBUNITS_PER_TOKEN` subunits make one whole token), the shape in which
//! the host ledger ultimately accounts for every balance.  The fee is a
//! fraction of the swap input, given in billionths (`FEE_SCALE`).

use vstd::prelude::*;

verus! {

use vstd::arithmetic::div_mod::{
    lemma_div_by_multiple,
    lemma_div_is_ordered,
    lemma_div_pos_is_pos,
    lemma_fundamental_div_mod,
    lemma_mod_division_less_than_divisor,
    lemma_multiply_divide_le,
    lemma_multiply_divide_lt,
};
use vstd::arithmetic::mul::{lemma_mul_inequality, lemma_mul_is_commutative};

/// Number of indivisible subunits in one whole token.
pub const SUBUNITS_PER_TOKEN: u64 = 1_000_000_000;

/// Denominator of the swap fee: a fee `f` keeps `f / FEE_SCALE` of every
/// swap input in the pool, so `FEE_SCALE` itself is a fee of one.
pub const FEE_SCALE: u64 = 1_000_000_000;

/// Shares minted for a liquidity deposit into a pool whose share supply is
/// zero: one hundred whole pool-share tokens.
pub const BOOTSTRAP_SHARES: u64 = 100 * SUBUNITS_PER_TOKEN;

/// A quantity of one asset together with the identity of that asset, the
/// plain-value form of a bucket of tokens in transit.
#[derive(Clone, Copy, Debug, PartialEq, Eq)]
pub struct Tokens {
    /// Identity of the asset, as the host ledger numbers asset kinds.
    pub asset: u64,
    /// How many subunits of that asset.
    pub amount: u64,
}

/// Why a pool operation rejected its input.
#[derive(Clone, Copy, Debug, PartialEq, Eq)]
pub enum PoolError {
    /// A pool cannot be created from an empty deposit on either side.
    InvalidDeposit,
    /// The fee at pool creation lay outside the closed interval [0, 1].
    InvalidFee,
    /// The operation was handed an asset that is neither of the pool's two.
    UnknownAsset,
    /// `remove_liquidity` was handed tokens other than this pool's shares.
    WrongShareToken,
}

/// A constant-product liquidity pool over two assets.
#[derive(Clone, Copy, Debug, PartialEq, Eq)]
pub struct Pool {
    /// Identity of the first pooled asset.
    pub asset_a: u64,
    /// Identity of the second pooled asset.
    pub asset_b: u64,
    /// Identity of the pool-share token this pool mints and burns.
    pub share_asset: u64,
    /// Subunits of `asset_a` held by the pool.
    pub reserve_a: u64,
    /// Subunits of `asset_b` held by the pool.
    pub reserve_b: u64,
    /// Outstanding pool-share subunits.
    pub share_supply: u64,
    /// Swap fee in billionths, at most `FEE_SCALE`.
    pub fee: u64,
}

/// The part of a swap input that counts toward the pricing formula after
/// the fee is taken from it.
pub open spec fn spec_fee_adjusted(amount: int, fee: int) -> int {
    amount * (FEE_SCALE - fee) / (FEE_SCALE as int)
}

/// The constant-product swap output: the fee-adjusted input times the output
/// reserve, divided by the input reserve grown by the fee-adjusted input.
pub open spec fn spec_swap_output(input_reserve: int, output_reserve: int, adjusted: int) -> int {
    adjusted * output_reserve / (input_reserve + adjusted)
}

/// Whether a deposit `(dm, dn)` stands in exactly the same ratio as the
/// reserves `(m, n)`, the reserves of a fresh or drained pool counting as
/// every ratio at once.
pub open spec fn spec_ratio_even(m: int, n: int, dm: int, dn: int) -> bool {
    m == 0 || n == 0 || m * dn == n * dm
}

/// How much of the first deposited asset a liquidity add absorbs.
pub open spec fn spec_accepted_a(m: int, n: int, dm: int, dn: int) -> int {
    if spec_ratio_even(m, n, dm, dn) {
        dm
    } else if m * dn < n * dm {
        dn * m / n
    } else {
        dm
    }
}

/// How much of the second deposited asset a liquidity add absorbs.
pub open spec fn spec_accepted_b(m: int, n: int, dm: int, dn: int) -> int {
    if spec_ratio_even(m, n, dm, dn) {
        dn
    } else if m * dn < n * dm {
        dn
    } else {
        dm * n / m
    }
}

/// Shares minted for a liquidity add that put `accepted_a` subunits into a
/// first reserve of `m`, with `supply` shares already outstanding.
pub open spec fn spec_minted_shares(m: int, supply: int, accepted_a: int) -> int {
    if supply == 0 {
        BOOTSTRAP_SHARES as int
    } else {
        accepted_a * supply / m
    }
}

/// The share of a reserve that `shares` out of `supply` pool shares claim.
pub open spec fn spec_withdrawn(reserve: int, shares: int, supply: int) -> int {
    reserve * shares / supply
}

/// Computes `a * b / divisor` on 128-bit intermediates, so the product never
/// overflows; the caller shows that the quotient fits back into 64 bits.
pub(crate) fn mul_div(a: u64, b: u64, divisor: u64) -> (r: u64)
    requires
        divisor > 0,
        a as int * b as int / divisor as int <= u64::MAX,
    ensures
        r as int == a as int * b as int / divisor as int,
{
    proof {
        assert(a as int * b as int <= u64::MAX as int * u64::MAX as int) by (nonlinear_arith)
            requires
                0 <= a as int <= u64::MAX as int,
                0 <= b as int <= u64::MAX as int,
        ;
    }
    let wide: u128 = (a as u128) * (b as u128) / (divisor as u128);
    wide as u64
}

impl Pool {
    /// A pool is well formed when its fee is a fraction of at most one.
    pub open spec fn wf(self) -> bool {
        self.fee <= FEE_SCALE
    }

    /// Creates a pool holding the two deposits, with the whole initial share
    /// supply returned to the creator as tokens of `share_asset`.
    pub fn create(
        deposit_a: Tokens,
        deposit_b: Tokens,
        initial_share_supply: u64,
        fee: u64,
        share_asset: u64,
    ) -> (result: Result<(Pool, Tokens), PoolError>)
        ensures
            (deposit_a.amount == 0 || deposit_b.amount == 0) <==> result == Err::<(Pool, Tokens),
                PoolError,
            >(PoolError::InvalidDeposit),
            (deposit_a.amount > 0 && deposit_b.amount > 0 && fee > FEE_SCALE) <==> result
                == Err::<(Pool, Tokens), PoolError>(PoolError::InvalidFee),
            (deposit_a.amount > 0 && deposit_b.amount > 0 && fee <= FEE_SCALE) ==> (result
                matches Ok(r) && r.0 == (Pool {
                asset_a: deposit_a.asset,
                asset_b: deposit_b.asset,
                share_asset,
                reserve_a: deposit_a.amount,
                reserve_b: deposit_b.amount,
                share_supply: initial_share_supply,
                fee,
            }) && r.1 == (Tokens { asset: share_asset, amount: initial_share_supply })),
            result matches Ok(r) ==> r.0.wf() && r.0.reserve_a > 0 && r.0.reserve_b > 0,
    {
        if deposit_a.amount == 0 || deposit_b.amount == 0 {
            return Err(PoolError::InvalidDeposit);
        }
        if fee > FEE_SCALE {
            return Err(PoolError::InvalidFee);
        }
        let pool = Pool {
            asset_a: deposit_a.asset,
            asset_b: deposit_b.asset,
            share_asset,
            reserve_a: deposit_a.amount,
            reserve_b: deposit_b.amount,
            share_supply: initial_share_supply,
            fee,
        };
        Ok((pool, Tokens { asset: share_asset, amount: initial_share_supply }))
    }
}

/// Prices one swap: given the reserves on the input and output sides, the
/// input amount and the fee, returns the output amount.  The output is
/// strictly below the output reserve, and crediting the full input while
/// debiting the output never decreases the product of the reserves.
fn swap_output(input_reserve: u64, output_reserve: u64, input_amount: u64, fee: u64) -> (out: u64)
    requires
        fee <= FEE_SCALE,
        input_reserve > 0,
        output_reserve > 0,
        input_reserve + input_amount <= u64::MAX,
    ensures
        out as int == spec_swap_output(
            input_reserve as int,
            output_reserve as int,
            spec_fee_adjusted(input_amount as int, fee as int),
        ),
        out < output_reserve,
        (input_reserve + input_amount) * (output_reserve - out) >= input_reserve as int
            * output_reserve as int,
{
    let ghost ia = input_amount as int;
    let ghost s = FEE_SCALE as int;
    let ghost m = input_reserve as int;
    let ghost n = output_reserve as int;
    proof {
        // The fee-adjusted input is at most the input itself.
        lemma_mul_inequality(s - fee, s, ia);
        lemma_div_is_ordered(ia * (s - fee), ia * s, s);
        lemma_div_by_multiple(ia, s);
        assert(spec_fee_adjusted(ia, fee as int) <= ia);
        lemma_div_pos_is_pos(ia * (s - fee), s);
    }
    let adjusted: u64 = mul_div(input_amount, FEE_SCALE - fee, FEE_SCALE);
    let denominator: u64 = input_reserve + adjusted;
    let ghost adj = adjusted as int;
    let ghost d = denominator as int;
    proof {
        // The quotient stays below the output reserve, so it fits in u64.
        assert(adj * n < d * n) by (nonlinear_arith)
            requires
                0 <= adj,
                0 < n,
                d == m + adj,
                0 < m,
        ;
        lemma_multiply_divide_lt(adj * n, d, n);
    }
    let out: u64 = mul_div(adjusted, output_reserve, denominator);
    proof {
        let o = out as int;
        lemma_fundamental_div_mod(adj * n, d);
        lemma_mod_division_less_than_divisor(adj * n, d);
        assert(d * o <= adj * n);
        lemma_div_pos_is_pos(adj * n, d);
        assert((m + ia) * (n - o) >= m * n) by (nonlinear_arith)
            requires
                d * o <= adj * n,
                d == m + adj,
                adj <= ia,
                0 <= o < n,
                0 <= adj,
                0 < m,
                0 < n,
        ;
    }
    out
}

impl Pool {
    /// Swaps tokens of one pooled asset for tokens of the other, at the
    /// constant-product price with the fee taken from the input side.  The
    /// whole input, fee included, joins the input reserve; the product of
    /// the reserves never decreases.
    pub fn swap(&mut self, input: Tokens) -> (result: Result<Tokens, PoolError>)
        requires
            old(self).wf(),
            old(self).reserve_a > 0,
            old(self).reserve_b > 0,
            input.asset == old(self).asset_a ==> old(self).reserve_a + input.amount <= u64::MAX,
            input.asset != old(self).asset_a && input.asset == old(self).asset_b ==> old(
                self,
            ).reserve_b + input.amount <= u64::MAX,
        ensures
            final(self).wf(),
            final(self).asset_a == old(self).asset_a,
            final(self).asset_b == old(self).asset_b,
            final(self).share_asset == old(self).share_asset,
            final(self).share_supply == old(self).share_supply,
            final(self).fee == old(self).fee,
            input.asset != old(self).asset_a && input.asset != old(self).asset_b ==> result
                == Err::<Tokens, PoolError>(PoolError::UnknownAsset) && *final(self) == *old(self),
            input.asset == old(self).asset_a ==> (result matches Ok(out) && out.asset == old(
                self,
            ).asset_b && out.amount as int == spec_swap_output(
                old(self).reserve_a as int,
                old(self).reserve_b as int,
                spec_fee_adjusted(input.amount as int, old(self).fee as int),
            ) && out.amount < old(self).reserve_b && final(self).reserve_a == old(self).reserve_a
                + input.amount && final(self).reserve_b == old(self).reserve_b - out.amount),
            input.asset != old(self).asset_a && input.asset == old(self).asset_b ==> (result
                matches Ok(out) && out.asset == old(self).asset_a && out.amount as int
                == spec_swap_output(
                old(self).reserve_b as int,
                old(self).reserve_a as int,
                spec_fee_adjusted(input.amount as int, old(self).fee as int),
            ) && out.amount < old(self).reserve_a && final(self).reserve_b == old(self).reserve_b
                + input.amount && final(self).reserve_a == old(self).reserve_a - out.amount),
            final(self).reserve_a as int * final(self).reserve_b as int >= old(self).reserve_a as int
                * old(self).reserve_b as int,
            final(self).reserve_a > 0,
            final(self).reserve_b > 0,
    {
        if input.asset == self.asset_a {
            let out = swap_output(self.reserve_a, self.reserve_b, input.amount, self.fee);
            self.reserve_a = self.reserve_a + input.amount;
            self.reserve_b = self.reserve_b - out;
            Ok(Tokens { asset: self.asset_b, amount: out })
        } else if input.asset == self.asset_b {
            let out = swap_output(self.reserve_b, self.reserve_a, input.amount, self.fee);
            self.reserve_b = self.reserve_b + input.amount;
            self.reserve_a = self.reserve_a - out;
            proof {
                vstd::arithmetic::mul::lemma_mul_is_commutative(
                    self.reserve_a as int,
                    self.reserve_b as int,
                );
                vstd::arithmetic::mul::lemma_mul_is_commutative(
                    old(self).reserve_a as int,
                    old(self).reserve_b as int,
                );
            }
            Ok(Tokens { asset: self.asset_a, amount: out })
        } else {
            Err(PoolError::UnknownAsset)
        }
    }

    /// Whether the two deposits name the pool's assets in slot order.
    pub open spec fn deposits_in_order(self, da: Tokens, db: Tokens) -> bool {
        da.asset == self.asset_a && db.asset == self.asset_b
    }

    /// Whether the two deposits name the pool's two assets, in either order.
    pub open spec fn deposits_match(self, da: Tokens, db: Tokens) -> bool {
        self.deposits_in_order(da, db) || (da.asset == self.asset_b && db.asset == self.asset_a)
    }

    /// The deposited amount destined for the first reserve slot.
    pub open spec fn deposit_for_a(self, da: Tokens, db: Tokens) -> int {
        if self.deposits_in_order(da, db) {
            da.amount as int
        } else {
            db.amount as int
        }
    }

    /// The deposited amount destined for the second reserve slot.
    pub open spec fn deposit_for_b(self, da: Tokens, db: Tokens) -> int {
        if self.deposits_in_order(da, db) {
            db.amount as int
        } else {
            da.amount as int
        }
    }

    /// Adds liquidity.  Of the two deposits the pool absorbs the largest
    /// amounts that stand in the reserves' own ratio, refunds the rest, and
    /// mints shares in proportion to the absorbed part of the first reserve;
    /// a pool with no outstanding shares mints `BOOTSTRAP_SHARES` instead.
    pub fn add_liquidity(&mut self, deposit_a: Tokens, deposit_b: Tokens) -> (result: Result<
        (Tokens, Tokens, Tokens),
        PoolError,
    >)
        requires
            old(self).wf(),
            old(self).share_supply > 0 ==> old(self).reserve_a > 0,
            old(self).deposits_match(deposit_a, deposit_b) ==> ({
                let m = old(self).reserve_a as int;
                let n = old(self).reserve_b as int;
                let dm = old(self).deposit_for_a(deposit_a, deposit_b);
                let dn = old(self).deposit_for_b(deposit_a, deposit_b);
                &&& m + dm <= u64::MAX
                &&& n + dn <= u64::MAX
                &&& old(self).share_supply + spec_minted_shares(
                    m,
                    old(self).share_supply as int,
                    spec_accepted_a(m, n, dm, dn),
                ) <= u64::MAX
            }),
        ensures
            final(self).wf(),
            final(self).asset_a == old(self).asset_a,
            final(self).asset_b == old(self).asset_b,
            final(self).share_asset == old(self).share_asset,
            final(self).fee == old(self).fee,
            !old(self).deposits_match(deposit_a, deposit_b) ==> result == Err::<
                (Tokens, Tokens, Tokens),
                PoolError,
            >(PoolError::UnknownAsset) && *final(self) == *old(self),
            old(self).deposits_match(deposit_a, deposit_b) ==> ({
                let m = old(self).reserve_a as int;
                let n = old(self).reserve_b as int;
                let s = old(self).share_supply as int;
                let dm = old(self).deposit_for_a(deposit_a, deposit_b);
                let dn = old(self).deposit_for_b(deposit_a, deposit_b);
                let aa = spec_accepted_a(m, n, dm, dn);
                let ab = spec_accepted_b(m, n, dm, dn);
                let minted = spec_minted_shares(m, s, aa);
                &&& 0 <= aa <= dm
                &&& 0 <= ab <= dn
                &&& result matches Ok(r) && r.0 == (Tokens {
                    asset: old(self).asset_a,
                    amount: (dm - aa) as u64,
                }) && r.1 == (Tokens { asset: old(self).asset_b, amount: (dn - ab) as u64 })
                    && r.2 == (Tokens { asset: old(self).share_asset, amount: minted as u64 })
                &&& final(self).reserve_a as int == m + aa
                &&& final(self).reserve_b as int == n + ab
                &&& final(self).share_supply as int == s + minted
            }),
            final(self).reserve_a >= old(self).reserve_a,
            final(self).reserve_b >= old(self).reserve_b,
            final(self).share_supply >= old(self).share_supply,
    {
        let (first, second) = if deposit_a.asset == self.asset_a && deposit_b.asset
            == self.asset_b {
            (deposit_a, deposit_b)
        } else if deposit_a.asset == self.asset_b && deposit_b.asset == self.asset_a {
            (deposit_b, deposit_a)
        } else {
            return Err(PoolError::UnknownAsset);
        };
        let dm = first.amount;
        let dn = second.amount;
        let m = self.reserve_a;
        let n = self.reserve_b;
        proof {
            assert(m as int * dn as int <= u64::MAX as int * u64::MAX as int && n as int
                * dm as int <= u64::MAX as int * u64::MAX as int) by (nonlinear_arith)
                requires
                    0 <= m as int <= u64::MAX as int,
                    0 <= n as int <= u64::MAX as int,
                    0 <= dm as int <= u64::MAX as int,
                    0 <= dn as int <= u64::MAX as int,
            ;
        }
        let cross_m: u128 = (m as u128) * (dn as u128);
        let cross_n: u128 = (n as u128) * (dm as u128);
        let (amount_a, amount_b): (u64, u64) = if m == 0 || n == 0 || cross_m == cross_n {
            (dm, dn)
        } else if cross_m < cross_n {
            proof {
                vstd::arithmetic::mul::lemma_mul_is_commutative(dn as int, m as int);
                lemma_multiply_divide_lt(dn as int * m as int, n as int, dm as int);
                lemma_div_pos_is_pos(dn as int * m as int, n as int);
            }
            (mul_div(dn, m, n), dn)
        } else {
            proof {
                vstd::arithmetic::mul::lemma_mul_is_commutative(dm as int, n as int);
                lemma_multiply_divide_lt(dm as int * n as int, m as int, dn as int);
                lemma_div_pos_is_pos(dm as int * n as int, m as int);
            }
            (dm, mul_div(dm, n, m))
        };
        proof {
            assert(amount_a as int == spec_accepted_a(m as int, n as int, dm as int, dn as int));
            assert(amount_b as int == spec_accepted_b(m as int, n as int, dm as int, dn as int));
        }
        let minted: u64 = if self.share_supply == 0 {
            BOOTSTRAP_SHARES
        } else {
            mul_div(amount_a, self.share_supply, m)
        };
        self.reserve_a = m + amount_a;
        self.reserve_b = n + amount_b;
        self.share_supply = self.share_supply + minted;
        Ok(
            (
                Tokens { asset: self.asset_a, amount: dm - amount_a },
                Tokens { asset: self.asset_b, amount: dn - amount_b },
                Tokens { asset: self.share_asset, amount: minted },
            ),
        )
    }

    /// Burns the given pool shares and pays out the share-proportional part
    /// of both reserves; burning the whole supply drains the pool exactly.
    pub fn remove_liquidity(&mut self, shares: Tokens) -> (result: Result<
        (Tokens, Tokens),
        PoolError,
    >)
        requires
            old(self).wf(),
            shares.asset == old(self).share_asset ==> 0 < old(self).share_supply && shares.amount
                <= old(self).share_supply,
        ensures
            final(self).wf(),
            final(self).asset_a == old(self).asset_a,
            final(self).asset_b == old(self).asset_b,
            final(self).share_asset == old(self).share_asset,
            final(self).fee == old(self).fee,
            shares.asset != old(self).share_asset ==> result == Err::<(Tokens, Tokens), PoolError>(
                PoolError::WrongShareToken,
            ) && *final(self) == *old(self),
            shares.asset == old(self).share_asset ==> ({
                let m = old(self).reserve_a as int;
                let n = old(self).reserve_b as int;
                let s = shares.amount as int;
                let supply = old(self).share_supply as int;
                let wa = spec_withdrawn(m, s, supply);
                let wb = spec_withdrawn(n, s, supply);
                &&& 0 <= wa <= m
                &&& 0 <= wb <= n
                &&& result matches Ok(r) && r.0 == (Tokens {
                    asset: old(self).asset_a,
                    amount: wa as u64,
                }) && r.1 == (Tokens { asset: old(self).asset_b, amount: wb as u64 })
                &&& final(self).reserve_a as int == m - wa
                &&& final(self).reserve_b as int == n - wb
                &&& final(self).share_supply as int == supply - s
                &&& s == supply ==> wa == m && wb == n && final(self).reserve_a == 0
                    && final(self).reserve_b == 0 && final(self).share_supply == 0
            }),
    {
        if shares.asset != self.share_asset {
            return Err(PoolError::WrongShareToken);
        }
        let m = self.reserve_a;
        let n = self.reserve_b;
        let s = shares.amount;
        let supply = self.share_supply;
        proof {
            lemma_mul_inequality(s as int, supply as int, m as int);
            vstd::arithmetic::mul::lemma_mul_is_commutative(s as int, m as int);
            vstd::arithmetic::mul::lemma_mul_is_commutative(supply as int, m as int);
            lemma_multiply_divide_le(m as int * s as int, supply as int, m as int);
            lemma_div_pos_is_pos(m as int * s as int, supply as int);
            lemma_mul_inequality(s as int, supply as int, n as int);
            vstd::arithmetic::mul::lemma_mul_is_commutative(s as int, n as int);
            vstd::arithmetic::mul::lemma_mul_is_commutative(supply as int, n as int);
            lemma_multiply_divide_le(n as int * s as int, supply as int, n as int);
            lemma_div_pos_is_pos(n as int * s as int, supply as int);
            if s == supply {
                lemma_div_by_multiple(m as int, supply as int);
                lemma_div_by_multiple(n as int, supply as int);
            }
        }
        let withdrawn_a: u64 = mul_div(m, s, supply);
        let withdrawn_b: u64 = mul_div(n, s, supply);
        self.reserve_a = m - withdrawn_a;
        self.reserve_b = n - withdrawn_b;
        self.share_supply = supply - s;
        Ok(
            (
                Tokens { asset: self.asset_a, amount: withdrawn_a },
                Tokens { asset: self.asset_b, amount: withdrawn_b },
            ),
        )
    }
}

/// Law: a liquidity deposit in the pool's exact current ratio is absorbed
/// whole, and the price `reserve_a / reserve_b` does not move: the reserves
/// after stand in the same ratio as the reserves before.  Since each such
/// deposit leaves the ratio intact, a sequence of them never moves the price.
pub proof fn lemma_add_at_even_ratio_preserves_price(m: int, n: int, dm: int, dn: int)
    requires
        m > 0,
        n > 0,
        m * dn == n * dm,
    ensures
        spec_accepted_a(m, n, dm, dn) == dm,
        spec_accepted_b(m, n, dm, dn) == dn,
        (m + dm) * n == (n + dn) * m,
{
    assert((m + dm) * n == (n + dn) * m) by (nonlinear_arith)
        requires
            m * dn == n * dm,
    ;
}

/// Law: a share-proportional withdrawal takes the same fraction of both
/// reserves, so it moves the price `reserve_a / reserve_b` only within
/// rounding: the cross products of the reserves before and after differ by
/// less than one reserve's worth on either side.
pub proof fn lemma_remove_preserves_price(m: int, n: int, s: int, supply: int)
    requires
        m > 0,
        n > 0,
        0 < s <= supply,
    ensures
        ({
            let wa = spec_withdrawn(m, s, supply);
            let wb = spec_withdrawn(n, s, supply);
            &&& (m - wa) * n - (n - wb) * m < n
            &&& (n - wb) * m - (m - wa) * n < m
        }),
{
    let wa = spec_withdrawn(m, s, supply);
    let wb = spec_withdrawn(n, s, supply);
    let ra = (m * s) % supply;
    let rb = (n * s) % supply;
    lemma_fundamental_div_mod(m * s, supply);
    lemma_mod_division_less_than_divisor(m * s, supply);
    lemma_fundamental_div_mod(n * s, supply);
    lemma_mod_division_less_than_divisor(n * s, supply);
    assert(supply * ((m - wa) * n - (n - wb) * m) == ra * n - rb * m) by (nonlinear_arith)
        requires
            m * s == supply * wa + ra,
            n * s == supply * wb + rb,
    ;
    assert((m - wa) * n - (n - wb) * m < n && (n - wb) * m - (m - wa) * n < m)
        by (nonlinear_arith)
        requires
            supply * ((m - wa) * n - (n - wb) * m) == ra * n - rb * m,
            0 <= ra < supply,
            0 <= rb < supply,
            m > 0,
            n > 0,
            supply > 0,
    ;
}

/// Law: on a pool with a positive share supply, adding liquidity and at once
/// removing exactly the shares just minted pays out at most the deposited
/// amounts (equal when nothing rounds), and leaves neither reserve below its
/// value before the deposit.
pub proof fn lemma_add_remove_round_trip(m: int, n: int, s: int, dm: int, dn: int)
    requires
        m > 0,
        n > 0,
        s > 0,
        dm >= 0,
        dn >= 0,
    ensures
        ({
            let aa = spec_accepted_a(m, n, dm, dn);
            let ab = spec_accepted_b(m, n, dm, dn);
            let minted = spec_minted_shares(m, s, aa);
            let wa = spec_withdrawn(m + aa, minted, s + minted);
            let wb = spec_withdrawn(n + ab, minted, s + minted);
            &&& 0 <= wa <= aa <= dm
            &&& 0 <= wb <= ab <= dn
            &&& m <= (m + aa) - wa
            &&& n <= (n + ab) - wb
        }),
{
    let aa = spec_accepted_a(m, n, dm, dn);
    let ab = spec_accepted_b(m, n, dm, dn);
    let minted = spec_minted_shares(m, s, aa);
    let wa = spec_withdrawn(m + aa, minted, s + minted);
    let wb = spec_withdrawn(n + ab, minted, s + minted);
    // Bounds on the accepted amounts, branch by branch.
    if spec_ratio_even(m, n, dm, dn) {
    } else if m * dn < n * dm {
        lemma_mul_is_commutative(dn, m);
        lemma_multiply_divide_lt(dn * m, n, dm);
        lemma_div_pos_is_pos(dn * m, n);
    } else {
        lemma_mul_is_commutative(dm, n);
        lemma_multiply_divide_lt(dm * n, m, dn);
        lemma_div_pos_is_pos(dm * n, m);
    }
    assert(0 <= aa <= dm);
    assert(0 <= ab <= dn);
    // The minted shares never claim more of the first reserve than was added:
    // m * minted <= aa * s.
    lemma_div_pos_is_pos(aa * s, m);
    lemma_fundamental_div_mod(aa * s, m);
    lemma_mod_division_less_than_divisor(aa * s, m);
    assert(m * minted <= aa * s);
    // Hence the withdrawal from the first reserve returns at most aa.
    assert((m + aa) * minted <= (s + minted) * aa) by (nonlinear_arith)
        requires
            m * minted <= aa * s,
            0 <= aa,
            0 <= minted,
    ;
    lemma_multiply_divide_le((m + aa) * minted, s + minted, aa);
    lemma_div_pos_is_pos((m + aa) * minted, s + minted);
    assert(0 <= wa <= aa);
    // On the second side the same holds up to the rounding of ab:
    // n * minted < (ab + 1) * s in every branch.
    if spec_ratio_even(m, n, dm, dn) {
        assert(n * minted <= ab * s) by (nonlinear_arith)
            requires
                m * minted <= aa * s,
                aa == dm,
                ab == dn,
                m * dn == n * dm,
                m > 0,
                n >= 0,
                s >= 0,
        ;
        assert(n * minted < (ab + 1) * s) by (nonlinear_arith)
            requires
                n * minted <= ab * s,
                s > 0,
        ;
    } else if m * dn < n * dm {
        lemma_fundamental_div_mod(dn * m, n);
        lemma_mod_division_less_than_divisor(dn * m, n);
        assert(n * aa <= dn * m);
        assert(n * minted <= ab * s) by (nonlinear_arith)
            requires
                m * minted <= aa * s,
                n * aa <= ab * m,
                m > 0,
                n >= 0,
                s >= 0,
                minted >= 0,
                aa >= 0,
                ab >= 0,
        ;
        assert(n * minted < (ab + 1) * s) by (nonlinear_arith)
            requires
                n * minted <= ab * s,
                s > 0,
        ;
    } else {
        lemma_fundamental_div_mod(dm * n, m);
        lemma_mod_division_less_than_divisor(dm * n, m);
        let r = (dm * n) % m;
        assert(dm * n < (ab + 1) * m) by (nonlinear_arith)
            requires
                dm * n == m * ab + r,
                r < m,
        ;
        assert(n * minted < (ab + 1) * s) by (nonlinear_arith)
            requires
                m * minted <= aa * s,
                aa == dm,
                dm * n < (ab + 1) * m,
                m > 0,
                n >= 0,
                s > 0,
                minted >= 0,
        ;
    }
    assert((n + ab) * minted < (ab + 1) * (s + minted)) by (nonlinear_arith)
        requires
            n * minted < (ab + 1) * s,
            0 <= ab,
            0 <= minted,
    ;
    lemma_multiply_divide_lt((n + ab) * minted, s + minted, ab + 1);
    lemma_div_pos_is_pos((n + ab) * minted, s + minted);
    assert(0 <= wb <= ab);
}

} // verus!

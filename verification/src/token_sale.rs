//! The fixed-price token sale: a reserve of tokens offered for sale, the
//! payments collected so far, and a price per whole token.
//!
//! Resource creation, the seller badge and the access rules that gate
//! `withdraw_funds` and `change_price` belong to the calling layer; here
//! stands the sale's own accounting, verified.

use vstd::prelude::*;

verus! {

use crate::pool::SUBUNITS_PER_TOKEN;
use crate::pool::mul_div;

/// Tokens minted for sale when the component is instantiated: one thousand
/// whole tokens.
pub const INITIAL_SALE_SUPPLY: u64 = 1000 * SUBUNITS_PER_TOKEN;

/// How many subunits of the sold token a payment buys: the payment divided
/// by the price of one whole token.
pub open spec fn spec_purchase_amount(funds: int, price: int) -> int {
    funds * (SUBUNITS_PER_TOKEN as int) / price
}

/// A fixed-price token sale.
pub struct TokenSale {
    /// Subunits of the sold token still held for sale.
    pub useful_token_reserve: u64,
    /// Subunits of the payment token collected from buyers.
    pub collected_payments: u64,
    /// Price of one whole sold token, in payment subunits.
    pub price_per_token: u64,
}

impl TokenSale {
    /// Opens a sale holding the freshly minted initial supply, with nothing
    /// collected yet, at the given price per whole token.
    pub fn instantiate_token_sale(price_per_token: u64) -> (sale: TokenSale)
        ensures
            sale == (TokenSale {
                useful_token_reserve: INITIAL_SALE_SUPPLY,
                collected_payments: 0,
                price_per_token,
            }),
    {
        TokenSale {
            useful_token_reserve: INITIAL_SALE_SUPPLY,
            collected_payments: 0,
            price_per_token,
        }
    }

    /// Takes a payment and hands out the amount of the sold token that the
    /// payment buys at the current price.
    pub fn buy(&mut self, funds: u64) -> (purchased: u64)
        requires
            old(self).price_per_token > 0,
            old(self).collected_payments + funds <= u64::MAX,
            spec_purchase_amount(funds as int, old(self).price_per_token as int) <= old(
                self,
            ).useful_token_reserve,
        ensures
            purchased as int == spec_purchase_amount(
                funds as int,
                old(self).price_per_token as int,
            ),
            final(self).useful_token_reserve == old(self).useful_token_reserve - purchased,
            final(self).collected_payments == old(self).collected_payments + funds,
            final(self).price_per_token == old(self).price_per_token,
    {
        proof {
            vstd::arithmetic::div_mod::lemma_div_pos_is_pos(
                funds as int * (SUBUNITS_PER_TOKEN as int),
                self.price_per_token as int,
            );
        }
        let purchased = mul_div(funds, SUBUNITS_PER_TOKEN, self.price_per_token);
        self.collected_payments = self.collected_payments + funds;
        self.useful_token_reserve = self.useful_token_reserve - purchased;
        purchased
    }

    /// Pays out part of the collected payments to the seller.
    pub fn withdraw_funds(&mut self, amount: u64) -> (withdrawn: u64)
        requires
            amount <= old(self).collected_payments,
        ensures
            withdrawn == amount,
            final(self).collected_payments == old(self).collected_payments - amount,
            final(self).useful_token_reserve == old(self).useful_token_reserve,
            final(self).price_per_token == old(self).price_per_token,
    {
        self.collected_payments = self.collected_payments - amount;
        amount
    }

    /// Sets a new price per whole token.
    pub fn change_price(&mut self, price: u64)
        ensures
            final(self).price_per_token == price,
            final(self).useful_token_reserve == old(self).useful_token_reserve,
            final(self).collected_payments == old(self).collected_payments,
    {
        self.price_per_token = price;
    }
}

} // verus!

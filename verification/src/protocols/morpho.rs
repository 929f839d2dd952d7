//! Liquidations on the optimizer deployments, which share one
//! `liquidate(address,address,address,uint256)` signature.

use vstd::prelude::*;

use crate::abi::{append4, append_word_addr, append_word_u256, lemma_word_u256_of_nat,
    word_addr, word_of_nat};
use crate::encoder::{pushes, sub_call_plain0, ExecutorEncoder};
use crate::types::{Address, Uint256};

verus! {

/// `liquidate(address,address,address,uint256)`, selector `0xaab3f868`.
pub open spec fn liquidate_calldata(
    borrowed: Address,
    collateral: Address,
    borrower: Address,
    amount: nat,
) -> Seq<u8> {
    seq![0xaau8, 0xb3u8, 0xf8u8, 0x68u8] + word_addr(borrowed) + word_addr(collateral)
        + word_addr(borrower) + word_of_nat(amount)
}

fn encode_liquidate(
    borrowed: &Address,
    collateral: &Address,
    borrower: &Address,
    amount: &Uint256,
) -> (r: Vec<u8>)
    ensures
        r@ == liquidate_calldata(*borrowed, *collateral, *borrower, amount@),
{
    let mut data: Vec<u8> = Vec::new();
    append4(&mut data, 0xaa, 0xb3, 0xf8, 0x68);
    append_word_addr(&mut data, borrowed);
    append_word_addr(&mut data, collateral);
    append_word_addr(&mut data, borrower);
    append_word_u256(&mut data, amount);
    proof {
        lemma_word_u256_of_nat(*amount);
    }
    data
}

impl ExecutorEncoder {
    /// Liquidates a position on the Compound-backed optimizer.
    pub fn morpho_compound_liquidate(
        &mut self,
        morpho_compound: Address,
        borrowed_pool_token: Address,
        collateral_pool_token: Address,
        borrower: Address,
        amount: Uint256,
    ) -> (r: &mut Self)
        requires
            old(self).wf(),
        ensures
            pushes(*old(self), *r, sub_call_plain0(morpho_compound, liquidate_calldata(
                borrowed_pool_token, collateral_pool_token, borrower, amount@)), 0),
            r.wf(),
            *final(self) == *final(r),
    {
        let data = encode_liquidate(&borrowed_pool_token, &collateral_pool_token, &borrower,
            &amount);
        self.push_plain0(morpho_compound, data)
    }

    /// Liquidates a position on the Aave-V2-backed optimizer.
    pub fn morpho_aave_v2_liquidate(
        &mut self,
        morpho_aave_v2: Address,
        borrowed_pool_token: Address,
        collateral_pool_token: Address,
        borrower: Address,
        amount: Uint256,
    ) -> (r: &mut Self)
        requires
            old(self).wf(),
        ensures
            pushes(*old(self), *r, sub_call_plain0(morpho_aave_v2, liquidate_calldata(
                borrowed_pool_token, collateral_pool_token, borrower, amount@)), 0),
            r.wf(),
            *final(self) == *final(r),
    {
        let data = encode_liquidate(&borrowed_pool_token, &collateral_pool_token, &borrower,
            &amount);
        self.push_plain0(morpho_aave_v2, data)
    }

    /// Liquidates a position on the Aave-V3-backed optimizer; the same
    /// selector, applied to underlying token addresses.
    pub fn morpho_aave_v3_liquidate(
        &mut self,
        morpho_aave_v3: Address,
        underlying_borrowed: Address,
        underlying_collateral: Address,
        borrower: Address,
        amount: Uint256,
    ) -> (r: &mut Self)
        requires
            old(self).wf(),
        ensures
            pushes(*old(self), *r, sub_call_plain0(morpho_aave_v3, liquidate_calldata(
                underlying_borrowed, underlying_collateral, borrower, amount@)), 0),
            r.wf(),
            *final(self) == *final(r),
    {
        let data = encode_liquidate(&underlying_borrowed, &underlying_collateral, &borrower,
            &amount);
        self.push_plain0(morpho_aave_v3, data)
    }
}

} // verus!

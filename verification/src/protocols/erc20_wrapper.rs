//! Deposit and withdrawal on token wrappers.

use vstd::prelude::*;

use crate::abi::{append4, append_word_addr, append_word_u256, append_zeros,
    lemma_word_of_nat_zero, lemma_word_u256_of_nat, word_addr, word_of_nat};
use crate::encoder::{pushes, sub_call_ph1, sub_call_plain0, ExecutorEncoder};
use crate::protocols::erc20::balance_of_calldata;
use crate::types::{Address, Uint256};

verus! {

/// `depositFor(address,uint256)`, selector `0x2f4f21e2`.
pub open spec fn deposit_for_calldata(owner: Address, amount: nat) -> Seq<u8> {
    seq![0x2fu8, 0x4fu8, 0x21u8, 0xe2u8] + word_addr(owner) + word_of_nat(amount)
}

/// `withdrawTo(address,uint256)`, selector `0x205c2878`.
pub open spec fn withdraw_to_calldata(receiver: Address, amount: nat) -> Seq<u8> {
    seq![0x20u8, 0x5cu8, 0x28u8, 0x78u8] + word_addr(receiver) + word_of_nat(amount)
}

impl ExecutorEncoder {
    /// Deposits `amount` of the underlying token into the wrapper on
    /// behalf of `on_behalf`.
    pub fn erc20_wrapper_deposit_for(
        &mut self,
        asset: Address,
        on_behalf: Address,
        amount: Uint256,
    ) -> (r: &mut Self)
        requires
            old(self).wf(),
        ensures
            pushes(*old(self), *r, sub_call_plain0(asset, deposit_for_calldata(on_behalf,
                amount@)), 0),
            r.wf(),
            *final(self) == *final(r),
    {
        let mut data: Vec<u8> = Vec::new();
        append4(&mut data, 0x2f, 0x4f, 0x21, 0xe2);
        append_word_addr(&mut data, &on_behalf);
        append_word_u256(&mut data, &amount);
        proof {
            lemma_word_u256_of_nat(amount);
        }
        self.push_plain0(asset, data)
    }

    /// Deposits the executor's entire balance of `underlying` into the
    /// wrapper on behalf of `on_behalf`, read at execution time through a
    /// placeholder patching the amount slot (byte 36).
    pub fn erc20_wrapper_deposit_all_for(
        &mut self,
        asset: Address,
        underlying: Address,
        on_behalf: Address,
    ) -> (r: &mut Self)
        requires
            old(self).wf(),
        ensures
            pushes(*old(self), *r, sub_call_ph1(asset, deposit_for_calldata(on_behalf, 0),
                underlying@, balance_of_calldata(old(self).address_spec()), 36, 32, 0), 0),
            r.wf(),
            *final(self) == *final(r),
    {
        let own = self.address();
        let ph = self.erc20_balance_of(underlying, own, 4 + 32);
        let mut data: Vec<u8> = Vec::new();
        append4(&mut data, 0x2f, 0x4f, 0x21, 0xe2);
        append_word_addr(&mut data, &on_behalf);
        append_zeros(&mut data, 32);
        proof {
            lemma_word_of_nat_zero();
        }
        self.push_ph1(asset, data, ph)
    }

    /// Withdraws `amount` from the wrapper to `receiver`.
    pub fn erc20_wrapper_withdraw_to(
        &mut self,
        asset: Address,
        receiver: Address,
        amount: Uint256,
    ) -> (r: &mut Self)
        requires
            old(self).wf(),
        ensures
            pushes(*old(self), *r, sub_call_plain0(asset, withdraw_to_calldata(receiver,
                amount@)), 0),
            r.wf(),
            *final(self) == *final(r),
    {
        let mut data: Vec<u8> = Vec::new();
        append4(&mut data, 0x20, 0x5c, 0x28, 0x78);
        append_word_addr(&mut data, &receiver);
        append_word_u256(&mut data, &amount);
        proof {
            lemma_word_u256_of_nat(amount);
        }
        self.push_plain0(asset, data)
    }

    /// Withdraws the executor's entire wrapper balance to `receiver`, read
    /// at execution time through a placeholder patching the amount slot
    /// (byte 36).
    pub fn erc20_wrapper_withdraw_all_to(
        &mut self,
        asset: Address,
        receiver: Address,
    ) -> (r: &mut Self)
        requires
            old(self).wf(),
        ensures
            pushes(*old(self), *r, sub_call_ph1(asset, withdraw_to_calldata(receiver, 0),
                asset@, balance_of_calldata(old(self).address_spec()), 36, 32, 0), 0),
            r.wf(),
            *final(self) == *final(r),
    {
        let own = self.address();
        let ph = self.erc20_balance_of(asset, own, 4 + 32);
        let mut data: Vec<u8> = Vec::new();
        append4(&mut data, 0x20, 0x5c, 0x28, 0x78);
        append_word_addr(&mut data, &receiver);
        append_zeros(&mut data, 32);
        proof {
            lemma_word_of_nat_zero();
        }
        self.push_ph1(asset, data, ph)
    }
}

} // verus!

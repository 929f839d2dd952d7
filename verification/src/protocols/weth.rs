//! Wrapping and unwrapping of the native token.

use vstd::prelude::*;

use crate::abi::{append4, append_word_u256, lemma_word_u256_of_nat, word_of_nat};
use crate::encoder::{pushes, sub_call_plain0, sub_call_value, ExecutorEncoder};
use crate::types::{u256_limit, Address, Uint256};

verus! {

/// `deposit()`, selector `0xd0e30db0`: the wrapped amount is the attached
/// native value.
pub open spec fn deposit_calldata() -> Seq<u8> {
    seq![0xd0u8, 0xe3u8, 0x0du8, 0xb0u8]
}

/// `withdraw(uint256)`, selector `0x2e1a7d4d`.
pub open spec fn withdraw_calldata(amount: nat) -> Seq<u8> {
    seq![0x2eu8, 0x1au8, 0x7du8, 0x4du8] + word_of_nat(amount)
}

impl ExecutorEncoder {
    /// Wraps `amount` of the native token by calling `deposit()` with
    /// `amount` attached as the sub-call's native value.
    pub fn wrap_eth(&mut self, weth: Address, amount: Uint256) -> (r: &mut Self)
        requires
            old(self).wf(),
            old(self).value_model() + amount@ < u256_limit(),
        ensures
            pushes(*old(self), *r, sub_call_value(weth, amount@, deposit_calldata()),
                amount@),
            r.wf(),
            *final(self) == *final(r),
    {
        let mut data: Vec<u8> = Vec::new();
        append4(&mut data, 0xd0, 0xe3, 0x0d, 0xb0);
        self.push_value(weth, amount, data)
    }

    /// Unwraps `amount` of the wrapped token by calling `withdraw(amount)`.
    pub fn unwrap_eth(&mut self, weth: Address, amount: Uint256) -> (r: &mut Self)
        requires
            old(self).wf(),
        ensures
            pushes(*old(self), *r, sub_call_plain0(weth, withdraw_calldata(amount@)), 0),
            r.wf(),
            *final(self) == *final(r),
    {
        let mut data: Vec<u8> = Vec::new();
        append4(&mut data, 0x2e, 0x1a, 0x7d, 0x4d);
        append_word_u256(&mut data, &amount);
        proof {
            lemma_word_u256_of_nat(amount);
        }
        self.push_plain0(weth, data)
    }
}

} // verus!

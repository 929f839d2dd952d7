//! Money-market operations against a cToken.

use vstd::prelude::*;

use crate::abi::{append4, append_word_addr, append_word_u256, lemma_word_u256_of_nat,
    word_addr, word_of_nat};
use crate::encoder::{pushes, sub_call_plain0, ExecutorEncoder};
use crate::types::{Address, Uint256};

verus! {

/// `mint(uint256)`, selector `0xa0712d68`.
pub open spec fn mint_calldata(amount: nat) -> Seq<u8> {
    seq![0xa0u8, 0x71u8, 0x2du8, 0x68u8] + word_of_nat(amount)
}

/// `borrow(uint256)`, selector `0xc5ebeaec`.
pub open spec fn borrow_calldata(amount: nat) -> Seq<u8> {
    seq![0xc5u8, 0xebu8, 0xeau8, 0xecu8] + word_of_nat(amount)
}

/// `repayBorrow(uint256)`, selector `0x0e752702`.
pub open spec fn repay_borrow_calldata(amount: nat) -> Seq<u8> {
    seq![0x0eu8, 0x75u8, 0x27u8, 0x02u8] + word_of_nat(amount)
}

/// `repayBorrowBehalf(address,uint256)`, selector `0x2608f818`.
pub open spec fn repay_borrow_behalf_calldata(beneficiary: Address, amount: nat) -> Seq<u8> {
    seq![0x26u8, 0x08u8, 0xf8u8, 0x18u8] + word_addr(beneficiary) + word_of_nat(amount)
}

/// `redeemUnderlying(uint256)`, selector `0x852a12e3`.
pub open spec fn redeem_underlying_calldata(amount: nat) -> Seq<u8> {
    seq![0x85u8, 0x2au8, 0x12u8, 0xe3u8] + word_of_nat(amount)
}

impl ExecutorEncoder {
    /// Supplies `amount` to the cToken by calling `mint`.
    pub fn compound_supply(&mut self, c_token: Address, amount: Uint256) -> (r: &mut Self)
        requires
            old(self).wf(),
        ensures
            pushes(*old(self), *r, sub_call_plain0(c_token, mint_calldata(amount@)), 0),
            r.wf(),
            *final(self) == *final(r),
    {
        let mut data: Vec<u8> = Vec::new();
        append4(&mut data, 0xa0, 0x71, 0x2d, 0x68);
        append_word_u256(&mut data, &amount);
        proof {
            lemma_word_u256_of_nat(amount);
        }
        self.push_plain0(c_token, data)
    }

    /// Borrows `amount` from the cToken.
    pub fn compound_borrow(&mut self, c_token: Address, amount: Uint256) -> (r: &mut Self)
        requires
            old(self).wf(),
        ensures
            pushes(*old(self), *r, sub_call_plain0(c_token, borrow_calldata(amount@)), 0),
            r.wf(),
            *final(self) == *final(r),
    {
        let mut data: Vec<u8> = Vec::new();
        append4(&mut data, 0xc5, 0xeb, 0xea, 0xec);
        append_word_u256(&mut data, &amount);
        proof {
            lemma_word_u256_of_nat(amount);
        }
        self.push_plain0(c_token, data)
    }

    /// Repays `amount` to the cToken; with a beneficiary, repays on that
    /// account's behalf.
    pub fn compound_repay(
        &mut self,
        c_token: Address,
        amount: Uint256,
        on_behalf_of: Option<Address>,
    ) -> (r: &mut Self)
        requires
            old(self).wf(),
        ensures
            on_behalf_of matches Some(b) ==> pushes(*old(self), *r, sub_call_plain0(c_token,
                repay_borrow_behalf_calldata(b, amount@)), 0),
            on_behalf_of is None ==> pushes(*old(self), *r, sub_call_plain0(c_token,
                repay_borrow_calldata(amount@)), 0),
            r.wf(),
            *final(self) == *final(r),
    {
        if let Some(beneficiary) = on_behalf_of {
            let mut data: Vec<u8> = Vec::new();
            append4(&mut data, 0x26, 0x08, 0xf8, 0x18);
            append_word_addr(&mut data, &beneficiary);
            append_word_u256(&mut data, &amount);
            proof {
                lemma_word_u256_of_nat(amount);
            }
            self.push_plain0(c_token, data)
        } else {
            let mut data: Vec<u8> = Vec::new();
            append4(&mut data, 0x0e, 0x75, 0x27, 0x02);
            append_word_u256(&mut data, &amount);
            proof {
                lemma_word_u256_of_nat(amount);
            }
            self.push_plain0(c_token, data)
        }
    }

    /// Withdraws `amount` from the cToken by calling `redeemUnderlying`.
    pub fn compound_withdraw(&mut self, c_token: Address, amount: Uint256) -> (r: &mut Self)
        requires
            old(self).wf(),
        ensures
            pushes(*old(self), *r, sub_call_plain0(c_token,
                redeem_underlying_calldata(amount@)), 0),
            r.wf(),
            *final(self) == *final(r),
    {
        let mut data: Vec<u8> = Vec::new();
        append4(&mut data, 0x85, 0x2a, 0x12, 0xe3);
        append_word_u256(&mut data, &amount);
        proof {
            lemma_word_u256_of_nat(amount);
        }
        self.push_plain0(c_token, data)
    }
}

} // verus!

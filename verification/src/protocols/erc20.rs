//! Token approvals, transfers, and the balance-reading placeholder.

use vstd::prelude::*;

use crate::abi::{append4, append_word_addr, append_word_u256, lemma_word_of_nat_zero,
    lemma_word_u256_of_nat, word_addr, word_of_nat};
use crate::encoder::{pushes, sub_call_ph1, sub_call_plain0, transfer_calldata,
    ExecutorEncoder};
use crate::types::{Address, Placeholder, Uint256};

verus! {

/// `approve(address,uint256)`, selector `0x095ea7b3`.
pub open spec fn approve_calldata(spender: Address, amount: nat) -> Seq<u8> {
    seq![0x09u8, 0x5eu8, 0xa7u8, 0xb3u8] + word_addr(spender) + word_of_nat(amount)
}

/// `transferFrom(address,address,uint256)`, selector `0x23b872dd`.
pub open spec fn transfer_from_calldata(owner: Address, recipient: Address, amount: nat) -> Seq<u8> {
    seq![0x23u8, 0xb8u8, 0x72u8, 0xddu8] + word_addr(owner) + word_addr(recipient)
        + word_of_nat(amount)
}

/// `balanceOf(address)`, selector `0x70a08231`.
pub open spec fn balance_of_calldata(owner: Address) -> Seq<u8> {
    seq![0x70u8, 0xa0u8, 0x82u8, 0x31u8] + word_addr(owner)
}

fn encode_approve(spender: &Address, amount: &Uint256) -> (r: Vec<u8>)
    ensures
        r@ == approve_calldata(*spender, amount@),
{
    let mut data: Vec<u8> = Vec::new();
    append4(&mut data, 0x09, 0x5e, 0xa7, 0xb3);
    append_word_addr(&mut data, spender);
    append_word_u256(&mut data, amount);
    proof {
        lemma_word_u256_of_nat(*amount);
    }
    data
}

fn encode_transfer(recipient: &Address, amount: &Uint256) -> (r: Vec<u8>)
    ensures
        r@ == transfer_calldata(*recipient, amount@),
{
    let mut data: Vec<u8> = Vec::new();
    append4(&mut data, 0xa9, 0x05, 0x9c, 0xbb);
    append_word_addr(&mut data, recipient);
    append_word_u256(&mut data, amount);
    proof {
        lemma_word_u256_of_nat(*amount);
    }
    data
}

impl ExecutorEncoder {
    /// The approve call wrapped as a stand-alone encoded sub-call, for use
    /// inside callback call lists (flash loan repayment approvals).
    pub fn build_erc20_approve(asset: Address, spender: Address, amount: Uint256) -> (r: Vec<u8>)
        ensures
            r@ == sub_call_plain0(asset, approve_calldata(spender, amount@)),
            r@.len() == 260,
    {
        let data = encode_approve(&spender, &amount);
        let zero = Uint256::from_u64(0);
        let r = Self::build_call(asset, zero, data, None, Vec::new());
        proof {
            lemma_word_of_nat_zero();
            crate::abi::lemma_pad32(68);
        }
        r
    }

    /// The transfer call wrapped as a stand-alone encoded sub-call, for use
    /// inside callback call lists (flash loan repayments).
    pub fn build_erc20_transfer(asset: Address, recipient: Address, amount: Uint256) -> (r: Vec<u8>)
        ensures
            r@ == sub_call_plain0(asset, transfer_calldata(recipient, amount@)),
            r@.len() == 260,
    {
        let data = encode_transfer(&recipient, &amount);
        let zero = Uint256::from_u64(0);
        let r = Self::build_call(asset, zero, data, None, Vec::new());
        proof {
            lemma_word_of_nat_zero();
            crate::abi::lemma_pad32(68);
        }
        r
    }

    /// A placeholder that reads `balanceOf(owner)` from `asset` and splices
    /// the 32-byte result into the prepared call data at byte `offset`.
    pub fn erc20_balance_of(&self, asset: Address, owner: Address, offset: u64) -> (r: Placeholder)
        ensures
            r.to == asset,
            r.data@ == balance_of_calldata(owner),
            r.offset == offset,
            r.length == 32,
            r.res_offset == 0,
    {
        let mut data: Vec<u8> = Vec::new();
        append4(&mut data, 0x70, 0xa0, 0x82, 0x31);
        append_word_addr(&mut data, &owner);
        Placeholder { to: asset, data, offset, length: 32, res_offset: 0 }
    }

    /// Approves `spender` to spend `allowance` of `asset`.
    pub fn erc20_approve(
        &mut self,
        asset: Address,
        spender: Address,
        allowance: Uint256,
    ) -> (r: &mut Self)
        requires
            old(self).wf(),
        ensures
            pushes(*old(self), *r, sub_call_plain0(asset, approve_calldata(spender,
                allowance@)), 0),
            r.wf(),
            *final(self) == *final(r),
    {
        let data = encode_approve(&spender, &allowance);
        self.push_plain0(asset, data)
    }

    /// Approves `spender` to spend the executor's entire balance of
    /// `asset`, read at execution time through a placeholder patching the
    /// amount slot (byte 36).
    pub fn erc20_approve_all(&mut self, asset: Address, spender: Address) -> (r: &mut Self)
        requires
            old(self).wf(),
        ensures
            pushes(*old(self), *r, sub_call_ph1(asset, approve_calldata(spender, 0), asset@,
                balance_of_calldata(old(self).address_spec()), 36, 32, 0), 0),
            r.wf(),
            *final(self) == *final(r),
    {
        let own = self.address();
        let ph = self.erc20_balance_of(asset, own, 4 + 32);
        let zero = Uint256::from_u64(0);
        let data = encode_approve(&spender, &zero);
        self.push_ph1(asset, data, ph)
    }

    /// Transfers `amount` of `asset` to `recipient`.
    pub fn erc20_transfer(
        &mut self,
        asset: Address,
        recipient: Address,
        amount: Uint256,
    ) -> (r: &mut Self)
        requires
            old(self).wf(),
        ensures
            pushes(*old(self), *r, sub_call_plain0(asset, transfer_calldata(recipient,
                amount@)), 0),
            r.wf(),
            *final(self) == *final(r),
    {
        let data = encode_transfer(&recipient, &amount);
        self.push_plain0(asset, data)
    }

    /// Transfers `amount` of `asset` from `owner` to `recipient`.
    pub fn erc20_transfer_from(
        &mut self,
        asset: Address,
        owner: Address,
        recipient: Address,
        amount: Uint256,
    ) -> (r: &mut Self)
        requires
            old(self).wf(),
        ensures
            pushes(*old(self), *r, sub_call_plain0(asset, transfer_from_calldata(owner,
                recipient, amount@)), 0),
            r.wf(),
            *final(self) == *final(r),
    {
        let mut data: Vec<u8> = Vec::new();
        append4(&mut data, 0x23, 0xb8, 0x72, 0xdd);
        append_word_addr(&mut data, &owner);
        append_word_addr(&mut data, &recipient);
        append_word_u256(&mut data, &amount);
        proof {
            lemma_word_u256_of_nat(amount);
        }
        self.push_plain0(asset, data)
    }

    /// Transfers the executor's entire balance of `asset` to `recipient`,
    /// read at execution time through a placeholder patching the amount
    /// slot (byte 36).
    pub fn erc20_skim(&mut self, asset: Address, recipient: Address) -> (r: &mut Self)
        requires
            old(self).wf(),
        ensures
            pushes(*old(self), *r, sub_call_ph1(asset, transfer_calldata(recipient, 0), asset@,
                balance_of_calldata(old(self).address_spec()), 36, 32, 0), 0),
            r.wf(),
            *final(self) == *final(r),
    {
        let own = self.address();
        let ph = self.erc20_balance_of(asset, own, 4 + 32);
        let zero = Uint256::from_u64(0);
        let data = encode_transfer(&recipient, &zero);
        self.push_ph1(asset, data, ph)
    }
}

} // verus!

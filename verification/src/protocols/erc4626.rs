//! Vault operations on the standard tokenized-vault interface.

use vstd::prelude::*;

use crate::abi::{append4, append_word_addr, append_word_u256, append_zeros,
    lemma_word_of_nat_zero, lemma_word_u256_of_nat, word_addr, word_of_nat};
use crate::encoder::{pushes, sub_call_ph1, sub_call_plain0, ExecutorEncoder};
use crate::protocols::erc20::balance_of_calldata;
use crate::types::{Address, Uint256};

verus! {

/// `deposit(uint256,address)`, selector `0x6e553f65`.
pub open spec fn deposit_calldata(assets: nat, receiver: Address) -> Seq<u8> {
    seq![0x6eu8, 0x55u8, 0x3fu8, 0x65u8] + word_of_nat(assets) + word_addr(receiver)
}

/// `mint(uint256,address)`, selector `0x94bf804d`.
pub open spec fn mint_calldata(shares: nat, receiver: Address) -> Seq<u8> {
    seq![0x94u8, 0xbfu8, 0x80u8, 0x4du8] + word_of_nat(shares) + word_addr(receiver)
}

/// `withdraw(uint256,address,address)`, selector `0xb460af94`.
pub open spec fn withdraw_calldata(assets: nat, receiver: Address, owner: Address) -> Seq<u8> {
    seq![0xb4u8, 0x60u8, 0xafu8, 0x94u8] + word_of_nat(assets) + word_addr(receiver)
        + word_addr(owner)
}

/// `redeem(uint256,address,address)`, selector `0xba087652`.
pub open spec fn redeem_calldata(shares: nat, receiver: Address, owner: Address) -> Seq<u8> {
    seq![0xbau8, 0x08u8, 0x76u8, 0x52u8] + word_of_nat(shares) + word_addr(receiver)
        + word_addr(owner)
}

impl ExecutorEncoder {
    /// Deposits `assets` into the vault, vault shares going to `owner`.
    pub fn erc4626_deposit(
        &mut self,
        vault: Address,
        assets: Uint256,
        owner: Address,
    ) -> (r: &mut Self)
        requires
            old(self).wf(),
        ensures
            pushes(*old(self), *r, sub_call_plain0(vault, deposit_calldata(assets@, owner)),
                0),
            r.wf(),
            *final(self) == *final(r),
    {
        let mut data: Vec<u8> = Vec::new();
        append4(&mut data, 0x6e, 0x55, 0x3f, 0x65);
        append_word_u256(&mut data, &assets);
        append_word_addr(&mut data, &owner);
        proof {
            lemma_word_u256_of_nat(assets);
        }
        self.push_plain0(vault, data)
    }

    /// Deposits the executor's entire balance of `asset` into the vault for
    /// `owner`, the amount read at execution time through a placeholder
    /// patching the assets slot (byte 4).
    pub fn erc4626_deposit_all(
        &mut self,
        vault: Address,
        asset: Address,
        owner: Address,
    ) -> (r: &mut Self)
        requires
            old(self).wf(),
        ensures
            pushes(*old(self), *r, sub_call_ph1(vault, deposit_calldata(0, owner), asset@,
                balance_of_calldata(old(self).address_spec()), 4, 32, 0), 0),
            r.wf(),
            *final(self) == *final(r),
    {
        let own = self.address();
        let ph = self.erc20_balance_of(asset, own, 4);
        let mut data: Vec<u8> = Vec::new();
        append4(&mut data, 0x6e, 0x55, 0x3f, 0x65);
        append_zeros(&mut data, 32);
        append_word_addr(&mut data, &owner);
        proof {
            lemma_word_of_nat_zero();
        }
        self.push_ph1(vault, data, ph)
    }

    /// Mints `shares` from the vault for `owner`.
    pub fn erc4626_mint(
        &mut self,
        vault: Address,
        shares: Uint256,
        owner: Address,
    ) -> (r: &mut Self)
        requires
            old(self).wf(),
        ensures
            pushes(*old(self), *r, sub_call_plain0(vault, mint_calldata(shares@, owner)), 0),
            r.wf(),
            *final(self) == *final(r),
    {
        let mut data: Vec<u8> = Vec::new();
        append4(&mut data, 0x94, 0xbf, 0x80, 0x4d);
        append_word_u256(&mut data, &shares);
        append_word_addr(&mut data, &owner);
        proof {
            lemma_word_u256_of_nat(shares);
        }
        self.push_plain0(vault, data)
    }

    /// Withdraws `assets` from the vault.
    pub fn erc4626_withdraw(
        &mut self,
        vault: Address,
        assets: Uint256,
        receiver: Address,
        owner: Address,
    ) -> (r: &mut Self)
        requires
            old(self).wf(),
        ensures
            pushes(*old(self), *r, sub_call_plain0(vault, withdraw_calldata(assets@,
                receiver, owner)), 0),
            r.wf(),
            *final(self) == *final(r),
    {
        let mut data: Vec<u8> = Vec::new();
        append4(&mut data, 0xb4, 0x60, 0xaf, 0x94);
        append_word_u256(&mut data, &assets);
        append_word_addr(&mut data, &receiver);
        append_word_addr(&mut data, &owner);
        proof {
            lemma_word_u256_of_nat(assets);
        }
        self.push_plain0(vault, data)
    }

    /// Redeems `shares` from the vault.
    pub fn erc4626_redeem(
        &mut self,
        vault: Address,
        shares: Uint256,
        receiver: Address,
        owner: Address,
    ) -> (r: &mut Self)
        requires
            old(self).wf(),
        ensures
            pushes(*old(self), *r, sub_call_plain0(vault, redeem_calldata(shares@, receiver,
                owner)), 0),
            r.wf(),
            *final(self) == *final(r),
    {
        let mut data: Vec<u8> = Vec::new();
        append4(&mut data, 0xba, 0x08, 0x76, 0x52);
        append_word_u256(&mut data, &shares);
        append_word_addr(&mut data, &receiver);
        append_word_addr(&mut data, &owner);
        proof {
            lemma_word_u256_of_nat(shares);
        }
        self.push_plain0(vault, data)
    }

    /// Redeems the executor's entire share balance, read at execution time
    /// through a placeholder patching the shares slot (byte 4).
    pub fn erc4626_redeem_all(
        &mut self,
        vault: Address,
        receiver: Address,
        owner: Address,
    ) -> (r: &mut Self)
        requires
            old(self).wf(),
        ensures
            pushes(*old(self), *r, sub_call_ph1(vault, redeem_calldata(0, receiver, owner),
                vault@, balance_of_calldata(old(self).address_spec()), 4, 32, 0), 0),
            r.wf(),
            *final(self) == *final(r),
    {
        let own = self.address();
        let ph = self.erc20_balance_of(vault, own, 4);
        let mut data: Vec<u8> = Vec::new();
        append4(&mut data, 0xba, 0x08, 0x76, 0x52);
        append_zeros(&mut data, 32);
        append_word_addr(&mut data, &receiver);
        append_word_addr(&mut data, &owner);
        proof {
            lemma_word_of_nat_zero();
        }
        self.push_ph1(vault, data, ph)
    }
}

} // verus!

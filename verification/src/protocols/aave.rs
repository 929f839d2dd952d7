//! Lending-pool operations: supply, borrow, repay, withdraw, liquidate.

use vstd::prelude::*;

use crate::abi::{append4, append_word_addr, append_word_u256, append_word_u64,
    lemma_word_u256_of_nat, word_addr, word_of_nat, word_u64};
use crate::encoder::{pushes, sub_call_plain0, ExecutorEncoder};
use crate::types::{Address, Uint256};

verus! {

/// An optional account defaulting to the executor itself.
pub open spec fn or_self(opt: Option<Address>, own: Address) -> Address {
    match opt {
        Option::Some(a) => a,
        Option::None => own,
    }
}

/// `deposit(address,uint256,address,uint16)`, selector `0xe8eda9df`, with
/// referral code zero.
pub open spec fn supply_calldata(asset: Address, amount: nat, on_behalf_of: Address) -> Seq<u8> {
    seq![0xe8u8, 0xedu8, 0xa9u8, 0xdfu8] + word_addr(asset) + word_of_nat(amount)
        + word_addr(on_behalf_of) + word_u64(0)
}

/// `borrow(address,uint256,uint256,uint16,address)`, selector
/// `0xa415bcad`, with referral code zero.
pub open spec fn borrow_calldata(
    asset: Address,
    amount: nat,
    interest_rate_mode: nat,
    on_behalf_of: Address,
) -> Seq<u8> {
    seq![0xa4u8, 0x15u8, 0xbcu8, 0xadu8] + word_addr(asset) + word_of_nat(amount)
        + word_of_nat(interest_rate_mode) + word_u64(0) + word_addr(on_behalf_of)
}

/// `repay(address,uint256,uint256,address)`, selector `0x573ade81`.
pub open spec fn repay_calldata(
    asset: Address,
    amount: nat,
    interest_rate_mode: nat,
    on_behalf_of: Address,
) -> Seq<u8> {
    seq![0x57u8, 0x3au8, 0xdeu8, 0x81u8] + word_addr(asset) + word_of_nat(amount)
        + word_of_nat(interest_rate_mode) + word_addr(on_behalf_of)
}

/// `withdraw(address,uint256,address)`, selector `0x69328dec`.
pub open spec fn withdraw_calldata(asset: Address, amount: nat, to: Address) -> Seq<u8> {
    seq![0x69u8, 0x32u8, 0x8du8, 0xecu8] + word_addr(asset) + word_of_nat(amount)
        + word_addr(to)
}

/// `liquidationCall(address,address,address,uint256,bool)`, selector
/// `0x00a718a9`, never receiving the wrapped collateral token.
pub open spec fn liquidation_calldata(
    collateral: Address,
    debt: Address,
    user: Address,
    amount: nat,
) -> Seq<u8> {
    seq![0x00u8, 0xa7u8, 0x18u8, 0xa9u8] + word_addr(collateral) + word_addr(debt)
        + word_addr(user) + word_of_nat(amount) + word_u64(0)
}

impl ExecutorEncoder {
    /// Supplies `amount` of `asset` to the pool.
    pub fn aave_supply(
        &mut self,
        pool: Address,
        asset: Address,
        amount: Uint256,
        on_behalf_of: Option<Address>,
    ) -> (r: &mut Self)
        requires
            old(self).wf(),
        ensures
            pushes(*old(self), *r, sub_call_plain0(pool, supply_calldata(asset, amount@,
                or_self(on_behalf_of, old(self).address_spec()))), 0),
            r.wf(),
            *final(self) == *final(r),
    {
        let ob = match on_behalf_of {
            Some(a) => a,
            None => self.address(),
        };
        let mut data: Vec<u8> = Vec::new();
        append4(&mut data, 0xe8, 0xed, 0xa9, 0xdf);
        append_word_addr(&mut data, &asset);
        append_word_u256(&mut data, &amount);
        append_word_addr(&mut data, &ob);
        append_word_u64(&mut data, 0);
        proof {
            lemma_word_u256_of_nat(amount);
        }
        self.push_plain0(pool, data)
    }

    /// Borrows `amount` of `asset` from the pool.
    pub fn aave_borrow(
        &mut self,
        pool: Address,
        asset: Address,
        amount: Uint256,
        interest_rate_mode: Uint256,
        on_behalf_of: Option<Address>,
    ) -> (r: &mut Self)
        requires
            old(self).wf(),
        ensures
            pushes(*old(self), *r, sub_call_plain0(pool, borrow_calldata(asset, amount@,
                interest_rate_mode@, or_self(on_behalf_of, old(self).address_spec()))), 0),
            r.wf(),
            *final(self) == *final(r),
    {
        let ob = match on_behalf_of {
            Some(a) => a,
            None => self.address(),
        };
        let mut data: Vec<u8> = Vec::new();
        append4(&mut data, 0xa4, 0x15, 0xbc, 0xad);
        append_word_addr(&mut data, &asset);
        append_word_u256(&mut data, &amount);
        append_word_u256(&mut data, &interest_rate_mode);
        append_word_u64(&mut data, 0);
        append_word_addr(&mut data, &ob);
        proof {
            lemma_word_u256_of_nat(amount);
            lemma_word_u256_of_nat(interest_rate_mode);
        }
        self.push_plain0(pool, data)
    }

    /// Repays `amount` of `asset` to the pool.
    pub fn aave_repay(
        &mut self,
        pool: Address,
        asset: Address,
        amount: Uint256,
        interest_rate_mode: Uint256,
        on_behalf_of: Option<Address>,
    ) -> (r: &mut Self)
        requires
            old(self).wf(),
        ensures
            pushes(*old(self), *r, sub_call_plain0(pool, repay_calldata(asset, amount@,
                interest_rate_mode@, or_self(on_behalf_of, old(self).address_spec()))), 0),
            r.wf(),
            *final(self) == *final(r),
    {
        let ob = match on_behalf_of {
            Some(a) => a,
            None => self.address(),
        };
        let mut data: Vec<u8> = Vec::new();
        append4(&mut data, 0x57, 0x3a, 0xde, 0x81);
        append_word_addr(&mut data, &asset);
        append_word_u256(&mut data, &amount);
        append_word_u256(&mut data, &interest_rate_mode);
        append_word_addr(&mut data, &ob);
        proof {
            lemma_word_u256_of_nat(amount);
            lemma_word_u256_of_nat(interest_rate_mode);
        }
        self.push_plain0(pool, data)
    }

    /// Withdraws `amount` of `asset` from the pool.
    pub fn aave_withdraw(
        &mut self,
        pool: Address,
        asset: Address,
        amount: Uint256,
        to: Option<Address>,
    ) -> (r: &mut Self)
        requires
            old(self).wf(),
        ensures
            pushes(*old(self), *r, sub_call_plain0(pool, withdraw_calldata(asset, amount@,
                or_self(to, old(self).address_spec()))), 0),
            r.wf(),
            *final(self) == *final(r),
    {
        let receiver = match to {
            Some(a) => a,
            None => self.address(),
        };
        let mut data: Vec<u8> = Vec::new();
        append4(&mut data, 0x69, 0x32, 0x8d, 0xec);
        append_word_addr(&mut data, &asset);
        append_word_u256(&mut data, &amount);
        append_word_addr(&mut data, &receiver);
        proof {
            lemma_word_u256_of_nat(amount);
        }
        self.push_plain0(pool, data)
    }

    /// Liquidates a position on the pool, covering `amount` of `debt`
    /// against `user`'s `collateral`.
    pub fn aave_liquidate(
        &mut self,
        pool: Address,
        collateral: Address,
        debt: Address,
        user: Address,
        amount: Uint256,
    ) -> (r: &mut Self)
        requires
            old(self).wf(),
        ensures
            pushes(*old(self), *r, sub_call_plain0(pool, liquidation_calldata(collateral,
                debt, user, amount@)), 0),
            r.wf(),
            *final(self) == *final(r),
    {
        let mut data: Vec<u8> = Vec::new();
        append4(&mut data, 0x00, 0xa7, 0x18, 0xa9);
        append_word_addr(&mut data, &collateral);
        append_word_addr(&mut data, &debt);
        append_word_addr(&mut data, &user);
        append_word_u256(&mut data, &amount);
        append_word_u64(&mut data, 0);
        proof {
            lemma_word_u256_of_nat(amount);
        }
        self.push_plain0(pool, data)
    }
}

} // verus!

//! Operations on the isolated-market lending protocol.  Its market
//! parameter struct is static — five words inlined in the call data head —
//! and several operations take a callback payload that re-enters the
//! executor (callback data index 1 for every one of them).

use vstd::prelude::*;

use crate::abi::{append4, append_word_addr, append_word_u256, append_word_u64,
    append_bytes_enc, cb_list_ok, lemma_pad32, lemma_word_u256_of_nat, views, word_addr,
    word_of_nat, word_u64};
use crate::encoder::{callback_data_spec, encode_callback_data, lemma_callback_data_len,
    opt_call_views, pushes, sub_call_ctx0, ExecutorEncoder};
use crate::types::{Address, MarketParams, Uint256};

verus! {

/// The five static words of a market parameter struct: loan token,
/// collateral token, oracle, interest rate model, loan-to-value limit.
pub open spec fn market_words(m: MarketParams) -> Seq<u8> {
    word_addr(m.loan_token) + word_addr(m.collateral_token) + word_addr(m.oracle)
        + word_addr(m.irm) + word_of_nat(m.lltv@)
}

/// `supplyCollateral((address,address,address,address,uint256),uint256,
/// address,bytes)`, selector `0x238d6579`.
pub open spec fn supply_collateral_calldata(
    m: MarketParams,
    assets: nat,
    on_behalf: Address,
    cb: Seq<u8>,
) -> Seq<u8> {
    seq![0x23u8, 0x8du8, 0x65u8, 0x79u8] + market_words(m) + word_of_nat(assets)
        + word_addr(on_behalf) + word_u64(256) + crate::abi::bytes_enc(cb)
}

/// `withdrawCollateral((address,address,address,address,uint256),uint256,
/// address,address)`, selector `0x8720316d`.
pub open spec fn withdraw_collateral_calldata(
    m: MarketParams,
    assets: nat,
    on_behalf: Address,
    receiver: Address,
) -> Seq<u8> {
    seq![0x87u8, 0x20u8, 0x31u8, 0x6du8] + market_words(m) + word_of_nat(assets)
        + word_addr(on_behalf) + word_addr(receiver)
}

/// `supply((address,address,address,address,uint256),uint256,uint256,
/// address,bytes)`, selector `0xa99aad89`.
pub open spec fn supply_calldata(
    m: MarketParams,
    assets: nat,
    shares: nat,
    on_behalf: Address,
    cb: Seq<u8>,
) -> Seq<u8> {
    seq![0xa9u8, 0x9au8, 0xadu8, 0x89u8] + market_words(m) + word_of_nat(assets)
        + word_of_nat(shares) + word_addr(on_behalf) + word_u64(288)
        + crate::abi::bytes_enc(cb)
}

/// `withdraw((address,address,address,address,uint256),uint256,uint256,
/// address,address)`, selector `0x5c2bea49`.
pub open spec fn withdraw_calldata(
    m: MarketParams,
    assets: nat,
    shares: nat,
    on_behalf: Address,
    receiver: Address,
) -> Seq<u8> {
    seq![0x5cu8, 0x2bu8, 0xeau8, 0x49u8] + market_words(m) + word_of_nat(assets)
        + word_of_nat(shares) + word_addr(on_behalf) + word_addr(receiver)
}

/// `repay((address,address,address,address,uint256),uint256,uint256,
/// address,bytes)`, selector `0x20b76e81`.
pub open spec fn repay_calldata(
    m: MarketParams,
    assets: nat,
    shares: nat,
    on_behalf: Address,
    cb: Seq<u8>,
) -> Seq<u8> {
    seq![0x20u8, 0xb7u8, 0x6eu8, 0x81u8] + market_words(m) + word_of_nat(assets)
        + word_of_nat(shares) + word_addr(on_behalf) + word_u64(288)
        + crate::abi::bytes_enc(cb)
}

/// `borrow((address,address,address,address,uint256),uint256,uint256,
/// address,address)`, selector `0x50d8cd4b`.
pub open spec fn borrow_calldata(
    m: MarketParams,
    assets: nat,
    shares: nat,
    on_behalf: Address,
    receiver: Address,
) -> Seq<u8> {
    seq![0x50u8, 0xd8u8, 0xcdu8, 0x4bu8] + market_words(m) + word_of_nat(assets)
        + word_of_nat(shares) + word_addr(on_behalf) + word_addr(receiver)
}

/// `liquidate((address,address,address,address,uint256),address,uint256,
/// uint256,bytes)`, selector `0xd8eabcb8`.
pub open spec fn liquidate_calldata(
    m: MarketParams,
    borrower: Address,
    seized_assets: nat,
    repaid_shares: nat,
    cb: Seq<u8>,
) -> Seq<u8> {
    seq![0xd8u8, 0xeau8, 0xbcu8, 0xb8u8] + market_words(m) + word_addr(borrower)
        + word_of_nat(seized_assets) + word_of_nat(repaid_shares) + word_u64(288)
        + crate::abi::bytes_enc(cb)
}

/// The callback payload used by every callback-taking operation here: the
/// given sub-calls and an empty return value.
pub open spec fn blue_cb(callback_calls: Option<Vec<Vec<u8>>>) -> Seq<u8> {
    callback_data_spec(opt_call_views(callback_calls), Seq::empty())
}

fn append_market(buf: &mut Vec<u8>, m: &MarketParams)
    ensures
        final(buf)@ == old(buf)@ + market_words(*m),
{
    append_word_addr(buf, &m.loan_token);
    append_word_addr(buf, &m.collateral_token);
    append_word_addr(buf, &m.oracle);
    append_word_addr(buf, &m.irm);
    append_word_u256(buf, &m.lltv);
    proof {
        lemma_word_u256_of_nat(m.lltv);
        assert(buf@ =~= old(buf)@ + market_words(*m));
    }
}

/// Builds the callback payload of an optional call list.
fn encode_blue_cb(callback_calls: Option<Vec<Vec<u8>>>) -> (r: Vec<u8>)
    requires
        cb_list_ok(opt_call_views(callback_calls)),
    ensures
        r@ == blue_cb(callback_calls),
        r@.len() < 0x2000_0000,
{
    let cb = match callback_calls {
        Some(v) => v,
        None => Vec::new(),
    };
    proof {
        if callback_calls is None {
            assert(views(cb@) =~= Seq::<Seq<u8>>::empty());
        }
        lemma_callback_data_len(views(cb@), Seq::empty());
    }
    let empty: Vec<u8> = Vec::new();
    encode_callback_data(cb, empty)
}

impl ExecutorEncoder {
    /// Supplies collateral to a market, with optional callback sub-calls.
    pub fn morpho_blue_supply_collateral(
        &mut self,
        morpho_blue: Address,
        market: &MarketParams,
        collateral: Uint256,
        on_behalf: Address,
        callback_calls: Option<Vec<Vec<u8>>>,
    ) -> (r: &mut Self)
        requires
            old(self).wf(),
            cb_list_ok(opt_call_views(callback_calls)),
        ensures
            pushes(*old(self), *r, sub_call_ctx0(morpho_blue, morpho_blue, 1,
                supply_collateral_calldata(*market, collateral@, on_behalf,
                blue_cb(callback_calls))), 0),
            r.wf(),
            *final(self) == *final(r),
    {
        let cb = encode_blue_cb(callback_calls);
        let mut data: Vec<u8> = Vec::new();
        append4(&mut data, 0x23, 0x8d, 0x65, 0x79);
        append_market(&mut data, market);
        append_word_u256(&mut data, &collateral);
        append_word_addr(&mut data, &on_behalf);
        append_word_u64(&mut data, 256);
        append_bytes_enc(&mut data, &cb);
        proof {
            lemma_word_u256_of_nat(collateral);
            lemma_pad32(cb@.len());
            assert(data@ =~= supply_collateral_calldata(*market, collateral@, on_behalf,
                blue_cb(callback_calls)));
        }
        self.push_ctx0(morpho_blue, morpho_blue, 1, data)
    }

    /// Withdraws collateral from a market.
    pub fn morpho_blue_withdraw_collateral(
        &mut self,
        morpho_blue: Address,
        market: &MarketParams,
        collateral: Uint256,
        on_behalf: Address,
        receiver: Address,
    ) -> (r: &mut Self)
        requires
            old(self).wf(),
        ensures
            pushes(*old(self), *r, crate::encoder::sub_call_plain0(morpho_blue,
                withdraw_collateral_calldata(*market, collateral@, on_behalf, receiver)), 0),
            r.wf(),
            *final(self) == *final(r),
    {
        let mut data: Vec<u8> = Vec::new();
        append4(&mut data, 0x87, 0x20, 0x31, 0x6d);
        append_market(&mut data, market);
        append_word_u256(&mut data, &collateral);
        append_word_addr(&mut data, &on_behalf);
        append_word_addr(&mut data, &receiver);
        proof {
            lemma_word_u256_of_nat(collateral);
        }
        self.push_plain0(morpho_blue, data)
    }

    /// Supplies loan assets to a market, with optional callback sub-calls.
    pub fn morpho_blue_supply(
        &mut self,
        morpho_blue: Address,
        market: &MarketParams,
        assets: Uint256,
        shares: Uint256,
        on_behalf: Address,
        callback_calls: Option<Vec<Vec<u8>>>,
    ) -> (r: &mut Self)
        requires
            old(self).wf(),
            cb_list_ok(opt_call_views(callback_calls)),
        ensures
            pushes(*old(self), *r, sub_call_ctx0(morpho_blue, morpho_blue, 1,
                supply_calldata(*market, assets@, shares@, on_behalf,
                blue_cb(callback_calls))), 0),
            r.wf(),
            *final(self) == *final(r),
    {
        let cb = encode_blue_cb(callback_calls);
        let mut data: Vec<u8> = Vec::new();
        append4(&mut data, 0xa9, 0x9a, 0xad, 0x89);
        append_market(&mut data, market);
        append_word_u256(&mut data, &assets);
        append_word_u256(&mut data, &shares);
        append_word_addr(&mut data, &on_behalf);
        append_word_u64(&mut data, 288);
        append_bytes_enc(&mut data, &cb);
        proof {
            lemma_word_u256_of_nat(assets);
            lemma_word_u256_of_nat(shares);
            lemma_pad32(cb@.len());
            assert(data@ =~= supply_calldata(*market, assets@, shares@, on_behalf,
                blue_cb(callback_calls)));
        }
        self.push_ctx0(morpho_blue, morpho_blue, 1, data)
    }

    /// Withdraws loan assets from a market.
    pub fn morpho_blue_withdraw(
        &mut self,
        morpho_blue: Address,
        market: &MarketParams,
        assets: Uint256,
        shares: Uint256,
        on_behalf: Address,
        receiver: Address,
    ) -> (r: &mut Self)
        requires
            old(self).wf(),
        ensures
            pushes(*old(self), *r, crate::encoder::sub_call_plain0(morpho_blue,
                withdraw_calldata(*market, assets@, shares@, on_behalf, receiver)), 0),
            r.wf(),
            *final(self) == *final(r),
    {
        let mut data: Vec<u8> = Vec::new();
        append4(&mut data, 0x5c, 0x2b, 0xea, 0x49);
        append_market(&mut data, market);
        append_word_u256(&mut data, &assets);
        append_word_u256(&mut data, &shares);
        append_word_addr(&mut data, &on_behalf);
        append_word_addr(&mut data, &receiver);
        proof {
            lemma_word_u256_of_nat(assets);
            lemma_word_u256_of_nat(shares);
        }
        self.push_plain0(morpho_blue, data)
    }

    /// Repays a market debt, with optional callback sub-calls.
    pub fn morpho_blue_repay(
        &mut self,
        morpho_blue: Address,
        market: &MarketParams,
        assets: Uint256,
        shares: Uint256,
        on_behalf: Address,
        callback_calls: Option<Vec<Vec<u8>>>,
    ) -> (r: &mut Self)
        requires
            old(self).wf(),
            cb_list_ok(opt_call_views(callback_calls)),
        ensures
            pushes(*old(self), *r, sub_call_ctx0(morpho_blue, morpho_blue, 1,
                repay_calldata(*market, assets@, shares@, on_behalf,
                blue_cb(callback_calls))), 0),
            r.wf(),
            *final(self) == *final(r),
    {
        let cb = encode_blue_cb(callback_calls);
        let mut data: Vec<u8> = Vec::new();
        append4(&mut data, 0x20, 0xb7, 0x6e, 0x81);
        append_market(&mut data, market);
        append_word_u256(&mut data, &assets);
        append_word_u256(&mut data, &shares);
        append_word_addr(&mut data, &on_behalf);
        append_word_u64(&mut data, 288);
        append_bytes_enc(&mut data, &cb);
        proof {
            lemma_word_u256_of_nat(assets);
            lemma_word_u256_of_nat(shares);
            lemma_pad32(cb@.len());
            assert(data@ =~= repay_calldata(*market, assets@, shares@, on_behalf,
                blue_cb(callback_calls)));
        }
        self.push_ctx0(morpho_blue, morpho_blue, 1, data)
    }

    /// Borrows from a market.
    pub fn morpho_blue_borrow(
        &mut self,
        morpho_blue: Address,
        market: &MarketParams,
        assets: Uint256,
        shares: Uint256,
        on_behalf: Address,
        receiver: Address,
    ) -> (r: &mut Self)
        requires
            old(self).wf(),
        ensures
            pushes(*old(self), *r, crate::encoder::sub_call_plain0(morpho_blue,
                borrow_calldata(*market, assets@, shares@, on_behalf, receiver)), 0),
            r.wf(),
            *final(self) == *final(r),
    {
        let mut data: Vec<u8> = Vec::new();
        append4(&mut data, 0x50, 0xd8, 0xcd, 0x4b);
        append_market(&mut data, market);
        append_word_u256(&mut data, &assets);
        append_word_u256(&mut data, &shares);
        append_word_addr(&mut data, &on_behalf);
        append_word_addr(&mut data, &receiver);
        proof {
            lemma_word_u256_of_nat(assets);
            lemma_word_u256_of_nat(shares);
        }
        self.push_plain0(morpho_blue, data)
    }

    /// Liquidates a market position, with optional callback sub-calls.
    pub fn morpho_blue_liquidate(
        &mut self,
        morpho_blue: Address,
        market: &MarketParams,
        borrower: Address,
        seized_assets: Uint256,
        repaid_shares: Uint256,
        callback_calls: Option<Vec<Vec<u8>>>,
    ) -> (r: &mut Self)
        requires
            old(self).wf(),
            cb_list_ok(opt_call_views(callback_calls)),
        ensures
            pushes(*old(self), *r, sub_call_ctx0(morpho_blue, morpho_blue, 1,
                liquidate_calldata(*market, borrower, seized_assets@, repaid_shares@,
                blue_cb(callback_calls))), 0),
            r.wf(),
            *final(self) == *final(r),
    {
        let cb = encode_blue_cb(callback_calls);
        let mut data: Vec<u8> = Vec::new();
        append4(&mut data, 0xd8, 0xea, 0xbc, 0xb8);
        append_market(&mut data, market);
        append_word_addr(&mut data, &borrower);
        append_word_u256(&mut data, &seized_assets);
        append_word_u256(&mut data, &repaid_shares);
        append_word_u64(&mut data, 288);
        append_bytes_enc(&mut data, &cb);
        proof {
            lemma_word_u256_of_nat(seized_assets);
            lemma_word_u256_of_nat(repaid_shares);
            lemma_pad32(cb@.len());
            assert(data@ =~= liquidate_calldata(*market, borrower, seized_assets@,
                repaid_shares@, blue_cb(callback_calls)));
        }
        self.push_ctx0(morpho_blue, morpho_blue, 1, data)
    }
}

} // verus!

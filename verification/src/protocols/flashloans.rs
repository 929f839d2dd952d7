//! Flash loans: each integration builds the inner sub-call list to run
//! once funds arrive, appends the protocol-mandated repayment or approval
//! calls, wraps the list with the protocol's fixed return value as the
//! callback payload, and pushes one sub-call whose callback context names
//! the lender and the position of the `bytes` argument in that lender's
//! callback signature.

use vstd::prelude::*;

use crate::abi::{addr_words, append4, append_bytes_enc, append_word_addr, append_word_u256,
    append_word_u64, append_zeros, bytes_enc, cb_list_ok, lemma_addr_words_len,
    lemma_nat_words_len, lemma_pad32, lemma_word_u256_of_nat, nat_words, views, word_addr,
    word_of_nat, word_u64, zero_seq};
use crate::encoder::{callback_data_spec, encode_callback_data, lemma_callback_data_len,
    lemma_views_push, opt_call_views, pushes, sub_call_ctx0, sub_call_plain0,
    transfer_calldata, ExecutorEncoder};
use crate::keccak::{keccak256_str, keccak_bytes};
use crate::math::{mul_div_up, percent_mul};
use crate::protocols::erc20::approve_calldata;
use crate::types::{u256_limit, Address, AssetRequest, Uint256};
use crate::u256::u256_checked_add;

verus! {

/// The addresses of a request list.
pub open spec fn assets_of(requests: Seq<AssetRequest>) -> Seq<Address> {
    Seq::new(requests.len(), |i: int| requests[i].asset)
}

/// The amounts of a request list.
pub open spec fn amounts_of(requests: Seq<AssetRequest>) -> Seq<nat> {
    Seq::new(requests.len(), |i: int| requests[i].amount@)
}

/// One repayment transfer per requested asset, back to the lender.
pub open spec fn repay_calls(vault: Address, requests: Seq<AssetRequest>) -> Seq<Seq<u8>> {
    Seq::new(requests.len(), |i: int| sub_call_plain0(requests[i].asset,
        transfer_calldata(vault, requests[i].amount@)))
}

/// The amount owed back under a premium in basis points, rounded half-up.
pub open spec fn owed_with_premium(amount: nat, premium: nat) -> nat {
    amount + (amount * premium + 5000) / 10000
}

/// One repayment approval per requested asset, for principal plus premium.
pub open spec fn premium_approve_calls(
    pool: Address,
    requests: Seq<AssetRequest>,
    premium: nat,
) -> Seq<Seq<u8>> {
    Seq::new(requests.len(), |i: int| sub_call_plain0(requests[i].asset,
        approve_calldata(pool, owed_with_premium(requests[i].amount@, premium))))
}

/// The pool fee owed on a flash of `amount` at `fee` parts per million,
/// rounded up.
pub open spec fn pool_fee(amount: nat, fee: nat) -> nat {
    (amount * fee + 999_999) / 1_000_000
}

/// `flashLoan(address,address[],uint256[],bytes)`, selector `0x5c38449e`.
pub open spec fn balancer_calldata(
    recipient: Address,
    requests: Seq<AssetRequest>,
    user_data: Seq<u8>,
) -> Seq<u8> {
    seq![0x5cu8, 0x38u8, 0x44u8, 0x9eu8] + word_addr(recipient) + word_u64(128)
        + word_u64((160 + 32 * requests.len()) as u64)
        + word_u64((192 + 64 * requests.len()) as u64)
        + word_u64(requests.len() as u64) + addr_words(assets_of(requests))
        + word_u64(requests.len() as u64) + nat_words(amounts_of(requests))
        + bytes_enc(user_data)
}

/// `flashLoan(address,address,uint256,bytes)`, selector `0x5cffe9de`.
pub open spec fn maker_calldata(
    receiver: Address,
    token: Address,
    amount: nat,
    data: Seq<u8>,
) -> Seq<u8> {
    seq![0x5cu8, 0xffu8, 0xe9u8, 0xdeu8] + word_addr(receiver) + word_addr(token)
        + word_of_nat(amount) + word_u64(128) + bytes_enc(data)
}

/// The fixed return value the lending-standard callback must produce.
pub open spec fn maker_return_value() -> Seq<u8> {
    keccak_bytes("ERC3156FlashBorrower.onFlashLoan"@)
}

/// `flashLoan(address,address[],uint256[],uint256[],address,bytes,uint16)`,
/// selector `0xab9c4b5d`, with all debt modes zero and referral code zero.
pub open spec fn aave_calldata(
    receiver: Address,
    requests: Seq<AssetRequest>,
    params: Seq<u8>,
) -> Seq<u8> {
    seq![0xabu8, 0x9cu8, 0x4bu8, 0x5du8] + word_addr(receiver) + word_u64(224)
        + word_u64((256 + 32 * requests.len()) as u64)
        + word_u64((288 + 64 * requests.len()) as u64) + word_addr(receiver)
        + word_u64((320 + 96 * requests.len()) as u64) + word_u64(0)
        + word_u64(requests.len() as u64) + addr_words(assets_of(requests))
        + word_u64(requests.len() as u64) + nat_words(amounts_of(requests))
        + word_u64(requests.len() as u64) + zero_seq(32 * requests.len())
        + bytes_enc(params)
}

/// `flash(address,uint256,uint256,bytes)`, selector `0x490e6cbc`.
pub open spec fn uni_flash_calldata(
    receiver: Address,
    amount0: nat,
    amount1: nat,
    data: Seq<u8>,
) -> Seq<u8> {
    seq![0x49u8, 0x0eu8, 0x6cu8, 0xbcu8] + word_addr(receiver) + word_of_nat(amount0)
        + word_of_nat(amount1) + word_u64(128) + bytes_enc(data)
}

/// `flashLoan(address,uint256,bytes)`, selector `0xe0232b42`.
pub open spec fn blue_flash_calldata(asset: Address, amount: nat, data: Seq<u8>) -> Seq<u8> {
    seq![0xe0u8, 0x23u8, 0x2bu8, 0x42u8] + word_addr(asset) + word_of_nat(amount)
        + word_u64(96) + bytes_enc(data)
}

/// Unpacks an optional callback call list into a working vector.
fn take_callback_calls(callback_calls: Option<Vec<Vec<u8>>>) -> (r: Vec<Vec<u8>>)
    ensures
        views(r@) == opt_call_views(callback_calls),
{
    match callback_calls {
        Some(v) => v,
        None => {
            let r: Vec<Vec<u8>> = Vec::new();
            proof {
                assert(views(r@) =~= Seq::<Seq<u8>>::empty());
            }
            r
        },
    }
}

impl ExecutorEncoder {
    /// Flash-borrows `requests` from the weighted-pool vault, which charges
    /// no fee: the repayment transfers are appended after the callback
    /// calls.  The vault's callback takes its `bytes` argument at index 3.
    pub fn balancer_flash_loan(
        &mut self,
        vault: Address,
        requests: &Vec<AssetRequest>,
        callback_calls: Option<Vec<Vec<u8>>>,
    ) -> (r: &mut Self)
        requires
            old(self).wf(),
            cb_list_ok(opt_call_views(callback_calls)),
            requests@.len() < 0x40,
            opt_call_views(callback_calls).len() + requests@.len() < 0x100,
        ensures
            pushes(*old(self), *r, sub_call_ctx0(vault, vault, 3, balancer_calldata(
                old(self).address_spec(), requests@, callback_data_spec(
                opt_call_views(callback_calls) + repay_calls(vault, requests@),
                Seq::empty()))), 0),
            r.wf(),
            *final(self) == *final(r),
    {
        let ghost cbv = opt_call_views(callback_calls);
        let mut all_calls = take_callback_calls(callback_calls);
        let n = requests.len();
        let mut i: usize = 0;
        while i < n
            invariant
                i <= n,
                n == requests@.len(),
                views(all_calls@) == cbv + repay_calls(vault, requests@.take(i as int)),
            decreases n - i,
        {
            let rc = Self::build_erc20_transfer(requests[i].asset, vault,
                requests[i].amount);
            proof {
                lemma_views_push(all_calls@, rc);
                assert((cbv + repay_calls(vault, requests@.take(i as int))).push(rc@)
                    =~= cbv + repay_calls(vault, requests@.take(i + 1 as int)));
            }
            all_calls.push(rc);
            i = i + 1;
        }
        proof {
            assert(requests@.take(n as int) =~= requests@);
            assert forall|j: int| 0 <= j < views(all_calls@).len()
                implies (#[trigger] views(all_calls@)[j]).len() < 0x10_0000 by {
                if j < cbv.len() {
                    assert(views(all_calls@)[j] == cbv[j]);
                } else {
                    assert(views(all_calls@)[j]
                        == repay_calls(vault, requests@)[j - cbv.len()]);
                }
            }
            assert(cb_list_ok(views(all_calls@)));
            lemma_callback_data_len(views(all_calls@), Seq::empty());
        }
        let empty: Vec<u8> = Vec::new();
        let user_data = encode_callback_data(all_calls, empty);
        let mut data: Vec<u8> = Vec::new();
        append4(&mut data, 0x5c, 0x38, 0x44, 0x9e);
        let own = self.address();
        append_word_addr(&mut data, &own);
        append_word_u64(&mut data, 128);
        append_word_u64(&mut data, 160 + 32 * (n as u64));
        append_word_u64(&mut data, 192 + 64 * (n as u64));
        append_word_u64(&mut data, n as u64);
        let ghost pre_assets = data@;
        let mut i: usize = 0;
        while i < n
            invariant
                i <= n,
                n == requests@.len(),
                data@ == pre_assets + addr_words(assets_of(requests@).take(i as int)),
            decreases n - i,
        {
            append_word_addr(&mut data, &requests[i].asset);
            proof {
                assert(assets_of(requests@).take(i + 1 as int).drop_last()
                    =~= assets_of(requests@).take(i as int));
                assert(data@ =~= pre_assets
                    + addr_words(assets_of(requests@).take(i + 1 as int)));
            }
            i = i + 1;
        }
        append_word_u64(&mut data, n as u64);
        let ghost pre_amounts = data@;
        let mut i: usize = 0;
        while i < n
            invariant
                i <= n,
                n == requests@.len(),
                data@ == pre_amounts + nat_words(amounts_of(requests@).take(i as int)),
            decreases n - i,
        {
            append_word_u256(&mut data, &requests[i].amount);
            proof {
                lemma_word_u256_of_nat(requests@[i as int].amount);
                assert(amounts_of(requests@).take(i + 1 as int).drop_last()
                    =~= amounts_of(requests@).take(i as int));
                assert(data@ =~= pre_amounts
                    + nat_words(amounts_of(requests@).take(i + 1 as int)));
            }
            i = i + 1;
        }
        append_bytes_enc(&mut data, &user_data);
        proof {
            assert(assets_of(requests@).take(n as int) =~= assets_of(requests@));
            assert(amounts_of(requests@).take(n as int) =~= amounts_of(requests@));
            assert(data@ =~= balancer_calldata(old(self).address_spec(), requests@,
                user_data@));
            lemma_addr_words_len(assets_of(requests@));
            lemma_nat_words_len(amounts_of(requests@));
            lemma_pad32(user_data@.len());
        }
        self.push_ctx0(vault, vault, 3, data)
    }

    /// Flash-borrows `amount` of `asset` under the lending standard whose
    /// callback must return the borrower magic digest; a repayment approval
    /// is appended after the callback calls.  The callback takes its
    /// `bytes` argument at index 4.
    pub fn maker_flash_loan(
        &mut self,
        vault: Address,
        asset: Address,
        amount: Uint256,
        callback_calls: Option<Vec<Vec<u8>>>,
    ) -> (r: &mut Self)
        requires
            old(self).wf(),
            cb_list_ok(opt_call_views(callback_calls)),
            opt_call_views(callback_calls).len() + 1 < 0x100,
        ensures
            pushes(*old(self), *r, sub_call_ctx0(vault, vault, 4, maker_calldata(
                old(self).address_spec(), asset, amount@, callback_data_spec(
                opt_call_views(callback_calls) + seq![sub_call_plain0(asset,
                approve_calldata(vault, amount@))], maker_return_value()))), 0),
            r.wf(),
            *final(self) == *final(r),
    {
        let ghost cbv = opt_call_views(callback_calls);
        let mut all_calls = take_callback_calls(callback_calls);
        let ac = Self::build_erc20_approve(asset, vault, amount);
        proof {
            lemma_views_push(all_calls@, ac);
            assert(cbv.push(ac@) =~= cbv + seq![sub_call_plain0(asset,
                approve_calldata(vault, amount@))]);
        }
        all_calls.push(ac);
        let ghost allv = views(all_calls@);
        proof {
            assert forall|j: int| 0 <= j < allv.len()
                implies (#[trigger] allv[j]).len() < 0x10_0000 by {
                if j < cbv.len() {
                    assert(allv[j] == cbv[j]);
                }
            }
            assert(cb_list_ok(allv));
        }
        let return_value = keccak256_str("ERC3156FlashBorrower.onFlashLoan");
        proof {
            lemma_callback_data_len(allv, return_value@);
        }
        let user_data = encode_callback_data(all_calls, return_value);
        let mut data: Vec<u8> = Vec::new();
        append4(&mut data, 0x5c, 0xff, 0xe9, 0xde);
        let own = self.address();
        append_word_addr(&mut data, &own);
        append_word_addr(&mut data, &asset);
        append_word_u256(&mut data, &amount);
        append_word_u64(&mut data, 128);
        append_bytes_enc(&mut data, &user_data);
        proof {
            lemma_word_u256_of_nat(amount);
            lemma_pad32(user_data@.len());
            assert(data@ =~= maker_calldata(old(self).address_spec(), asset, amount@,
                user_data@));
        }
        self.push_ctx0(vault, vault, 4, data)
    }

    /// Flash-borrows `requests` from the lending pool, which charges
    /// `premium` basis points: one approval for principal plus premium per
    /// asset is appended after the callback calls, and the callback must
    /// return the true word.  The callback takes its `bytes` argument at
    /// index 4.
    pub fn aave_flash_loan(
        &mut self,
        pool: Address,
        requests: &Vec<AssetRequest>,
        premium: Uint256,
        callback_calls: Option<Vec<Vec<u8>>>,
    ) -> (r: &mut Self)
        requires
            old(self).wf(),
            cb_list_ok(opt_call_views(callback_calls)),
            requests@.len() < 0x40,
            opt_call_views(callback_calls).len() + requests@.len() < 0x100,
            forall|i: int| 0 <= i < requests@.len()
                ==> (#[trigger] requests@[i]).amount@ * premium@ + 5000 < u256_limit(),
            forall|i: int| 0 <= i < requests@.len()
                ==> owed_with_premium((#[trigger] requests@[i]).amount@, premium@)
                    < u256_limit(),
        ensures
            pushes(*old(self), *r, sub_call_ctx0(pool, pool, 4, aave_calldata(
                old(self).address_spec(), requests@, callback_data_spec(
                opt_call_views(callback_calls) + premium_approve_calls(pool, requests@,
                premium@), word_u64(1)))), 0),
            r.wf(),
            *final(self) == *final(r),
    {
        let ghost cbv = opt_call_views(callback_calls);
        let mut all_calls = take_callback_calls(callback_calls);
        let n = requests.len();
        let mut i: usize = 0;
        while i < n
            invariant
                i <= n,
                n == requests@.len(),
                views(all_calls@) == cbv
                    + premium_approve_calls(pool, requests@, premium@).take(i as int),
                forall|k: int| 0 <= k < requests@.len()
                    ==> (#[trigger] requests@[k]).amount@ * premium@ + 5000 < u256_limit(),
                forall|k: int| 0 <= k < requests@.len()
                    ==> owed_with_premium((#[trigger] requests@[k]).amount@, premium@)
                        < u256_limit(),
            decreases n - i,
        {
            let amt = requests[i].amount;
            let fee = percent_mul(amt, premium);
            let owed = u256_checked_add(amt, fee).unwrap();
            let ac = Self::build_erc20_approve(requests[i].asset, pool, owed);
            proof {
                assert(owed@ == owed_with_premium(requests@[i as int].amount@, premium@));
                lemma_views_push(all_calls@, ac);
                assert((cbv + premium_approve_calls(pool, requests@, premium@)
                    .take(i as int)).push(ac@) =~= cbv + premium_approve_calls(pool,
                    requests@, premium@).take(i + 1 as int));
            }
            all_calls.push(ac);
            i = i + 1;
        }
        proof {
            assert(premium_approve_calls(pool, requests@, premium@).take(n as int)
                =~= premium_approve_calls(pool, requests@, premium@));
            assert forall|j: int| 0 <= j < views(all_calls@).len()
                implies (#[trigger] views(all_calls@)[j]).len() < 0x10_0000 by {
                if j < cbv.len() {
                    assert(views(all_calls@)[j] == cbv[j]);
                } else {
                    assert(views(all_calls@)[j] == premium_approve_calls(pool, requests@,
                        premium@)[j - cbv.len()]);
                }
            }
            assert(cb_list_ok(views(all_calls@)));
            lemma_callback_data_len(views(all_calls@), word_u64(1));
        }
        let mut return_value: Vec<u8> = Vec::new();
        append_word_u64(&mut return_value, 1);
        proof {
            assert(return_value@ =~= word_u64(1));
        }
        let params = encode_callback_data(all_calls, return_value);
        let mut data: Vec<u8> = Vec::new();
        append4(&mut data, 0xab, 0x9c, 0x4b, 0x5d);
        let own = self.address();
        append_word_addr(&mut data, &own);
        append_word_u64(&mut data, 224);
        append_word_u64(&mut data, 256 + 32 * (n as u64));
        append_word_u64(&mut data, 288 + 64 * (n as u64));
        append_word_addr(&mut data, &own);
        append_word_u64(&mut data, 320 + 96 * (n as u64));
        append_word_u64(&mut data, 0);
        append_word_u64(&mut data, n as u64);
        let ghost pre_assets = data@;
        let mut i: usize = 0;
        while i < n
            invariant
                i <= n,
                n == requests@.len(),
                data@ == pre_assets + addr_words(assets_of(requests@).take(i as int)),
            decreases n - i,
        {
            append_word_addr(&mut data, &requests[i].asset);
            proof {
                assert(assets_of(requests@).take(i + 1 as int).drop_last()
                    =~= assets_of(requests@).take(i as int));
                assert(data@ =~= pre_assets
                    + addr_words(assets_of(requests@).take(i + 1 as int)));
            }
            i = i + 1;
        }
        append_word_u64(&mut data, n as u64);
        let ghost pre_amounts = data@;
        let mut i: usize = 0;
        while i < n
            invariant
                i <= n,
                n == requests@.len(),
                data@ == pre_amounts + nat_words(amounts_of(requests@).take(i as int)),
            decreases n - i,
        {
            append_word_u256(&mut data, &requests[i].amount);
            proof {
                lemma_word_u256_of_nat(requests@[i as int].amount);
                assert(amounts_of(requests@).take(i + 1 as int).drop_last()
                    =~= amounts_of(requests@).take(i as int));
                assert(data@ =~= pre_amounts
                    + nat_words(amounts_of(requests@).take(i + 1 as int)));
            }
            i = i + 1;
        }
        append_word_u64(&mut data, n as u64);
        let ghost pre_modes = data@;
        let mut i: usize = 0;
        while i < n
            invariant
                i <= n,
                n == requests@.len(),
                data@ == pre_modes + zero_seq((32 * i) as nat),
            decreases n - i,
        {
            append_zeros(&mut data, 32);
            proof {
                assert(pre_modes + zero_seq((32 * i) as nat) + zero_seq(32)
                    =~= pre_modes + zero_seq((32 * (i + 1)) as nat));
            }
            i = i + 1;
        }
        append_bytes_enc(&mut data, &params);
        proof {
            assert(assets_of(requests@).take(n as int) =~= assets_of(requests@));
            assert(amounts_of(requests@).take(n as int) =~= amounts_of(requests@));
            assert(data@ =~= aave_calldata(old(self).address_spec(), requests@, params@));
            lemma_addr_words_len(assets_of(requests@));
            lemma_nat_words_len(amounts_of(requests@));
            lemma_pad32(params@.len());
        }
        self.push_ctx0(pool, pool, 4, data)
    }

    /// Flash-swaps through a pair, approving repayment of the bare amounts.
    ///
    /// The pair's native swap entry point and its fee formula are not
    /// reproduced here: the call keeps the concentrated-liquidity `flash`
    /// shape with a zero fee, a known gap inherited from the executor's
    /// tooling.  Do not use against real pairs until the fee and entry
    /// point are settled.  The callback takes its `bytes` argument at
    /// index 3.
    pub fn uni_v2_flash_swap(
        &mut self,
        pool: Address,
        assets: [Address; 2],
        amounts: [Uint256; 2],
        callback_calls: Option<Vec<Vec<u8>>>,
    ) -> (r: &mut Self)
        requires
            old(self).wf(),
            cb_list_ok(opt_call_views(callback_calls)),
            opt_call_views(callback_calls).len() + 2 < 0x100,
        ensures
            pushes(*old(self), *r, sub_call_ctx0(pool, pool, 3, uni_flash_calldata(
                old(self).address_spec(), amounts@[0]@, amounts@[1]@, callback_data_spec(
                opt_call_views(callback_calls)
                + seq![sub_call_plain0(assets@[0], approve_calldata(pool, amounts@[0]@)),
                    sub_call_plain0(assets@[1], approve_calldata(pool, amounts@[1]@))],
                Seq::empty()))), 0),
            r.wf(),
            *final(self) == *final(r),
    {
        let ghost cbv = opt_call_views(callback_calls);
        let mut all_calls = take_callback_calls(callback_calls);
        let a0 = Self::build_erc20_approve(assets[0], pool, amounts[0]);
        proof {
            lemma_views_push(all_calls@, a0);
        }
        all_calls.push(a0);
        let a1 = Self::build_erc20_approve(assets[1], pool, amounts[1]);
        proof {
            lemma_views_push(all_calls@, a1);
            assert(cbv.push(a0@).push(a1@) =~= cbv
                + seq![sub_call_plain0(assets@[0], approve_calldata(pool, amounts@[0]@)),
                    sub_call_plain0(assets@[1], approve_calldata(pool, amounts@[1]@))]);
        }
        all_calls.push(a1);
        let ghost allv = views(all_calls@);
        proof {
            assert forall|j: int| 0 <= j < allv.len()
                implies (#[trigger] allv[j]).len() < 0x10_0000 by {
                if j < cbv.len() {
                    assert(allv[j] == cbv[j]);
                }
            }
            assert(cb_list_ok(allv));
            lemma_callback_data_len(allv, Seq::empty());
        }
        let empty: Vec<u8> = Vec::new();
        let user_data = encode_callback_data(all_calls, empty);
        let mut data: Vec<u8> = Vec::new();
        append4(&mut data, 0x49, 0x0e, 0x6c, 0xbc);
        let own = self.address();
        append_word_addr(&mut data, &own);
        append_word_u256(&mut data, &amounts[0]);
        append_word_u256(&mut data, &amounts[1]);
        append_word_u64(&mut data, 128);
        append_bytes_enc(&mut data, &user_data);
        proof {
            lemma_word_u256_of_nat(amounts@[0]);
            lemma_word_u256_of_nat(amounts@[1]);
            lemma_pad32(user_data@.len());
            assert(data@ =~= uni_flash_calldata(old(self).address_spec(), amounts@[0]@,
                amounts@[1]@, user_data@));
        }
        self.push_ctx0(pool, pool, 3, data)
    }

    /// Flash-borrows both pool tokens, repaying principal plus the pool
    /// fee in parts per million, rounded up.  The callback takes its
    /// `bytes` argument at index 2.
    pub fn uni_v3_flash_loan(
        &mut self,
        pool: Address,
        assets: [Address; 2],
        amounts: [Uint256; 2],
        fee: Uint256,
        callback_calls: Option<Vec<Vec<u8>>>,
    ) -> (r: &mut Self)
        requires
            old(self).wf(),
            cb_list_ok(opt_call_views(callback_calls)),
            opt_call_views(callback_calls).len() + 2 < 0x100,
            amounts@[0]@ * fee@ + 999_999 < u256_limit(),
            amounts@[1]@ * fee@ + 999_999 < u256_limit(),
            amounts@[0]@ + pool_fee(amounts@[0]@, fee@) < u256_limit(),
            amounts@[1]@ + pool_fee(amounts@[1]@, fee@) < u256_limit(),
        ensures
            pushes(*old(self), *r, sub_call_ctx0(pool, pool, 2, uni_flash_calldata(
                old(self).address_spec(), amounts@[0]@, amounts@[1]@, callback_data_spec(
                opt_call_views(callback_calls)
                + seq![sub_call_plain0(assets@[0], transfer_calldata(pool, amounts@[0]@
                        + pool_fee(amounts@[0]@, fee@))),
                    sub_call_plain0(assets@[1], transfer_calldata(pool, amounts@[1]@
                        + pool_fee(amounts@[1]@, fee@)))],
                Seq::empty()))), 0),
            r.wf(),
            *final(self) == *final(r),
    {
        let ghost cbv = opt_call_views(callback_calls);
        let mut all_calls = take_callback_calls(callback_calls);
        let ppm = Uint256::from_u64(1_000_000);
        let fee0 = mul_div_up(amounts[0], fee, ppm);
        let owed0 = u256_checked_add(amounts[0], fee0).unwrap();
        let t0 = Self::build_erc20_transfer(assets[0], pool, owed0);
        proof {
            lemma_views_push(all_calls@, t0);
        }
        all_calls.push(t0);
        let fee1 = mul_div_up(amounts[1], fee, ppm);
        let owed1 = u256_checked_add(amounts[1], fee1).unwrap();
        let t1 = Self::build_erc20_transfer(assets[1], pool, owed1);
        proof {
            lemma_views_push(all_calls@, t1);
            assert(cbv.push(t0@).push(t1@) =~= cbv
                + seq![sub_call_plain0(assets@[0], transfer_calldata(pool, amounts@[0]@
                        + pool_fee(amounts@[0]@, fee@))),
                    sub_call_plain0(assets@[1], transfer_calldata(pool, amounts@[1]@
                        + pool_fee(amounts@[1]@, fee@)))]);
        }
        all_calls.push(t1);
        let ghost allv = views(all_calls@);
        proof {
            assert forall|j: int| 0 <= j < allv.len()
                implies (#[trigger] allv[j]).len() < 0x10_0000 by {
                if j < cbv.len() {
                    assert(allv[j] == cbv[j]);
                }
            }
            assert(cb_list_ok(allv));
            lemma_callback_data_len(allv, Seq::empty());
        }
        let empty: Vec<u8> = Vec::new();
        let user_data = encode_callback_data(all_calls, empty);
        let mut data: Vec<u8> = Vec::new();
        append4(&mut data, 0x49, 0x0e, 0x6c, 0xbc);
        let own = self.address();
        append_word_addr(&mut data, &own);
        append_word_u256(&mut data, &amounts[0]);
        append_word_u256(&mut data, &amounts[1]);
        append_word_u64(&mut data, 128);
        append_bytes_enc(&mut data, &user_data);
        proof {
            lemma_word_u256_of_nat(amounts@[0]);
            lemma_word_u256_of_nat(amounts@[1]);
            lemma_pad32(user_data@.len());
            assert(data@ =~= uni_flash_calldata(old(self).address_spec(), amounts@[0]@,
                amounts@[1]@, user_data@));
        }
        self.push_ctx0(pool, pool, 2, data)
    }

    /// Flash-borrows `amount` of `asset` from the isolated-market lender,
    /// which charges no fee: a repayment approval is appended after the
    /// callback calls.  The callback takes its `bytes` argument at index 1.
    pub fn blue_flash_loan(
        &mut self,
        morpho_blue: Address,
        asset: Address,
        amount: Uint256,
        callback_calls: Option<Vec<Vec<u8>>>,
    ) -> (r: &mut Self)
        requires
            old(self).wf(),
            cb_list_ok(opt_call_views(callback_calls)),
            opt_call_views(callback_calls).len() + 1 < 0x100,
        ensures
            pushes(*old(self), *r, sub_call_ctx0(morpho_blue, morpho_blue, 1,
                blue_flash_calldata(asset, amount@, callback_data_spec(
                opt_call_views(callback_calls) + seq![sub_call_plain0(asset,
                approve_calldata(morpho_blue, amount@))], Seq::empty()))), 0),
            r.wf(),
            *final(self) == *final(r),
    {
        let ghost cbv = opt_call_views(callback_calls);
        let mut all_calls = take_callback_calls(callback_calls);
        let ac = Self::build_erc20_approve(asset, morpho_blue, amount);
        proof {
            lemma_views_push(all_calls@, ac);
            assert(cbv.push(ac@) =~= cbv + seq![sub_call_plain0(asset,
                approve_calldata(morpho_blue, amount@))]);
        }
        all_calls.push(ac);
        let ghost allv = views(all_calls@);
        proof {
            assert forall|j: int| 0 <= j < allv.len()
                implies (#[trigger] allv[j]).len() < 0x10_0000 by {
                if j < cbv.len() {
                    assert(allv[j] == cbv[j]);
                }
            }
            assert(cb_list_ok(allv));
            lemma_callback_data_len(allv, Seq::empty());
        }
        let empty: Vec<u8> = Vec::new();
        let user_data = encode_callback_data(all_calls, empty);
        let mut data: Vec<u8> = Vec::new();
        append4(&mut data, 0xe0, 0x23, 0x2b, 0x42);
        append_word_addr(&mut data, &asset);
        append_word_u256(&mut data, &amount);
        append_word_u64(&mut data, 96);
        append_bytes_enc(&mut data, &user_data);
        proof {
            lemma_word_u256_of_nat(amount);
            lemma_pad32(user_data@.len());
            assert(data@ =~= blue_flash_calldata(asset, amount@, user_data@));
        }
        self.push_ctx0(morpho_blue, morpho_blue, 1, data)
    }
}

} // verus!

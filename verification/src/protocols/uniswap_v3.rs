//! Swaps through the concentrated-liquidity router.
//!
//! The router takes one struct argument whose first field, the encoded
//! `path`, is dynamic: the struct encodes behind a pointer word, its static
//! fields follow an offset word for the path, and the path bytes trail.

use vstd::prelude::*;

use crate::abi::{append4, append_word_addr, append_word_u256, append_word_u64, append_zeros,
    lemma_word_of_nat_zero, lemma_word_u256_of_nat, word_addr, word_of_nat, word_u64};
use crate::encoder::{pushes, sub_call_ph1, sub_call_plain0, ExecutorEncoder};
use crate::protocols::aave::or_self;
use crate::protocols::erc20::balance_of_calldata;
use crate::types::{Address, Uint256};

verus! {

/// `exactInput((bytes,address,uint256,uint256,uint256))`, selector
/// `0xc04b8d59`: fields `path`, `recipient`, `deadline`, `amountIn`,
/// `amountOutMinimum`.
pub open spec fn exact_input_calldata(
    path: Seq<u8>,
    recipient: Address,
    deadline: nat,
    amount_in: nat,
    amount_out_minimum: nat,
) -> Seq<u8> {
    seq![0xc0u8, 0x4bu8, 0x8du8, 0x59u8] + word_u64(32) + word_u64(160)
        + word_addr(recipient) + word_of_nat(deadline) + word_of_nat(amount_in)
        + word_of_nat(amount_out_minimum) + crate::abi::bytes_enc(path)
}

/// `exactOutput((bytes,address,uint256,uint256,uint256))`, selector
/// `0xf28c0498`: fields `path`, `recipient`, `deadline`, `amountOut`,
/// `amountInMaximum`.
pub open spec fn exact_output_calldata(
    path: Seq<u8>,
    recipient: Address,
    deadline: nat,
    amount_out: nat,
    amount_in_maximum: nat,
) -> Seq<u8> {
    seq![0xf2u8, 0x8cu8, 0x04u8, 0x98u8] + word_u64(32) + word_u64(160)
        + word_addr(recipient) + word_of_nat(deadline) + word_of_nat(amount_out)
        + word_of_nat(amount_in_maximum) + crate::abi::bytes_enc(path)
}

impl ExecutorEncoder {
    /// Swaps an exact input amount along `path`.
    pub fn uni_v3_exact_input(
        &mut self,
        router: Address,
        path: Vec<u8>,
        amount_in: Uint256,
        amount_out_minimum: Uint256,
        deadline: Uint256,
        recipient: Option<Address>,
    ) -> (r: &mut Self)
        requires
            old(self).wf(),
            path@.len() < 0xf000_0000,
        ensures
            pushes(*old(self), *r, sub_call_plain0(router, exact_input_calldata(path@,
                or_self(recipient, old(self).address_spec()), deadline@, amount_in@,
                amount_out_minimum@)), 0),
            r.wf(),
            *final(self) == *final(r),
    {
        let rec = match recipient {
            Some(a) => a,
            None => self.address(),
        };
        let mut data: Vec<u8> = Vec::new();
        append4(&mut data, 0xc0, 0x4b, 0x8d, 0x59);
        append_word_u64(&mut data, 32);
        append_word_u64(&mut data, 160);
        append_word_addr(&mut data, &rec);
        append_word_u256(&mut data, &deadline);
        append_word_u256(&mut data, &amount_in);
        append_word_u256(&mut data, &amount_out_minimum);
        crate::abi::append_bytes_enc(&mut data, &path);
        proof {
            lemma_word_u256_of_nat(deadline);
            lemma_word_u256_of_nat(amount_in);
            lemma_word_u256_of_nat(amount_out_minimum);
            crate::abi::lemma_pad32(path@.len());
        }
        self.push_plain0(router, data)
    }

    /// Swaps the executor's entire balance of the input token — the first
    /// 20 bytes of `path` — read at execution time through a placeholder
    /// patching the `amountIn` slot (byte 132).
    pub fn uni_v3_exact_input_all(
        &mut self,
        router: Address,
        path: Vec<u8>,
        amount_out_minimum: Uint256,
        deadline: Uint256,
        recipient: Option<Address>,
    ) -> (r: &mut Self)
        requires
            old(self).wf(),
            20 <= path@.len() < 0xf000_0000,
        ensures
            pushes(*old(self), *r, sub_call_ph1(router, exact_input_calldata(path@,
                or_self(recipient, old(self).address_spec()), deadline@, 0,
                amount_out_minimum@), path@.take(20),
                balance_of_calldata(old(self).address_spec()), 132, 32, 0), 0),
            r.wf(),
            *final(self) == *final(r),
    {
        let rec = match recipient {
            Some(a) => a,
            None => self.address(),
        };
        let token_bytes: [u8; 20] = [path[0], path[1], path[2], path[3], path[4], path[5],
            path[6], path[7], path[8], path[9], path[10], path[11], path[12], path[13],
            path[14], path[15], path[16], path[17], path[18], path[19]];
        let input_token = Address::new(token_bytes);
        proof {
            assert(input_token@ =~= path@.take(20));
        }
        let own = self.address();
        let ph = self.erc20_balance_of(input_token, own, 4 + 32 * 4);
        let mut data: Vec<u8> = Vec::new();
        append4(&mut data, 0xc0, 0x4b, 0x8d, 0x59);
        append_word_u64(&mut data, 32);
        append_word_u64(&mut data, 160);
        append_word_addr(&mut data, &rec);
        append_word_u256(&mut data, &deadline);
        append_zeros(&mut data, 32);
        append_word_u256(&mut data, &amount_out_minimum);
        crate::abi::append_bytes_enc(&mut data, &path);
        proof {
            lemma_word_u256_of_nat(deadline);
            lemma_word_u256_of_nat(amount_out_minimum);
            lemma_word_of_nat_zero();
            crate::abi::lemma_pad32(path@.len());
        }
        self.push_ph1(router, data, ph)
    }

    /// Swaps to an exact output amount along `path`.
    pub fn uni_v3_exact_output(
        &mut self,
        router: Address,
        path: Vec<u8>,
        amount_out: Uint256,
        amount_in_maximum: Uint256,
        deadline: Uint256,
        recipient: Option<Address>,
    ) -> (r: &mut Self)
        requires
            old(self).wf(),
            path@.len() < 0xf000_0000,
        ensures
            pushes(*old(self), *r, sub_call_plain0(router, exact_output_calldata(path@,
                or_self(recipient, old(self).address_spec()), deadline@, amount_out@,
                amount_in_maximum@)), 0),
            r.wf(),
            *final(self) == *final(r),
    {
        let rec = match recipient {
            Some(a) => a,
            None => self.address(),
        };
        let mut data: Vec<u8> = Vec::new();
        append4(&mut data, 0xf2, 0x8c, 0x04, 0x98);
        append_word_u64(&mut data, 32);
        append_word_u64(&mut data, 160);
        append_word_addr(&mut data, &rec);
        append_word_u256(&mut data, &deadline);
        append_word_u256(&mut data, &amount_out);
        append_word_u256(&mut data, &amount_in_maximum);
        crate::abi::append_bytes_enc(&mut data, &path);
        proof {
            lemma_word_u256_of_nat(deadline);
            lemma_word_u256_of_nat(amount_out);
            lemma_word_u256_of_nat(amount_in_maximum);
            crate::abi::lemma_pad32(path@.len());
        }
        self.push_plain0(router, data)
    }
}

} // verus!

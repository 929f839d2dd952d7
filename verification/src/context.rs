//! Packing of the 32-byte callback-authorization context.
//!
//! The executor validates a reentrant callback by comparing the caller and
//! the position of the injected `bytes` argument against this value.  The
//! layout must match the on-chain decoding exactly: the contract reads the
//! sender as the low 160 bits and the data index as the value shifted right
//! by 160 bits.

use vstd::prelude::*;

use crate::abi::{append_addr, append_be8, append_zeros, be8, be_nat, lemma_be8_value,
    lemma_be8_zero, zero_seq};
use crate::types::Address;

verus! {

/// The 32-byte context: four zero bytes, `data_index` as an 8-byte
/// big-endian integer, then the 20-byte `sender` address.
pub open spec fn context_spec(sender: Address, data_index: u64) -> Seq<u8> {
    zero_seq(4) + be8(data_index) + sender@
}

/// The sender the on-chain decoder recovers: bytes 12 to 32.
pub open spec fn decoded_sender(ctx: Seq<u8>) -> Seq<u8> {
    ctx.subrange(12, 32)
}

/// The data index the on-chain decoder recovers: bytes 4 to 12 read as a
/// big-endian integer.
pub open spec fn decoded_index(ctx: Seq<u8>) -> nat {
    be_nat(ctx.subrange(4, 12))
}

/// Packs a callback context into its 32-byte form.
pub fn encode_context(sender: &Address, data_index: u64) -> (r: Vec<u8>)
    ensures
        r@ == context_spec(*sender, data_index),
{
    let mut buf: Vec<u8> = Vec::new();
    append_zeros(&mut buf, 4);
    append_be8(&mut buf, data_index);
    append_addr(&mut buf, sender);
    proof {
        assert(buf@ =~= context_spec(*sender, data_index));
    }
    buf
}

/// Decoding inverts encoding: for every sender and every 64-bit data index,
/// the on-chain reads recover exactly what was packed, and the top four
/// bytes are always zero.
pub proof fn lemma_context_roundtrip(sender: Address, data_index: u64)
    ensures
        decoded_sender(context_spec(sender, data_index)) == sender@,
        decoded_index(context_spec(sender, data_index)) == data_index,
        context_spec(sender, data_index).len() == 32,
        forall|i: int| 0 <= i < 4 ==> context_spec(sender, data_index)[i] == 0u8,
{
    let ctx = context_spec(sender, data_index);
    assert(ctx.subrange(12, 32) =~= sender@);
    assert(ctx.subrange(4, 12) =~= be8(data_index));
    lemma_be8_value(data_index);
}

/// The zero context is the all-zero 32-byte value: packing the zero address
/// with data index zero yields 32 zero bytes.
pub proof fn lemma_zero_context(sender: Address)
    requires
        sender@ == zero_seq(20),
    ensures
        context_spec(sender, 0) == zero_seq(32),
{
    lemma_be8_zero();
    assert(context_spec(sender, 0) =~= zero_seq(32));
}

} // verus!

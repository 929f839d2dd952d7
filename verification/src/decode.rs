//! The on-chain reader's side of the placeholder-carrying call
//! instruction: specification-level functions that read fields back out of
//! the encoded bytes exactly as the executor does — through the offset
//! words — and the proof that they invert the encoder.

use vstd::prelude::*;

use crate::abi::{be_nat, lemma_pad32, lemma_word_u64_value, pad32, word_u64};
use crate::encoder::sub_call_ph1;
use crate::types::Address;

verus! {

/// The 32-byte word at byte `pos`, read as a big-endian integer.
pub open spec fn dec_word(s: Seq<u8>, pos: int) -> nat {
    be_nat(s.subrange(pos, pos + 32))
}

/// The argument area starts after the 4-byte selector; offsets count from
/// there.
pub open spec fn arg_base() -> int {
    4
}

/// The target address: the low 20 bytes of the first argument word.
pub open spec fn dec_target(s: Seq<u8>) -> Seq<u8> {
    s.subrange(arg_base() + 12, arg_base() + 32)
}

/// The start of the call-data section, located through the offset word in
/// the fourth argument slot.
pub open spec fn dec_data_base(s: Seq<u8>) -> int {
    arg_base() + dec_word(s, arg_base() + 96)
}

/// The call data: length-prefixed bytes at the call-data section.
pub open spec fn dec_call_data(s: Seq<u8>) -> Seq<u8> {
    let b = dec_data_base(s);
    s.subrange(b + 32, b + 32 + dec_word(s, b))
}

/// The start of the placeholder array, located through the offset word in
/// the fifth argument slot.
pub open spec fn dec_ph_arr_base(s: Seq<u8>) -> int {
    arg_base() + dec_word(s, arg_base() + 128)
}

/// The number of placeholders: the array's count word.
pub open spec fn dec_ph_count(s: Seq<u8>) -> nat {
    dec_word(s, dec_ph_arr_base(s))
}

/// The start of the first placeholder struct, located through the array's
/// first element offset, which counts from after the count word.
pub open spec fn dec_ph_base(s: Seq<u8>) -> int {
    let arr = dec_ph_arr_base(s);
    arr + 32 + dec_word(s, arr + 32)
}

/// The placeholder's read target: the low 20 bytes of its first field.
pub open spec fn dec_ph_to(s: Seq<u8>) -> Seq<u8> {
    s.subrange(dec_ph_base(s) + 12, dec_ph_base(s) + 32)
}

/// The placeholder's patch offset: its third field.
pub open spec fn dec_ph_offset(s: Seq<u8>) -> nat {
    dec_word(s, dec_ph_base(s) + 64)
}

/// The placeholder's patch length: its fourth field.
pub open spec fn dec_ph_length(s: Seq<u8>) -> nat {
    dec_word(s, dec_ph_base(s) + 96)
}

/// The placeholder's result offset: its fifth field.
pub open spec fn dec_ph_res_offset(s: Seq<u8>) -> nat {
    dec_word(s, dec_ph_base(s) + 128)
}

/// The placeholder's read call data, behind its own offset field.
pub open spec fn dec_ph_data(s: Seq<u8>) -> Seq<u8> {
    let b = dec_ph_base(s) + dec_word(s, dec_ph_base(s) + 32);
    s.subrange(b + 32, b + 32 + dec_word(s, b))
}

/// Encoding a sub-call with one placeholder and reading it back through
/// the offset words recovers the target, the call data, and the exact
/// placeholder tuple that was supplied.
pub proof fn lemma_placeholder_roundtrip(
    target: Address,
    data: Seq<u8>,
    ph_to: Seq<u8>,
    ph_data: Seq<u8>,
    ph_offset: u64,
    ph_length: u64,
    ph_res_offset: u64,
)
    requires
        data.len() < 0x1_0000_0000,
        ph_data.len() < 0x1_0000_0000,
        ph_to.len() == 20,
    ensures
        dec_target(sub_call_ph1(target, data, ph_to, ph_data, ph_offset, ph_length,
            ph_res_offset)) == target@,
        dec_call_data(sub_call_ph1(target, data, ph_to, ph_data, ph_offset, ph_length,
            ph_res_offset)) == data,
        dec_ph_count(sub_call_ph1(target, data, ph_to, ph_data, ph_offset, ph_length,
            ph_res_offset)) == 1,
        dec_ph_to(sub_call_ph1(target, data, ph_to, ph_data, ph_offset, ph_length,
            ph_res_offset)) == ph_to,
        dec_ph_offset(sub_call_ph1(target, data, ph_to, ph_data, ph_offset, ph_length,
            ph_res_offset)) == ph_offset,
        dec_ph_length(sub_call_ph1(target, data, ph_to, ph_data, ph_offset, ph_length,
            ph_res_offset)) == ph_length,
        dec_ph_res_offset(sub_call_ph1(target, data, ph_to, ph_data, ph_offset, ph_length,
            ph_res_offset)) == ph_res_offset,
        dec_ph_data(sub_call_ph1(target, data, ph_to, ph_data, ph_offset, ph_length,
            ph_res_offset)) == ph_data,
{
    let e = sub_call_ph1(target, data, ph_to, ph_data, ph_offset, ph_length, ph_res_offset);
    lemma_pad32(data.len());
    let dpad = pad32(data.len());

    // the head: selector and five argument words
    assert(e.subrange(16, 36) =~= target@);
    assert(dec_target(e) == target@);

    // the call-data offset word at slot four reads 160
    assert(e.subrange(100, 132) =~= word_u64(160));
    lemma_word_u64_value(160);
    assert(dec_data_base(e) == 164);

    // the call data sits right behind the head: a length word, the bytes
    assert(e.subrange(164, 196) =~= word_u64(data.len() as u64));
    lemma_word_u64_value(data.len() as u64);
    assert(dec_word(e, 164) == data.len());
    assert(e.subrange(196, 196 + data.len() as int) =~= data);
    assert(dec_call_data(e) == data);

    // the placeholder-array offset word at slot five
    assert(e.subrange(132, 164) =~= word_u64((192 + dpad) as u64));
    lemma_word_u64_value((192 + dpad) as u64);
    assert(dec_ph_arr_base(e) == 196 + dpad);
    let arr = 196 + dpad as int;

    // the array: a count word of one, one element offset word of 32
    assert(e.subrange(arr, arr + 32) =~= word_u64(1));
    lemma_word_u64_value(1);
    assert(dec_ph_count(e) == 1);
    assert(e.subrange(arr + 32, arr + 64) =~= word_u64(32));
    lemma_word_u64_value(32);
    assert(dec_ph_base(e) == arr + 64);
    let ph = arr + 64;

    // the placeholder struct: five head words, then its own call data
    assert(e.subrange(ph + 12, ph + 32) =~= ph_to);
    assert(dec_ph_to(e) == ph_to);
    assert(e.subrange(ph + 32, ph + 64) =~= word_u64(160));
    assert(dec_word(e, ph + 32) == 160);
    assert(e.subrange(ph + 64, ph + 96) =~= word_u64(ph_offset));
    lemma_word_u64_value(ph_offset);
    assert(dec_ph_offset(e) == ph_offset);
    assert(e.subrange(ph + 96, ph + 128) =~= word_u64(ph_length));
    lemma_word_u64_value(ph_length);
    assert(dec_ph_length(e) == ph_length);
    assert(e.subrange(ph + 128, ph + 160) =~= word_u64(ph_res_offset));
    lemma_word_u64_value(ph_res_offset);
    assert(dec_ph_res_offset(e) == ph_res_offset);
    assert(e.subrange(ph + 160, ph + 192) =~= word_u64(ph_data.len() as u64));
    lemma_word_u64_value(ph_data.len() as u64);
    assert(dec_word(e, ph + 160) == ph_data.len());
    assert(e.subrange(ph + 192, ph + 192 + ph_data.len() as int) =~= ph_data);
    assert(dec_ph_data(e) == ph_data);
}

} // verus!

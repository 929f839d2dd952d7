//! Byte-level construction of the canonical contract-call ABI fragments the
//! executor understands: 32-byte words, length-prefixed padded byte strings,
//! and their big-endian integer interpretation.

use vstd::prelude::*;

use crate::types::{Address, Placeholder, Uint256};

verus! {

/// `n` zero bytes.
pub open spec fn zero_seq(n: nat) -> Seq<u8> {
    Seq::new(n, |i: int| 0u8)
}

/// Byte `i` of the 8-byte big-endian form of `x`.
pub open spec fn be_byte(x: u64, i: int) -> u8 {
    ((x >> ((56 - 8 * i) as u64)) & 0xff) as u8
}

/// The 8-byte big-endian form of `x`.
pub open spec fn be8(x: u64) -> Seq<u8> {
    Seq::new(8, |i: int| be_byte(x, i))
}

/// A 32-byte word holding a 64-bit integer, right-aligned.
pub open spec fn word_u64(x: u64) -> Seq<u8> {
    zero_seq(24) + be8(x)
}

/// A 32-byte word holding an address, right-aligned.
pub open spec fn word_addr(a: Address) -> Seq<u8> {
    zero_seq(12) + a@
}

/// A 32-byte word holding a 256-bit integer, big-endian.
pub open spec fn word_u256(v: Uint256) -> Seq<u8> {
    be8(v.limbs@[3]) + be8(v.limbs@[2]) + be8(v.limbs@[1]) + be8(v.limbs@[0])
}

/// `n` rounded up to a multiple of 32.
pub open spec fn pad32(n: nat) -> nat {
    ((n + 31) / 32) * 32
}

/// The encoding of a dynamic byte string: a length word, the bytes, and zero
/// padding up to a 32-byte boundary.
pub open spec fn bytes_enc(b: Seq<u8>) -> Seq<u8> {
    word_u64(b.len() as u64) + b + zero_seq((pad32(b.len()) - b.len()) as nat)
}

/// The big-endian integer a byte string denotes.
pub open spec fn be_nat(s: Seq<u8>) -> nat
    decreases s.len(),
{
    if s.len() == 0 {
        0
    } else {
        be_nat(s.drop_last()) * 256 + s.last() as nat
    }
}

/// `256^n`, the weight of a byte `n` places from the end.
pub open spec fn pow256(n: nat) -> nat
    decreases n,
{
    if n == 0 {
        1
    } else {
        256 * pow256((n - 1) as nat)
    }
}

/// A byte string prepended to another shifts its value by the length of the
/// suffix.
pub proof fn lemma_be_nat_concat(a: Seq<u8>, b: Seq<u8>)
    ensures
        be_nat(a + b) == be_nat(a) * pow256(b.len()) + be_nat(b),
    decreases b.len(),
{
    if b.len() == 0 {
        assert(a + b =~= a);
        assert(pow256(0) == 1);
        assert(be_nat(b) == 0);
        assert(be_nat(a + b) == be_nat(a));
        assert(be_nat(a) * pow256(b.len()) == be_nat(a)) by (nonlinear_arith)
            requires pow256(b.len()) == 1;
    } else {
        assert((a + b).drop_last() =~= a + b.drop_last());
        lemma_be_nat_concat(a, b.drop_last());
        assert((a + b).last() == b.last());
        let p = pow256((b.len() - 1) as nat);
        assert(pow256(b.len()) == 256 * p);
        assert((be_nat(a) * p + be_nat(b.drop_last())) * 256
            == be_nat(a) * (256 * p) + be_nat(b.drop_last()) * 256) by (nonlinear_arith);
        assert(be_nat(a + b) == (be_nat(a) * p + be_nat(b.drop_last())) * 256 + b.last());
        assert(be_nat(b) == be_nat(b.drop_last()) * 256 + b.last());
        assert(be_nat(a + b) == be_nat(a) * (256 * p) + be_nat(b.drop_last()) * 256
            + b.last());
        assert(be_nat(a) * pow256(b.len()) == be_nat(a) * (256 * p)) by (nonlinear_arith)
            requires pow256(b.len()) == 256 * p;
    }
}

pub proof fn lemma_zero_seq_be_nat(n: nat)
    ensures
        be_nat(zero_seq(n)) == 0,
    decreases n,
{
    if n > 0 {
        assert(zero_seq(n).drop_last() =~= zero_seq((n - 1) as nat));
        lemma_zero_seq_be_nat((n - 1) as nat);
    }
}

/// The 8-byte big-endian form of a 64-bit integer denotes that integer.
pub proof fn lemma_be8_value(x: u64)
    ensures
        be_nat(be8(x)) == x,
{
    let b0 = be_byte(x, 0);
    let b1 = be_byte(x, 1);
    let b2 = be_byte(x, 2);
    let b3 = be_byte(x, 3);
    let b4 = be_byte(x, 4);
    let b5 = be_byte(x, 5);
    let b6 = be_byte(x, 6);
    let b7 = be_byte(x, 7);
    let s = seq![b0, b1, b2, b3, b4, b5, b6, b7];
    assert(be8(x) =~= s);
    assert(seq![b0].drop_last() =~= Seq::<u8>::empty());
    assert(be_nat(Seq::<u8>::empty()) == 0);
    assert(be_nat(seq![b0]) == b0);
    assert(seq![b0, b1].drop_last() =~= seq![b0]);
    assert(be_nat(seq![b0, b1]) == b0 * 0x100nat + b1);
    assert(seq![b0, b1, b2].drop_last() =~= seq![b0, b1]);
    assert(be_nat(seq![b0, b1, b2]) == b0 * 0x1_0000nat + b1 * 0x100nat + b2);
    assert(seq![b0, b1, b2, b3].drop_last() =~= seq![b0, b1, b2]);
    assert(be_nat(seq![b0, b1, b2, b3]) == b0 * 0x100_0000nat + b1 * 0x1_0000nat
        + b2 * 0x100nat + b3);
    assert(seq![b0, b1, b2, b3, b4].drop_last() =~= seq![b0, b1, b2, b3]);
    assert(be_nat(seq![b0, b1, b2, b3, b4]) == b0 * 0x1_0000_0000nat + b1 * 0x100_0000nat
        + b2 * 0x1_0000nat + b3 * 0x100nat + b4);
    assert(seq![b0, b1, b2, b3, b4, b5].drop_last() =~= seq![b0, b1, b2, b3, b4]);
    assert(be_nat(seq![b0, b1, b2, b3, b4, b5]) == b0 * 0x100_0000_0000nat
        + b1 * 0x1_0000_0000nat + b2 * 0x100_0000nat + b3 * 0x1_0000nat + b4 * 0x100nat
        + b5);
    assert(seq![b0, b1, b2, b3, b4, b5, b6].drop_last() =~= seq![b0, b1, b2, b3, b4, b5]);
    assert(be_nat(seq![b0, b1, b2, b3, b4, b5, b6]) == b0 * 0x1_0000_0000_0000nat
        + b1 * 0x100_0000_0000nat + b2 * 0x1_0000_0000nat + b3 * 0x100_0000nat
        + b4 * 0x1_0000nat + b5 * 0x100nat + b6);
    assert(s.drop_last() =~= seq![b0, b1, b2, b3, b4, b5, b6]);
    assert(be_nat(s) == b0 * 0x100_0000_0000_0000nat + b1 * 0x1_0000_0000_0000nat
        + b2 * 0x100_0000_0000nat + b3 * 0x1_0000_0000nat + b4 * 0x100_0000nat
        + b5 * 0x1_0000nat + b6 * 0x100nat + b7);
    assert(((x >> 56u64) & 0xff) < 256 && ((x >> 48u64) & 0xff) < 256
        && ((x >> 40u64) & 0xff) < 256 && ((x >> 32u64) & 0xff) < 256
        && ((x >> 24u64) & 0xff) < 256 && ((x >> 16u64) & 0xff) < 256
        && ((x >> 8u64) & 0xff) < 256 && ((x >> 0u64) & 0xff) < 256) by (bit_vector);
    assert(x == ((x >> 56u64) & 0xff) * 0x100_0000_0000_0000 + ((x >> 48u64) & 0xff)
        * 0x1_0000_0000_0000 + ((x >> 40u64) & 0xff) * 0x100_0000_0000
        + ((x >> 32u64) & 0xff) * 0x1_0000_0000 + ((x >> 24u64) & 0xff) * 0x100_0000
        + ((x >> 16u64) & 0xff) * 0x1_0000 + ((x >> 8u64) & 0xff) * 0x100
        + ((x >> 0u64) & 0xff)) by (bit_vector);
}

/// A 64-bit word denotes the integer it holds.
pub proof fn lemma_word_u64_value(x: u64)
    ensures
        be_nat(word_u64(x)) == x,
{
    lemma_be_nat_concat(zero_seq(24), be8(x));
    lemma_zero_seq_be_nat(24);
    lemma_be8_value(x);
}

/// A 256-bit word denotes the value of the four limbs it holds.
pub proof fn lemma_word_u256_value(v: Uint256)
    ensures
        be_nat(word_u256(v)) == v@,
{
    let l0 = v.limbs@[0];
    let l1 = v.limbs@[1];
    let l2 = v.limbs@[2];
    let l3 = v.limbs@[3];
    lemma_be8_value(l0);
    lemma_be8_value(l1);
    lemma_be8_value(l2);
    lemma_be8_value(l3);
    assert(pow256(8) == 0x1_0000_0000_0000_0000nat) by {
        assert(pow256(0) == 1);
        assert(pow256(1) == 256);
        assert(pow256(2) == 0x1_0000);
        assert(pow256(3) == 0x100_0000);
        assert(pow256(4) == 0x1_0000_0000);
        assert(pow256(5) == 0x100_0000_0000);
        assert(pow256(6) == 0x1_0000_0000_0000);
        assert(pow256(7) == 0x100_0000_0000_0000);
    }
    lemma_be_nat_concat(be8(l3), be8(l2));
    lemma_be_nat_concat(be8(l3) + be8(l2), be8(l1));
    lemma_be_nat_concat(be8(l3) + be8(l2) + be8(l1), be8(l0));
    let a32 = be_nat(be8(l3) + be8(l2));
    let a321 = be_nat(be8(l3) + be8(l2) + be8(l1));
    let a = be_nat(word_u256(v));
    assert(a32 == l3 * 0x1_0000_0000_0000_0000nat + l2) by (nonlinear_arith)
        requires
            a32 == be_nat(be8(l3)) * pow256(8) + be_nat(be8(l2)),
            be_nat(be8(l3)) == l3,
            be_nat(be8(l2)) == l2,
            pow256(8) == 0x1_0000_0000_0000_0000nat;
    assert(a321 == l3 * 0x1_00000000_00000000_00000000_00000000nat
        + l2 * 0x1_0000_0000_0000_0000nat + l1) by (nonlinear_arith)
        requires
            a321 == a32 * pow256(8) + l1,
            a32 == l3 * 0x1_0000_0000_0000_0000nat + l2,
            pow256(8) == 0x1_0000_0000_0000_0000nat;
    assert(a == l3 * 0x1_00000000_00000000_00000000_00000000_00000000_00000000nat
        + l2 * 0x1_00000000_00000000_00000000_00000000nat
        + l1 * 0x1_0000_0000_0000_0000nat + l0) by (nonlinear_arith)
        requires
            a == a321 * pow256(8) + l0,
            a321 == l3 * 0x1_00000000_00000000_00000000_00000000nat
                + l2 * 0x1_0000_0000_0000_0000nat + l1,
            pow256(8) == 0x1_0000_0000_0000_0000nat;
}

pub proof fn lemma_pad32(n: nat)
    ensures
        n <= pad32(n) < n + 32,
        pad32(n) % 32 == 0,
{
    let q = (n + 31) / 32;
    let r = (n + 31) % 32;
    vstd::arithmetic::div_mod::lemma_fundamental_div_mod((n + 31) as int, 32);
    assert(pad32(n) == n + 31 - r);
    vstd::arithmetic::div_mod::lemma_mod_multiples_basic(q as int, 32);
}

pub fn append_zeros(buf: &mut Vec<u8>, n: usize)
    ensures
        final(buf)@ == old(buf)@ + zero_seq(n as nat),
{
    let mut i: usize = 0;
    while i < n
        invariant
            i <= n,
            buf@ == old(buf)@ + zero_seq(i as nat),
        decreases n - i,
    {
        buf.push(0u8);
        proof {
            assert(old(buf)@ + zero_seq(i as nat) + seq![0u8]
                =~= old(buf)@ + zero_seq((i + 1) as nat));
        }
        i = i + 1;
    }
}

pub fn append_be8(buf: &mut Vec<u8>, x: u64)
    ensures
        final(buf)@ == old(buf)@ + be8(x),
{
    buf.push(((x >> 56u64) & 0xff) as u8);
    buf.push(((x >> 48u64) & 0xff) as u8);
    buf.push(((x >> 40u64) & 0xff) as u8);
    buf.push(((x >> 32u64) & 0xff) as u8);
    buf.push(((x >> 24u64) & 0xff) as u8);
    buf.push(((x >> 16u64) & 0xff) as u8);
    buf.push(((x >> 8u64) & 0xff) as u8);
    buf.push(((x >> 0u64) & 0xff) as u8);
    proof {
        assert(buf@ =~= old(buf)@ + be8(x));
    }
}

pub fn append_word_u64(buf: &mut Vec<u8>, x: u64)
    ensures
        final(buf)@ == old(buf)@ + word_u64(x),
{
    append_zeros(buf, 24);
    append_be8(buf, x);
    proof {
        assert(buf@ =~= old(buf)@ + word_u64(x));
    }
}

pub fn append_word_addr(buf: &mut Vec<u8>, a: &Address)
    ensures
        final(buf)@ == old(buf)@ + word_addr(*a),
{
    append_zeros(buf, 12);
    let mut i: usize = 0;
    while i < 20
        invariant
            i <= 20,
            buf@ == old(buf)@ + zero_seq(12) + a@.take(i as int),
        decreases 20 - i,
    {
        buf.push(a.bytes[i]);
        proof {
            assert(old(buf)@ + zero_seq(12) + a@.take(i as int) + seq![a@[i as int]]
                =~= old(buf)@ + zero_seq(12) + a@.take((i + 1) as int));
        }
        i = i + 1;
    }
    proof {
        assert(a@.take(20) =~= a@);
        assert(buf@ =~= old(buf)@ + word_addr(*a));
    }
}

pub fn append_word_u256(buf: &mut Vec<u8>, v: &Uint256)
    ensures
        final(buf)@ == old(buf)@ + word_u256(*v),
{
    append_be8(buf, v.limbs[3]);
    append_be8(buf, v.limbs[2]);
    append_be8(buf, v.limbs[1]);
    append_be8(buf, v.limbs[0]);
    proof {
        assert(buf@ =~= old(buf)@ + word_u256(*v));
    }
}

pub fn append_vec(buf: &mut Vec<u8>, data: &Vec<u8>)
    ensures
        final(buf)@ == old(buf)@ + data@,
{
    let mut i: usize = 0;
    let n = data.len();
    while i < n
        invariant
            i <= n,
            n == data@.len(),
            buf@ == old(buf)@ + data@.take(i as int),
        decreases n - i,
    {
        buf.push(data[i]);
        proof {
            assert(old(buf)@ + data@.take(i as int) + seq![data@[i as int]]
                =~= old(buf)@ + data@.take((i + 1) as int));
        }
        i = i + 1;
    }
    proof {
        assert(data@.take(n as int) =~= data@);
    }
}

pub fn append_bytes_enc(buf: &mut Vec<u8>, data: &Vec<u8>)
    ensures
        final(buf)@ == old(buf)@ + bytes_enc(data@),
{
    append_word_u64(buf, data.len() as u64);
    append_vec(buf, data);
    let rem = data.len() % 32;
    let padn = if rem == 0 { 0 } else { 32 - rem };
    proof {
        lemma_pad32(data@.len());
        vstd::arithmetic::div_mod::lemma_fundamental_div_mod(data@.len() as int, 32);
        vstd::arithmetic::div_mod::lemma_fundamental_div_mod((data@.len() + 31) as int, 32);
        assert(padn == pad32(data@.len()) - data@.len());
    }
    append_zeros(buf, padn);
    proof {
        assert(buf@ =~= old(buf)@ + bytes_enc(data@));
    }
}

/// The views of a list of byte vectors.
pub open spec fn views(items: Seq<Vec<u8>>) -> Seq<Seq<u8>> {
    Seq::new(items.len(), |i: int| items[i]@)
}

/// A raw argument byte string small enough for every offset in the formats
/// here to fit the 64-bit offset words.
pub open spec fn data_ok(b: Seq<u8>) -> bool {
    b.len() < 0x1_0000_0000
}

/// A list of already-encoded sub-calls whose batch encoding keeps all
/// offsets within 64 bits.
pub open spec fn call_list_ok(items: Seq<Seq<u8>>) -> bool {
    &&& items.len() < 0x1_0000
    &&& forall|i: int| 0 <= i < items.len() ==> (#[trigger] items[i]).len() < 0x200_0000_0000
}

/// A placeholder list whose encoding keeps all offsets within 64 bits.
pub open spec fn phs_ok(phs: Seq<Placeholder>) -> bool {
    &&& phs.len() < 0x100
    &&& forall|i: int| 0 <= i < phs.len() ==> data_ok((#[trigger] phs[i]).data@)
}

pub proof fn lemma_bytes_enc_len(b: Seq<u8>)
    ensures
        bytes_enc(b).len() == 32 + pad32(b.len()),
{
    lemma_pad32(b.len());
}

// ---- arrays of dynamic byte strings (`bytes[]`) ----

/// The concatenated tail sections of a `bytes[]` encoding.
pub open spec fn bytes_arr_tails(items: Seq<Seq<u8>>) -> Seq<u8>
    decreases items.len(),
{
    if items.len() == 0 {
        Seq::empty()
    } else {
        bytes_arr_tails(items.drop_last()) + bytes_enc(items.last())
    }
}

/// The offset, from the start of the array block, at which element `i`'s
/// tail section starts.
pub open spec fn bytes_arr_offset(items: Seq<Seq<u8>>, i: int) -> nat {
    32 * items.len() + bytes_arr_tails(items.take(i)).len()
}

/// The first `k` offset words of a `bytes[]` encoding.
pub open spec fn bytes_arr_heads(items: Seq<Seq<u8>>, k: int) -> Seq<u8>
    decreases k,
{
    if k <= 0 {
        Seq::empty()
    } else {
        bytes_arr_heads(items, k - 1) + word_u64(bytes_arr_offset(items, k - 1) as u64)
    }
}

/// The encoding of `bytes[]`: a count word, one offset word per element,
/// then each element as a length-prefixed padded byte string.
pub open spec fn bytes_arr_enc(items: Seq<Seq<u8>>) -> Seq<u8> {
    word_u64(items.len() as u64) + bytes_arr_heads(items, items.len() as int)
        + bytes_arr_tails(items)
}

pub proof fn lemma_bytes_arr_tails_len(items: Seq<Seq<u8>>)
    requires
        forall|i: int| 0 <= i < items.len() ==> (#[trigger] items[i]).len() < 0x200_0000_0000,
    ensures
        bytes_arr_tails(items).len() <= items.len() * 0x200_0000_0040,
    decreases items.len(),
{
    if items.len() > 0 {
        lemma_bytes_arr_tails_len(items.drop_last());
        lemma_bytes_enc_len(items.last());
        lemma_pad32(items.last().len());
        assert(items.drop_last().len() * 0x200_0000_0040 + 0x200_0000_0040
            == items.len() * 0x200_0000_0040) by (nonlinear_arith)
            requires items.len() >= 1, items.drop_last().len() == items.len() - 1;
    }
}

/// Computes the length of `bytes_enc(data@)`.
pub fn bytes_enc_len(data: &Vec<u8>) -> (r: u64)
    requires
        data@.len() < 0x200_0000_0000,
    ensures
        r as nat == bytes_enc(data@).len(),
{
    let len: u64 = data.len() as u64;
    let rem: u64 = len % 32;
    let padn: u64 = if rem == 0 { 0 } else { 32 - rem };
    proof {
        lemma_bytes_enc_len(data@);
        lemma_pad32(data@.len());
        vstd::arithmetic::div_mod::lemma_fundamental_div_mod(data@.len() as int, 32);
        vstd::arithmetic::div_mod::lemma_fundamental_div_mod((data@.len() + 31) as int, 32);
    }
    32 + len + padn
}

pub fn append_bytes_arr(buf: &mut Vec<u8>, items: &Vec<Vec<u8>>)
    requires
        call_list_ok(views(items@)),
    ensures
        final(buf)@ == old(buf)@ + bytes_arr_enc(views(items@)),
{
    let ghost iv = views(items@);
    let n = items.len();
    append_word_u64(buf, n as u64);
    let mut tail_len: u64 = 0;
    let mut i: usize = 0;
    while i < n
        invariant
            i <= n,
            n == iv.len(),
            iv == views(items@),
            call_list_ok(iv),
            tail_len as nat == bytes_arr_tails(iv.take(i as int)).len(),
            buf@ == old(buf)@ + word_u64(n as u64) + bytes_arr_heads(iv, i as int),
        decreases n - i,
    {
        proof {
            assert(iv.take(i as int).take(i as int) =~= iv.take(i as int));
            assert(forall|j: int| 0 <= j < iv.take(i as int).len()
                ==> (#[trigger] iv.take(i as int)[j]).len() < 0x200_0000_0000);
            lemma_bytes_arr_tails_len(iv.take(i as int));
            assert(iv.take(i as int).len() * 0x200_0000_0040
                <= 0x1_0000 * 0x200_0000_0040) by (nonlinear_arith)
                requires iv.take(i as int).len() <= 0x1_0000;
        }
        let off: u64 = 32 * (n as u64) + tail_len;
        append_word_u64(buf, off);
        proof {
            assert(off as nat == bytes_arr_offset(iv, i as int));
            assert(bytes_arr_heads(iv, i as int) + word_u64(off)
                =~= bytes_arr_heads(iv, i + 1 as int));
            assert(buf@ =~= old(buf)@ + word_u64(n as u64) + bytes_arr_heads(iv, i + 1 as int));
        }
        proof {
            assert(iv[i as int] == items@[i as int]@);
        }
        let elem_len = bytes_enc_len(&items[i]);
        proof {
            assert(iv.take(i + 1 as int).drop_last() =~= iv.take(i as int));
            assert(iv.take(i + 1 as int).last() == items@[i as int]@);
            assert(bytes_arr_tails(iv.take(i + 1 as int))
                == bytes_arr_tails(iv.take(i as int)) + bytes_enc(items@[i as int]@));
        }
        tail_len = tail_len + elem_len;
        i = i + 1;
    }
    let mut i: usize = 0;
    let ghost heads_done = old(buf)@ + word_u64(n as u64) + bytes_arr_heads(iv, n as int);
    while i < n
        invariant
            i <= n,
            n == iv.len(),
            iv == views(items@),
            call_list_ok(iv),
            buf@ == heads_done + bytes_arr_tails(iv.take(i as int)),
        decreases n - i,
    {
        append_bytes_enc(buf, &items[i]);
        proof {
            assert(iv.take(i + 1 as int).drop_last() =~= iv.take(i as int));
            assert(iv.take(i + 1 as int).last() == items@[i as int]@);
            assert(buf@ =~= heads_done + bytes_arr_tails(iv.take(i + 1 as int)));
        }
        i = i + 1;
    }
    proof {
        assert(iv.take(n as int) =~= iv);
        assert(buf@ =~= old(buf)@ + bytes_arr_enc(views(items@)));
    }
}

// ---- arrays of placeholders ----

/// The encoding of a placeholder struct given as its five fields: the
/// static fields as head words, the dynamic `data` field as an offset word
/// (always 160, five fields of 32 bytes each), then `data` as the tail.
pub open spec fn ph_enc_parts(
    to: Seq<u8>,
    data: Seq<u8>,
    offset: u64,
    length: u64,
    res_offset: u64,
) -> Seq<u8> {
    zero_seq(12) + to + word_u64(160) + word_u64(offset) + word_u64(length)
        + word_u64(res_offset) + bytes_enc(data)
}

/// The encoding of one placeholder struct.
pub open spec fn ph_enc(p: Placeholder) -> Seq<u8> {
    ph_enc_parts(p.to@, p.data@, p.offset, p.length, p.res_offset)
}

/// The concatenated element encodings of a placeholder array.
pub open spec fn ph_arr_tails(phs: Seq<Placeholder>) -> Seq<u8>
    decreases phs.len(),
{
    if phs.len() == 0 {
        Seq::empty()
    } else {
        ph_arr_tails(phs.drop_last()) + ph_enc(phs.last())
    }
}

/// The offset, from the start of the array block, of element `i`.
pub open spec fn ph_arr_offset(phs: Seq<Placeholder>, i: int) -> nat {
    32 * phs.len() + ph_arr_tails(phs.take(i)).len()
}

/// The first `k` offset words of a placeholder array encoding.
pub open spec fn ph_arr_heads(phs: Seq<Placeholder>, k: int) -> Seq<u8>
    decreases k,
{
    if k <= 0 {
        Seq::empty()
    } else {
        ph_arr_heads(phs, k - 1) + word_u64(ph_arr_offset(phs, k - 1) as u64)
    }
}

/// The encoding of a placeholder array: a count word, one offset word per
/// element, then the element encodings.
pub open spec fn ph_arr_enc(phs: Seq<Placeholder>) -> Seq<u8> {
    word_u64(phs.len() as u64) + ph_arr_heads(phs, phs.len() as int) + ph_arr_tails(phs)
}

pub proof fn lemma_ph_enc_len(p: Placeholder)
    ensures
        ph_enc(p).len() == 192 + pad32(p.data@.len()),
{
    lemma_bytes_enc_len(p.data@);
}

pub proof fn lemma_ph_arr_tails_len(phs: Seq<Placeholder>)
    requires
        forall|i: int| 0 <= i < phs.len() ==> data_ok((#[trigger] phs[i]).data@),
    ensures
        ph_arr_tails(phs).len() <= phs.len() * 0x1_0000_0200,
    decreases phs.len(),
{
    if phs.len() > 0 {
        lemma_ph_arr_tails_len(phs.drop_last());
        lemma_ph_enc_len(phs.last());
        lemma_pad32(phs.last().data@.len());
        assert(phs.drop_last().len() * 0x1_0000_0200 + 0x1_0000_0200
            == phs.len() * 0x1_0000_0200) by (nonlinear_arith)
            requires phs.len() >= 1, phs.drop_last().len() == phs.len() - 1;
    }
}

/// Appends the encoding of one placeholder struct.
pub fn append_ph(buf: &mut Vec<u8>, p: &Placeholder)
    requires
        data_ok(p.data@),
    ensures
        final(buf)@ == old(buf)@ + ph_enc(*p),
{
    append_word_addr(buf, &p.to);
    append_word_u64(buf, 160);
    append_word_u64(buf, p.offset);
    append_word_u64(buf, p.length);
    append_word_u64(buf, p.res_offset);
    append_bytes_enc(buf, &p.data);
    proof {
        assert(buf@ =~= old(buf)@ + ph_enc(*p));
    }
}

pub fn append_ph_arr(buf: &mut Vec<u8>, phs: &Vec<Placeholder>)
    requires
        phs_ok(phs@),
    ensures
        final(buf)@ == old(buf)@ + ph_arr_enc(phs@),
{
    let n = phs.len();
    append_word_u64(buf, n as u64);
    let mut tail_len: u64 = 0;
    let mut i: usize = 0;
    while i < n
        invariant
            i <= n,
            n == phs@.len(),
            phs_ok(phs@),
            tail_len as nat == ph_arr_tails(phs@.take(i as int)).len(),
            buf@ == old(buf)@ + word_u64(n as u64) + ph_arr_heads(phs@, i as int),
        decreases n - i,
    {
        proof {
            assert(forall|j: int| 0 <= j < phs@.take(i as int).len()
                ==> data_ok((#[trigger] phs@.take(i as int)[j]).data@));
            lemma_ph_arr_tails_len(phs@.take(i as int));
            assert(phs@.take(i as int).len() * 0x1_0000_0200
                <= 0x100 * 0x1_0000_0200) by (nonlinear_arith)
                requires phs@.take(i as int).len() <= 0x100;
        }
        let off: u64 = 32 * (n as u64) + tail_len;
        append_word_u64(buf, off);
        proof {
            assert(off as nat == ph_arr_offset(phs@, i as int));
            assert(ph_arr_heads(phs@, i as int) + word_u64(off)
                =~= ph_arr_heads(phs@, i + 1 as int));
            assert(buf@ =~= old(buf)@ + word_u64(n as u64) + ph_arr_heads(phs@, i + 1 as int));
        }
        let elem_len = bytes_enc_len(&phs[i].data);
        proof {
            lemma_ph_enc_len(phs@[i as int]);
            assert(phs@.take(i + 1 as int).drop_last() =~= phs@.take(i as int));
            assert(phs@.take(i + 1 as int).last() == phs@[i as int]);
            assert(ph_arr_tails(phs@.take(i + 1 as int))
                == ph_arr_tails(phs@.take(i as int)) + ph_enc(phs@[i as int]));
        }
        tail_len = tail_len + 160 + elem_len;
        i = i + 1;
    }
    let mut i: usize = 0;
    let ghost heads_done = old(buf)@ + word_u64(n as u64) + ph_arr_heads(phs@, n as int);
    while i < n
        invariant
            i <= n,
            n == phs@.len(),
            phs_ok(phs@),
            buf@ == heads_done + ph_arr_tails(phs@.take(i as int)),
        decreases n - i,
    {
        append_ph(buf, &phs[i]);
        proof {
            assert(phs@.take(i + 1 as int).drop_last() =~= phs@.take(i as int));
            assert(phs@.take(i + 1 as int).last() == phs@[i as int]);
            assert(buf@ =~= heads_done + ph_arr_tails(phs@.take(i + 1 as int)));
        }
        i = i + 1;
    }
    proof {
        assert(phs@.take(n as int) =~= phs@);
        assert(buf@ =~= old(buf)@ + ph_arr_enc(phs@));
    }
}


/// Appends the 20 raw bytes of an address.
pub fn append_addr(buf: &mut Vec<u8>, a: &Address)
    ensures
        final(buf)@ == old(buf)@ + a@,
{
    let mut i: usize = 0;
    while i < 20
        invariant
            i <= 20,
            buf@ == old(buf)@ + a@.take(i as int),
        decreases 20 - i,
    {
        buf.push(a.bytes[i]);
        proof {
            assert(old(buf)@ + a@.take(i as int) + seq![a@[i as int]]
                =~= old(buf)@ + a@.take((i + 1) as int));
        }
        i = i + 1;
    }
    proof {
        assert(a@.take(20) =~= a@);
    }
}

/// The 8-byte big-endian form of zero is all zero.
pub proof fn lemma_be8_zero()
    ensures
        be8(0u64) == zero_seq(8),
{
    assert((0u64 >> 56u64) & 0xff == 0 && (0u64 >> 48u64) & 0xff == 0
        && (0u64 >> 40u64) & 0xff == 0 && (0u64 >> 32u64) & 0xff == 0
        && (0u64 >> 24u64) & 0xff == 0 && (0u64 >> 16u64) & 0xff == 0
        && (0u64 >> 8u64) & 0xff == 0 && (0u64 >> 0u64) & 0xff == 0) by (bit_vector);
    assert forall|i: int| 0 <= i < 8 implies be8(0u64)[i] == 0u8 by {
        if i == 0 {
            assert(be_byte(0u64, 0) == 0);
        } else if i == 1 {
            assert(be_byte(0u64, 1) == 0);
        } else if i == 2 {
            assert(be_byte(0u64, 2) == 0);
        } else if i == 3 {
            assert(be_byte(0u64, 3) == 0);
        } else if i == 4 {
            assert(be_byte(0u64, 4) == 0);
        } else if i == 5 {
            assert(be_byte(0u64, 5) == 0);
        } else if i == 6 {
            assert(be_byte(0u64, 6) == 0);
        } else {
            assert(be_byte(0u64, 7) == 0);
        }
    }
    assert(be8(0u64) =~= zero_seq(8));
}

/// A 256-bit word holding the value zero is all zero.
pub proof fn lemma_word_u256_zero(v: Uint256)
    requires
        v@ == 0,
    ensures
        word_u256(v) == zero_seq(32),
{
    let l0 = v.limbs@[0];
    let l1 = v.limbs@[1];
    let l2 = v.limbs@[2];
    let l3 = v.limbs@[3];
    assert(l1 as nat * 0x1_0000_0000_0000_0000nat == 0);
    assert(l2 as nat * 0x1_00000000_00000000_00000000_00000000nat == 0);
    assert(l3 as nat * 0x1_00000000_00000000_00000000_00000000_00000000_00000000nat == 0);
    assert(l1 == 0) by (nonlinear_arith)
        requires l1 as nat * 0x1_0000_0000_0000_0000nat == 0;
    assert(l2 == 0) by (nonlinear_arith)
        requires l2 as nat * 0x1_00000000_00000000_00000000_00000000nat == 0;
    assert(l3 == 0) by (nonlinear_arith)
        requires l3 as nat
            * 0x1_00000000_00000000_00000000_00000000_00000000_00000000nat == 0;
    lemma_be8_zero();
    assert(word_u256(v) =~= zero_seq(32));
}

/// Appends four literal bytes (a function selector).
pub fn append4(buf: &mut Vec<u8>, b0: u8, b1: u8, b2: u8, b3: u8)
    ensures
        final(buf)@ == old(buf)@ + seq![b0, b1, b2, b3],
{
    buf.push(b0);
    buf.push(b1);
    buf.push(b2);
    buf.push(b3);
    proof {
        assert(buf@ =~= old(buf)@ + seq![b0, b1, b2, b3]);
    }
}

pub proof fn lemma_bytes_arr_heads_len(items: Seq<Seq<u8>>, k: int)
    requires
        k >= 0,
    ensures
        bytes_arr_heads(items, k).len() == 32 * k,
    decreases k,
{
    if k > 0 {
        lemma_bytes_arr_heads_len(items, k - 1);
    }
}

pub proof fn lemma_ph_arr_heads_len(phs: Seq<Placeholder>, k: int)
    requires
        k >= 0,
    ensures
        ph_arr_heads(phs, k).len() == 32 * k,
    decreases k,
{
    if k > 0 {
        lemma_ph_arr_heads_len(phs, k - 1);
    }
}

/// The byte `k` places from the end of the big-endian form of `n`.
pub open spec fn nat_byte(n: nat, k: nat) -> u8 {
    ((n / pow256(k)) % 256) as u8
}

/// The 32-byte big-endian word denoting the value `n`.
pub open spec fn word_of_nat(n: nat) -> Seq<u8> {
    Seq::new(32, |i: int| nat_byte(n, (31 - i) as nat))
}

pub proof fn lemma_pow256_pos(k: nat)
    ensures
        pow256(k) > 0,
    decreases k,
{
    if k > 0 {
        lemma_pow256_pos((k - 1) as nat);
    }
}

/// Every byte of a byte string can be read back out of the integer the
/// string denotes.
pub proof fn lemma_be_nat_index(s: Seq<u8>, i: int)
    requires
        0 <= i < s.len(),
    ensures
        s[i] as nat == (be_nat(s) / pow256((s.len() - 1 - i) as nat)) % 256,
    decreases s.len(),
{
    let n = be_nat(s);
    let dl = be_nat(s.drop_last());
    vstd::arithmetic::div_mod::lemma_fundamental_div_mod_converse(
        n as int, 256, dl as int, s.last() as int);
    if i == s.len() - 1 {
        assert(pow256(0) == 1);
        vstd::arithmetic::div_mod::lemma_fundamental_div_mod_converse(
            n as int, 1, n as int, 0);
        assert(n / pow256(0) == n);
        assert(s[i] == s.last());
    } else {
        lemma_be_nat_index(s.drop_last(), i);
        let k = (s.len() - 2 - i) as nat;
        lemma_pow256_pos(k);
        vstd::arithmetic::div_mod::lemma_div_denominator(
            n as int, 256, pow256(k) as int);
        assert(n / 256 == dl);
        assert(pow256((s.len() - 1 - i) as nat) == 256 * pow256(k));
        assert(s.drop_last()[i] == s[i]);
    }
}

/// A 32-byte string is determined by the integer it denotes.
pub proof fn lemma_word_of_be_nat(s: Seq<u8>)
    requires
        s.len() == 32,
    ensures
        s == word_of_nat(be_nat(s)),
{
    assert forall|i: int| 0 <= i < 32 implies s[i] == word_of_nat(be_nat(s))[i] by {
        lemma_be_nat_index(s, i);
    }
    assert(s =~= word_of_nat(be_nat(s)));
}

/// The word of a 256-bit integer is the word of its value.
pub proof fn lemma_word_u256_of_nat(v: Uint256)
    ensures
        word_u256(v) == word_of_nat(v@),
{
    lemma_word_u256_value(v);
    lemma_word_of_be_nat(word_u256(v));
}

/// The word of a 64-bit integer is the word of its value.
pub proof fn lemma_word_u64_of_nat(x: u64)
    ensures
        word_u64(x) == word_of_nat(x as nat),
{
    lemma_word_u64_value(x);
    lemma_word_of_be_nat(word_u64(x));
}

/// The word of zero is all zero.
pub proof fn lemma_word_of_nat_zero()
    ensures
        word_of_nat(0) == zero_seq(32),
{
    assert forall|i: int| 0 <= i < 32 implies word_of_nat(0)[i] == 0u8 by {
        let p = pow256((31 - i) as nat);
        lemma_pow256_pos((31 - i) as nat);
        vstd::arithmetic::div_mod::lemma_fundamental_div_mod_converse(
            0, p as int, 0, 0);
        assert(0nat / p == 0);
    }
    assert(word_of_nat(0) =~= zero_seq(32));
}

/// A one-element placeholder array encodes as the count word, the offset
/// word 32, and the element.
pub proof fn lemma_ph_arr_single(p: Placeholder)
    ensures
        ph_arr_enc(seq![p]) == word_u64(1) + word_u64(32) + ph_enc(p),
{
    let s = seq![p];
    assert(s.drop_last() =~= Seq::<Placeholder>::empty());
    assert(s.take(0) =~= Seq::<Placeholder>::empty());
    assert(ph_arr_tails(Seq::<Placeholder>::empty()) == Seq::<u8>::empty());
    assert(s.last() == p);
    assert(ph_arr_tails(s) == Seq::<u8>::empty() + ph_enc(p));
    assert(ph_arr_offset(s, 0) == 32);
    assert(ph_arr_heads(s, 1) == ph_arr_heads(s, 0) + word_u64(32));
    assert(ph_arr_enc(s) =~= word_u64(1) + word_u64(32) + ph_enc(p));
}

/// A generic bound on the tail section of a `bytes[]` encoding.
pub proof fn lemma_bytes_arr_tails_len_bound(items: Seq<Seq<u8>>, c: nat)
    requires
        forall|i: int| 0 <= i < items.len() ==> (#[trigger] items[i]).len() <= c,
    ensures
        bytes_arr_tails(items).len() <= items.len() * (c + 64),
    decreases items.len(),
{
    if items.len() > 0 {
        lemma_bytes_arr_tails_len_bound(items.drop_last(), c);
        lemma_bytes_enc_len(items.last());
        lemma_pad32(items.last().len());
        assert(items.drop_last().len() * (c + 64) + (c + 64)
            == items.len() * (c + 64)) by (nonlinear_arith)
            requires items.len() >= 1, items.drop_last().len() == items.len() - 1;
    }
}

/// A callback call list: short enough, with each element small enough,
/// that the callback payload stays within a single dynamic argument.
pub open spec fn cb_list_ok(calls: Seq<Seq<u8>>) -> bool {
    &&& calls.len() < 0x100
    &&& forall|i: int| 0 <= i < calls.len() ==> (#[trigger] calls[i]).len() < 0x10_0000
}

/// The concatenated address words of a static `address[]` tail.
pub open spec fn addr_words(addrs: Seq<Address>) -> Seq<u8>
    decreases addrs.len(),
{
    if addrs.len() == 0 {
        Seq::empty()
    } else {
        addr_words(addrs.drop_last()) + word_addr(addrs.last())
    }
}

/// The concatenated value words of a static `uint256[]` tail.
pub open spec fn nat_words(vals: Seq<nat>) -> Seq<u8>
    decreases vals.len(),
{
    if vals.len() == 0 {
        Seq::empty()
    } else {
        nat_words(vals.drop_last()) + word_of_nat(vals.last())
    }
}

pub proof fn lemma_addr_words_len(addrs: Seq<Address>)
    ensures
        addr_words(addrs).len() == 32 * addrs.len(),
    decreases addrs.len(),
{
    if addrs.len() > 0 {
        lemma_addr_words_len(addrs.drop_last());
    }
}

pub proof fn lemma_nat_words_len(vals: Seq<nat>)
    ensures
        nat_words(vals).len() == 32 * vals.len(),
    decreases vals.len(),
{
    if vals.len() > 0 {
        lemma_nat_words_len(vals.drop_last());
    }
}

} // verus!

//! The batch builder: accumulates encoded sub-calls, tracks the summed
//! native value, and produces the final batched transaction payload.
//!
//! The executor contract exposes three entry points, called here through
//! their 4-byte selectors:
//! - `exec_606BaXt(bytes[])`, selector `0x00000001`: runs a batch;
//! - `call_g0oyU7o(address,uint256,bytes32,bytes)`, selector `0x00000000`:
//!   one plain sub-call;
//! - `callWithPlaceholders4845164670(address,uint256,bytes32,bytes,
//!   (address,bytes,uint64,uint64,uint64)[])`, selector `0x00000002`: one
//!   sub-call with dynamic data injection.
//!
//! The executor also has its own `transfer(address,uint256)` used for
//! moving native tokens out (selector `0xa9059cbb`).

use vstd::prelude::*;

use crate::abi::{append4, append_bytes_arr, append_bytes_enc, append_ph_arr, append_vec,
    append_word_addr, append_word_u256, append_word_u64, append_zeros, bytes_arr_enc,
    bytes_enc, bytes_enc_len, call_list_ok, data_ok, lemma_bytes_arr_heads_len,
    lemma_bytes_arr_tails_len, lemma_bytes_enc_len, lemma_pad32, lemma_ph_arr_heads_len,
    cb_list_ok, lemma_bytes_arr_tails_len_bound, lemma_ph_arr_single,
    lemma_ph_arr_tails_len, lemma_word_of_nat_zero,
    lemma_word_u256_of_nat, pad32, ph_arr_enc, ph_enc_parts, phs_ok, views,
    word_addr, word_of_nat, word_u64, zero_seq};
use crate::context::{context_spec, encode_context};
use crate::types::{u256_limit, Address, CallbackContext, EncodedExec, Placeholder, Uint256};
use crate::u256::u256_checked_add;

verus! {

/// Selector of `call_g0oyU7o(address,uint256,bytes32,bytes)`.
pub open spec fn sel_call() -> Seq<u8> {
    seq![0x00u8, 0x00u8, 0x00u8, 0x00u8]
}

/// Selector of `callWithPlaceholders4845164670(address,uint256,bytes32,
/// bytes,(address,bytes,uint64,uint64,uint64)[])`.
pub open spec fn sel_call_ph() -> Seq<u8> {
    seq![0x00u8, 0x00u8, 0x00u8, 0x02u8]
}

/// Selector of `exec_606BaXt(bytes[])`.
pub open spec fn sel_exec() -> Seq<u8> {
    seq![0x00u8, 0x00u8, 0x00u8, 0x01u8]
}

/// Selector of `transfer(address,uint256)`.
pub open spec fn sel_transfer() -> Seq<u8> {
    seq![0xa9u8, 0x05u8, 0x9cu8, 0xbbu8]
}

/// The context word of an optional callback context: absent means the
/// all-zero sentinel, "no callback authorization expected".
pub open spec fn context_of(context: Option<&CallbackContext>) -> Seq<u8> {
    match context {
        Option::Some(c) => context_spec(c.sender, c.data_index),
        Option::None => zero_seq(32),
    }
}

/// The plain call instruction: selector, target, value, context, then the
/// call data as the single dynamic argument at offset 128.
pub open spec fn plain_call_spec(
    target: Address,
    value: nat,
    ctx: Seq<u8>,
    data: Seq<u8>,
) -> Seq<u8> {
    sel_call() + word_addr(target) + word_of_nat(value) + ctx + word_u64(128)
        + bytes_enc(data)
}

/// The placeholder-carrying call instruction: selector, target, value,
/// context, the call data at offset 160, and the placeholder array behind
/// it.
pub open spec fn ph_call_spec(
    target: Address,
    value: nat,
    ctx: Seq<u8>,
    data: Seq<u8>,
    phs: Seq<Placeholder>,
) -> Seq<u8> {
    sel_call_ph() + word_addr(target) + word_of_nat(value) + ctx + word_u64(160)
        + word_u64((192 + pad32(data.len())) as u64) + bytes_enc(data) + ph_arr_enc(phs)
}

/// One encoded sub-call: the placeholder form exactly when the placeholder
/// list is non-empty.
pub open spec fn build_call_spec(
    target: Address,
    value: nat,
    ctx: Seq<u8>,
    data: Seq<u8>,
    phs: Seq<Placeholder>,
) -> Seq<u8> {
    if phs.len() == 0 {
        plain_call_spec(target, value, ctx, data)
    } else {
        ph_call_spec(target, value, ctx, data, phs)
    }
}

/// A plain sub-call carrying no native value and no callback context.
pub open spec fn sub_call_plain0(target: Address, data: Seq<u8>) -> Seq<u8> {
    sel_call() + word_addr(target) + zero_seq(32) + zero_seq(32) + word_u64(128)
        + bytes_enc(data)
}

/// A plain sub-call carrying no native value, with a callback context.
pub open spec fn sub_call_ctx0(
    target: Address,
    sender: Address,
    data_index: u64,
    data: Seq<u8>,
) -> Seq<u8> {
    sel_call() + word_addr(target) + zero_seq(32) + context_spec(sender, data_index)
        + word_u64(128) + bytes_enc(data)
}

/// A plain sub-call carrying native value, without a callback context.
pub open spec fn sub_call_value(target: Address, value: nat, data: Seq<u8>) -> Seq<u8> {
    sel_call() + word_addr(target) + word_of_nat(value) + zero_seq(32) + word_u64(128)
        + bytes_enc(data)
}

/// A sub-call with no native value, no context, and one placeholder,
/// given by its five fields.
pub open spec fn sub_call_ph1(
    target: Address,
    data: Seq<u8>,
    ph_to: Seq<u8>,
    ph_data: Seq<u8>,
    ph_offset: u64,
    ph_length: u64,
    ph_res_offset: u64,
) -> Seq<u8> {
    sel_call_ph() + word_addr(target) + zero_seq(32) + zero_seq(32) + word_u64(160)
        + word_u64((192 + pad32(data.len())) as u64) + bytes_enc(data) + word_u64(1)
        + word_u64(32) + ph_enc_parts(ph_to, ph_data, ph_offset, ph_length, ph_res_offset)
}

/// The executor transfer call data: `transfer(recipient, amount)`.
pub open spec fn transfer_calldata(recipient: Address, amount: nat) -> Seq<u8> {
    sel_transfer() + word_addr(recipient) + word_of_nat(amount)
}

/// The tip call data: a transfer whose zero recipient the executor reads
/// as the block producer.
pub open spec fn tip_calldata(amount: nat) -> Seq<u8> {
    sel_transfer() + zero_seq(32) + word_of_nat(amount)
}

/// The full transaction call data of a batch: the batch entry point applied
/// to the array of encoded sub-calls.
pub open spec fn exec_calldata_spec(calls: Seq<Seq<u8>>) -> Seq<u8> {
    sel_exec() + word_u64(32) + bytes_arr_enc(calls)
}

/// The callback payload convention shared by all flash-loan style
/// protocols: the pair `(bytes[] sub-calls, bytes return-value)` in
/// canonical parameter encoding.
pub open spec fn callback_data_spec(calls: Seq<Seq<u8>>, ret: Seq<u8>) -> Seq<u8> {
    word_u64(64) + word_u64((64 + bytes_arr_enc(calls).len()) as u64) + bytes_arr_enc(calls)
        + bytes_enc(ret)
}

/// The views of an optional callback call list; absent means empty.
pub open spec fn opt_call_views(calls: Option<Vec<Vec<u8>>>) -> Seq<Seq<u8>> {
    match calls {
        Option::Some(v) => views(v@),
        Option::None => Seq::empty(),
    }
}

/// The callback payload of a well-bounded call list is small enough to
/// ride inside one dynamic argument of an outer call.
pub proof fn lemma_callback_data_len(calls: Seq<Seq<u8>>, ret: Seq<u8>)
    requires
        cb_list_ok(calls),
        ret.len() < 0x1000,
    ensures
        callback_data_spec(calls, ret).len() < 0x2000_0000,
        bytes_arr_enc(calls).len() < 0x2000_0000,
{
    lemma_bytes_arr_heads_len(calls, calls.len() as int);
    assert(forall|i: int| 0 <= i < calls.len()
        ==> (#[trigger] calls[i]).len() <= 0x10_0000);
    lemma_bytes_arr_tails_len_bound(calls, 0x10_0000);
    assert(calls.len() * (0x10_0000 + 64) <= 0x100 * (0x10_0000 + 64)) by (nonlinear_arith)
        requires calls.len() <= 0x100;
    lemma_bytes_enc_len(ret);
    lemma_pad32(ret.len());
}

/// The sum of a sequence of pushed values.
pub open spec fn total_of(vs: Seq<nat>) -> nat
    decreases vs.len(),
{
    if vs.len() == 0 {
        0
    } else {
        total_of(vs.drop_last()) + vs.last()
    }
}

/// The transaction the builder is marked to produce after a push: the same
/// executor, the sub-call appended, the value added to both the running
/// total and its pushed-value history.
pub open spec fn pushes(
    pre: ExecutorEncoder,
    post: ExecutorEncoder,
    enc: Seq<u8>,
    v: nat,
) -> bool {
    &&& post.address_spec() == pre.address_spec()
    &&& post.calls_model() == pre.calls_model().push(enc)
    &&& post.value_model() == pre.value_model() + v
    &&& post.pushed_model() == pre.pushed_model().push(v)
}

pub proof fn lemma_views_push(items: Seq<Vec<u8>>, v: Vec<u8>)
    ensures
        views(items.push(v)) == views(items).push(v@),
{
    assert(views(items.push(v)) =~= views(items).push(v@));
}

/// Builder for encoding batched calls to one executor contract.
pub struct ExecutorEncoder {
    address: Address,
    calls: Vec<Vec<u8>>,
    total_value: Uint256,
    pushed: Ghost<Seq<nat>>,
}

impl ExecutorEncoder {
    /// The executor contract this builder is bound to.
    pub closed spec fn address_spec(self) -> Address {
        self.address
    }

    /// The encoded sub-calls accumulated since the last flush.
    pub closed spec fn calls_model(self) -> Seq<Seq<u8>> {
        views(self.calls@)
    }

    /// The running native-value total.
    pub closed spec fn value_model(self) -> nat {
        self.total_value@
    }

    /// The native values of every push since the last flush, in order.
    pub closed spec fn pushed_model(self) -> Seq<nat> {
        self.pushed@
    }

    /// The builder invariant: the running total is exactly the sum of the
    /// pushed values, one history entry per accumulated sub-call, and every
    /// accumulated sub-call is small enough for the batch envelope.
    pub open spec fn wf(self) -> bool {
        &&& self.value_model() == total_of(self.pushed_model())
        &&& self.calls_model().len() == self.pushed_model().len()
        &&& forall|i: int| 0 <= i < self.calls_model().len()
            ==> (#[trigger] self.calls_model()[i]).len() < 0x200_0000_0000
    }

    pub fn new(address: Address) -> (r: ExecutorEncoder)
        ensures
            r.wf(),
            r.address_spec() == address,
            r.calls_model() == Seq::<Seq<u8>>::empty(),
            r.value_model() == 0,
            r.pushed_model() == Seq::<nat>::empty(),
    {
        let r = ExecutorEncoder {
            address,
            calls: Vec::new(),
            total_value: Uint256::from_u64(0),
            pushed: Ghost(Seq::empty()),
        };
        proof {
            assert(views(r.calls@) =~= Seq::<Seq<u8>>::empty());
        }
        r
    }

    /// Returns the executor contract address.
    pub fn address(&self) -> (r: Address)
        ensures
            r == self.address_spec(),
    {
        self.address
    }

    /// Encodes a single call instruction.
    ///
    /// If `placeholders` is non-empty, the placeholder-carrying form is
    /// produced; otherwise the plain form.  An absent `context` encodes as
    /// the all-zero sentinel.
    pub fn build_call(
        target: Address,
        value: Uint256,
        call_data: Vec<u8>,
        context: Option<&CallbackContext>,
        placeholders: Vec<Placeholder>,
    ) -> (r: Vec<u8>)
        requires
            data_ok(call_data@),
            phs_ok(placeholders@),
        ensures
            r@ == build_call_spec(target, value@, context_of(context), call_data@,
                placeholders@),
            r@.len() < 0x200_0000_0000,
    {
        let mut buf: Vec<u8> = Vec::new();
        if placeholders.len() == 0 {
            append4(&mut buf, 0x00, 0x00, 0x00, 0x00);
            append_word_addr(&mut buf, &target);
            append_word_u256(&mut buf, &value);
            append_context(&mut buf, context);
            append_word_u64(&mut buf, 128);
            append_bytes_enc(&mut buf, &call_data);
            proof {
                lemma_word_u256_of_nat(value);
                assert(buf@ =~= build_call_spec(target, value@, context_of(context),
                    call_data@, placeholders@));
                lemma_bytes_enc_len(call_data@);
                lemma_pad32(call_data@.len());
            }
        } else {
            append4(&mut buf, 0x00, 0x00, 0x00, 0x02);
            append_word_addr(&mut buf, &target);
            append_word_u256(&mut buf, &value);
            append_context(&mut buf, context);
            append_word_u64(&mut buf, 160);
            let data_enc_len = bytes_enc_len(&call_data);
            append_word_u64(&mut buf, 160 + data_enc_len);
            append_bytes_enc(&mut buf, &call_data);
            append_ph_arr(&mut buf, &placeholders);
            proof {
                lemma_word_u256_of_nat(value);
                lemma_bytes_enc_len(call_data@);
                lemma_pad32(call_data@.len());
                assert(160 + data_enc_len == (192 + pad32(call_data@.len())) as u64);
                assert(buf@ =~= build_call_spec(target, value@, context_of(context),
                    call_data@, placeholders@));
                lemma_ph_arr_heads_len(placeholders@, placeholders@.len() as int);
                lemma_ph_arr_tails_len(placeholders@);
            }
        }
        buf
    }

    /// Encodes the sub-call and appends it; the native value joins the
    /// running total.  Returns the builder for chaining.
    pub fn push_call(
        &mut self,
        target: Address,
        value: Uint256,
        call_data: Vec<u8>,
        context: Option<&CallbackContext>,
        placeholders: Vec<Placeholder>,
    ) -> (r: &mut Self)
        requires
            old(self).wf(),
            data_ok(call_data@),
            phs_ok(placeholders@),
            old(self).value_model() + value@ < u256_limit(),
        ensures
            pushes(*old(self), *r, build_call_spec(target, value@, context_of(context),
                call_data@, placeholders@), value@),
            r.wf(),
            *final(self) == *final(r),
    {
        let sum = u256_checked_add(self.total_value, value).unwrap();
        let enc = Self::build_call(target, value, call_data, context, placeholders);
        self.total_value = sum;
        self.calls.push(enc);
        proof {
            lemma_views_push(old(self).calls@, enc);
            let vs = self.pushed@;
        }
        self.pushed = Ghost(self.pushed@.push(value@ as nat));
        proof {
            assert(self.pushed@.drop_last() =~= old(self).pushed@);
            assert(total_of(self.pushed@) == total_of(old(self).pushed@) + value@);
        }
        self
    }

    /// Drains and returns all accumulated sub-calls, resetting the builder:
    /// the sequence and the running total come back empty and zero, ready
    /// for the next, independent batch.
    pub fn flush(&mut self) -> (r: Vec<Vec<u8>>)
        requires
            old(self).wf(),
        ensures
            views(r@) == old(self).calls_model(),
            final(self).wf(),
            final(self).address_spec() == old(self).address_spec(),
            final(self).calls_model() == Seq::<Seq<u8>>::empty(),
            final(self).value_model() == 0,
            final(self).pushed_model() == Seq::<nat>::empty(),
    {
        self.total_value = Uint256::from_u64(0);
        self.pushed = Ghost(Seq::empty());
        let mut out: Vec<Vec<u8>> = Vec::new();
        core::mem::swap(&mut self.calls, &mut out);
        proof {
            assert(views(self.calls@) =~= Seq::<Seq<u8>>::empty());
        }
        out
    }

    /// Produces the full batched transaction and resets the builder.
    ///
    /// The reported value is the sum of every value pushed since the last
    /// flush, plus `extra_value` — also when no sub-call was pushed.
    pub fn encode_exec(&mut self, extra_value: Uint256) -> (r: EncodedExec)
        requires
            old(self).wf(),
            old(self).calls_model().len() < 0x1_0000,
            old(self).value_model() + extra_value@ < u256_limit(),
        ensures
            r.to == old(self).address_spec(),
            r.value@ == total_of(old(self).pushed_model()) + extra_value@,
            r.data@ == exec_calldata_spec(old(self).calls_model()),
            final(self).wf(),
            final(self).address_spec() == old(self).address_spec(),
            final(self).calls_model() == Seq::<Seq<u8>>::empty(),
            final(self).value_model() == 0,
            final(self).pushed_model() == Seq::<nat>::empty(),
    {
        let value = u256_checked_add(self.total_value, extra_value).unwrap();
        let calls = self.flush();
        let mut data: Vec<u8> = Vec::new();
        append4(&mut data, 0x00, 0x00, 0x00, 0x01);
        append_word_u64(&mut data, 32);
        append_bytes_arr(&mut data, &calls);
        proof {
            assert(data@ =~= exec_calldata_spec(old(self).calls_model()));
        }
        let to = self.address;
        EncodedExec { to, data, value }
    }

    /// The running total always fits in 256 bits.
    pub proof fn lemma_value_in_range(&self)
        ensures
            self.value_model() < u256_limit(),
    {
        self.total_value.lemma_value_bound();
    }

    /// Pushes a sub-call with no native value and no callback context.
    pub(crate) fn push_plain0(&mut self, target: Address, data: Vec<u8>) -> (r: &mut Self)
        requires
            old(self).wf(),
            data_ok(data@),
        ensures
            pushes(*old(self), *r, sub_call_plain0(target, data@), 0),
            r.wf(),
            *final(self) == *final(r),
    {
        proof {
            self.lemma_value_in_range();
        }
        let zero = Uint256::from_u64(0);
        let r = self.push_call(target, zero, data, None, Vec::new());
        proof {
            lemma_word_of_nat_zero();
        }
        r
    }

    /// Pushes a sub-call with no native value, with a callback context.
    pub(crate) fn push_ctx0(
        &mut self,
        target: Address,
        sender: Address,
        data_index: u64,
        data: Vec<u8>,
    ) -> (r: &mut Self)
        requires
            old(self).wf(),
            data_ok(data@),
        ensures
            pushes(*old(self), *r, sub_call_ctx0(target, sender, data_index, data@), 0),
            r.wf(),
            *final(self) == *final(r),
    {
        proof {
            self.lemma_value_in_range();
        }
        let zero = Uint256::from_u64(0);
        let ctx = CallbackContext { sender, data_index };
        let r = self.push_call(target, zero, data, Some(&ctx), Vec::new());
        proof {
            lemma_word_of_nat_zero();
        }
        r
    }

    /// Pushes a sub-call carrying native value, without a callback context.
    pub(crate) fn push_value(
        &mut self,
        target: Address,
        value: Uint256,
        data: Vec<u8>,
    ) -> (r: &mut Self)
        requires
            old(self).wf(),
            data_ok(data@),
            old(self).value_model() + value@ < u256_limit(),
        ensures
            pushes(*old(self), *r, sub_call_value(target, value@, data@), value@),
            r.wf(),
            *final(self) == *final(r),
    {
        let r = self.push_call(target, value, data, None, Vec::new());
        proof {
            lemma_word_of_nat_zero();
        }
        r
    }

    /// Pushes a sub-call with no native value, no context, and one
    /// placeholder.
    pub(crate) fn push_ph1(
        &mut self,
        target: Address,
        data: Vec<u8>,
        ph: Placeholder,
    ) -> (r: &mut Self)
        requires
            old(self).wf(),
            data_ok(data@),
            data_ok(ph.data@),
        ensures
            pushes(*old(self), *r, sub_call_ph1(target, data@, ph.to@, ph.data@, ph.offset,
                ph.length, ph.res_offset), 0),
            r.wf(),
            *final(self) == *final(r),
    {
        proof {
            self.lemma_value_in_range();
        }
        let zero = Uint256::from_u64(0);
        let ghost gph = ph;
        let mut phs: Vec<Placeholder> = Vec::new();
        phs.push(ph);
        proof {
            assert(phs@ =~= seq![gph]);
            lemma_ph_arr_single(gph);
            lemma_word_of_nat_zero();
        }
        let r = self.push_call(target, zero, data, None, phs);
        proof {
            assert(ph_call_spec(target, 0, zero_seq(32), data@, seq![gph])
                =~= sub_call_ph1(target, data@, gph.to@, gph.data@, gph.offset, gph.length,
                    gph.res_offset));
        }
        r
    }

    /// Moves native tokens from the executor to `recipient`, which must not
    /// be the zero address: the executor reads a zero recipient as the
    /// block producer, a distinct operation offered by `tip`.
    pub fn transfer(&mut self, recipient: Address, amount: Uint256) -> (r: &mut Self)
        requires
            old(self).wf(),
            !recipient.is_zero_spec(),
        ensures
            pushes(*old(self), *r, sub_call_plain0(old(self).address_spec(),
                transfer_calldata(recipient, amount@)), 0),
            r.wf(),
            *final(self) == *final(r),
    {
        let mut data: Vec<u8> = Vec::new();
        append4(&mut data, 0xa9, 0x05, 0x9c, 0xbb);
        append_word_addr(&mut data, &recipient);
        append_word_u256(&mut data, &amount);
        proof {
            lemma_word_u256_of_nat(amount);
            assert(data@ =~= transfer_calldata(recipient, amount@));
        }
        let addr = self.address;
        self.push_plain0(addr, data)
    }

    /// Sends native tokens to the block producer: a transfer with the zero
    /// recipient.
    pub fn tip(&mut self, amount: Uint256) -> (r: &mut Self)
        requires
            old(self).wf(),
        ensures
            pushes(*old(self), *r, sub_call_plain0(old(self).address_spec(),
                tip_calldata(amount@)), 0),
            r.wf(),
            *final(self) == *final(r),
    {
        let mut data: Vec<u8> = Vec::new();
        append4(&mut data, 0xa9, 0x05, 0x9c, 0xbb);
        let zero_addr = Address::zero();
        append_word_addr(&mut data, &zero_addr);
        append_word_u256(&mut data, &amount);
        proof {
            lemma_word_u256_of_nat(amount);
            assert(word_addr(zero_addr) =~= zero_seq(32));
            assert(data@ =~= tip_calldata(amount@));
        }
        let addr = self.address;
        self.push_plain0(addr, data)
    }
}

/// Appends the context word of an optional callback context.
fn append_context(buf: &mut Vec<u8>, context: Option<&CallbackContext>)
    ensures
        final(buf)@ == old(buf)@ + context_of(context),
{
    match context {
        Option::Some(c) => {
            let v = encode_context(&c.sender, c.data_index);
            append_vec(buf, &v);
        },
        Option::None => {
            append_zeros(buf, 32);
        },
    }
}

/// Encodes the callback payload `(bytes[] sub-calls, bytes return-value)`.
///
/// Every callback-driven protocol integration passes this blob as its
/// `data`/`userData` argument; the executor decodes it, runs the sub-calls,
/// and returns the return value to the protocol.
pub fn encode_callback_data(calls: Vec<Vec<u8>>, return_value: Vec<u8>) -> (r: Vec<u8>)
    requires
        call_list_ok(views(calls@)),
        data_ok(return_value@),
    ensures
        r@ == callback_data_spec(views(calls@), return_value@),
{
    let mut arr: Vec<u8> = Vec::new();
    append_bytes_arr(&mut arr, &calls);
    proof {
        lemma_bytes_arr_heads_len(views(calls@), views(calls@).len() as int);
        lemma_bytes_arr_tails_len(views(calls@));
        assert(arr@.len() < 0x4000_0000_0000_0000);
    }
    let mut buf: Vec<u8> = Vec::new();
    append_word_u64(&mut buf, 64);
    append_word_u64(&mut buf, 64 + arr.len() as u64);
    append_vec(&mut buf, &arr);
    append_bytes_enc(&mut buf, &return_value);
    proof {
        assert(buf@ =~= callback_data_spec(views(calls@), return_value@));
    }
    buf
}

} // verus!

use alloy_primitives::{keccak256, Bytes, FixedBytes, U256};
use alloy_sol_types::SolValue;

use executooor::encoder::{encode_callback_data, ExecutorEncoder};
use executooor::types::{Address, Placeholder, Uint256};

fn addr(last: u8) -> Address {
    let mut b = [0u8; 20];
    b[19] = last;
    Address::new(b)
}

fn al(a: &Address) -> alloy_primitives::Address {
    alloy_primitives::Address::from(a.bytes)
}

#[test]
fn test_batch_value_conservation() {
    // the reported value is the sum of every pushed value plus the extra
    let executor = addr(0xee);
    let weth = addr(0x11);
    let mut enc = ExecutorEncoder::new(executor);
    enc.wrap_eth(weth, Uint256::from_u64(1000));
    enc.wrap_eth(weth, Uint256::from_u64(2000));
    enc.tip(Uint256::from_u64(50));
    let tx = enc.encode_exec(Uint256::from_u64(7));
    assert_eq!(tx.value.limbs, Uint256::from_u64(3007).limbs);
    assert_eq!(tx.to.bytes, executor.bytes);
}

#[test]
fn test_batch_value_conservation_empty() {
    // it holds with zero pushes too
    let mut enc = ExecutorEncoder::new(addr(0xee));
    let tx = enc.encode_exec(Uint256::from_u64(9));
    assert_eq!(tx.value.limbs, Uint256::from_u64(9).limbs);
    let calls = <(Vec<Bytes>,)>::abi_decode_params(&tx.data[4..]).unwrap().0;
    assert_eq!(calls.len(), 0);
}

#[test]
fn test_flush_resets() {
    // a second flush with no intervening push yields nothing
    let mut enc = ExecutorEncoder::new(addr(0xee));
    enc.erc20_approve(addr(1), addr(2), Uint256::from_u64(77));
    let first = enc.flush();
    assert_eq!(first.len(), 1);
    let second = enc.flush();
    assert_eq!(second.len(), 0);
    let tx = enc.encode_exec(Uint256::zero());
    assert_eq!(tx.value.limbs, Uint256::zero().limbs);
}

#[test]
fn test_encode_exec_resets() {
    // the terminal operation leaves the builder ready for a fresh batch
    let mut enc = ExecutorEncoder::new(addr(0xee));
    enc.wrap_eth(addr(0x11), Uint256::from_u64(123));
    let tx1 = enc.encode_exec(Uint256::zero());
    assert_eq!(tx1.value.limbs, Uint256::from_u64(123).limbs);
    let tx2 = enc.encode_exec(Uint256::zero());
    assert_eq!(tx2.value.limbs, Uint256::zero().limbs);
    let calls = <(Vec<Bytes>,)>::abi_decode_params(&tx2.data[4..]).unwrap().0;
    assert_eq!(calls.len(), 0);
}

#[test]
fn test_exec_wrap_scenario() {
    // one wrapped-deposit sub-call: the whole transaction decodes back
    let executor = addr(0xee);
    let weth = addr(0x77);
    let mut enc = ExecutorEncoder::new(executor);
    enc.wrap_eth(weth, Uint256::from_u64(1000));
    let tx = enc.encode_exec(Uint256::zero());

    assert_eq!(tx.value.limbs, Uint256::from_u64(1000).limbs);
    assert_eq!(tx.to.bytes, executor.bytes);
    assert_eq!(&tx.data[0..4], &keccak256(b"exec_606BaXt(bytes[])")[0..4]);

    let calls = <(Vec<Bytes>,)>::abi_decode_params(&tx.data[4..]).unwrap().0;
    assert_eq!(calls.len(), 1);
    let sub = &calls[0];
    assert_eq!(&sub[0..4],
        &keccak256(b"call_g0oyU7o(address,uint256,bytes32,bytes)")[0..4]);
    let (target, value, ctx, call_data) =
        <(alloy_primitives::Address, U256, FixedBytes<32>, Bytes)>::abi_decode_params(
            &sub[4..]).unwrap();
    assert_eq!(target, al(&weth));
    assert_eq!(value, U256::from(1000u64));
    assert_eq!(ctx, FixedBytes::<32>::ZERO);
    assert_eq!(call_data.as_ref(), &keccak256(b"deposit()")[0..4]);
}

#[test]
fn test_placeholder_roundtrip() {
    // encoding a sub-call with one placeholder and decoding it through the
    // reference codec reproduces the exact placeholder tuple
    let target = addr(0x42);
    let ph = Placeholder {
        to: addr(0x43),
        data: vec![0xde, 0xad, 0xbe, 0xef, 0x01],
        offset: 36,
        length: 32,
        res_offset: 12,
    };
    let call_data = vec![0x01, 0x02, 0x03];
    let sub = ExecutorEncoder::build_call(target, Uint256::from_u64(5), call_data.clone(),
        None, vec![ph]);
    assert_eq!(&sub[0..4], &keccak256(
        b"callWithPlaceholders4845164670(address,uint256,bytes32,bytes,(address,bytes,uint64,uint64,uint64)[])"
    )[0..4]);
    type PhTuple = (alloy_primitives::Address, Bytes, u64, u64, u64);
    let (t, v, ctx, cd, phs) =
        <(alloy_primitives::Address, U256, FixedBytes<32>, Bytes, Vec<PhTuple>)>
            ::abi_decode_params(&sub[4..]).unwrap();
    assert_eq!(t, al(&target));
    assert_eq!(v, U256::from(5u64));
    assert_eq!(ctx, FixedBytes::<32>::ZERO);
    assert_eq!(cd.as_ref(), &call_data[..]);
    assert_eq!(phs.len(), 1);
    assert_eq!(phs[0].0, al(&addr(0x43)));
    assert_eq!(phs[0].1.as_ref(), &[0xde, 0xad, 0xbe, 0xef, 0x01]);
    assert_eq!(phs[0].2, 36);
    assert_eq!(phs[0].3, 32);
    assert_eq!(phs[0].4, 12);
}

#[test]
fn test_callback_data_matches_reference_codec() {
    // the callback payload equals the reference parameter encoding of
    // (bytes[], bytes)
    let calls: Vec<Vec<u8>> = vec![vec![1, 2, 3], vec![4, 5, 6, 7, 8]];
    let ret: Vec<u8> = vec![0xaa; 32];
    let ours = encode_callback_data(calls.clone(), ret.clone());
    let reference = (
        calls.iter().map(|c| Bytes::from(c.clone())).collect::<Vec<Bytes>>(),
        Bytes::from(ret),
    )
        .abi_encode_params();
    assert_eq!(ours, reference);
}

#[test]
fn test_transfer_and_tip() {
    let executor = addr(0xee);
    let recipient = addr(0x99);
    let mut enc = ExecutorEncoder::new(executor);
    enc.transfer(recipient, Uint256::from_u64(500));
    enc.tip(Uint256::from_u64(3));
    let calls = enc.flush();
    assert_eq!(calls.len(), 2);

    let (t0, _, _, cd0) = <(alloy_primitives::Address, U256, FixedBytes<32>, Bytes)>
        ::abi_decode_params(&calls[0][4..]).unwrap();
    assert_eq!(t0, al(&executor));
    assert_eq!(&cd0[0..4], &keccak256(b"transfer(address,uint256)")[0..4]);
    let (r0, a0) = <(alloy_primitives::Address, U256)>::abi_decode_params(&cd0[4..]).unwrap();
    assert_eq!(r0, al(&recipient));
    assert_eq!(a0, U256::from(500u64));

    let (_, _, _, cd1) = <(alloy_primitives::Address, U256, FixedBytes<32>, Bytes)>
        ::abi_decode_params(&calls[1][4..]).unwrap();
    let (r1, a1) = <(alloy_primitives::Address, U256)>::abi_decode_params(&cd1[4..]).unwrap();
    assert_eq!(r1, alloy_primitives::Address::ZERO);
    assert_eq!(a1, U256::from(3u64));
}

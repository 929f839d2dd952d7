use alloy_primitives::{keccak256, Bytes, FixedBytes, U256};
use alloy_sol_types::SolValue;

use executooor::encoder::ExecutorEncoder;
use executooor::types::{Address, AssetRequest, MarketParams, Uint256};

fn addr(last: u8) -> Address {
    let mut b = [0u8; 20];
    b[19] = last;
    Address::new(b)
}

fn al(a: &Address) -> alloy_primitives::Address {
    alloy_primitives::Address::from(a.bytes)
}

fn inner_calldata(sub: &[u8]) -> Bytes {
    let (_, _, _, cd) = <(alloy_primitives::Address, U256, FixedBytes<32>, Bytes)>
        ::abi_decode_params(&sub[4..]).unwrap();
    cd
}

fn inner_selector(sub: &[u8]) -> [u8; 4] {
    let cd = inner_calldata(sub);
    [cd[0], cd[1], cd[2], cd[3]]
}

fn sel(sig: &str) -> [u8; 4] {
    let h = keccak256(sig.as_bytes());
    [h[0], h[1], h[2], h[3]]
}

#[test]
fn test_simple_selectors_match_keccak() {
    let a = addr(1);
    let b = addr(2);
    let c = addr(3);
    let v = Uint256::from_u64(10);
    let m = MarketParams {
        loan_token: addr(4),
        collateral_token: addr(5),
        oracle: addr(6),
        irm: addr(7),
        lltv: Uint256::from_u64(8),
    };
    let mut enc = ExecutorEncoder::new(addr(0xee));
    enc.erc20_approve(a, b, v);
    enc.erc20_transfer(a, b, v);
    enc.erc20_transfer_from(a, b, c, v);
    enc.wrap_eth(a, v);
    enc.unwrap_eth(a, v);
    enc.erc4626_deposit(a, v, b);
    enc.erc4626_mint(a, v, b);
    enc.erc4626_withdraw(a, v, b, c);
    enc.erc4626_redeem(a, v, b, c);
    enc.erc20_wrapper_deposit_for(a, b, v);
    enc.erc20_wrapper_withdraw_to(a, b, v);
    enc.aave_supply(a, b, v, None);
    enc.aave_borrow(a, b, v, Uint256::from_u64(2), None);
    enc.aave_repay(a, b, v, Uint256::from_u64(2), None);
    enc.aave_withdraw(a, b, v, None);
    enc.aave_liquidate(a, b, c, addr(9), v);
    enc.compound_supply(a, v);
    enc.compound_borrow(a, v);
    enc.compound_repay(a, v, None);
    enc.compound_repay(a, v, Some(b));
    enc.compound_withdraw(a, v);
    enc.morpho_compound_liquidate(a, b, c, addr(9), v);
    enc.morpho_blue_supply_collateral(a, &m, v, b, None);
    enc.morpho_blue_withdraw_collateral(a, &m, v, b, c);
    enc.morpho_blue_supply(a, &m, v, v, b, None);
    enc.morpho_blue_withdraw(a, &m, v, v, b, c);
    enc.morpho_blue_repay(a, &m, v, v, b, None);
    enc.morpho_blue_borrow(a, &m, v, v, b, c);
    enc.morpho_blue_liquidate(a, &m, b, v, v, None);
    enc.uni_v3_exact_input(a, vec![0u8; 43], v, v, v, None);
    enc.uni_v3_exact_output(a, vec![0u8; 43], v, v, v, None);
    let calls = enc.flush();
    let expected = [
        "approve(address,uint256)",
        "transfer(address,uint256)",
        "transferFrom(address,address,uint256)",
        "deposit()",
        "withdraw(uint256)",
        "deposit(uint256,address)",
        "mint(uint256,address)",
        "withdraw(uint256,address,address)",
        "redeem(uint256,address,address)",
        "depositFor(address,uint256)",
        "withdrawTo(address,uint256)",
        "deposit(address,uint256,address,uint16)",
        "borrow(address,uint256,uint256,uint16,address)",
        "repay(address,uint256,uint256,address)",
        "withdraw(address,uint256,address)",
        "liquidationCall(address,address,address,uint256,bool)",
        "mint(uint256)",
        "borrow(uint256)",
        "repayBorrow(uint256)",
        "repayBorrowBehalf(address,uint256)",
        "redeemUnderlying(uint256)",
        "liquidate(address,address,address,uint256)",
        "supplyCollateral((address,address,address,address,uint256),uint256,address,bytes)",
        "withdrawCollateral((address,address,address,address,uint256),uint256,address,address)",
        "supply((address,address,address,address,uint256),uint256,uint256,address,bytes)",
        "withdraw((address,address,address,address,uint256),uint256,uint256,address,address)",
        "repay((address,address,address,address,uint256),uint256,uint256,address,bytes)",
        "borrow((address,address,address,address,uint256),uint256,uint256,address,address)",
        "liquidate((address,address,address,address,uint256),address,uint256,uint256,bytes)",
        "exactInput((bytes,address,uint256,uint256,uint256))",
        "exactOutput((bytes,address,uint256,uint256,uint256))",
    ];
    assert_eq!(calls.len(), expected.len());
    for (i, sig) in expected.iter().enumerate() {
        assert_eq!(inner_selector(&calls[i]), sel(sig), "selector mismatch for {sig}");
    }
}

#[test]
fn test_flash_loan_selectors_match_keccak() {
    let vault = addr(0xaa);
    let asset = addr(0xab);
    let v = Uint256::from_u64(10);
    let reqs = vec![AssetRequest { asset, amount: v }];
    let mut enc = ExecutorEncoder::new(addr(0xee));
    enc.balancer_flash_loan(vault, &reqs, None);
    enc.maker_flash_loan(vault, asset, v, None);
    enc.aave_flash_loan(vault, &reqs, Uint256::from_u64(5), None);
    enc.uni_v2_flash_swap(vault, [asset, addr(0xac)], [v, v], None);
    enc.uni_v3_flash_loan(vault, [asset, addr(0xac)], [v, v], Uint256::from_u64(500), None);
    enc.blue_flash_loan(vault, asset, v, None);
    let calls = enc.flush();
    let expected = [
        "flashLoan(address,address[],uint256[],bytes)",
        "flashLoan(address,address,uint256,bytes)",
        "flashLoan(address,address[],uint256[],uint256[],address,bytes,uint16)",
        "flash(address,uint256,uint256,bytes)",
        "flash(address,uint256,uint256,bytes)",
        "flashLoan(address,uint256,bytes)",
    ];
    assert_eq!(calls.len(), expected.len());
    for (i, sig) in expected.iter().enumerate() {
        assert_eq!(inner_selector(&calls[i]), sel(sig), "selector mismatch for {sig}");
    }
}

#[test]
fn test_balance_of_placeholder() {
    let enc = ExecutorEncoder::new(addr(0xee));
    let ph = enc.erc20_balance_of(addr(1), addr(2), 36);
    assert_eq!(&ph.data[0..4], &sel("balanceOf(address)"));
    assert_eq!(ph.to.bytes, addr(1).bytes);
    assert_eq!(ph.offset, 36);
    assert_eq!(ph.length, 32);
    assert_eq!(ph.res_offset, 0);
}

#[test]
fn test_approve_all_uses_placeholder_form() {
    let executor = addr(0xee);
    let mut enc = ExecutorEncoder::new(executor);
    enc.erc20_approve_all(addr(1), addr(2));
    let calls = enc.flush();
    type PhTuple = (alloy_primitives::Address, Bytes, u64, u64, u64);
    let (t, v, ctx, cd, phs) =
        <(alloy_primitives::Address, U256, FixedBytes<32>, Bytes, Vec<PhTuple>)>
            ::abi_decode_params(&calls[0][4..]).unwrap();
    assert_eq!(t, al(&addr(1)));
    assert_eq!(v, U256::ZERO);
    assert_eq!(ctx, FixedBytes::<32>::ZERO);
    assert_eq!(&cd[0..4], &sel("approve(address,uint256)"));
    assert_eq!(phs.len(), 1);
    assert_eq!(phs[0].0, al(&addr(1)));
    assert_eq!(&phs[0].1[0..4], &sel("balanceOf(address)"));
    assert_eq!(phs[0].2, 36);
    assert_eq!(phs[0].3, 32);
    assert_eq!(phs[0].4, 0);
    // the placeholder reads the executor's own balance
    let (owner,) = <(alloy_primitives::Address,)>::abi_decode_params(&phs[0].1[4..]).unwrap();
    assert_eq!(owner, al(&executor));
}

#[test]
fn test_maker_flash_loan_payload() {
    // the callback payload carries the repayment approval and the
    // standard borrower magic value
    let vault = addr(0xaa);
    let asset = addr(0xab);
    let mut enc = ExecutorEncoder::new(addr(0xee));
    enc.maker_flash_loan(vault, asset, Uint256::from_u64(700), None);
    let calls = enc.flush();
    let sub = &calls[0];

    // callback context: sender = vault, data index 4
    let (_, _, ctx, cd) = <(alloy_primitives::Address, U256, FixedBytes<32>, Bytes)>
        ::abi_decode_params(&sub[4..]).unwrap();
    let mut expected_ctx = [0u8; 32];
    expected_ctx[4..12].copy_from_slice(&4u64.to_be_bytes());
    expected_ctx[12..32].copy_from_slice(&vault.bytes);
    assert_eq!(ctx, FixedBytes::<32>::from(expected_ctx));

    let (receiver, token, amount, data) =
        <(alloy_primitives::Address, alloy_primitives::Address, U256, Bytes)>
            ::abi_decode_params(&cd[4..]).unwrap();
    assert_eq!(receiver, al(&addr(0xee)));
    assert_eq!(token, al(&asset));
    assert_eq!(amount, U256::from(700u64));

    let (inner_calls, ret) = <(Vec<Bytes>, Bytes)>::abi_decode_params(&data).unwrap();
    assert_eq!(ret.as_ref(), keccak256(b"ERC3156FlashBorrower.onFlashLoan").as_slice());
    assert_eq!(inner_calls.len(), 1);
    let approval = inner_calldata(&inner_calls[0]);
    assert_eq!(&approval[0..4], &sel("approve(address,uint256)"));
    let (spender, allowance) =
        <(alloy_primitives::Address, U256)>::abi_decode_params(&approval[4..]).unwrap();
    assert_eq!(spender, al(&vault));
    assert_eq!(allowance, U256::from(700u64));
}

#[test]
fn test_aave_flash_loan_premium() {
    // principal 1_000_000 at 5 basis points: approval is 1_000_500
    let pool = addr(0xaa);
    let asset = addr(0xab);
    let reqs = vec![AssetRequest { asset, amount: Uint256::from_u64(1_000_000) }];
    let mut enc = ExecutorEncoder::new(addr(0xee));
    enc.aave_flash_loan(pool, &reqs, Uint256::from_u64(5), None);
    let calls = enc.flush();
    let cd = inner_calldata(&calls[0]);
    assert_eq!(&cd[0..4],
        &sel("flashLoan(address,address[],uint256[],uint256[],address,bytes,uint16)"));
    type AaveParams = (alloy_primitives::Address, Vec<alloy_primitives::Address>, Vec<U256>,
        Vec<U256>, alloy_primitives::Address, Bytes, u16);
    let (receiver, assets, amounts, modes, on_behalf, params, referral) =
        AaveParams::abi_decode_params(&cd[4..]).unwrap();
    assert_eq!(receiver, al(&addr(0xee)));
    assert_eq!(assets, vec![al(&asset)]);
    assert_eq!(amounts, vec![U256::from(1_000_000u64)]);
    assert_eq!(modes, vec![U256::ZERO]);
    assert_eq!(on_behalf, al(&addr(0xee)));
    assert_eq!(referral, 0u16);

    let (inner_calls, ret) = <(Vec<Bytes>, Bytes)>::abi_decode_params(&params).unwrap();
    let mut true_word = [0u8; 32];
    true_word[31] = 1;
    assert_eq!(ret.as_ref(), &true_word);
    assert_eq!(inner_calls.len(), 1);
    let approval = inner_calldata(&inner_calls[0]);
    let (spender, allowance) =
        <(alloy_primitives::Address, U256)>::abi_decode_params(&approval[4..]).unwrap();
    assert_eq!(spender, al(&pool));
    assert_eq!(allowance, U256::from(1_000_500u64));
}

#[test]
fn test_balancer_flash_loan_shape() {
    // two assets: repayment transfers are appended after the callback
    // calls, and the context names the vault at data index 3
    let vault = addr(0xaa);
    let reqs = vec![
        AssetRequest { asset: addr(1), amount: Uint256::from_u64(10) },
        AssetRequest { asset: addr(2), amount: Uint256::from_u64(20) },
    ];
    let cb = ExecutorEncoder::build_erc20_approve(addr(3), addr(4), Uint256::from_u64(5));
    let mut enc = ExecutorEncoder::new(addr(0xee));
    enc.balancer_flash_loan(vault, &reqs, Some(vec![cb.clone()]));
    let calls = enc.flush();
    let sub = &calls[0];

    let (_, _, ctx, cd) = <(alloy_primitives::Address, U256, FixedBytes<32>, Bytes)>
        ::abi_decode_params(&sub[4..]).unwrap();
    let mut expected_ctx = [0u8; 32];
    expected_ctx[4..12].copy_from_slice(&3u64.to_be_bytes());
    expected_ctx[12..32].copy_from_slice(&vault.bytes);
    assert_eq!(ctx, FixedBytes::<32>::from(expected_ctx));

    type BalancerParams = (alloy_primitives::Address, Vec<alloy_primitives::Address>,
        Vec<U256>, Bytes);
    let (recipient, tokens, amounts, user_data) =
        BalancerParams::abi_decode_params(&cd[4..]).unwrap();
    assert_eq!(recipient, al(&addr(0xee)));
    assert_eq!(tokens, vec![al(&addr(1)), al(&addr(2))]);
    assert_eq!(amounts, vec![U256::from(10u64), U256::from(20u64)]);

    let (inner_calls, ret) = <(Vec<Bytes>, Bytes)>::abi_decode_params(&user_data).unwrap();
    assert_eq!(ret.len(), 0);
    assert_eq!(inner_calls.len(), 3);
    assert_eq!(inner_calls[0].as_ref(), &cb[..]);
    for (i, r) in reqs.iter().enumerate() {
        let repay = inner_calldata(&inner_calls[1 + i]);
        assert_eq!(&repay[0..4], &sel("transfer(address,uint256)"));
        let (to, amt) =
            <(alloy_primitives::Address, U256)>::abi_decode_params(&repay[4..]).unwrap();
        assert_eq!(to, al(&vault));
        assert_eq!(amt, U256::from_limbs(r.amount.limbs));
    }
}

#[test]
fn test_uni_v3_flash_loan_fee() {
    // fee 500 ppm on 1_000_000 is exactly 500; on 1 it rounds up to 1
    let pool = addr(0xaa);
    let mut enc = ExecutorEncoder::new(addr(0xee));
    enc.uni_v3_flash_loan(pool, [addr(1), addr(2)],
        [Uint256::from_u64(1_000_000), Uint256::from_u64(1)], Uint256::from_u64(500), None);
    let calls = enc.flush();
    let cd = inner_calldata(&calls[0]);
    let (_, a0, a1, data) =
        <(alloy_primitives::Address, U256, U256, Bytes)>::abi_decode_params(&cd[4..])
            .unwrap();
    assert_eq!(a0, U256::from(1_000_000u64));
    assert_eq!(a1, U256::from(1u64));
    let (inner_calls, _) = <(Vec<Bytes>, Bytes)>::abi_decode_params(&data).unwrap();
    let repay0 = inner_calldata(&inner_calls[0]);
    let (_, amt0) =
        <(alloy_primitives::Address, U256)>::abi_decode_params(&repay0[4..]).unwrap();
    assert_eq!(amt0, U256::from(1_000_500u64));
    let repay1 = inner_calldata(&inner_calls[1]);
    let (_, amt1) =
        <(alloy_primitives::Address, U256)>::abi_decode_params(&repay1[4..]).unwrap();
    assert_eq!(amt1, U256::from(2u64));
}

#[test]
fn test_uni_v3_exact_input_all_reads_path_token() {
    let router = addr(0xaa);
    let mut path = vec![0u8; 43];
    path[0..20].copy_from_slice(&addr(0x55).bytes);
    let mut enc = ExecutorEncoder::new(addr(0xee));
    enc.uni_v3_exact_input_all(router, path.clone(), Uint256::from_u64(1),
        Uint256::from_u64(2), None);
    let calls = enc.flush();
    type PhTuple = (alloy_primitives::Address, Bytes, u64, u64, u64);
    let (t, _, _, cd, phs) =
        <(alloy_primitives::Address, U256, FixedBytes<32>, Bytes, Vec<PhTuple>)>
            ::abi_decode_params(&calls[0][4..]).unwrap();
    assert_eq!(t, al(&router));
    assert_eq!(&cd[0..4], &sel("exactInput((bytes,address,uint256,uint256,uint256))"));
    assert_eq!(phs.len(), 1);
    assert_eq!(phs[0].0, al(&addr(0x55)));
    assert_eq!(phs[0].2, 132);
    // the struct decodes back with a zeroed input amount and the path intact
    let ((p, _, deadline, amount_in, min_out),) =
        <((Bytes, alloy_primitives::Address, U256, U256, U256),)>::abi_decode_params(
            &cd[4..]).unwrap();
    assert_eq!(p.as_ref(), &path[..]);
    assert_eq!(deadline, U256::from(2u64));
    assert_eq!(amount_in, U256::ZERO);
    assert_eq!(min_out, U256::from(1u64));
}

#[test]
fn test_morpho_blue_supply_collateral_callback() {
    // the callback payload carries the given sub-calls and an empty return
    let blue = addr(0xba);
    let m = MarketParams {
        loan_token: addr(4),
        collateral_token: addr(5),
        oracle: addr(6),
        irm: addr(7),
        lltv: Uint256::from_u64(860_000_000_000_000_000),
    };
    let cb = ExecutorEncoder::build_erc20_approve(addr(3), addr(4), Uint256::from_u64(5));
    let mut enc = ExecutorEncoder::new(addr(0xee));
    enc.morpho_blue_supply_collateral(blue, &m, Uint256::from_u64(100), addr(8),
        Some(vec![cb.clone()]));
    let calls = enc.flush();
    let sub = &calls[0];

    // callback context: sender = the lender, data index 1
    let (_, _, ctx, cd) = <(alloy_primitives::Address, U256, FixedBytes<32>, Bytes)>
        ::abi_decode_params(&sub[4..]).unwrap();
    let mut expected_ctx = [0u8; 32];
    expected_ctx[4..12].copy_from_slice(&1u64.to_be_bytes());
    expected_ctx[12..32].copy_from_slice(&blue.bytes);
    assert_eq!(ctx, FixedBytes::<32>::from(expected_ctx));

    type MarketTuple = (alloy_primitives::Address, alloy_primitives::Address,
        alloy_primitives::Address, alloy_primitives::Address, U256);
    let (market, assets, on_behalf, data) =
        <(MarketTuple, U256, alloy_primitives::Address, Bytes)>::abi_decode_params(
            &cd[4..]).unwrap();
    assert_eq!(market.0, al(&m.loan_token));
    assert_eq!(market.4, U256::from(860_000_000_000_000_000u64));
    assert_eq!(assets, U256::from(100u64));
    assert_eq!(on_behalf, al(&addr(8)));
    let (inner_calls, ret) = <(Vec<Bytes>, Bytes)>::abi_decode_params(&data).unwrap();
    assert_eq!(ret.len(), 0);
    assert_eq!(inner_calls.len(), 1);
    assert_eq!(inner_calls[0].as_ref(), &cb[..]);
}

#[test]
fn test_blue_flash_loan_payload() {
    // the repayment approval is appended and the context points at the lender
    let blue = addr(0xba);
    let asset = addr(0xab);
    let mut enc = ExecutorEncoder::new(addr(0xee));
    enc.blue_flash_loan(blue, asset, Uint256::from_u64(900), None);
    let calls = enc.flush();
    let (_, _, ctx, cd) = <(alloy_primitives::Address, U256, FixedBytes<32>, Bytes)>
        ::abi_decode_params(&calls[0][4..]).unwrap();
    let mut expected_ctx = [0u8; 32];
    expected_ctx[4..12].copy_from_slice(&1u64.to_be_bytes());
    expected_ctx[12..32].copy_from_slice(&blue.bytes);
    assert_eq!(ctx, FixedBytes::<32>::from(expected_ctx));

    let (fl_asset, fl_amount, data) =
        <(alloy_primitives::Address, U256, Bytes)>::abi_decode_params(&cd[4..]).unwrap();
    assert_eq!(fl_asset, al(&asset));
    assert_eq!(fl_amount, U256::from(900u64));
    let (inner_calls, ret) = <(Vec<Bytes>, Bytes)>::abi_decode_params(&data).unwrap();
    assert_eq!(ret.len(), 0);
    assert_eq!(inner_calls.len(), 1);
    let approval = inner_calldata(&inner_calls[0]);
    assert_eq!(&approval[0..4], &sel("approve(address,uint256)"));
    let (spender, allowance) =
        <(alloy_primitives::Address, U256)>::abi_decode_params(&approval[4..]).unwrap();
    assert_eq!(spender, al(&blue));
    assert_eq!(allowance, U256::from(900u64));
}

use executooor::context::encode_context;
use executooor::types::Address;

fn hx(s: &str) -> Vec<u8> {
    (0..s.len()).step_by(2).map(|i| u8::from_str_radix(&s[i..i + 2], 16).unwrap()).collect()
}

fn addr(s: &str) -> Address {
    let v = hx(s);
    let mut b = [0u8; 20];
    b.copy_from_slice(&v);
    Address::new(b)
}

#[test]
fn test_encode_context_zero() {
    let zero = Address::zero();
    assert!(zero.is_zero());
    assert!(!addr("BA12222222228d8Ba445958a75a0704d566BF2C8").is_zero());
    let ctx = encode_context(&zero, 0);
    assert_eq!(ctx, vec![0u8; 32]);
}

#[test]
fn test_encode_context_with_index() {
    let sender = addr("BA12222222228d8Ba445958a75a0704d566BF2C8");
    let ctx = encode_context(&sender, 3);
    // Upper 12 bytes: 000000000000000000000003
    // Lower 20 bytes: BA12222222228d8Ba445958a75a0704d566BF2C8
    let mut hex = String::from("0x");
    for b in &ctx {
        hex.push_str(&format!("{b:02x}"));
    }
    assert!(hex.contains("000000000000000000000003"));
    assert!(hex
        .to_lowercase()
        .contains("ba12222222228d8ba445958a75a0704d566bf2c8"));
}

#[test]
fn test_encode_context_roundtrip() {
    let sender = addr("1234567890abcdef1234567890abcdef12345678");
    let data_index = 42u64;
    let ctx = encode_context(&sender, data_index);

    // Decode like the contract does
    let mut raw = [0u8; 32];
    raw.copy_from_slice(&ctx);
    let ctx_u256 = alloy_primitives::U256::from_be_bytes(raw);
    let decoded_index = ctx_u256 >> 160;
    let decoded_sender_u256 = ctx_u256
        & alloy_primitives::U256::from_be_bytes({
            let mut mask = [0u8; 32];
            mask[12..32].fill(0xff);
            mask
        });
    let mut sender_bytes = [0u8; 20];
    sender_bytes.copy_from_slice(&decoded_sender_u256.to_be_bytes::<32>()[12..32]);

    assert_eq!(decoded_index, alloy_primitives::U256::from(data_index));
    assert_eq!(alloy_primitives::Address::from(sender_bytes),
        alloy_primitives::Address::from(sender.bytes));
}

#[test]
fn test_callback_context_encoding() {
    // a callback-style context: sender = vault, data index 3
    let vault = addr("00000000000000000000000000000000000000aa");
    let ctx = encode_context(&vault, 3);
    assert_eq!(ctx.len(), 32);
    // top four bytes are zero
    assert_eq!(&ctx[0..4], &[0u8; 4]);
    // decoded index
    let mut ib = [0u8; 8];
    ib.copy_from_slice(&ctx[4..12]);
    assert_eq!(u64::from_be_bytes(ib), 3);
    // decoded sender
    assert_eq!(&ctx[12..32], &vault.bytes);
}

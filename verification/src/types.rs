//! The plain value types the encoder works on: account addresses, 256-bit
//! amounts, callback contexts, placeholders, and the finished transaction.

use vstd::prelude::*;

verus! {

/// A 20-byte account or contract identifier, compared by exact byte equality.
#[derive(Clone, Copy, Debug)]
pub struct Address {
    pub bytes: [u8; 20],
}

impl View for Address {
    type V = Seq<u8>;

    open spec fn view(&self) -> Seq<u8> {
        self.bytes@
    }
}

impl Address {
    pub fn new(bytes: [u8; 20]) -> (r: Address)
        ensures
            r@ == bytes@,
    {
        Address { bytes }
    }

    /// The all-zero address, used as the "no callback expected" sentinel.
    pub fn zero() -> (r: Address)
        ensures
            r@ == Seq::new(20, |i: int| 0u8),
    {
        let bytes = [0u8; 20];
        proof {
            assert(bytes@ =~= Seq::new(20, |i: int| 0u8));
        }
        Address { bytes }
    }

    pub open spec fn is_zero_spec(self) -> bool {
        self@ == Seq::new(20, |i: int| 0u8)
    }

    pub fn is_zero(&self) -> (r: bool)
        ensures
            r == self.is_zero_spec(),
    {
        let mut i: usize = 0;
        while i < 20
            invariant
                i <= 20,
                forall|j: int| 0 <= j < i ==> self.bytes@[j] == 0u8,
            decreases 20 - i,
        {
            if self.bytes[i] != 0 {
                proof {
                    assert(self@[i as int] != 0u8);
                    assert(!self.is_zero_spec());
                }
                return false;
            }
            i = i + 1;
        }
        proof {
            assert(self@ =~= Seq::new(20, |i: int| 0u8));
        }
        true
    }
}

/// A 256-bit unsigned integer, stored as four 64-bit limbs, least significant
/// first.  Its view is the mathematical value.
#[derive(Clone, Copy, Debug)]
pub struct Uint256 {
    pub limbs: [u64; 4],
}

/// One more than the largest value a `Uint256` can hold.
pub open spec fn u256_limit() -> nat {
    0x1_00000000_00000000_00000000_00000000_00000000_00000000_00000000_00000000nat
}

impl View for Uint256 {
    type V = nat;

    open spec fn view(&self) -> nat {
        self.limbs@[0] as nat + self.limbs@[1] as nat * 0x1_0000_0000_0000_0000nat
            + self.limbs@[2] as nat * 0x1_00000000_00000000_00000000_00000000nat
            + self.limbs@[3] as nat
                * 0x1_00000000_00000000_00000000_00000000_00000000_00000000nat
    }
}

impl Uint256 {
    pub fn from_limbs(limbs: [u64; 4]) -> (r: Uint256)
        ensures
            r == (Uint256 { limbs }),
    {
        Uint256 { limbs }
    }

    pub fn from_u64(x: u64) -> (r: Uint256)
        ensures
            r@ == x as nat,
    {
        let limbs = [x, 0u64, 0u64, 0u64];
        let r = Uint256 { limbs };
        proof {
            assert(r.limbs@[0] == x);
            assert(r.limbs@[1] == 0u64 && r.limbs@[2] == 0u64 && r.limbs@[3] == 0u64);
        }
        r
    }

    pub fn zero() -> (r: Uint256)
        ensures
            r@ == 0,
    {
        Uint256::from_u64(0)
    }

    pub proof fn lemma_value_bound(self)
        ensures
            self@ < u256_limit(),
    {
        assert(self.limbs@[1] as nat * 0x1_0000_0000_0000_0000nat
            <= 0xffff_ffff_ffff_ffffnat * 0x1_0000_0000_0000_0000nat) by (nonlinear_arith)
            requires self.limbs@[1] as nat <= 0xffff_ffff_ffff_ffffnat;
        assert(self.limbs@[2] as nat * 0x1_00000000_00000000_00000000_00000000nat
            <= 0xffff_ffff_ffff_ffffnat
                * 0x1_00000000_00000000_00000000_00000000nat) by (nonlinear_arith)
            requires self.limbs@[2] as nat <= 0xffff_ffff_ffff_ffffnat;
        assert(self.limbs@[3] as nat
            * 0x1_00000000_00000000_00000000_00000000_00000000_00000000nat
            <= 0xffff_ffff_ffff_ffffnat
                * 0x1_00000000_00000000_00000000_00000000_00000000_00000000nat)
            by (nonlinear_arith)
            requires self.limbs@[3] as nat <= 0xffff_ffff_ffff_ffffnat;
    }
}

/// Identifies which contract is expected to reenter the executor's callback
/// entry point, and at which argument index of the callback signature the
/// executor should find the injected `bytes` payload.
#[derive(Clone, Copy, Debug)]
pub struct CallbackContext {
    pub sender: Address,
    pub data_index: u64,
}

/// One leg of a multi-asset flash loan request.
#[derive(Clone, Copy, Debug)]
pub struct AssetRequest {
    pub asset: Address,
    pub amount: Uint256,
}

/// Identifies a lending market; passed through opaquely to the chain.
#[derive(Clone, Copy, Debug)]
pub struct MarketParams {
    pub loan_token: Address,
    pub collateral_token: Address,
    pub oracle: Address,
    pub irm: Address,
    pub lltv: Uint256,
}

/// An instruction to the executor: before forwarding the prepared call data,
/// perform a read-only call to `to` with `data`, take `length` bytes starting
/// at `res_offset` of the result, and overwrite the prepared call data at
/// byte `offset` with them.
#[derive(Clone, Debug)]
pub struct Placeholder {
    pub to: Address,
    pub data: Vec<u8>,
    pub offset: u64,
    pub length: u64,
    pub res_offset: u64,
}

/// The finished transaction: ready to be signed and submitted.
#[derive(Clone, Debug)]
pub struct EncodedExec {
    pub to: Address,
    pub data: Vec<u8>,
    pub value: Uint256,
}

} // verus!

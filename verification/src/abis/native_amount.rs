//! Coin amounts as the host's ABI carries them.

use vstd::prelude::*;

use crate::proto::{encode_uint32, encode_uint64, scalar_field, AbiMessage};

verus! {

/// An amount of coins: `mantissa` scaled down by `10^scale`.
#[derive(Clone, Copy, PartialEq, Eq, Structural, Debug)]
pub struct NativeAmount {
    pub mantissa: u64,
    pub scale: u32,
}

impl AbiMessage for NativeAmount {
    open spec fn spec_encode(&self) -> Seq<u8> {
        scalar_field(1, self.mantissa) + scalar_field(2, self.scale as u64)
    }

    fn encode_to_vec(&self) -> (bytes: Vec<u8>) {
        let mut buf: Vec<u8> = Vec::new();
        if self.mantissa != 0 {
            encode_uint64(1, &self.mantissa, &mut buf);
        }
        if self.scale != 0 {
            encode_uint32(2, &self.scale, &mut buf);
        }
        proof {
            assert(buf@ =~= self.spec_encode());
        }
        buf
    }
}

/// An amount of coins, as contracts hand it to the ABI calls.
#[derive(Clone, Copy, PartialEq, Eq, Structural, Debug)]
pub struct Amount(pub NativeAmount);

impl From<NativeAmount> for Amount {
    fn from(value: NativeAmount) -> (amount: Amount) {
        Amount(value)
    }
}

impl vstd::std_specs::convert::FromSpecImpl<NativeAmount> for Amount {
    open spec fn obeys_from_spec() -> bool {
        true
    }

    open spec fn from_spec(value: NativeAmount) -> Amount {
        Amount(value)
    }
}

impl From<Amount> for NativeAmount {
    fn from(value: Amount) -> (native: NativeAmount) {
        value.0
    }
}

impl vstd::std_specs::convert::FromSpecImpl<Amount> for NativeAmount {
    open spec fn obeys_from_spec() -> bool {
        true
    }

    open spec fn from_spec(value: Amount) -> NativeAmount {
        value.0
    }
}

} // verus!

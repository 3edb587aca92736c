use vstd::prelude::*;

use crate::types::{Address, Word};

verus! {

/// The gas limit the execution engine uses when a request names none.
pub const DEFAULT_GAS_LIMIT: u64 = 0xffff_ffff_ffff_ffff;

/// An inbound call request, as the caller wrote it; every field may be absent.
///
/// `input` and `data` are two names for the same payload. Where both are
/// present, `input` is taken.
pub struct CallRequest {
    pub from: Option<Address>,
    pub to: Option<Address>,
    pub value: Option<Word>,
    pub input: Option<Vec<u8>>,
    pub data: Option<Vec<u8>>,
    pub gas: Option<u128>,
    pub gas_price: Option<u128>,
    pub nonce: Option<u64>,
}

/// Where a transaction goes: a call to an account, or a contract creation.
#[derive(Clone, Copy, Debug, PartialEq, Eq, Structural)]
pub enum TxTarget {
    Call(Address),
    Create,
}

/// The transaction environment handed to the execution engine.
pub struct CallIntent {
    pub caller: Address,
    pub target: TxTarget,
    pub value: Word,
    pub data: Vec<u8>,
    pub gas_limit: u64,
    pub gas_price: Word,
    /// `None` lets the engine use the caller's current nonce.
    pub nonce: Option<u64>,
}

/// A requested gas limit, clamped to the largest the engine can represent.
pub open spec fn clamp_gas(g: u128) -> u64 {
    if g > u64::MAX as u128 {
        u64::MAX
    } else {
        g as u64
    }
}

/// The payload a request carries: `input` where present, else `data`, else none.
pub open spec fn payload_of(input: Option<Vec<u8>>, data: Option<Vec<u8>>) -> Seq<u8> {
    match input {
        Some(v) => v@,
        None => match data {
            Some(v) => v@,
            None => Seq::empty(),
        },
    }
}

/// The gas limit a request asks for, clamped; the engine's default where it asks none.
pub fn gas_limit_of(gas: Option<u128>) -> (r: u64)
    ensures
        r == match gas {
            Some(g) => clamp_gas(g),
            None => DEFAULT_GAS_LIMIT,
        },
{
    match gas {
        Some(g) => if g > u64::MAX as u128 {
            u64::MAX
        } else {
            g as u64
        },
        None => DEFAULT_GAS_LIMIT,
    }
}

/// Maps an inbound request to the transaction environment the engine runs:
/// an absent sender is the zero address, an absent recipient a contract
/// creation, an absent value zero, an absent payload empty, an absent gas limit
/// the engine's default (a larger one is clamped), an absent gas price zero, and
/// an absent nonce is left to the engine.
pub fn build_intent(request: CallRequest) -> (r: CallIntent)
    ensures
        r.caller == match request.from {
            Some(a) => a,
            None => Address { hi: 0, mid: 0, lo: 0 },
        },
        r.target == match request.to {
            Some(a) => TxTarget::Call(a),
            None => TxTarget::Create,
        },
        r.value.value() == match request.value {
            Some(v) => v.value(),
            None => 0,
        },
        request.value is Some ==> r.value == request.value.unwrap(),
        r.data@ == payload_of(request.input, request.data),
        r.gas_limit == match request.gas {
            Some(g) => clamp_gas(g),
            None => DEFAULT_GAS_LIMIT,
        },
        r.gas_price.value() == match request.gas_price {
            Some(p) => p as nat,
            None => 0,
        },
        r.nonce == request.nonce,
{
    let caller = match request.from {
        Some(a) => a,
        None => Address::zero(),
    };
    let target = match request.to {
        Some(a) => TxTarget::Call(a),
        None => TxTarget::Create,
    };
    let value = match request.value {
        Some(v) => v,
        None => Word::zero(),
    };
    let gas_price = match request.gas_price {
        Some(p) => Word::from_u128(p),
        None => Word::zero(),
    };
    let gas_limit = gas_limit_of(request.gas);
    let nonce = request.nonce;
    let data = match request.input {
        Some(v) => v,
        None => match request.data {
            Some(v) => v,
            None => Vec::new(),
        },
    };
    CallIntent { caller, target, value, data, gas_limit, gas_price, nonce }
}

} // verus!

//! The trusted-operation data model: the calls and getters a caller can
//! dispatch to a worker, the shard identifier partitioning worker state,
//! and the canonical byte encoding that signatures bind.

use vstd::prelude::*;
use crate::Error;
use crate::codec::{le_bytes, u128_to_le_bytes};

verus! {

/// Whether a byte sequence is a well-formed 32-byte value: an account's
/// public key, an identity measurement, or a shard identifier.
pub open spec fn is_bytes32(s: Seq<u8>) -> bool {
    s.len() == 32
}

/// Appends all of `b` to `out`.
pub fn push_bytes(out: &mut Vec<u8>, b: &[u8])
    ensures
        final(out)@ == old(out)@ + b@,
{
    let mut i: usize = 0;
    while i < b.len()
        invariant
            0 <= i <= b@.len(),
            out@ == old(out)@ + b@.take(i as int),
        decreases b@.len() - i,
    {
        out.push(b[i]);
        proof {
            assert(old(out)@ + b@.take(i + 1) =~= (old(out)@ + b@.take(i as int)).push(
                b@[i as int],
            ));
        }
        i = i + 1;
    }
    proof {
        assert(b@.take(b@.len() as int) =~= b@);
    }
}

/// Compares two byte slices for equality.
pub fn bytes_eq(a: &[u8], b: &[u8]) -> (r: bool)
    ensures
        r == (a@ == b@),
{
    if a.len() != b.len() {
        proof {
            assert(a@.len() != b@.len());
        }
        return false;
    }
    let mut i: usize = 0;
    while i < a.len()
        invariant
            0 <= i <= a@.len(),
            a@.len() == b@.len(),
            forall|j: int| 0 <= j < i ==> a@[j] == b@[j],
        decreases a@.len() - i,
    {
        if a[i] != b[i] {
            return false;
        }
        i = i + 1;
    }
    proof {
        assert(a@ =~= b@);
    }
    true
}

/// A copy of a byte vector, element for element.
pub fn clone_bytes(b: &Vec<u8>) -> (r: Vec<u8>)
    ensures
        r@ == b@,
{
    let mut r: Vec<u8> = Vec::new();
    push_bytes(&mut r, b.as_slice());
    proof {
        assert(r@ =~= b@);
    }
    r
}

/// A 32-byte value partitioning worker-side state into isolated domains.
/// It defaults to the worker's identity measurement when a caller names
/// none.
#[derive(Debug)]
pub struct ShardIdentifier {
    pub bytes: Vec<u8>,
}

impl ShardIdentifier {
    /// Whether this is a well-formed shard identifier.
    pub open spec fn wf(&self) -> bool {
        is_bytes32(self.bytes@)
    }

    /// Builds a shard identifier from its raw bytes; anything but exactly
    /// 32 bytes is rejected.
    pub fn from_slice(bytes: &[u8]) -> (r: Result<ShardIdentifier, Error>)
        ensures
            match r {
                Ok(s) => bytes@.len() == 32 && s.bytes@ == bytes@ && s.wf(),
                Err(e) => bytes@.len() != 32 && e == Error::EncodingError,
            },
    {
        if bytes.len() != 32 {
            return Err(Error::EncodingError);
        }
        let mut v: Vec<u8> = Vec::new();
        push_bytes(&mut v, bytes);
        proof {
            assert(v@ =~= bytes@);
        }
        Ok(ShardIdentifier { bytes: v })
    }

    /// A copy of this shard identifier.
    pub fn duplicate(&self) -> (r: ShardIdentifier)
        ensures
            r.bytes@ == self.bytes@,
    {
        ShardIdentifier { bytes: clone_bytes(&self.bytes) }
    }
}

/// A mutating operation to be executed inside the sealed boundary.  Each
/// variant carries the signer's public key and its own arguments.
#[allow(non_camel_case_types)]
pub enum TrustedCall {
    /// Move `amount` from the first account to the second.
    balance_transfer(Vec<u8>, Vec<u8>, u128),
    /// Set an account's free and reserved balance outright.
    balance_set_balance(Vec<u8>, u128, u128),
}

/// The canonical encoding of a trusted call: a variant tag, then the
/// fields in order, accounts raw and amounts as 16 little-endian bytes.
pub open spec fn trusted_call_bytes(c: TrustedCall) -> Seq<u8> {
    match c {
        TrustedCall::balance_transfer(from, to, amount) => seq![0u8] + from@ + to@ + le_bytes(
            amount as nat,
            16,
        ),
        TrustedCall::balance_set_balance(who, free, reserved) => seq![1u8] + who@ + le_bytes(
            free as nat,
            16,
        ) + le_bytes(reserved as nat, 16),
    }
}

impl TrustedCall {
    /// Whether every account the call names is a well-formed key.
    pub open spec fn wf(&self) -> bool {
        match *self {
            TrustedCall::balance_transfer(from, to, _) => is_bytes32(from@) && is_bytes32(to@),
            TrustedCall::balance_set_balance(who, _, _) => is_bytes32(who@),
        }
    }

    /// The signer's public key in the call's first field, as a view.
    pub open spec fn spec_account(&self) -> Seq<u8> {
        match *self {
            TrustedCall::balance_transfer(from, _, _) => from@,
            TrustedCall::balance_set_balance(who, _, _) => who@,
        }
    }

    /// The signer's public key: the account the call is issued by.
    pub fn account(&self) -> (r: &Vec<u8>)
        ensures
            r@ == self.spec_account(),
    {
        match self {
            TrustedCall::balance_transfer(from, _, _) => from,
            TrustedCall::balance_set_balance(who, _, _) => who,
        }
    }

    /// The canonical encoding the signature binds.
    pub fn encode(&self) -> (r: Vec<u8>)
        ensures
            r@ == trusted_call_bytes(*self),
    {
        let mut out: Vec<u8> = Vec::new();
        match self {
            TrustedCall::balance_transfer(from, to, amount) => {
                out.push(0u8);
                push_bytes(&mut out, from.as_slice());
                push_bytes(&mut out, to.as_slice());
                let amt = u128_to_le_bytes(*amount);
                push_bytes(&mut out, amt.as_slice());
                proof {
                    assert(out@ =~= trusted_call_bytes(*self));
                }
            },
            TrustedCall::balance_set_balance(who, free, reserved) => {
                out.push(1u8);
                push_bytes(&mut out, who.as_slice());
                let f = u128_to_le_bytes(*free);
                push_bytes(&mut out, f.as_slice());
                let rv = u128_to_le_bytes(*reserved);
                push_bytes(&mut out, rv.as_slice());
                proof {
                    assert(out@ =~= trusted_call_bytes(*self));
                }
            },
        }
        out
    }
}

/// A read-only query against worker-side state, carrying the querying
/// public key.
#[allow(non_camel_case_types)]
pub enum TrustedGetter {
    /// The free balance of the querying account.
    free_balance(Vec<u8>),
}

/// The canonical encoding of a trusted getter: a variant tag, then the
/// querying account raw.
pub open spec fn trusted_getter_bytes(g: TrustedGetter) -> Seq<u8> {
    match g {
        TrustedGetter::free_balance(who) => seq![0u8] + who@,
    }
}

impl TrustedGetter {
    /// Whether the querying account is a well-formed key.
    pub open spec fn wf(&self) -> bool {
        match *self {
            TrustedGetter::free_balance(who) => is_bytes32(who@),
        }
    }

    /// The querying public key.
    pub open spec fn spec_account(&self) -> Seq<u8> {
        match *self {
            TrustedGetter::free_balance(who) => who@,
        }
    }

    /// The querying public key: the account the getter is issued by.
    pub fn account(&self) -> (r: &Vec<u8>)
        ensures
            r@ == self.spec_account(),
    {
        match self {
            TrustedGetter::free_balance(who) => who,
        }
    }

    /// The canonical encoding the signature binds.
    pub fn encode(&self) -> (r: Vec<u8>)
        ensures
            r@ == trusted_getter_bytes(*self),
    {
        let mut out: Vec<u8> = Vec::new();
        match self {
            TrustedGetter::free_balance(who) => {
                out.push(0u8);
                push_bytes(&mut out, who.as_slice());
                proof {
                    assert(out@ =~= trusted_getter_bytes(*self));
                }
            },
        }
        out
    }
}

} // verus!

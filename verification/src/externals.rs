//! Trusted boundary to the Ethereum utility crate: contract-address
//! derivation and the RLP preimage it is derived from.
//!
//! The created contract's address is the low 20 bytes of a Keccak digest of
//! the RLP encoding of the creator and its nonce.  The digest is named, not
//! restated; the RLP bytes are short enough to state exactly.

use vstd::prelude::*;
use crate::word::Address;

verus! {

/// The address of the contract created by `(hi, mid, lo)` at `nonce`, as
/// its three big-endian address limbs.  A Keccak digest determined by the
/// creator and nonce alone.
pub uninterp spec fn contract_address_of(hi: u32, mid: u64, lo: u64, nonce: u64) -> (u32, u64, u64);

/// The minimal big-endian byte string of `n` (empty for zero).
pub open spec fn be_bytes_min(n: u64) -> Seq<u8>
    decreases n,
{
    if n == 0 {
        Seq::empty()
    } else {
        be_bytes_min(n / 256).push((n % 256) as u8)
    }
}

/// The RLP encoding of the integer `n`.
pub open spec fn rlp_u64(n: u64) -> Seq<u8> {
    if n == 0 {
        seq![0x80u8]
    } else if n < 0x80 {
        seq![n as u8]
    } else {
        seq![(0x80 + be_bytes_min(n).len()) as u8] + be_bytes_min(n)
    }
}

/// The 20 big-endian bytes of an address.
pub open spec fn addr_be_bytes(a: Address) -> Seq<u8> {
    seq![
        (a.hi >> 24) as u8,
        (a.hi >> 16) as u8,
        (a.hi >> 8) as u8,
        a.hi as u8,
        (a.mid >> 56) as u8,
        (a.mid >> 48) as u8,
        (a.mid >> 40) as u8,
        (a.mid >> 32) as u8,
        (a.mid >> 24) as u8,
        (a.mid >> 16) as u8,
        (a.mid >> 8) as u8,
        a.mid as u8,
        (a.lo >> 56) as u8,
        (a.lo >> 48) as u8,
        (a.lo >> 40) as u8,
        (a.lo >> 32) as u8,
        (a.lo >> 24) as u8,
        (a.lo >> 16) as u8,
        (a.lo >> 8) as u8,
        a.lo as u8,
    ]
}

/// The RLP encoding of the two-item list `[address, nonce]`: a 20-byte
/// string item, an integer item, and a short-list header.
pub open spec fn rlp_address_nonce(a: Address, nonce: u64) -> Seq<u8> {
    let payload = seq![0x94u8] + addr_be_bytes(a) + rlp_u64(nonce);
    seq![(0xc0 + payload.len()) as u8] + payload
}

/// Relies on ethers_core::utils::get_contract_address: the created
/// contract's address is Keccak256(RLP([creator, nonce]))[12..], a function
/// of the creator address and nonce alone.
#[verifier::external_body]
pub fn contract_address(caller: &Address, nonce: u64) -> (r: Address)
    ensures
        (r.hi, r.mid, r.lo) == contract_address_of(caller.hi, caller.mid, caller.lo, nonce),
{
    let mut b = [0u8; 20];
    b[..4].copy_from_slice(&caller.hi.to_be_bytes());
    b[4..12].copy_from_slice(&caller.mid.to_be_bytes());
    b[12..].copy_from_slice(&caller.lo.to_be_bytes());
    let a = ethers_core::utils::get_contract_address(ethers_core::types::Address::from(b), nonce);
    let o = a.as_bytes();
    Address {
        hi: u32::from_be_bytes(o[..4].try_into().unwrap()),
        mid: u64::from_be_bytes(o[4..12].try_into().unwrap()),
        lo: u64::from_be_bytes(o[12..20].try_into().unwrap()),
    }
}

/// Relies on ethers_core::utils::rlp::RlpStream: appending an address and
/// an unsigned integer to a two-item list yields the RLP bytes stated by
/// `rlp_address_nonce`.
#[verifier::external_body]
pub fn rlp_address_nonce_bytes(caller: &Address, nonce: u64) -> (r: Vec<u8>)
    ensures
        r@ == rlp_address_nonce(*caller, nonce),
{
    let mut b = [0u8; 20];
    b[..4].copy_from_slice(&caller.hi.to_be_bytes());
    b[4..12].copy_from_slice(&caller.mid.to_be_bytes());
    b[12..].copy_from_slice(&caller.lo.to_be_bytes());
    let mut stream = ethers_core::utils::rlp::RlpStream::new();
    stream.begin_list(2);
    stream.append(&ethers_core::types::Address::from(b));
    stream.append(&nonce);
    stream.out().to_vec()
}

} // verus!

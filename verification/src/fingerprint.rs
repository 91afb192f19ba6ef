//! Fingerprint engine: a stable pseudo-identity for like deduplication.
//!
//! The fingerprint is a 64-bit FNV-1a hash of the client's transport
//! metadata (address bytes and user-agent bytes), keyed with a salt that
//! every event draws at creation.  The same client therefore maps to the
//! same fingerprint within one event, while fingerprints of different
//! events are not linkable to each other.  No cookie or account is
//! involved; when the metadata is thin (even empty), the result is a
//! degraded fingerprint that still deduplicates within one session at a
//! higher false-negative rate.

use vstd::prelude::*;

verus! {

/// FNV-1a 64-bit offset basis.
pub const FNV_OFFSET: u64 = 0xcbf29ce484222325;

/// FNV-1a 64-bit prime.
pub const FNV_PRIME: u64 = 0x100000001b3;

/// One FNV-1a round: fold a byte into the accumulator.
pub open spec fn fnv_step(acc: u64, byte: u8) -> u64 {
    vstd::wrapping::u64_specs::wrapping_mul(acc ^ (byte as u64), FNV_PRIME)
}

/// FNV-1a over a byte sequence, left to right.
pub open spec fn fnv_bytes(acc: u64, s: Seq<u8>) -> u64
    decreases s.len(),
{
    if s.len() == 0 {
        acc
    } else {
        fnv_step(fnv_bytes(acc, s.drop_last()), s.last())
    }
}

/// The fingerprint an event with `salt` assigns to a client whose
/// transport metadata is `addr` and `agent`.
pub open spec fn fingerprint_spec(salt: u64, addr: Seq<u8>, agent: Seq<u8>) -> u64 {
    fnv_bytes(fnv_step(fnv_bytes(FNV_OFFSET ^ salt, addr), 0), agent)
}

/// Folds a whole buffer into the accumulator.
fn fnv_fold(acc: u64, data: &Vec<u8>) -> (r: u64)
    ensures
        r == fnv_bytes(acc, data@),
{
    let mut h = acc;
    let mut i: usize = 0;
    while i < data.len()
        invariant
            i <= data@.len(),
            h == fnv_bytes(acc, data@.take(i as int)),
        decreases data@.len() - i,
    {
        let b = data[i];
        h = (h ^ (b as u64)).wrapping_mul(FNV_PRIME);
        proof {
            assert(data@.take(i as int + 1).drop_last() =~= data@.take(i as int));
            assert(data@.take(i as int + 1).last() == data@[i as int]);
        }
        i = i + 1;
    }
    proof {
        assert(data@.take(data@.len() as int) =~= data@);
    }
    h
}

/// Derives the pseudo-identity of a client within one event.
///
/// Deterministic in its three arguments; the per-event `salt` keeps
/// fingerprints of different events unlinkable.
pub fn fingerprint(salt: u64, addr: &Vec<u8>, agent: &Vec<u8>) -> (r: u64)
    ensures
        r == fingerprint_spec(salt, addr@, agent@),
{
    let start = fnv_fold(FNV_OFFSET ^ salt, addr);
    let separated = (start ^ 0u64).wrapping_mul(FNV_PRIME);
    fnv_fold(separated, agent)
}

} // verus!

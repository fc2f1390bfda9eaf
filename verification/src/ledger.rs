//! The replay ledger: a durable record of which (signer, nonce) pairs have
//! been consumed, guaranteeing at-most-once acceptance per pair.
//!
//! A pair is recorded by an atomic check-and-set (`consume`), is never
//! recorded twice, and is never removed: a nonce is burned permanently for
//! its signer.

use vstd::prelude::*;
use crate::errors::DispatchError;

verus! {

/// Byte-for-byte comparison of two byte strings.
pub fn bytes_eq(a: &Vec<u8>, b: &Vec<u8>) -> (r: bool)
    ensures
        r == (a@ == b@),
{
    if a.len() != b.len() {
        return false;
    }
    let mut i: usize = 0;
    while i < a.len()
        invariant
            i <= a@.len(),
            a@.len() == b@.len(),
            forall|j: int| 0 <= j < i ==> a@[j] == b@[j],
        decreases a@.len() - i,
    {
        if a[i] != b[i] {
            return false;
        }
        i = i + 1;
    }
    proof {
        assert(a@ =~= b@);
    }
    true
}

/// An exact copy of a byte string.
pub fn copy_bytes(src: &Vec<u8>) -> (r: Vec<u8>)
    ensures
        r@ == src@,
{
    let mut r: Vec<u8> = Vec::new();
    let mut i: usize = 0;
    while i < src.len()
        invariant
            i <= src@.len(),
            r@ == src@.subrange(0, i as int),
        decreases src@.len() - i,
    {
        r.push(src[i]);
        proof {
            assert(r@ =~= src@.subrange(0, i + 1));
        }
        i = i + 1;
    }
    proof {
        assert(src@.subrange(0, src@.len() as int) =~= src@);
    }
    r
}

/// One consumed (signer, nonce) fact.
struct ReplayRecord {
    signer: Vec<u8>,
    nonce: Vec<u8>,
}

/// The set of (signer, nonce) pairs that have been consumed.
pub struct ReplayLedger {
    entries: Vec<ReplayRecord>,
}

impl ReplayLedger {
    /// The pairs recorded so far, as a set of (signer, nonce) byte sequences.
    pub closed spec fn consumed(self) -> Set<(Seq<u8>, Seq<u8>)> {
        Set::new(
            |p: (Seq<u8>, Seq<u8>)|
                exists|i: int|
                    0 <= i < self.entries@.len() && (#[trigger] self.entries@[i]).signer@ == p.0
                        && self.entries@[i].nonce@ == p.1,
        )
    }

    /// An empty ledger: no pair is consumed.
    pub fn new() -> (r: Self)
        ensures
            r.consumed() == Set::<(Seq<u8>, Seq<u8>)>::empty(),
    {
        let r = ReplayLedger { entries: Vec::new() };
        proof {
            assert(r.consumed() =~= Set::<(Seq<u8>, Seq<u8>)>::empty());
        }
        r
    }

    /// Pure read: has this (signer, nonce) pair been consumed?
    pub fn is_consumed(&self, signer: &Vec<u8>, nonce: &Vec<u8>) -> (r: bool)
        ensures
            r == self.consumed().contains((signer@, nonce@)),
    {
        let mut i: usize = 0;
        while i < self.entries.len()
            invariant
                i <= self.entries@.len(),
                forall|j: int|
                    0 <= j < i ==> !((#[trigger] self.entries@[j]).signer@ == signer@
                        && self.entries@[j].nonce@ == nonce@),
            decreases self.entries@.len() - i,
        {
            if bytes_eq(&self.entries[i].signer, signer) && bytes_eq(&self.entries[i].nonce, nonce) {
                proof {
                    assert(0 <= i < self.entries@.len() && (#[trigger] self.entries@[
                    i as int]).signer@ == signer@ && self.entries@[i as int].nonce@ == nonce@);
                }
                return true;
            }
            i = i + 1;
        }
        proof {
            assert(!self.consumed().contains((signer@, nonce@)));
        }
        false
    }

    /// Atomic check-and-set: record the pair as consumed, or fail with
    /// `AlreadyConsumed` without mutating anything if it already is.
    pub fn consume(&mut self, signer: &Vec<u8>, nonce: &Vec<u8>) -> (r: Result<(), DispatchError>)
        ensures
            old(self).consumed().contains((signer@, nonce@)) ==> r == Err::<(), DispatchError>(
                DispatchError::AlreadyConsumed,
            ) && final(self).consumed() == old(self).consumed(),
            !old(self).consumed().contains((signer@, nonce@)) ==> r == Ok::<(), DispatchError>(())
                && final(self).consumed() == old(self).consumed().insert((signer@, nonce@)),
    {
        if self.is_consumed(signer, nonce) {
            return Err(DispatchError::AlreadyConsumed);
        }
        let record = ReplayRecord { signer: copy_bytes(signer), nonce: copy_bytes(nonce) };
        self.entries.push(record);
        proof {
            let pair = (signer@, nonce@);
            let n = old(self).entries@.len() as int;
            assert(self.entries@ =~= old(self).entries@.push(record));
            assert forall|p: (Seq<u8>, Seq<u8>)| self.consumed().contains(p) implies old(
                self,
            ).consumed().contains(p) || p == pair by {
                let i = choose|i: int|
                    0 <= i < self.entries@.len() && (#[trigger] self.entries@[i]).signer@ == p.0
                        && self.entries@[i].nonce@ == p.1;
                if i < n {
                    assert(old(self).entries@[i] == self.entries@[i]);
                    assert((#[trigger] old(self).entries@[i]).signer@ == p.0 && old(
                        self,
                    ).entries@[i].nonce@ == p.1);
                } else {
                    assert(self.entries@[i] == record);
                }
            }
            assert forall|p: (Seq<u8>, Seq<u8>)| old(self).consumed().contains(p) implies
            self.consumed().contains(p) by {
                let i = choose|i: int|
                    0 <= i < old(self).entries@.len() && (#[trigger] old(
                        self,
                    ).entries@[i]).signer@ == p.0 && old(self).entries@[i].nonce@ == p.1;
                assert((#[trigger] self.entries@[i]).signer@ == p.0 && self.entries@[i].nonce@
                    == p.1);
            }
            assert((#[trigger] self.entries@[n]).signer@ == pair.0 && self.entries@[n].nonce@
                == pair.1);
            assert(self.consumed().contains(pair));
            assert(self.consumed() =~= old(self).consumed().insert(pair));
        }
        Ok(())
    }
}

} // verus!

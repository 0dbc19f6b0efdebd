//! Symmetric-key ratchet.
//!
//! Deliberately not called a Double Ratchet: there is no DH ratchet here, so
//! this provides forward secrecy but not post-compromise security.
//!
//! Each message key is derived from the current chain key, then the chain key
//! is advanced irreversibly. Compromising the chain at message N reveals
//! messages N onward and nothing before it.

use vstd::prelude::*;
use crate::bytes::text;
use crate::error::Result;
use crate::kdf::{derive32, derived};

verus! {

/// The message key a chain key hands out.
pub open spec fn message_key_of(ck: Seq<u8>) -> Seq<u8> {
    derived(ck, text("ratchet/mk"), 32)
}

/// The chain key that follows `ck`.
pub open spec fn next_chain_key(ck: Seq<u8>) -> Seq<u8> {
    derived(ck, text("ratchet/ck"), 32)
}

/// The chain key after `i` steps from `root`.
pub open spec fn chain_key_at(root: Seq<u8>, i: nat) -> Seq<u8>
    decreases i,
{
    if i == 0 {
        root
    } else {
        next_chain_key(chain_key_at(root, (i - 1) as nat))
    }
}

/// The key that sealed message `i` (counting from one) of a ratcheting chain
/// started at `root`.
pub open spec fn ratchet_message_key(root: Seq<u8>, i: nat) -> Seq<u8> {
    message_key_of(chain_key_at(root, (i - 1) as nat))
}

pub struct Chain {
    ck: [u8; 32],
    pub n: u32,
}

impl Chain {
    /// The current chain key.
    pub closed spec fn key(&self) -> Seq<u8> {
        self.ck@
    }

    /// How many times the chain has advanced: the field `n`.
    pub closed spec fn count(&self) -> u32 {
        self.n
    }

    /// How many times the chain has advanced.
    pub fn position(&self) -> (r: u32)
        ensures
            r == self.count(),
    {
        self.n
    }

    pub fn new(root: [u8; 32]) -> (r: Self)
        ensures
            r.key() == root@,
            r.count() == 0,
    {
        Chain { ck: root, n: 0 }
    }

    /// Derive the next message key and advance the chain.
    ///
    /// Deliberately not an `Iterator`: a chain has no end to signal.
    pub fn next(&mut self) -> (r: Result<[u8; 32]>)
        requires
            old(self).count() < u32::MAX,
        ensures
            r is Ok,
            r matches Ok(mk) ==> mk@ == message_key_of(old(self).key()),
            final(self).key() == next_chain_key(old(self).key()),
            final(self).count() == old(self).count() + 1,
    {
        let mk = derive32(&self.ck, "ratchet/mk".as_bytes());
        let next_ck = derive32(&self.ck, "ratchet/ck".as_bytes());
        self.ck = next_ck;
        self.n = self.n + 1;
        Ok(mk)
    }

    /// Message key without advancing. Models a channel with no ratchet, where
    /// one key covers every message ever sent.
    pub fn static_key(&self) -> (r: Result<[u8; 32]>)
        ensures
            r is Ok,
            r matches Ok(mk) ==> mk@ == message_key_of(self.key()),
    {
        Ok(derive32(&self.ck, "ratchet/mk".as_bytes()))
    }
}

/// Advancing a chain that is `i` steps from `root` leaves it `i + 1` steps
/// from `root`: the chain key is the only state, so replaying from the same
/// root reproduces every key.
pub proof fn lemma_chain_advances(root: Seq<u8>, i: nat)
    ensures
        chain_key_at(root, i + 1) == next_chain_key(chain_key_at(root, i)),
        ratchet_message_key(root, i + 1) == message_key_of(chain_key_at(root, i)),
{
    assert(((i + 1) - 1) as nat == i);
}

} // verus!

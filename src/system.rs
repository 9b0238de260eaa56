use vstd::prelude::*;

use crate::table::Table;
use crate::types::{AccountId, BlockNumber, Nonce};

verus! {

/// The types that every module shares: how accounts are named, and the
/// counters for block heights and per-account nonces.
pub trait Config {
    type AccountId;
    type BlockNumber;
    type Nonce;
}

/// The nonce that `nonces` records for `who`, zero when it records none.
pub open spec fn nonce_in(nonces: Map<Seq<char>, Nonce>, who: Seq<char>) -> Nonce {
    if nonces.contains_key(who) {
        nonces[who]
    } else {
        0
    }
}

/// The system module: the current block height and each account's nonce.
#[derive(Debug)]
pub struct Pallet {
    block_number: BlockNumber,
    nonce: Table<Nonce>,
}

impl Pallet {
    /// Each account has at most one recorded nonce.
    pub closed spec fn wf(&self) -> bool {
        self.nonce.wf()
    }

    /// The current block height.
    pub closed spec fn height(&self) -> BlockNumber {
        self.block_number
    }

    /// The recorded nonces; an account without an entry has nonce zero.
    pub closed spec fn nonces(&self) -> Map<Seq<char>, Nonce> {
        self.nonce@
    }

    /// Height zero and no nonces.
    pub fn new() -> (r: Self)
        ensures
            r.wf(),
            r.height() == 0,
            r.nonces() == Map::<Seq<char>, Nonce>::empty(),
    {
        Pallet { block_number: 0, nonce: Table::new() }
    }

    pub fn block_number(&self) -> (r: BlockNumber)
        ensures
            r == self.height(),
    {
        self.block_number
    }

    /// The nonce of `who`: how many of its operations have been taken in.
    pub fn nonce(&self, who: &AccountId) -> (r: Nonce)
        requires
            self.wf(),
        ensures
            r == nonce_in(self.nonces(), who@),
    {
        match self.nonce.get(who) {
            Some(n) => *n,
            None => 0,
        }
    }

    /// Advances the height by one.
    pub fn inc_block_number(&mut self)
        requires
            old(self).height() < BlockNumber::MAX,
        ensures
            final(self).height() == old(self).height() + 1,
            final(self).nonces() == old(self).nonces(),
            final(self).wf() == old(self).wf(),
    {
        self.block_number = self.block_number + 1;
    }

    /// Advances the nonce of `who` by one.
    pub fn inc_nonce(&mut self, who: &AccountId)
        requires
            old(self).wf(),
            nonce_in(old(self).nonces(), who@) < Nonce::MAX,
        ensures
            final(self).wf(),
            final(self).height() == old(self).height(),
            final(self).nonces() == old(self).nonces().insert(
                who@,
                (nonce_in(old(self).nonces(), who@) + 1) as Nonce,
            ),
    {
        let nonce = self.nonce(who);
        self.nonce.insert(who, nonce + 1);
    }
}

} // verus!

use vstd::prelude::*;

use crate::balances::{self, after_transfer, transfer_result};
use crate::proof_of_existence::{
    self,
    after_create_claim,
    after_revoke_claim,
    create_claim_result,
    revoke_claim_result,
};
use crate::support::{DispatchError, DispatchResult, ExecutionError, ExtrinsicError};
use crate::system::{self, nonce_in};
use crate::types::{AccountId, Balance, Block, BlockNumber, Extrinsic, Nonce};

verus! {

/// Every operation that an extrinsic can ask for, whichever module owns it.
#[derive(Debug)]
pub enum RuntimeCall {
    Balances(balances::Call),
    ProofOfExistence(proof_of_existence::Call),
    BalancesTransfer { to: AccountId, amount: Balance },
}

/// The state that the runtime's modules hold, as maps keyed by account or content.
pub struct LedgerState {
    pub nonces: Map<Seq<char>, Nonce>,
    pub balances: Map<Seq<char>, Balance>,
    pub claims: Map<Seq<char>, Seq<char>>,
}

/// What running `call` for `caller` returns.
pub open spec fn call_result(s: LedgerState, caller: Seq<char>, call: RuntimeCall) -> DispatchResult {
    match call {
        RuntimeCall::Balances(balances::Call::Transfer { to, amount }) => transfer_result(
            s.balances,
            caller,
            to@,
            amount,
        ),
        RuntimeCall::BalancesTransfer { to, amount } => transfer_result(
            s.balances,
            caller,
            to@,
            amount,
        ),
        RuntimeCall::ProofOfExistence(proof_of_existence::Call::CreateClaim { content }) => {
            create_claim_result(s.claims, content@)
        },
        RuntimeCall::ProofOfExistence(proof_of_existence::Call::RevokeClaim { content }) => {
            revoke_claim_result(s.claims, caller, content@)
        },
    }
}

/// The state after running `call` for `caller`.
pub open spec fn after_call(s: LedgerState, caller: Seq<char>, call: RuntimeCall) -> LedgerState {
    match call {
        RuntimeCall::Balances(balances::Call::Transfer { to, amount }) => LedgerState {
            balances: after_transfer(s.balances, caller, to@, amount),
            ..s
        },
        RuntimeCall::BalancesTransfer { to, amount } => LedgerState {
            balances: after_transfer(s.balances, caller, to@, amount),
            ..s
        },
        RuntimeCall::ProofOfExistence(proof_of_existence::Call::CreateClaim { content }) => {
            LedgerState { claims: after_create_claim(s.claims, caller, content@), ..s }
        },
        RuntimeCall::ProofOfExistence(proof_of_existence::Call::RevokeClaim { content }) => {
            LedgerState { claims: after_revoke_claim(s.claims, caller, content@), ..s }
        },
    }
}

/// What taking in `ext` returns: its call's result, or `NonceOverflow` when the
/// caller's nonce cannot advance.
pub open spec fn extrinsic_result(s: LedgerState, ext: Extrinsic) -> DispatchResult {
    if nonce_in(s.nonces, ext.caller@) == Nonce::MAX {
        Err(DispatchError::NonceOverflow)
    } else {
        call_result(s, ext.caller@, ext.call)
    }
}

/// The state after taking in `ext`: the caller's nonce advances and its call
/// runs, whether the call succeeds or not.
pub open spec fn after_extrinsic(s: LedgerState, ext: Extrinsic) -> LedgerState {
    let who = ext.caller@;
    if nonce_in(s.nonces, who) == Nonce::MAX {
        s
    } else {
        after_call(
            LedgerState { nonces: s.nonces.insert(who, (nonce_in(s.nonces, who) + 1) as Nonce), ..s },
            who,
            ext.call,
        )
    }
}

/// The state after taking in `exts` one after another.
pub open spec fn after_extrinsics(s: LedgerState, exts: Seq<Extrinsic>) -> LedgerState
    decreases exts.len(),
{
    if exts.len() == 0 {
        s
    } else {
        after_extrinsic(after_extrinsics(s, exts.drop_last()), exts.last())
    }
}

/// The extrinsics among `exts` that fail, in order, when taken in one after another.
pub open spec fn extrinsic_errors(s: LedgerState, exts: Seq<Extrinsic>) -> Seq<ExtrinsicError>
    decreases exts.len(),
{
    if exts.len() == 0 {
        Seq::empty()
    } else {
        let before = extrinsic_errors(s, exts.drop_last());
        match extrinsic_result(after_extrinsics(s, exts.drop_last()), exts.last()) {
            Ok(()) => before,
            Err(e) => before.push(ExtrinsicError { index: (exts.len() - 1) as usize, error: e }),
        }
    }
}

/// How many of `exts` are performed for `who`.
pub open spec fn calls_by(exts: Seq<Extrinsic>, who: Seq<char>) -> nat
    decreases exts.len(),
{
    if exts.len() == 0 {
        0
    } else {
        calls_by(exts.drop_last(), who) + if exts.last().caller@ == who {
            1nat
        } else {
            0nat
        }
    }
}

/// Running an operation leaves the nonces alone.
proof fn lemma_call_keeps_nonces(s: LedgerState, caller: Seq<char>, call: RuntimeCall)
    ensures
        after_call(s, caller, call).nonces == s.nonces,
{
}

/// Taking in extrinsics advances the nonce of `who` by one for each of them
/// performed for `who`, whether its call succeeds or fails, as long as the
/// nonce stays in range.
pub proof fn lemma_nonce_counts_extrinsics(s: LedgerState, exts: Seq<Extrinsic>, who: Seq<char>)
    requires
        nonce_in(s.nonces, who) + calls_by(exts, who) <= Nonce::MAX,
    ensures
        nonce_in(after_extrinsics(s, exts).nonces, who) == nonce_in(s.nonces, who) + calls_by(
            exts,
            who,
        ),
    decreases exts.len(),
{
    if exts.len() > 0 {
        let ext = exts.last();
        let before = after_extrinsics(s, exts.drop_last());
        lemma_nonce_counts_extrinsics(s, exts.drop_last(), who);
        let n = nonce_in(before.nonces, ext.caller@);
        if n != Nonce::MAX {
            lemma_call_keeps_nonces(
                LedgerState { nonces: before.nonces.insert(ext.caller@, (n + 1) as Nonce), ..before },
                ext.caller@,
                ext.call,
            );
        }
    }
}

/// The runtime: the system, ledger and claims modules, and the block executor.
#[derive(Debug)]
pub struct Runtime {
    pub system: system::Pallet,
    pub balances: balances::Pallet,
    pub proof_of_existence: proof_of_existence::Pallet,
}

/// Accounts are named by strings, heights and nonces are 32-bit counters.
impl system::Config for Runtime {
    type AccountId = String;
    type BlockNumber = u32;
    type Nonce = u32;
}

/// Balances are unsigned 128-bit amounts.
impl balances::Config for Runtime {
    type Balance = u128;
}

/// Content is keyed by a string, such as a content hash.
impl proof_of_existence::Config for Runtime {
    type Content = String;
}

impl Runtime {
    /// Every module is well formed.
    pub open spec fn wf(&self) -> bool {
        &&& self.system.wf()
        &&& self.balances.wf()
        &&& self.proof_of_existence.wf()
    }

    /// The nonces, balances and claims that the modules hold.
    pub open spec fn state(&self) -> LedgerState {
        LedgerState {
            nonces: self.system.nonces(),
            balances: self.balances.balances(),
            claims: self.proof_of_existence.claims(),
        }
    }

    /// Every module empty, at height zero.
    pub fn new() -> (r: Self)
        ensures
            r.wf(),
            r.system.height() == 0,
            r.state() == (LedgerState {
                nonces: Map::empty(),
                balances: Map::empty(),
                claims: Map::empty(),
            }),
    {
        Runtime {
            system: system::Pallet::new(),
            balances: balances::Pallet::new(),
            proof_of_existence: proof_of_existence::Pallet::new(),
        }
    }

    /// Runs `call` for `caller` in the module that owns it, and returns that
    /// module's result unchanged.
    pub fn dispatch(&mut self, caller: AccountId, call: RuntimeCall) -> (r: DispatchResult)
        requires
            old(self).wf(),
        ensures
            final(self).wf(),
            final(self).system == old(self).system,
            r == call_result(old(self).state(), caller@, call),
            final(self).state() == after_call(old(self).state(), caller@, call),
    {
        match call {
            RuntimeCall::BalancesTransfer { to, amount } => {
                self.balances.transfer(&caller, &to, amount)
            },
            RuntimeCall::Balances(call) => self.balances.dispatch(caller, call),
            RuntimeCall::ProofOfExistence(call) => self.proof_of_existence.dispatch(caller, call),
        }
    }

    /// Executes a block. The height advances first (unless it is already at its
    /// largest value); a header that does not carry the new height refuses the
    /// whole block. Otherwise each extrinsic in turn advances its caller's nonce
    /// and is dispatched; one that fails does not stop the others, and is
    /// reported with its index.
    pub fn execute_block(&mut self, block: Block) -> (r: Result<Vec<ExtrinsicError>, ExecutionError>)
        requires
            old(self).wf(),
        ensures
            final(self).wf(),
            final(self).system.height() == if old(self).system.height() < BlockNumber::MAX {
                old(self).system.height() + 1
            } else {
                old(self).system.height() as int
            },
            block.header.block_number != old(self).system.height() + 1 ==> {
                &&& r == Err::<Vec<ExtrinsicError>, ExecutionError>(
                    ExecutionError::BlockNumberMismatch,
                )
                &&& final(self).state() == old(self).state()
            },
            block.header.block_number == old(self).system.height() + 1 ==> {
                &&& r is Ok
                &&& r->Ok_0@ == extrinsic_errors(old(self).state(), block.extrinsics@)
                &&& final(self).state() == after_extrinsics(old(self).state(), block.extrinsics@)
            },
    {
        if self.system.block_number() == BlockNumber::MAX {
            return Err(ExecutionError::BlockNumberMismatch);
        }
        self.system.inc_block_number();
        let block_number = block.header.block_number;
        if block_number != self.system.block_number() {
            return Err(ExecutionError::BlockNumberMismatch);
        }
        let ghost start = old(self).state();
        let ghost exts = block.extrinsics@;
        let count: usize = block.extrinsics.len();
        let mut errors: Vec<ExtrinsicError> = Vec::new();
        let mut i: usize = 0;
        for ext in it: block.extrinsics.into_iter()
            invariant
                it.seq() == exts,
                exts.len() == count,
                i == it.index(),
                self.wf(),
                self.system.height() == block_number,
                self.state() == after_extrinsics(start, exts.take(i as int)),
                errors@ == extrinsic_errors(start, exts.take(i as int)),
        {
            proof {
                assert(exts.take(i + 1).drop_last() == exts.take(i as int));
                assert(exts.take(i + 1).last() == ext);
            }
            let caller = ext.caller;
            let call = ext.call;
            let result = if self.system.nonce(&caller) == Nonce::MAX {
                Err(DispatchError::NonceOverflow)
            } else {
                self.system.inc_nonce(&caller);
                self.dispatch(caller, call)
            };
            match result {
                Ok(()) => {},
                Err(error) => {
                    errors.push(ExtrinsicError { index: i, error });
                },
            }
            i = i + 1;
        }
        proof {
            assert(exts.take(exts.len() as int) == exts);
        }
        Ok(errors)
    }
}

} // verus!

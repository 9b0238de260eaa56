use vstd::prelude::*;

use crate::support::{DispatchError, DispatchResult};
use crate::table::Table;
use crate::types::{AccountId, Content};

verus! {

/// The shared types, and the key of claimable content.
pub trait Config: crate::system::Config {
    type Content;
}

/// What `caller` claiming `content` returns.
pub open spec fn create_claim_result(
    claims: Map<Seq<char>, Seq<char>>,
    content: Seq<char>,
) -> DispatchResult {
    if claims.contains_key(content) {
        Err(DispatchError::AlreadyClaimed)
    } else {
        Ok(())
    }
}

/// The claims after `caller` claims `content`.
pub open spec fn after_create_claim(
    claims: Map<Seq<char>, Seq<char>>,
    caller: Seq<char>,
    content: Seq<char>,
) -> Map<Seq<char>, Seq<char>> {
    if claims.contains_key(content) {
        claims
    } else {
        claims.insert(content, caller)
    }
}

/// What `caller` revoking its claim on `content` returns.
pub open spec fn revoke_claim_result(
    claims: Map<Seq<char>, Seq<char>>,
    caller: Seq<char>,
    content: Seq<char>,
) -> DispatchResult {
    if !claims.contains_key(content) {
        Err(DispatchError::NoSuchClaim)
    } else if claims[content] != caller {
        Err(DispatchError::NotOwner)
    } else {
        Ok(())
    }
}

/// The claims after `caller` revokes its claim on `content`.
pub open spec fn after_revoke_claim(
    claims: Map<Seq<char>, Seq<char>>,
    caller: Seq<char>,
    content: Seq<char>,
) -> Map<Seq<char>, Seq<char>> {
    if revoke_claim_result(claims, caller, content) is Ok {
        claims.remove(content)
    } else {
        claims
    }
}

/// Once `a` has claimed `content`, a claim on it by anyone fails with
/// `AlreadyClaimed` and `a` stays its owner.
pub proof fn lemma_claim_exclusive(
    claims: Map<Seq<char>, Seq<char>>,
    a: Seq<char>,
    b: Seq<char>,
    content: Seq<char>,
)
    requires
        create_claim_result(claims, content) is Ok,
    ensures
        ({
            let claimed = after_create_claim(claims, a, content);
            &&& claimed[content] == a
            &&& create_claim_result(claimed, content) == Err::<(), DispatchError>(
                DispatchError::AlreadyClaimed,
            )
            &&& after_create_claim(claimed, b, content) == claimed
        }),
{
}

/// Only the owner of a claim can revoke it: anyone else fails with `NotOwner`
/// and changes nothing, while the owner removes the claim.
pub proof fn lemma_revoke_owner_only(
    claims: Map<Seq<char>, Seq<char>>,
    a: Seq<char>,
    b: Seq<char>,
    content: Seq<char>,
)
    requires
        claims.contains_key(content),
        claims[content] == a,
    ensures
        b != a ==> revoke_claim_result(claims, b, content) == Err::<(), DispatchError>(
            DispatchError::NotOwner,
        ),
        b != a ==> after_revoke_claim(claims, b, content) == claims,
        revoke_claim_result(claims, a, content) == Ok::<(), DispatchError>(()),
        !after_revoke_claim(claims, a, content).contains_key(content),
{
}

/// The operations of the claims module that an extrinsic can ask for.
#[derive(Debug)]
pub enum Call {
    CreateClaim { content: Content },
    RevokeClaim { content: Content },
}

/// The claims module: the owner of each claimed content.
#[derive(Debug)]
pub struct Pallet {
    claims: Table<AccountId>,
}

impl Pallet {
    /// Each content has at most one recorded owner.
    pub closed spec fn wf(&self) -> bool {
        self.claims.wf()
    }

    /// The owner of each claimed content.
    pub closed spec fn claims(&self) -> Map<Seq<char>, Seq<char>> {
        self.claims@.map_values(|owner: AccountId| owner@)
    }

    /// No claims.
    pub fn new() -> (r: Self)
        ensures
            r.wf(),
            r.claims() == Map::<Seq<char>, Seq<char>>::empty(),
    {
        let r = Pallet { claims: Table::new() };
        assert(r.claims() =~= Map::<Seq<char>, Seq<char>>::empty());
        r
    }

    /// The owner of `content`, if it is claimed.
    pub fn get_claim(&self, content: &Content) -> (r: Option<&AccountId>)
        requires
            self.wf(),
        ensures
            match r {
                Some(owner) => self.claims().contains_key(content@) && owner@ == self.claims()[content@],
                None => !self.claims().contains_key(content@),
            },
    {
        self.claims.get(content)
    }

    /// Records `caller` as the owner of `content`; fails when it has an owner.
    pub fn create_claim(&mut self, caller: AccountId, content: Content) -> (r: DispatchResult)
        requires
            old(self).wf(),
        ensures
            final(self).wf(),
            r == create_claim_result(old(self).claims(), content@),
            final(self).claims() == after_create_claim(old(self).claims(), caller@, content@),
    {
        if self.claims.contains_key(&content) {
            return Err(DispatchError::AlreadyClaimed);
        }
        self.claims.insert(&content, caller);
        assert(self.claims() =~= old(self).claims().insert(content@, caller@));
        Ok(())
    }

    /// Removes the claim on `content`; fails when it has no owner or another owner.
    pub fn revoke_claim(&mut self, caller: &AccountId, content: &Content) -> (r: DispatchResult)
        requires
            old(self).wf(),
        ensures
            final(self).wf(),
            r == revoke_claim_result(old(self).claims(), caller@, content@),
            final(self).claims() == after_revoke_claim(old(self).claims(), caller@, content@),
    {
        let owner = match self.get_claim(content) {
            Some(owner) => owner,
            None => {
                return Err(DispatchError::NoSuchClaim);
            },
        };
        if *owner != *caller {
            return Err(DispatchError::NotOwner);
        }
        self.claims.remove(content);
        assert(self.claims() =~= old(self).claims().remove(content@));
        Ok(())
    }

    /// Runs a claims operation for `caller`.
    pub fn dispatch(&mut self, caller: AccountId, call: Call) -> (r: DispatchResult)
        requires
            old(self).wf(),
        ensures
            final(self).wf(),
            match call {
                Call::CreateClaim { content } => {
                    &&& r == create_claim_result(old(self).claims(), content@)
                    &&& final(self).claims() == after_create_claim(
                        old(self).claims(),
                        caller@,
                        content@,
                    )
                },
                Call::RevokeClaim { content } => {
                    &&& r == revoke_claim_result(old(self).claims(), caller@, content@)
                    &&& final(self).claims() == after_revoke_claim(
                        old(self).claims(),
                        caller@,
                        content@,
                    )
                },
            },
    {
        match call {
            Call::CreateClaim { content } => self.create_claim(caller, content),
            Call::RevokeClaim { content } => self.revoke_claim(&caller, &content),
        }
    }
}

} // verus!

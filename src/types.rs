use vstd::prelude::*;

use crate::runtime::{Runtime, RuntimeCall};
use crate::{balances, proof_of_existence, support, system};

verus! {

pub type AccountId = <Runtime as system::Config>::AccountId;

pub type Balance = <Runtime as balances::Config>::Balance;

pub type BlockNumber = <Runtime as system::Config>::BlockNumber;

pub type Nonce = <Runtime as system::Config>::Nonce;

pub type Content = <Runtime as proof_of_existence::Config>::Content;

pub type Extrinsic = support::Extrinsic<AccountId, RuntimeCall>;

pub type Header = support::Header<BlockNumber>;

pub type Block = support::Block<Header, Extrinsic>;

} // verus!

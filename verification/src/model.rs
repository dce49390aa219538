//! The ledger as the contracts speak of it: the view of each record, and when
//! a ledger is well formed.

use vstd::prelude::*;
use crate::types::{DelegatorInfo, DepositInfo};

verus! {

/// The royalty of a pool is one in this many of the reward that its
/// allocations realise.
pub const ROYALTY_DIVISOR: u128 = 100;

/// Per cent of settled revenue that goes to the stakers of the VAPI.
pub const REVIEWER_FEE_PERCENT: u128 = 39;

/// Per cent of settled revenue that is burned.
pub const BURN_PERCENT: u128 = 1;

/// A revenue-generating unit.
#[verifier::ext_equal]
pub struct Vapi {
    /// The account that owns the VAPI.
    pub coder: Seq<char>,
    /// What the coder has earned and not claimed.
    pub unclaimed_reward: u128,
    /// The capital that is allocated into the VAPI.
    pub total_allocated: u128,
    /// The reward that a unit of allocated capital has earned since the VAPI
    /// was registered, scaled by `PRECISION`.
    pub acc_reward_per_share: u128,
}

/// A pool: the account that delegators stake with, and that allocates what
/// they stake into VAPIs.
#[verifier::ext_equal]
pub struct Reviewer {
    /// The VAPIs that the pool is allocated into, in the order in which
    /// capital is released for a refund.
    pub allocation_ids: Seq<Seq<char>>,
    /// The pool's stake in each of these VAPIs.
    pub allocations: Map<Seq<char>, DepositInfo>,
    /// The capital that is not allocated.
    pub pending: u128,
    /// The royalty that the pool has earned.
    pub royalty_earned: u128,
    /// The position of each delegator of the pool.
    pub delegators: Map<Seq<char>, DelegatorInfo>,
    /// The capital that the delegators hold together.
    pub total_delegator_capital: u128,
    /// The reward that a unit of delegator capital has earned since the pool
    /// was made, scaled by `PRECISION`.
    pub acc_reward_per_share: u128,
}

/// The whole ledger.
#[verifier::ext_equal]
pub struct Ledger {
    /// The identifiers of the VAPIs, in the order of their registration.
    pub vapi_ids: Seq<Seq<char>>,
    /// The VAPI under each of these identifiers.
    pub vapis: Map<Seq<char>, Vapi>,
    /// The accounts of the pools, in the order in which they were made.
    pub reviewer_ids: Seq<Seq<char>>,
    /// The pool of each of these accounts.
    pub reviewers: Map<Seq<char>, Reviewer>,
    /// The token that the ledger accounts in.
    pub token_id: Seq<char>,
    /// The account that may book revenue.
    pub owner_id: Seq<char>,
    /// The public key of the account that signed the making of the ledger.
    pub signer_public_key: Seq<u8>,
    /// Fees of revenue that was booked against VAPIs without stakers.
    pub treasury: u128,
    /// How many allocations a pool may hold.
    pub max_depositable_vapi_count: u8,
    /// For how many milliseconds a requested refund cannot be claimed.
    pub refund_lock_ms: u64,
}

/// `ids` names each key of `map` once, and nothing else.
pub open spec fn lists<V>(ids: Seq<Seq<char>>, map: Map<Seq<char>, V>) -> bool {
    &&& ids.no_duplicates()
    &&& forall|id: Seq<char>|
        #![trigger map.contains_key(id)]
        #![trigger ids.contains(id)]
        map.contains_key(id) <==> ids.contains(id)
}

impl Reviewer {
    /// A pool without capital, allocations or delegators.
    pub open spec fn empty() -> Reviewer {
        Reviewer {
            allocation_ids: Seq::empty(),
            allocations: Map::empty(),
            pending: 0,
            royalty_earned: 0,
            delegators: Map::empty(),
            total_delegator_capital: 0,
            acc_reward_per_share: 0,
        }
    }

    /// The order of release names each allocation once.
    pub open spec fn wf(self) -> bool {
        lists(self.allocation_ids, self.allocations)
    }
}

impl Ledger {
    /// Each VAPI, each pool and each allocation of a pool is named once where
    /// they are put in order.
    pub open spec fn wf(self) -> bool {
        &&& lists(self.vapi_ids, self.vapis)
        &&& lists(self.reviewer_ids, self.reviewers)
        &&& forall|id: Seq<char>|
            self.reviewers.contains_key(id) ==> (#[trigger] self.reviewers[id]).wf()
    }
}

} // verus!

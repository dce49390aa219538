//! The ledger itself, how it is made, and what it answers to queries.

use vstd::prelude::*;
use crate::error::LedgerError;
use crate::keyed::{lemma_to_map_at, lemma_to_map_push, lemma_to_map_update, to_map};
use crate::model::{Ledger, Reviewer};
use crate::reward::pending_reward;
use crate::transitions::stake_info;
use crate::types::{
    find_allocation, find_delegator, find_reviewer, find_vapi, reviewer_keys,
    reviewers_are_well_formed, vapi_keys, vapis_are_distinct, views_of, CoderInfo, DepositInfo,
    GetDepositInfoResponse, ReviewerInfo, VAPIInfo,
};

verus! {

/// How many VAPIs one pool may be allocated into at a time.
pub const MAX_DEPOSITABLE_VAPI_COUNT: u8 = 10;

/// For how long a requested refund cannot be claimed, unless the ledger is
/// configured otherwise: one minute, in milliseconds.
pub const DEFAULT_REFUND_LOCK_MS: u64 = 60_000;

/// The ledger: the VAPIs, the pools with their allocations and delegators,
/// and the treasury.
pub struct TicleCore {
    pub vapis: Vec<VAPIInfo>,
    pub reviewers: Vec<ReviewerInfo>,
    pub token_id: String,
    pub owner_id: String,
    pub signer_public_key: Vec<u8>,
    pub treasury: u128,
    pub max_depositable_vapi_count: u8,
    pub refund_lock_ms: u64,
}

impl View for TicleCore {
    type V = Ledger;

    open spec fn view(&self) -> Ledger {
        Ledger {
            vapi_ids: vapi_keys(self.vapis@),
            vapis: to_map(vapi_keys(self.vapis@), views_of(self.vapis@)),
            reviewer_ids: reviewer_keys(self.reviewers@),
            reviewers: to_map(reviewer_keys(self.reviewers@), views_of(self.reviewers@)),
            token_id: self.token_id@,
            owner_id: self.owner_id@,
            signer_public_key: self.signer_public_key@,
            treasury: self.treasury,
            max_depositable_vapi_count: self.max_depositable_vapi_count,
            refund_lock_ms: self.refund_lock_ms,
        }
    }
}

impl TicleCore {
    /// The ledger is well formed: it lists no VAPI and no pool twice, and each
    /// pool is well formed.
    pub open spec fn wf(&self) -> bool {
        &&& vapi_keys(self.vapis@).no_duplicates()
        &&& reviewer_keys(self.reviewers@).no_duplicates()
        &&& forall|i: int| 0 <= i < self.reviewers.len() ==> (#[trigger] self.reviewers[i]).wf()
    }

    /// The view of a well-formed ledger is well formed.
    pub proof fn lemma_view_wf(&self)
        requires
            self.wf(),
        ensures
            self@.wf(),
    {
        assert forall|id: Seq<char>| self@.reviewers.contains_key(id) implies (
        #[trigger] self@.reviewers[id]).wf() by {
            let i = reviewer_keys(self.reviewers@).index_of(id);
            assert(self.reviewers[i].wf());
        }
    }

    /// Where the pool at `ri` alone has changed, and not in its account, the
    /// ledger is well formed as it was, and in its view the pool is replaced by
    /// the view of what it has become.
    pub(crate) proof fn lemma_pool_replaced(&self, before: TicleCore, ri: int)
        requires
            before.wf(),
            0 <= ri < before.reviewers.len(),
            self.reviewers.len() == before.reviewers.len(),
            forall|i: int|
                0 <= i < before.reviewers.len() && i != ri ==> self.reviewers[i]
                    == before.reviewers[i],
            self.reviewers[ri].id == before.reviewers[ri].id,
            self.reviewers[ri].wf(),
            vapi_keys(self.vapis@) == vapi_keys(before.vapis@),
            self@.vapis == before@.vapis,
            self.token_id == before.token_id,
            self.owner_id == before.owner_id,
            self.signer_public_key == before.signer_public_key,
            self.treasury == before.treasury,
            self.max_depositable_vapi_count == before.max_depositable_vapi_count,
            self.refund_lock_ms == before.refund_lock_ms,
        ensures
            self.wf(),
            before@.reviewers.contains_key(before.reviewers[ri].id@),
            before@.reviewers[before.reviewers[ri].id@] == before.reviewers[ri]@,
            self@ == (Ledger {
                reviewers: before@.reviewers.insert(before.reviewers[ri].id@, self.reviewers[ri]@),
                ..before@
            }),
    {
        let ids = reviewer_keys(before.reviewers@);
        let views = views_of(before.reviewers@);
        assert(ids[ri] == before.reviewers[ri].id@);
        lemma_to_map_at(ids, views, ri);
        assert(reviewer_keys(self.reviewers@) =~= ids);
        assert(views_of(self.reviewers@) =~= views.update(ri, self.reviewers[ri]@));
        lemma_to_map_update(ids, views, ri, self.reviewers[ri]@);
        assert forall|i: int| 0 <= i < self.reviewers.len() implies (
        #[trigger] self.reviewers[i]).wf() by {
            if i != ri {
                assert(before.reviewers[i].wf());
            }
        }
    }

    /// Tests whether the ledger is well formed, as every operation asks. A
    /// ledger that was made by `new` and changed by the operations alone is.
    pub fn is_well_formed(&self) -> (r: bool)
        ensures
            r == self.wf(),
    {
        vapis_are_distinct(&self.vapis) && reviewers_are_well_formed(&self.reviewers)
    }

    /// A ledger without VAPIs and pools, owned by `owner_id` and accounting
    /// in the token `token_id`. Of the signer's public key the first byte, which
    /// names the signature scheme, is dropped.
    pub fn new(token_id: String, owner_id: String, signer_account_pk: Vec<u8>) -> (r: Self)
        requires
            signer_account_pk.len() > 0,
        ensures
            r.wf(),
            r@ == (Ledger {
                vapi_ids: Seq::empty(),
                vapis: Map::empty(),
                reviewer_ids: Seq::empty(),
                reviewers: Map::empty(),
                token_id: token_id@,
                owner_id: owner_id@,
                signer_public_key: signer_account_pk@.subrange(1, signer_account_pk.len() as int),
                treasury: 0,
                max_depositable_vapi_count: MAX_DEPOSITABLE_VAPI_COUNT,
                refund_lock_ms: DEFAULT_REFUND_LOCK_MS,
            }),
    {
        let mut signer_public_key = signer_account_pk;
        signer_public_key.remove(0);
        let r = TicleCore {
            vapis: Vec::new(),
            reviewers: Vec::new(),
            token_id,
            owner_id,
            signer_public_key,
            treasury: 0,
            max_depositable_vapi_count: MAX_DEPOSITABLE_VAPI_COUNT,
            refund_lock_ms: DEFAULT_REFUND_LOCK_MS,
        };
        assert(r@.vapi_ids =~= Seq::empty());
        assert(r@.reviewer_ids =~= Seq::empty());
        assert(r@.vapis =~= Map::empty());
        assert(r@.reviewers =~= Map::empty());
        assert(r@.signer_public_key =~= signer_account_pk@.subrange(
            1,
            signer_account_pk.len() as int,
        ));
        r
    }

    /// Registers the VAPI `vapi_id` for `caller`, who becomes its coder. Nothing
    /// is allocated into it, and its accumulator stands at zero.
    ///
    /// Fails with `VapiAlreadyExists` where the identifier is in use.
    pub fn create_vapi(&mut self, caller: &String, vapi_id: String) -> (r: Result<(), LedgerError>)
        requires
            old(self).wf(),
        ensures
            final(self).wf(),
            match old(self)@.create_vapi(caller@, vapi_id@) {
                Ok(s) => r is Ok && final(self)@ == s,
                Err(e) => r == Err::<(), LedgerError>(e) && final(self)@ == old(self)@,
            },
    {
        if find_vapi(&self.vapis, &vapi_id).is_some() {
            return Err(LedgerError::VapiAlreadyExists);
        }
        let vapi = VAPIInfo {
            id: vapi_id,
            coder_info: CoderInfo { account_id: caller.clone(), unclaimed_reward_amount: 0 },
            total_deposit_amount: 0,
            acc_reward_per_share: 0,
        };
        proof {
            lemma_to_map_push(vapi_keys(self.vapis@), views_of(self.vapis@), vapi_id@, vapi@);
        }
        self.vapis.push(vapi);
        proof {
            assert(vapi_keys(self.vapis@) =~= vapi_keys(old(self).vapis@).push(vapi_id@));
            assert(views_of(self.vapis@) =~= views_of(old(self).vapis@).push(vapi@));
        }
        Ok(())
    }

    /// The same ledger with `lock_ms` milliseconds as the time for which a
    /// requested refund cannot be claimed.
    pub fn with_refund_lock_ms(self, lock_ms: u64) -> (r: Self)
        requires
            self.wf(),
        ensures
            r.wf(),
            r@ == (Ledger { refund_lock_ms: lock_ms, ..self@ }),
    {
        let mut r = self;
        r.refund_lock_ms = lock_ms;
        r
    }

    /// The public key of the account that signed the creation of the ledger,
    /// without its first byte.
    pub fn get_signer_public_key(&self) -> (r: Vec<u8>)
        ensures
            r@ == self@.signer_public_key,
    {
        let r = self.signer_public_key.clone();
        assert(r@ =~= self.signer_public_key@);
        r
    }

    /// Puts an empty pool under `reviewer_id`. A pool that stands there is
    /// replaced by it.
    pub fn create_reviewer(&mut self, reviewer_id: &String)
        requires
            old(self).wf(),
        ensures
            final(self).wf(),
            final(self)@ == old(self)@.create_reviewer(reviewer_id@),
    {
        let reviewer = ReviewerInfo {
            id: reviewer_id.clone(),
            deposit_vapis: Vec::new(),
            pending_amount: 0,
            royalty_amount: 0,
            delegators: Vec::new(),
            total_delegator_deposit_amount: 0,
            acc_reward_per_share: 0,
        };
        proof {
            assert(reviewer@.allocation_ids =~= Seq::empty());
            assert(reviewer@.allocations =~= Map::empty());
            assert(reviewer@.delegators =~= Map::empty());
            assert(reviewer@ =~= Reviewer::empty());
        }
        let ghost ids = reviewer_keys(self.reviewers@);
        let ghost views = views_of(self.reviewers@);
        match find_reviewer(&self.reviewers, reviewer_id) {
            Some(ri) => {
                proof {
                    lemma_to_map_update(ids, views, ri as int, reviewer@);
                }
                self.reviewers[ri] = reviewer;
                proof {
                    assert(reviewer_keys(self.reviewers@) =~= ids);
                    assert(views_of(self.reviewers@) =~= views.update(ri as int, reviewer@));
                }
            },
            None => {
                proof {
                    lemma_to_map_push(ids, views, reviewer_id@, reviewer@);
                }
                self.reviewers.push(reviewer);
                proof {
                    assert(reviewer_keys(self.reviewers@) =~= ids.push(reviewer_id@));
                    assert(views_of(self.reviewers@) =~= views.push(reviewer@));
                }
            },
        }
    }

    /// Hands the VAPI `vapi_id` over to `new_coder_id`, which only its coder may
    /// do.
    ///
    /// Fails with `VapiNotFound` where no VAPI is registered under the
    /// identifier, and with `NotCoder` where `caller` is not its coder.
    pub fn transfer_ownership(&mut self, caller: &String, vapi_id: &String, new_coder_id: String)
        -> (r: Result<(), LedgerError>)
        requires
            old(self).wf(),
        ensures
            final(self).wf(),
            match old(self)@.transfer_ownership(caller@, vapi_id@, new_coder_id@) {
                Ok(s) => r is Ok && final(self)@ == s,
                Err(e) => r == Err::<(), LedgerError>(e) && final(self)@ == old(self)@,
            },
    {
        let vi = match find_vapi(&self.vapis, vapi_id) {
            Some(vi) => vi,
            None => {
                return Err(LedgerError::VapiNotFound);
            },
        };
        if self.vapis[vi].coder_info.account_id != *caller {
            return Err(LedgerError::NotCoder);
        }
        self.vapis[vi].coder_info.account_id = new_coder_id;
        proof {
            let ids = vapi_keys(old(self).vapis@);
            assert(vapi_keys(self.vapis@) =~= ids);
            assert(views_of(self.vapis@) =~= views_of(old(self).vapis@).update(
                vi as int,
                self.vapis[vi as int]@,
            ));
            lemma_to_map_update(ids, views_of(old(self).vapis@), vi as int, self.vapis[vi as int]@);
        }
        Ok(())
    }

    /// The capital that the pool `reviewer_id` has allocated into the VAPI
    /// `vapi_id`, with the allocation's reward against the VAPI's accumulator.
    /// Both are zero where the pool or the allocation is not there.
    ///
    /// Fails with `VapiNotFound` where the allocation is there and the VAPI is
    /// not, and as `pending_reward` does.
    pub fn get_reviewer_deposit_info(&self, reviewer_id: &String, vapi_id: &String) -> (r: Result<
        GetDepositInfoResponse,
        LedgerError,
    >)
        requires
            self.wf(),
        ensures
            r == self@.reviewer_deposit_info(reviewer_id@, vapi_id@),
    {
        let ri = match find_reviewer(&self.reviewers, reviewer_id) {
            Some(ri) => ri,
            None => {
                return Ok(GetDepositInfoResponse { deposit_amount: 0, reward: 0 });
            },
        };
        assert(self.reviewers[ri as int].wf());
        let ai = match find_allocation(&self.reviewers[ri].deposit_vapis, vapi_id) {
            Some(ai) => ai,
            None => {
                return Ok(GetDepositInfoResponse { deposit_amount: 0, reward: 0 });
            },
        };
        let vi = match find_vapi(&self.vapis, vapi_id) {
            Some(vi) => vi,
            None => {
                return Err(LedgerError::VapiNotFound);
            },
        };
        info_of(
            self.reviewers[ri].deposit_vapis[ai].deposit_info,
            self.vapis[vi].acc_reward_per_share,
        )
    }

    /// The capital that `delegator_id` has staked into the pool `reviewer_id`,
    /// with its reward against the pool's accumulator. Both are zero where the
    /// pool or the position is not there.
    ///
    /// Fails as `pending_reward` does.
    pub fn get_delegator_deposit_info(&self, delegator_id: &String, reviewer_id: &String) -> (r:
        Result<GetDepositInfoResponse, LedgerError>)
        requires
            self.wf(),
        ensures
            r == self@.delegator_deposit_info(delegator_id@, reviewer_id@),
    {
        let ri = match find_reviewer(&self.reviewers, reviewer_id) {
            Some(ri) => ri,
            None => {
                return Ok(GetDepositInfoResponse { deposit_amount: 0, reward: 0 });
            },
        };
        assert(self.reviewers[ri as int].wf());
        let di = match find_delegator(&self.reviewers[ri].delegators, delegator_id) {
            Some(di) => di,
            None => {
                return Ok(GetDepositInfoResponse { deposit_amount: 0, reward: 0 });
            },
        };
        info_of(
            self.reviewers[ri].delegators[di].info.deposit_info,
            self.reviewers[ri].acc_reward_per_share,
        )
    }

    /// The unallocated balance of the pool `reviewer_id`. Fails with
    /// `ReviewerNotFound` where the pool is not there.
    pub fn get_reviewer_pending_amount(&self, reviewer_id: &String) -> (r: Result<
        u128,
        LedgerError,
    >)
        requires
            self.wf(),
        ensures
            self@.reviewers.contains_key(reviewer_id@) ==> r == Ok::<u128, LedgerError>(
                self@.reviewers[reviewer_id@].pending,
            ),
            !self@.reviewers.contains_key(reviewer_id@) ==> r == Err::<u128, LedgerError>(
                LedgerError::ReviewerNotFound,
            ),
    {
        match find_reviewer(&self.reviewers, reviewer_id) {
            Some(ri) => Ok(self.reviewers[ri].pending_amount),
            None => Err(LedgerError::ReviewerNotFound),
        }
    }

    /// The royalty that the pool `reviewer_id` has earned. Fails with
    /// `ReviewerNotFound` where the pool is not there.
    pub fn get_reviewer_royalty_amount(&self, reviewer_id: &String) -> (r: Result<
        u128,
        LedgerError,
    >)
        requires
            self.wf(),
        ensures
            self@.reviewers.contains_key(reviewer_id@) ==> r == Ok::<u128, LedgerError>(
                self@.reviewers[reviewer_id@].royalty_earned,
            ),
            !self@.reviewers.contains_key(reviewer_id@) ==> r == Err::<u128, LedgerError>(
                LedgerError::ReviewerNotFound,
            ),
    {
        match find_reviewer(&self.reviewers, reviewer_id) {
            Some(ri) => Ok(self.reviewers[ri].royalty_amount),
            None => Err(LedgerError::ReviewerNotFound),
        }
    }
}

/// A stake's capital with its reward against the accumulator
/// `acc_reward_per_share`.
pub(crate) fn info_of(stake: DepositInfo, acc_reward_per_share: u128) -> (r: Result<
    GetDepositInfoResponse,
    LedgerError,
>)
    ensures
        r == stake_info(stake, acc_reward_per_share),
{
    match pending_reward(stake.deposit_amount, stake.reward_debt, acc_reward_per_share) {
        Ok(reward) => Ok(GetDepositInfoResponse { deposit_amount: stake.deposit_amount, reward }),
        Err(e) => Err(e),
    }
}

} // verus!

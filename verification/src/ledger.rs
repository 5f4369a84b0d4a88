use vstd::prelude::*;
use crate::allocation::{
    allocation_wf, lemma_vested_unlocked_bounds, new_allocation_valid, simulate_response,
    simulate_withdraw, withdrawable_amount,
};
use crate::error::ContractError;
use crate::msg::{
    AllocationInfo, AllocationResponse, ConfigResponse, ExecuteMsg, InstantiateMsg, QueryAnswer,
    QueryMsg, ReceiveMsg, SimulateWithdrawResponse, StateResponse, TransferMsg,
};
use crate::schedule::{compute_released_amount, released_amount};

verus! {

/// No two records share an account key.
pub open spec fn keys_unique(v: Seq<(String, AllocationInfo)>) -> bool {
    forall|i: int, j: int| 0 <= i < j < v.len() ==> v[i].0@ != v[j].0@
}

/// Whether some record carries the given account key.
pub open spec fn has_account(v: Seq<(String, AllocationInfo)>, account: Seq<char>) -> bool {
    exists|i: int| 0 <= i < v.len() && v[i].0@ == account
}

/// The position of the record with the given account key; meaningful only
/// when `has_account` holds, unique whenever the keys are unique.
pub open spec fn index_of_account(v: Seq<(String, AllocationInfo)>, account: Seq<char>) -> int {
    choose|i: int| 0 <= i < v.len() && v[i].0@ == account
}

/// The record stored under the given account key.
pub open spec fn allocation_of(v: Seq<(String, AllocationInfo)>, account: Seq<char>) -> AllocationInfo {
    v[index_of_account(v, account)].1
}

/// With unique keys, any position whose record carries the key is the
/// position `index_of_account` names.
pub proof fn lemma_index_of_account_unique(
    v: Seq<(String, AllocationInfo)>,
    account: Seq<char>,
    i: int,
)
    requires
        keys_unique(v),
        0 <= i < v.len(),
        v[i].0@ == account,
    ensures
        has_account(v, account),
        index_of_account(v, account) == i,
        allocation_of(v, account) == v[i].1,
{
    assert(has_account(v, account));
    let j: int = index_of_account(v, account);
    assert(0 <= j < v.len() && v[j].0@ == account);
    if i < j {
        assert(v[i].0@ != v[j].0@);
    } else if j < i {
        assert(v[j].0@ != v[i].0@);
    }
}

/// The sum of all total grants in the list.
pub open spec fn sum_totals(v: Seq<(String, AllocationInfo)>) -> int
    decreases v.len(),
{
    if v.len() == 0 {
        0
    } else {
        sum_totals(v.drop_last()) + v.last().1.total_amount
    }
}

/// The grant sum is never negative.
pub proof fn lemma_sum_totals_nonneg(v: Seq<(String, AllocationInfo)>)
    ensures
        sum_totals(v) >= 0,
    decreases v.len(),
{
    if v.len() > 0 {
        lemma_sum_totals_nonneg(v.drop_last());
    }
}

/// Each single grant is bounded by the grant sum.
pub proof fn lemma_sum_totals_element(v: Seq<(String, AllocationInfo)>, i: int)
    requires
        0 <= i < v.len(),
    ensures
        v[i].1.total_amount <= sum_totals(v),
    decreases v.len(),
{
    if i == v.len() - 1 {
        lemma_sum_totals_nonneg(v.drop_last());
    } else {
        lemma_sum_totals_element(v.drop_last(), i);
    }
}

/// Appending a record adds its grant to the sum.
pub proof fn lemma_sum_totals_push(v: Seq<(String, AllocationInfo)>, p: (String, AllocationInfo))
    ensures
        sum_totals(v.push(p)) == sum_totals(v) + p.1.total_amount,
{
    assert(v.push(p).drop_last() =~= v);
}

/// Replacing a record shifts the sum by the difference of the grants.
pub proof fn lemma_sum_totals_update(v: Seq<(String, AllocationInfo)>, i: int, p: (String, AllocationInfo))
    requires
        0 <= i < v.len(),
    ensures
        sum_totals(v.update(i, p)) == sum_totals(v) - v[i].1.total_amount + p.1.total_amount,
    decreases v.len(),
{
    if i == v.len() - 1 {
        assert(v.update(i, p).drop_last() =~= v.drop_last());
    } else {
        assert(v.update(i, p).drop_last() =~= v.drop_last().update(i, p));
        lemma_sum_totals_update(v.drop_last(), i, p);
    }
}

/// The record list `after` equals `before` with only the record at `i`
/// replaced by `a`, under the same account key.
pub open spec fn allocations_updated_at(
    before: Seq<(String, AllocationInfo)>,
    after: Seq<(String, AllocationInfo)>,
    i: int,
    a: AllocationInfo,
) -> bool {
    &&& after.len() == before.len()
    &&& after[i].0 == before[i].0
    &&& after[i].1 == a
    &&& forall|j: int| 0 <= j < before.len() && j != i ==> after[j] == before[j]
}

/// The outcome of inserting `entries` in order into the record list `v`
/// with `remaining` undistributed tokens: the final list and remainder,
/// or the first error met in processing order.
pub open spec fn spec_create(
    v: Seq<(String, AllocationInfo)>,
    remaining: int,
    entries: Seq<(String, AllocationInfo)>,
) -> Result<(Seq<(String, AllocationInfo)>, int), ContractError>
    decreases entries.len(),
{
    if entries.len() == 0 {
        Ok((v, remaining))
    } else if !new_allocation_valid(entries[0].1) {
        Err(ContractError::InvalidAllocation)
    } else if has_account(v, entries[0].0@) {
        Err(ContractError::DuplicateAllocation)
    } else if entries[0].1.total_amount > remaining {
        Err(ContractError::InsufficientFunds)
    } else {
        spec_create(
            v.push(entries[0]),
            remaining - entries[0].1.total_amount,
            entries.subrange(1, entries.len() as int),
        )
    }
}

/// Full account of the create operation: on success the records and the
/// remainder are exactly what processing the entries in order yields, and
/// the deposit was credited; on failure the ledger is unchanged and the
/// error is the first one the processing order meets.
pub open spec fn create_post(
    pre: Ledger,
    post: Ledger,
    deposit: int,
    entries: Seq<(String, AllocationInfo)>,
    r: Result<(), ContractError>,
) -> bool {
    match r {
        Ok(_) => {
            &&& spec_create(
                pre.allocations@,
                pre.state.remaining_whale_tokens + deposit,
                entries,
            ) == Ok::<_, ContractError>(
                (post.allocations@, post.state.remaining_whale_tokens as int),
            )
            &&& post.state.total_whale_deposited == pre.state.total_whale_deposited + deposit
            &&& post.config == pre.config
        },
        Err(e) => {
            &&& ledger_unchanged(pre, post)
            &&& spec_create(
                pre.allocations@,
                pre.state.remaining_whale_tokens + deposit,
                entries,
            ) == Err::<(Seq<(String, AllocationInfo)>, int), _>(e)
        },
    }
}

/// Full account of the increase operation: the deposit is credited and the
/// named grant grows by `amount`, drawn from the undistributed remainder;
/// each error comes exactly on the stated inputs and leaves the ledger
/// unchanged.
pub open spec fn increase_post(
    pre: Ledger,
    post: Ledger,
    deposit: int,
    account: Seq<char>,
    amount: int,
    r: Result<(), ContractError>,
) -> bool {
    let a = allocation_of(pre.allocations@, account);
    match r {
        Ok(_) => {
            &&& has_account(pre.allocations@, account)
            &&& !a.canceled
            &&& amount <= pre.state.remaining_whale_tokens + deposit
            &&& post.config == pre.config
            &&& post.state.total_whale_deposited == pre.state.total_whale_deposited + deposit
            &&& post.state.remaining_whale_tokens == pre.state.remaining_whale_tokens + deposit
                - amount
            &&& allocations_updated_at(
                pre.allocations@,
                post.allocations@,
                index_of_account(pre.allocations@, account),
                (AllocationInfo {
                    total_amount: (a.total_amount + amount) as u128,
                    withdrawn_amount: a.withdrawn_amount,
                    vest_schedule: a.vest_schedule,
                    unlock_schedule: a.unlock_schedule,
                    canceled: a.canceled,
                }),
            )
        },
        Err(e) => {
            &&& ledger_unchanged(pre, post)
            &&& if !has_account(pre.allocations@, account) {
                e == ContractError::AllocationNotFound
            } else if a.canceled {
                e == ContractError::AllocationCanceled
            } else {
                amount > pre.state.remaining_whale_tokens + deposit && e
                    == ContractError::InsufficientFunds
            }
        },
    }
}

/// Full account of the withdraw operation at time `now`: the withdrawable
/// amount is paid out and recorded, raising the withdrawn amount exactly
/// to the vested-and-unlocked ceiling; with nothing withdrawable the
/// operation fails and the ledger is unchanged. Both schedule evaluations
/// use the same `now`.
pub open spec fn withdraw_post(
    pre: Ledger,
    post: Ledger,
    account: Seq<char>,
    now: int,
    r: Result<u128, ContractError>,
) -> bool {
    let a = allocation_of(pre.allocations@, account);
    let d = pre.config.default_unlock_schedule;
    match r {
        Ok(amount) => {
            &&& has_account(pre.allocations@, account)
            &&& amount == withdrawable_amount(a, d, now)
            &&& amount > 0
            &&& post.config == pre.config
            &&& post.state == pre.state
            &&& allocations_updated_at(
                pre.allocations@,
                post.allocations@,
                index_of_account(pre.allocations@, account),
                (AllocationInfo {
                    total_amount: a.total_amount,
                    withdrawn_amount: (a.withdrawn_amount + withdrawable_amount(
                        a,
                        d,
                        now,
                    )) as u128,
                    vest_schedule: a.vest_schedule,
                    unlock_schedule: a.unlock_schedule,
                    canceled: a.canceled,
                }),
            )
        },
        Err(e) => {
            &&& ledger_unchanged(pre, post)
            &&& if !has_account(pre.allocations@, account) {
                e == ContractError::AllocationNotFound
            } else {
                withdrawable_amount(a, d, now) == 0 && e == ContractError::NothingToWithdraw
            }
        },
    }
}

/// What a terminated allocation keeps: everything vested at termination
/// time, but never less than what was already paid out, so that the
/// refund can never claw back tokens the beneficiary has withdrawn.
pub open spec fn terminated_total(a: AllocationInfo, t: int) -> int {
    let vested = released_amount(a.vest_schedule, a.total_amount as int, t);
    if vested >= a.withdrawn_amount as int {
        vested
    } else {
        a.withdrawn_amount as int
    }
}

/// Full account of the terminate operation at time `now`: the record is
/// frozen with `canceled` set and its grant clipped to what termination
/// keeps, and the clipped-off remainder is the refund; terminating a
/// missing or already-canceled allocation fails and changes nothing. A
/// second terminate call therefore has no further effect: it reports
/// `AllocationCanceled` and leaves the ledger as the first call left it.
pub open spec fn terminate_post(
    pre: Ledger,
    post: Ledger,
    account: Seq<char>,
    now: int,
    r: Result<u128, ContractError>,
) -> bool {
    let a = allocation_of(pre.allocations@, account);
    match r {
        Ok(refund) => {
            &&& has_account(pre.allocations@, account)
            &&& !a.canceled
            &&& refund == a.total_amount - terminated_total(a, now)
            &&& post.config == pre.config
            &&& post.state == pre.state
            &&& allocations_updated_at(
                pre.allocations@,
                post.allocations@,
                index_of_account(pre.allocations@, account),
                (AllocationInfo {
                    total_amount: terminated_total(a, now) as u128,
                    withdrawn_amount: a.withdrawn_amount,
                    vest_schedule: a.vest_schedule,
                    unlock_schedule: a.unlock_schedule,
                    canceled: true,
                }),
            )
        },
        Err(e) => {
            &&& ledger_unchanged(pre, post)
            &&& if !has_account(pre.allocations@, account) {
                e == ContractError::AllocationNotFound
            } else {
                a.canceled && e == ContractError::AllocationCanceled
            }
        },
    }
}

/// The whole allocation ledger: configuration, aggregate counters and one
/// record per beneficiary account.
pub struct Ledger {
    /// Configuration fixed at instantiation.
    pub config: InstantiateMsg,
    /// Aggregate counters over all allocations.
    pub state: StateResponse,
    /// The allocation records, keyed by account; keys are unique.
    pub allocations: Vec<(String, AllocationInfo)>,
}

/// The two ledgers hold the same configuration, counters and records.
pub open spec fn ledger_unchanged(pre: Ledger, post: Ledger) -> bool {
    &&& post.config == pre.config
    &&& post.state == pre.state
    &&& post.allocations@ == pre.allocations@
}

impl Ledger {
    /// Ledger invariant: unique account keys, well-formed records, a valid
    /// default unlock schedule, and conservation: outstanding grants plus
    /// the undistributed remainder never exceed what was ever deposited.
    pub open spec fn wf(self) -> bool {
        &&& keys_unique(self.allocations@)
        &&& forall|i: int| 0 <= i < self.allocations@.len() ==> allocation_wf(
            #[trigger] self.allocations@[i].1,
        )
        &&& self.config.default_unlock_schedule.valid()
        &&& sum_totals(self.allocations@) + self.state.remaining_whale_tokens
            <= self.state.total_whale_deposited
    }

    /// Sets the ledger up with the given configuration, empty counters and
    /// no allocations. A default unlock schedule whose cliff outlasts its
    /// duration is rejected.
    pub fn instantiate(msg: InstantiateMsg) -> (r: Result<Ledger, ContractError>)
        ensures
            match r {
                Ok(l) => {
                    &&& msg.default_unlock_schedule.valid()
                    &&& l.wf()
                    &&& l.config == msg
                    &&& l.state == (StateResponse {
                        total_whale_deposited: 0u128,
                        remaining_whale_tokens: 0u128,
                    })
                    &&& l.allocations@.len() == 0
                },
                Err(e) => {
                    &&& !msg.default_unlock_schedule.valid()
                    &&& e == ContractError::InvalidAllocation
                },
            },
    {
        if msg.default_unlock_schedule.cliff > msg.default_unlock_schedule.duration {
            return Err(ContractError::InvalidAllocation);
        }
        Ok(Ledger {
            config: msg,
            state: StateResponse {
                total_whale_deposited: 0u128,
                remaining_whale_tokens: 0u128,
            },
            allocations: Vec::new(),
        })
    }

    /// Creates one allocation per entry, in order, funding them from the
    /// freshly deposited `deposit` tokens plus the undistributed
    /// remainder. An entry fails on a malformed record, an account that
    /// already has a record (among the existing ones or the earlier
    /// entries), or a grant exceeding the funds still available; the first
    /// failure aborts the whole operation and leaves the ledger unchanged,
    /// as the host's rollback would.
    pub fn create_allocations(
        &mut self,
        deposit: u128,
        entries: &Vec<(String, AllocationInfo)>,
    ) -> (r: Result<(), ContractError>)
        requires
            old(self).wf(),
            old(self).state.total_whale_deposited + deposit <= u128::MAX,
        ensures
            final(self).wf(),
            create_post(*old(self), *final(self), deposit as int, entries@, r),
    {
        proof {
            lemma_sum_totals_nonneg(self.allocations@);
            assert(entries@.subrange(0, entries@.len() as int) =~= entries@);
            assert(old(self).allocations@ + entries@.subrange(0, 0) =~= old(self).allocations@);
        }
        let old_len: usize = self.allocations.len();
        let old_state: StateResponse = self.state;
        self.state.total_whale_deposited = self.state.total_whale_deposited + deposit;
        self.state.remaining_whale_tokens = self.state.remaining_whale_tokens + deposit;
        let mut i: usize = 0;
        while i < entries.len()
            invariant
                old(self).wf(),
                old(self).state.total_whale_deposited + deposit <= u128::MAX,
                i <= entries@.len(),
                old_state == old(self).state,
                old_len == old(self).allocations@.len(),
                self.config == old(self).config,
                self.state.total_whale_deposited == old(self).state.total_whale_deposited
                    + deposit,
                self.allocations@ == old(self).allocations@ + entries@.subrange(0, i as int),
                keys_unique(self.allocations@),
                forall|k: int| 0 <= k < self.allocations@.len() ==> allocation_wf(
                    #[trigger] self.allocations@[k].1,
                ),
                sum_totals(self.allocations@) + self.state.remaining_whale_tokens == sum_totals(
                    old(self).allocations@,
                ) + old(self).state.remaining_whale_tokens + deposit,
                spec_create(
                    old(self).allocations@,
                    old(self).state.remaining_whale_tokens + deposit,
                    entries@,
                ) == spec_create(
                    self.allocations@,
                    self.state.remaining_whale_tokens as int,
                    entries@.subrange(i as int, entries@.len() as int),
                ),
            decreases entries@.len() - i,
        {
            let ghost rest = entries@.subrange(i as int, entries@.len() as int);
            proof {
                assert(rest[0] == entries@[i as int]);
                assert(rest.subrange(1, rest.len() as int) =~= entries@.subrange(
                    i as int + 1,
                    entries@.len() as int,
                ));
            }
            let entry_info: AllocationInfo = entries[i].1;
            let valid: bool = entry_info.withdrawn_amount == 0 && !entry_info.canceled
                && entry_info.vest_schedule.cliff <= entry_info.vest_schedule.duration
                && (match &entry_info.unlock_schedule {
                Some(s) => s.cliff <= s.duration,
                None => true,
            });
            if !valid {
                self.allocations.truncate(old_len);
                self.state = old_state;
                proof {
                    assert(self.allocations@ =~= old(self).allocations@);
                }
                return Err(ContractError::InvalidAllocation);
            }
            if find_account(&self.allocations, &entries[i].0).is_some() {
                self.allocations.truncate(old_len);
                self.state = old_state;
                proof {
                    assert(self.allocations@ =~= old(self).allocations@);
                }
                return Err(ContractError::DuplicateAllocation);
            }
            if entry_info.total_amount > self.state.remaining_whale_tokens {
                self.allocations.truncate(old_len);
                self.state = old_state;
                proof {
                    assert(self.allocations@ =~= old(self).allocations@);
                }
                return Err(ContractError::InsufficientFunds);
            }
            self.state.remaining_whale_tokens = self.state.remaining_whale_tokens
                - entry_info.total_amount;
            let account: String = entries[i].0.clone();
            proof {
                lemma_sum_totals_push(self.allocations@, (account, entry_info));
            }
            self.allocations.push((account, entry_info));
            proof {
                assert(entries@.subrange(0, i as int + 1) =~= entries@.subrange(0, i as int).push(
                    entries@[i as int],
                ));
                assert(self.allocations@ =~= old(self).allocations@ + entries@.subrange(
                    0,
                    i as int + 1,
                ));
            }
            i = i + 1;
        }
        proof {
            assert(entries@.subrange(i as int, entries@.len() as int) =~= Seq::<(
                String,
                AllocationInfo,
            )>::empty());
        }
        Ok(())
    }

    /// Raises the total grant of one existing, still active allocation by
    /// `amount`, funded from the freshly deposited `deposit` tokens plus
    /// the undistributed remainder. On any failure the ledger is
    /// unchanged.
    pub fn increase_allocation(&mut self, deposit: u128, account: &String, amount: u128) -> (r:
        Result<(), ContractError>)
        requires
            old(self).wf(),
            old(self).state.total_whale_deposited + deposit <= u128::MAX,
        ensures
            final(self).wf(),
            increase_post(*old(self), *final(self), deposit as int, account@, amount as int, r),
    {
        let idx: usize = match find_account(&self.allocations, account) {
            Some(i) => i,
            None => {
                return Err(ContractError::AllocationNotFound);
            },
        };
        proof {
            lemma_index_of_account_unique(self.allocations@, account@, idx as int);
            lemma_sum_totals_nonneg(self.allocations@);
            lemma_sum_totals_element(self.allocations@, idx as int);
        }
        let a: AllocationInfo = self.allocations[idx].1;
        if a.canceled {
            return Err(ContractError::AllocationCanceled);
        }
        let funds: u128 = self.state.remaining_whale_tokens + deposit;
        if amount > funds {
            return Err(ContractError::InsufficientFunds);
        }
        self.state.total_whale_deposited = self.state.total_whale_deposited + deposit;
        self.state.remaining_whale_tokens = funds - amount;
        self.allocations[idx].1 = AllocationInfo {
            total_amount: a.total_amount + amount,
            withdrawn_amount: a.withdrawn_amount,
            vest_schedule: a.vest_schedule,
            unlock_schedule: a.unlock_schedule,
            canceled: a.canceled,
        };
        proof {
            lemma_sum_totals_update(
                old(self).allocations@,
                idx as int,
                self.allocations@[idx as int],
            );
        }
        Ok(())
    }

    /// Pays out whatever is withdrawable for `account` at time `now`:
    /// the vested-and-unlocked ceiling less what was already withdrawn,
    /// both schedules evaluated at the same `now`. Returns the amount the
    /// host must transfer to the beneficiary. On any failure the ledger is
    /// unchanged.
    pub fn withdraw(&mut self, account: &String, now: u64) -> (r: Result<u128, ContractError>)
        requires
            old(self).wf(),
        ensures
            final(self).wf(),
            withdraw_post(*old(self), *final(self), account@, now as int, r),
    {
        let idx: usize = match find_account(&self.allocations, account) {
            Some(i) => i,
            None => {
                return Err(ContractError::AllocationNotFound);
            },
        };
        proof {
            lemma_index_of_account_unique(self.allocations@, account@, idx as int);
        }
        let a: AllocationInfo = self.allocations[idx].1;
        let resp: SimulateWithdrawResponse = simulate_withdraw(
            &a,
            &self.config.default_unlock_schedule,
            now,
        );
        proof {
            lemma_vested_unlocked_bounds(a, self.config.default_unlock_schedule, now as int);
        }
        if resp.withdrawable_amount == 0 {
            return Err(ContractError::NothingToWithdraw);
        }
        self.allocations[idx].1 = AllocationInfo {
            total_amount: a.total_amount,
            withdrawn_amount: a.withdrawn_amount + resp.withdrawable_amount,
            vest_schedule: a.vest_schedule,
            unlock_schedule: a.unlock_schedule,
            canceled: a.canceled,
        };
        proof {
            lemma_sum_totals_update(
                old(self).allocations@,
                idx as int,
                self.allocations@[idx as int],
            );
        }
        Ok(resp.withdrawable_amount)
    }

    /// Terminates an active allocation at time `now`: the record is frozen
    /// with its grant clipped to what was vested (but never below what was
    /// already withdrawn), and the clipped-off remainder is returned so
    /// the host can refund it. Withdrawals of the kept, still-unlocking
    /// part remain possible afterwards. On any failure the ledger is
    /// unchanged.
    pub fn terminate(&mut self, account: &String, now: u64) -> (r: Result<u128, ContractError>)
        requires
            old(self).wf(),
        ensures
            final(self).wf(),
            terminate_post(*old(self), *final(self), account@, now as int, r),
    {
        let idx: usize = match find_account(&self.allocations, account) {
            Some(i) => i,
            None => {
                return Err(ContractError::AllocationNotFound);
            },
        };
        proof {
            lemma_index_of_account_unique(self.allocations@, account@, idx as int);
        }
        let a: AllocationInfo = self.allocations[idx].1;
        if a.canceled {
            return Err(ContractError::AllocationCanceled);
        }
        let vested: u128 = compute_released_amount(&a.vest_schedule, a.total_amount, now);
        let keep: u128 = if vested >= a.withdrawn_amount {
            vested
        } else {
            a.withdrawn_amount
        };
        let refund: u128 = a.total_amount - keep;
        self.allocations[idx].1 = AllocationInfo {
            total_amount: keep,
            withdrawn_amount: a.withdrawn_amount,
            vest_schedule: a.vest_schedule,
            unlock_schedule: a.unlock_schedule,
            canceled: true,
        };
        proof {
            lemma_sum_totals_update(
                old(self).allocations@,
                idx as int,
                self.allocations@[idx as int],
            );
        }
        Ok(refund)
    }

    /// Hands the owner role to another account. Authorization is enforced
    /// by the execute dispatcher.
    pub fn transfer_ownership(&mut self, new_owner: String)
        requires
            old(self).wf(),
        ensures
            final(self).wf(),
            final(self).config.owner == new_owner,
            final(self).config.gov == old(self).config.gov,
            final(self).config.refund_recipient == old(self).config.refund_recipient,
            final(self).config.whale_token == old(self).config.whale_token,
            final(self).config.default_unlock_schedule == old(self).config.default_unlock_schedule,
            final(self).state == old(self).state,
            final(self).allocations@ == old(self).allocations@,
    {
        self.config.owner = new_owner;
    }

    /// Applies one command: checks the caller's authority, dispatches on
    /// the variant, and returns the token transfer the host must carry
    /// out, if any. The token-send callback must come from the vested
    /// token's own contract on behalf of the owner; terminate and
    /// transfer-ownership are owner-only; withdraw acts on the caller's
    /// own record. On any error the ledger is unchanged.
    pub fn execute(&mut self, caller: &String, now: u64, msg: &ExecuteMsg) -> (r: Result<
        Option<TransferMsg>,
        ContractError,
    >)
        requires
            old(self).wf(),
            *msg matches ExecuteMsg::Receive { amount, .. } ==> old(
                self,
            ).state.total_whale_deposited + amount <= u128::MAX,
        ensures
            final(self).wf(),
            match *msg {
                ExecuteMsg::TransferOwnership { new_owner } => match r {
                    Ok(opt) => {
                        &&& caller@ == old(self).config.owner@
                        &&& opt is None
                        &&& final(self).config.owner == new_owner
                        &&& final(self).config.gov == old(self).config.gov
                        &&& final(self).config.refund_recipient == old(
                            self,
                        ).config.refund_recipient
                        &&& final(self).config.whale_token == old(self).config.whale_token
                        &&& final(self).config.default_unlock_schedule == old(
                            self,
                        ).config.default_unlock_schedule
                        &&& final(self).state == old(self).state
                        &&& final(self).allocations@ == old(self).allocations@
                    },
                    Err(e) => {
                        &&& ledger_unchanged(*old(self), *final(self))
                        &&& caller@ != old(self).config.owner@
                        &&& e == ContractError::Unauthorized
                    },
                },
                ExecuteMsg::Receive { sender, amount, msg: inner } => {
                    if caller@ != old(self).config.whale_token@ || sender@ != old(
                        self,
                    ).config.owner@ {
                        &&& r matches Err(e) && e == ContractError::Unauthorized
                        &&& ledger_unchanged(*old(self), *final(self))
                    } else {
                        match inner {
                            ReceiveMsg::CreateAllocations { allocations } => {
                                &&& create_post(
                                    *old(self),
                                    *final(self),
                                    amount as int,
                                    allocations@,
                                    (match r {
                                        Ok(_) => Ok(()),
                                        Err(e) => Err(e),
                                    }),
                                )
                                &&& (r matches Ok(opt) ==> opt is None)
                            },
                            ReceiveMsg::IncreaseAllocation { allocation } => {
                                &&& increase_post(
                                    *old(self),
                                    *final(self),
                                    amount as int,
                                    allocation.0@,
                                    allocation.1 as int,
                                    (match r {
                                        Ok(_) => Ok(()),
                                        Err(e) => Err(e),
                                    }),
                                )
                                &&& (r matches Ok(opt) ==> opt is None)
                            },
                        }
                    }
                },
                ExecuteMsg::Withdraw {  } => match r {
                    Ok(opt) => opt matches Some(t) && t.recipient@ == caller@ && withdraw_post(
                        *old(self),
                        *final(self),
                        caller@,
                        now as int,
                        Ok(t.amount),
                    ),
                    Err(e) => withdraw_post(*old(self), *final(self), caller@, now as int, Err(e)),
                },
                ExecuteMsg::Terminate { user_address } => {
                    if caller@ != old(self).config.owner@ {
                        &&& r matches Err(e) && e == ContractError::Unauthorized
                        &&& ledger_unchanged(*old(self), *final(self))
                    } else {
                        match r {
                            Ok(opt) => {
                                let a = allocation_of(old(self).allocations@, user_address@);
                                let refund = a.total_amount - terminated_total(a, now as int);
                                &&& terminate_post(
                                    *old(self),
                                    *final(self),
                                    user_address@,
                                    now as int,
                                    Ok(refund as u128),
                                )
                                &&& if refund > 0 {
                                    opt matches Some(t) && t.recipient@ == old(
                                        self,
                                    ).config.refund_recipient@ && t.amount == refund
                                } else {
                                    opt is None
                                }
                            },
                            Err(e) => terminate_post(
                                *old(self),
                                *final(self),
                                user_address@,
                                now as int,
                                Err(e),
                            ),
                        }
                    }
                },
            },
    {
        match msg {
            ExecuteMsg::TransferOwnership { new_owner } => {
                if !caller.eq(&self.config.owner) {
                    return Err(ContractError::Unauthorized);
                }
                self.transfer_ownership(new_owner.clone());
                Ok(None)
            },
            ExecuteMsg::Receive { sender, amount, msg: inner } => {
                if !caller.eq(&self.config.whale_token) || !sender.eq(&self.config.owner) {
                    return Err(ContractError::Unauthorized);
                }
                match inner {
                    ReceiveMsg::CreateAllocations { allocations } => {
                        match self.create_allocations(*amount, allocations) {
                            Ok(_) => Ok(None),
                            Err(e) => Err(e),
                        }
                    },
                    ReceiveMsg::IncreaseAllocation { allocation } => {
                        match self.increase_allocation(*amount, &allocation.0, allocation.1) {
                            Ok(_) => Ok(None),
                            Err(e) => Err(e),
                        }
                    },
                }
            },
            ExecuteMsg::Withdraw {  } => {
                match self.withdraw(caller, now) {
                    Ok(amount) => Ok(
                        Some(TransferMsg { recipient: caller.clone(), amount }),
                    ),
                    Err(e) => Err(e),
                }
            },
            ExecuteMsg::Terminate { user_address } => {
                if !caller.eq(&self.config.owner) {
                    return Err(ContractError::Unauthorized);
                }
                match self.terminate(user_address, now) {
                    Ok(refund) => {
                        if refund > 0 {
                            Ok(
                                Some(
                                    TransferMsg {
                                        recipient: self.config.refund_recipient.clone(),
                                        amount: refund,
                                    },
                                ),
                            )
                        } else {
                            Ok(None)
                        }
                    },
                    Err(e) => Err(e),
                }
            },
        }
    }

    /// Returns the ledger's configuration.
    pub fn query_config(&self) -> (r: ConfigResponse)
        ensures
            r == self.config,
    {
        InstantiateMsg {
            gov: self.config.gov.clone(),
            owner: self.config.owner.clone(),
            refund_recipient: self.config.refund_recipient.clone(),
            whale_token: self.config.whale_token.clone(),
            default_unlock_schedule: self.config.default_unlock_schedule,
        }
    }

    /// Returns the aggregate token counters.
    pub fn query_state(&self) -> (r: StateResponse)
        ensures
            r == self.state,
    {
        self.state
    }

    /// Returns the allocation record of one account.
    pub fn query_allocation(&self, account: &String) -> (r: Result<AllocationResponse, ContractError>)
        requires
            self.wf(),
        ensures
            match r {
                Ok(a) => has_account(self.allocations@, account@) && a == allocation_of(
                    self.allocations@,
                    account@,
                ),
                Err(e) => !has_account(self.allocations@, account@) && e
                    == ContractError::AllocationNotFound,
            },
    {
        match find_account(&self.allocations, account) {
            Some(i) => {
                proof {
                    lemma_index_of_account_unique(self.allocations@, account@, i as int);
                }
                Ok(self.allocations[i].1)
            },
            None => Err(ContractError::AllocationNotFound),
        }
    }

    /// Previews a withdrawal for one account: the breakdown is computed at
    /// the given timestamp if one is named, at the current time otherwise.
    /// A pure query: the ledger is untouched, and two calls with the same
    /// inputs answer the same.
    pub fn query_simulate_withdraw(
        &self,
        account: &String,
        timestamp: Option<u64>,
        now: u64,
    ) -> (r: Result<SimulateWithdrawResponse, ContractError>)
        requires
            self.wf(),
        ensures
            match r {
                Ok(resp) => has_account(self.allocations@, account@) && resp == simulate_response(
                    allocation_of(self.allocations@, account@),
                    self.config.default_unlock_schedule,
                    (match timestamp {
                        Some(t) => t,
                        None => now,
                    }) as int,
                ),
                Err(e) => !has_account(self.allocations@, account@) && e
                    == ContractError::AllocationNotFound,
            },
    {
        let t: u64 = match timestamp {
            Some(t) => t,
            None => now,
        };
        match find_account(&self.allocations, account) {
            Some(i) => {
                proof {
                    lemma_index_of_account_unique(self.allocations@, account@, i as int);
                }
                Ok(simulate_withdraw(
                    &self.allocations[i].1,
                    &self.config.default_unlock_schedule,
                    t,
                ))
            },
            None => Err(ContractError::AllocationNotFound),
        }
    }

    /// Answers a read-only query at the current time by dispatching on its
    /// variant.
    pub fn query(&self, msg: &QueryMsg, now: u64) -> (r: Result<QueryAnswer, ContractError>)
        requires
            self.wf(),
        ensures
            match *msg {
                QueryMsg::Config {  } => r matches Ok(a) && a matches QueryAnswer::Config(c) && c
                    == self.config,
                QueryMsg::State {  } => r matches Ok(a) && a matches QueryAnswer::State(s) && s
                    == self.state,
                QueryMsg::Allocation { ref account } => match r {
                    Ok(a) => has_account(self.allocations@, account@) && (a
                        matches QueryAnswer::Allocation(info) && info == allocation_of(
                        self.allocations@,
                        account@,
                    )),
                    Err(e) => !has_account(self.allocations@, account@) && e
                        == ContractError::AllocationNotFound,
                },
                QueryMsg::SimulateWithdraw { ref account, timestamp } => match r {
                    Ok(a) => has_account(self.allocations@, account@) && (a
                        matches QueryAnswer::SimulateWithdraw(resp) && resp == simulate_response(
                        allocation_of(self.allocations@, account@),
                        self.config.default_unlock_schedule,
                        (match timestamp {
                            Some(t) => t,
                            None => now,
                        }) as int,
                    )),
                    Err(e) => !has_account(self.allocations@, account@) && e
                        == ContractError::AllocationNotFound,
                },
            },
    {
        match msg {
            QueryMsg::Config {  } => Ok(QueryAnswer::Config(self.query_config())),
            QueryMsg::State {  } => Ok(QueryAnswer::State(self.query_state())),
            QueryMsg::Allocation { account } => match self.query_allocation(account) {
                Ok(a) => Ok(QueryAnswer::Allocation(a)),
                Err(e) => Err(e),
            },
            QueryMsg::SimulateWithdraw { account, timestamp } => match self.query_simulate_withdraw(
                account,
                *timestamp,
                now,
            ) {
                Ok(resp) => Ok(QueryAnswer::SimulateWithdraw(resp)),
                Err(e) => Err(e),
            },
        }
    }
}

/// Finds the position of an account's record by scanning the list.
fn find_account(allocations: &Vec<(String, AllocationInfo)>, account: &String) -> (r: Option<usize>)
    ensures
        match r {
            Some(i) => 0 <= i < allocations@.len() && allocations@[i as int].0@ == account@,
            None => !has_account(allocations@, account@),
        },
{
    let mut i: usize = 0;
    while i < allocations.len()
        invariant
            i <= allocations@.len(),
            forall|j: int| 0 <= j < i ==> allocations@[j].0@ != account@,
        decreases allocations@.len() - i,
    {
        if account.eq(&allocations[i].0) {
            return Some(i);
        }
        i = i + 1;
    }
    None
}

} // verus!

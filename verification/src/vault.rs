//! The vault store and lifecycle: each vault pairs locked collateral with
//! minted debt.  Debt is stored beside a snapshot of the global interest
//! coefficient and re-accrued, rounded up, before every read or change, so
//! compounding never loses value and no operation walks more than one
//! vault.  Under-collateralized vaults can be bought: the buyer pays the
//! shortfall plus one unit and takes the vault over.
//!
//! Vault ownership lives in the host's non-fungible registry: operations
//! take the registered owner as a plain value and the host moves tokens
//! and ownership by the amounts returned.

use std::collections::HashMap;
use vstd::prelude::*;
use crate::interest::InterestIndex;
use crate::{lemma_amount_product_fits, TransferAck, AMOUNT_LIMIT, E12};

verus! {

/// The errors of the vault store.
#[derive(Clone, Copy, Debug, PartialEq, Eq, Structural)]
pub enum VaultError {
    /// The ownership registry knows no owner for the vault.
    OwnerUnexists,
    /// The caller does not own the vault.
    VaultOwnership,
    /// The vault still carries debt.
    HasDebt,
    /// The vault still holds collateral.
    NotEmpty,
    /// Less collateral is locked than the withdrawal asks for.
    InsufficientCollateral,
    /// The operation would leave the vault under-collateralized.
    CollateralBelowMinimum,
    /// The vault is healthy, so it cannot be bought.
    CollateralAboveMinimum,
    /// The price feed gave no answer.
    FeedUnavailable,
    /// The minimum collateral coefficient is zero; the debt ceiling is
    /// undefined rather than computed by a division by zero.
    ZeroCoefficient,
    /// The caller is not the registered controller.
    VaultController,
    /// The buyer's acknowledgement callback explicitly rejected the vault.
    TransferRejected,
    /// The acknowledgement callback could not be made at all.
    SafeTransferCheckFailed,
}

/// One vault: its locked collateral, its stored debt, and the interest
/// coefficient the debt was last accrued at.
#[derive(Clone, Copy, Debug, PartialEq, Eq, Structural)]
pub struct VaultRecord {
    pub collateral: u128,
    pub debt: u128,
    pub last_coefficient_e12: u128,
}

impl VaultRecord {
    /// A vault nothing was written to: empty, snapshotted at 1.0.
    pub open spec fn absent() -> VaultRecord {
        VaultRecord { collateral: 0, debt: 0, last_coefficient_e12: E12 }
    }

    /// Bounds under which every accrual product fits in `u128`.
    pub open spec fn ok(self) -> bool {
        &&& self.collateral <= AMOUNT_LIMIT
        &&& self.debt <= AMOUNT_LIMIT
        &&& 1 <= self.last_coefficient_e12 <= AMOUNT_LIMIT
    }
}

/// The debt a record stands for at the given coefficient: the stored debt
/// scaled from its snapshot, rounded up so compounding never loses value.
pub open spec fn accrued_debt(v: VaultRecord, index_e12: u128) -> int {
    (v.debt * index_e12 + (v.last_coefficient_e12 - 1)) / (v.last_coefficient_e12 as int)
}

/// The mathematical state of the vault store.
#[verifier::ext_equal]
pub struct VaultModel {
    pub index: InterestIndex,
    pub vaults: Map<u128, VaultRecord>,
    pub next_id: u128,
    /// Sum of the stored debts, kept in step with every accrual.
    pub total_debt: u128,
    pub minimum_collateral_coefficient_e6: u128,
    pub maximum_minimum_collateral_coefficient_e6: u128,
    pub interest_rate_step_value_e12: i128,
    pub collateral_step_value_e6: u128,
    pub controller: u64,
    /// Collateral tokens in the system's custody.
    pub collateral_amount: u128,
    /// Debt tokens minted through borrowing and not yet burned back.
    pub emited_amount: u128,
    /// Interest collected from debtors beyond what was lent out; at most
    /// one of the two counters is nonzero.
    pub interest_income: u128,
    /// Interest forgiven to debtors under a deflationary regime.
    pub interest_debt: u128,
}

impl VaultModel {
    pub open spec fn vault(self, id: u128) -> VaultRecord {
        if self.vaults.contains_key(id) {
            self.vaults[id]
        } else {
            VaultRecord::absent()
        }
    }

    /// The model after the coefficient accrued to time `now`.
    pub open spec fn accrued(self, now: u64) -> VaultModel {
        VaultModel { index: self.index.accrued_state(now), ..self }
    }

    /// The vault's debt once accrued at the current coefficient.
    pub open spec fn debt_of(self, id: u128) -> int {
        accrued_debt(self.vault(id), self.index.index_e12)
    }

    /// The vault's debt once time `now` is accounted for.
    pub open spec fn debt_at(self, id: u128, now: u64) -> int {
        accrued_debt(self.vault(id), self.index.accrued_index(now) as u128)
    }

    /// The value of an amount of collateral at the fed price, in `E6`
    /// units.
    pub open spec fn collateral_value_e6(collateral: u128, price_e6: u128) -> int {
        collateral * price_e6
    }

    /// The most debt the vault's collateral supports at the fed price:
    /// its value over the minimum collateral coefficient.
    pub open spec fn debt_ceiling_of(self, id: u128, price_e6: u128) -> int {
        Self::collateral_value_e6(self.vault(id).collateral, price_e6) / (
        self.minimum_collateral_coefficient_e6 as int)
    }

    /// The collected-interest counters after recording a grown debt.
    pub open spec fn interests_recorded(self, delta: int) -> (u128, u128) {
        if delta >= 0 {
            if self.interest_debt >= delta {
                (self.interest_income, (self.interest_debt - delta) as u128)
            } else {
                ((self.interest_income + delta - self.interest_debt) as u128, 0)
            }
        } else {
            if self.interest_income >= -delta {
                ((self.interest_income + delta) as u128, self.interest_debt)
            } else {
                (0, (self.interest_debt - delta - self.interest_income) as u128)
            }
        }
    }

    /// The model after one vault's debt re-accrued at the current
    /// coefficient: the stored debt becomes the rounded-up accrued debt,
    /// the snapshot moves to the current coefficient, the total follows,
    /// and the growth (or shrinkage) is recorded in the collected-interest
    /// counters.
    pub open spec fn debt_updated(self, id: u128) -> VaultModel {
        let v = self.vault(id);
        let nd = accrued_debt(v, self.index.index_e12);
        let pair = self.interests_recorded(nd - v.debt);
        VaultModel {
            vaults: self.vaults.insert(
                id,
                VaultRecord {
                    debt: nd as u128,
                    last_coefficient_e12: self.index.index_e12,
                    ..v
                },
            ),
            total_debt: (self.total_debt + nd - v.debt) as u128,
            interest_income: pair.0,
            interest_debt: pair.1,
            ..self
        }
    }

    /// Machine bounds on re-accruing one vault's debt.
    pub open spec fn update_fits(self, id: u128) -> bool {
        let v = self.vault(id);
        let nd = accrued_debt(v, self.index.index_e12);
        &&& nd <= AMOUNT_LIMIT
        &&& 0 <= self.total_debt + nd - v.debt <= AMOUNT_LIMIT
        &&& self.interest_income + (nd - v.debt) <= AMOUNT_LIMIT
        &&& self.interest_debt + (v.debt - nd) <= AMOUNT_LIMIT
    }

    /// Bounds under which every operation's arithmetic stays in range.
    pub open spec fn wf(self) -> bool {
        &&& self.index.wf()
        &&& self.total_debt <= AMOUNT_LIMIT
        &&& self.collateral_amount <= AMOUNT_LIMIT
        &&& self.emited_amount <= AMOUNT_LIMIT
        &&& self.interest_income <= AMOUNT_LIMIT
        &&& self.interest_debt <= AMOUNT_LIMIT
        &&& self.interest_income == 0 || self.interest_debt == 0
        &&& self.minimum_collateral_coefficient_e6 <= AMOUNT_LIMIT
        &&& self.maximum_minimum_collateral_coefficient_e6 <= AMOUNT_LIMIT
        &&& -(AMOUNT_LIMIT as int) <= self.interest_rate_step_value_e12 <= AMOUNT_LIMIT
        &&& self.collateral_step_value_e6 <= AMOUNT_LIMIT
        &&& forall|id: u128| #[trigger] self.vaults.contains_key(id) ==> self.vaults[id].ok()
    }
}

/// The vault store itself.
pub struct VaultSystem {
    pub index: InterestIndex,
    pub vaults: HashMap<u128, VaultRecord>,
    pub next_id: u128,
    pub total_debt: u128,
    pub minimum_collateral_coefficient_e6: u128,
    pub maximum_minimum_collateral_coefficient_e6: u128,
    pub interest_rate_step_value_e12: i128,
    pub collateral_step_value_e6: u128,
    pub controller: u64,
    pub collateral_amount: u128,
    pub emited_amount: u128,
    pub interest_income: u128,
    pub interest_debt: u128,
}

impl View for VaultSystem {
    type V = VaultModel;

    open spec fn view(&self) -> VaultModel {
        VaultModel {
            index: self.index,
            vaults: self.vaults@,
            next_id: self.next_id,
            total_debt: self.total_debt,
            minimum_collateral_coefficient_e6: self.minimum_collateral_coefficient_e6,
            maximum_minimum_collateral_coefficient_e6:
                self.maximum_minimum_collateral_coefficient_e6,
            interest_rate_step_value_e12: self.interest_rate_step_value_e12,
            collateral_step_value_e6: self.collateral_step_value_e6,
            controller: self.controller,
            collateral_amount: self.collateral_amount,
            emited_amount: self.emited_amount,
            interest_income: self.interest_income,
            interest_debt: self.interest_debt,
        }
    }
}

impl VaultSystem {
    pub open spec fn wf(self) -> bool {
        self@.wf()
    }

    /// A fresh vault store: no vaults, coefficient at 1.0, the collateral
    /// requirement at its widest.
    pub fn new(
        now: u64,
        rate_e12: i128,
        interest_rate_step_value_e12: i128,
        maximum_minimum_collateral_coefficient_e6: u128,
        collateral_step_value_e6: u128,
        controller: u64,
    ) -> (r: VaultSystem)
        requires
            -(AMOUNT_LIMIT as int) <= interest_rate_step_value_e12 <= AMOUNT_LIMIT,
            maximum_minimum_collateral_coefficient_e6 <= AMOUNT_LIMIT,
            collateral_step_value_e6 <= AMOUNT_LIMIT,
        ensures
            r.wf(),
            r@.index.index_e12 == E12,
            r@.index.last_timestamp == now,
            r@.index.rate_e12 == rate_e12,
            r@.vaults == Map::<u128, VaultRecord>::empty(),
            r@.next_id == 0,
            r@.total_debt == 0,
            r@.minimum_collateral_coefficient_e6 == maximum_minimum_collateral_coefficient_e6,
            r@.maximum_minimum_collateral_coefficient_e6
                == maximum_minimum_collateral_coefficient_e6,
            r@.interest_rate_step_value_e12 == interest_rate_step_value_e12,
            r@.collateral_step_value_e6 == collateral_step_value_e6,
            r@.controller == controller,
            r@.collateral_amount == 0,
            r@.emited_amount == 0,
            r@.interest_income == 0,
            r@.interest_debt == 0,
    {
        VaultSystem {
            index: InterestIndex::new(now, rate_e12),
            vaults: HashMap::new(),
            next_id: 0,
            total_debt: 0,
            minimum_collateral_coefficient_e6: maximum_minimum_collateral_coefficient_e6,
            maximum_minimum_collateral_coefficient_e6,
            interest_rate_step_value_e12,
            collateral_step_value_e6,
            controller,
            collateral_amount: 0,
            emited_amount: 0,
            interest_income: 0,
            interest_debt: 0,
        }
    }

    /// The stored vault record, or the untouched default.
    fn get_vault(&self, vault_id: u128) -> (r: VaultRecord)
        ensures
            r == self@.vault(vault_id),
    {
        match self.vaults.get(&vault_id) {
            Some(v) => *v,
            None => VaultRecord { collateral: 0, debt: 0, last_coefficient_e12: E12 },
        }
    }

    /// Vault records stay within bounds across a step that leaves the
    /// table untouched.
    proof fn lemma_same_vaults_keep_ok(&self, pre: VaultModel)
        requires
            pre.wf(),
            self@.vaults == pre.vaults,
        ensures
            forall|id: u128| #[trigger] self@.vaults.contains_key(id) ==> self@.vaults[id].ok(),
    {
        assert forall|id: u128| #[trigger] self@.vaults.contains_key(id) implies self@.vaults[id].ok() by {
            assert(pre.vaults.contains_key(id));
        }
    }

    /// Open a new vault: the next sequential identifier, never reused,
    /// with nothing in it and the snapshot at the current coefficient.
    /// The host registers the caller as its owner.
    pub fn create_vault(&mut self) -> (r: u128)
        requires
            old(self).wf(),
            old(self)@.next_id < u128::MAX,
        ensures
            final(self).wf(),
            r == old(self)@.next_id,
            final(self)@ == (VaultModel {
                vaults: old(self)@.vaults.insert(
                    r,
                    VaultRecord {
                        collateral: 0,
                        debt: 0,
                        last_coefficient_e12: old(self)@.index.index_e12,
                    },
                ),
                next_id: (old(self)@.next_id + 1) as u128,
                ..old(self)@
            }),
    {
        let id = self.next_id;
        self.vaults.insert(
            id,
            VaultRecord { collateral: 0, debt: 0, last_coefficient_e12: self.index.index_e12 },
        );
        self.next_id = self.next_id + 1;
        id
    }

    /// Close an empty vault: only its owner may, and only once neither
    /// debt nor collateral remains.  The host burns the ownership token.
    pub fn destroy_vault(&mut self, vault_id: u128, caller: u64, registered_owner: Option<u64>)
        -> (r: Result<(), VaultError>)
        requires
            old(self).wf(),
        ensures
            final(self).wf(),
            r == Err::<(), VaultError>(VaultError::OwnerUnexists) <==> registered_owner is None,
            r == Err::<(), VaultError>(VaultError::VaultOwnership) <==> (registered_owner matches
            Some(o) && o != caller),
            r == Err::<(), VaultError>(VaultError::HasDebt) <==> registered_owner == Some(caller)
                && old(self)@.vault(vault_id).debt != 0,
            r == Err::<(), VaultError>(VaultError::NotEmpty) <==> registered_owner == Some(caller)
                && old(self)@.vault(vault_id).debt == 0 && old(self)@.vault(vault_id).collateral
                != 0,
            r is Err ==> *final(self) == *old(self),
            r is Ok <==> registered_owner == Some(caller) && old(self)@.vault(vault_id).debt == 0
                && old(self)@.vault(vault_id).collateral == 0,
            r is Ok ==> final(self)@ == (VaultModel {
                vaults: old(self)@.vaults.remove(vault_id),
                ..old(self)@
            }),
    {
        let owner = match registered_owner {
            None => {
                return Err(VaultError::OwnerUnexists);
            },
            Some(o) => o,
        };
        if owner != caller {
            return Err(VaultError::VaultOwnership);
        }
        let v = self.get_vault(vault_id);
        if v.debt != 0 {
            return Err(VaultError::HasDebt);
        }
        if v.collateral != 0 {
            return Err(VaultError::NotEmpty);
        }
        self.vaults.remove(&vault_id);
        proof {
            self.lemma_same_vaults_keep_ok_after_remove(old(self)@, vault_id);
        }
        Ok(())
    }

    /// Vault records stay within bounds when one is removed.
    proof fn lemma_same_vaults_keep_ok_after_remove(&self, pre: VaultModel, removed: u128)
        requires
            pre.wf(),
            self@.vaults == pre.vaults.remove(removed),
        ensures
            forall|id: u128| #[trigger] self@.vaults.contains_key(id) ==> self@.vaults[id].ok(),
    {
        assert forall|id: u128| #[trigger] self@.vaults.contains_key(id) implies self@.vaults[id].ok() by {
            assert(pre.vaults.contains_key(id));
        }
    }

    pub fn get_total_debt(&self) -> (r: u128)
        ensures
            r == self@.total_debt,
    {
        self.total_debt
    }

    pub fn get_next_id(&self) -> (r: u128)
        ensures
            r == self@.next_id,
    {
        self.next_id
    }

    pub fn get_controller_address(&self) -> (r: u64)
        ensures
            r == self@.controller,
    {
        self.controller
    }

    /// Point the store at another controller.
    pub fn set_controller_address(&mut self, controller_address: u64) -> (r: Result<
        (),
        VaultError,
    >)
        requires
            old(self).wf(),
        ensures
            final(self).wf(),
            r == Ok::<(), VaultError>(()),
            final(self)@ == (VaultModel { controller: controller_address, ..old(self)@ }),
    {
        self.controller = controller_address;
        proof {
            self.lemma_same_vaults_keep_ok(old(self)@);
        }
        Ok(())
    }

    /// Collateral tokens the store believes it holds in custody.
    pub fn collateral_amount(&self) -> (r: u128)
        ensures
            r == self@.collateral_amount,
    {
        self.collateral_amount
    }

    /// Debt tokens minted through borrowing and not yet burned back.
    pub fn emited_amount(&self) -> (r: u128)
        ensures
            r == self@.emited_amount,
    {
        self.emited_amount
    }

    /// Interest collected beyond what was lent, and interest forgiven,
    /// as a pair; at most one side is nonzero.
    pub fn collected_interests(&self) -> (r: (u128, u128))
        ensures
            r.0 == self@.interest_income,
            r.1 == self@.interest_debt,
    {
        (self.interest_income, self.interest_debt)
    }

    /// Record grown debt: it first repays interest the protocol owed,
    /// the rest is collected income.
    fn add_collected_interests(&mut self, amount: u128)
        requires
            old(self)@.interest_income <= AMOUNT_LIMIT,
            old(self)@.interest_debt <= AMOUNT_LIMIT,
            old(self)@.interest_income + amount - old(self)@.interest_debt <= AMOUNT_LIMIT,
        ensures
            final(self)@ == (VaultModel {
                interest_income: old(self)@.interests_recorded(amount as int).0,
                interest_debt: old(self)@.interests_recorded(amount as int).1,
                ..old(self)@
            }),
    {
        if self.interest_debt >= amount {
            self.interest_debt = self.interest_debt - amount;
        } else {
            self.interest_income = self.interest_income + (amount - self.interest_debt);
            self.interest_debt = 0;
        }
    }

    /// Record shrunk debt: it first consumes collected income, the rest
    /// is interest the protocol owes.
    fn sub_collected_interests(&mut self, amount: u128)
        requires
            old(self)@.interest_income <= AMOUNT_LIMIT,
            old(self)@.interest_debt <= AMOUNT_LIMIT,
            old(self)@.interest_debt + amount - old(self)@.interest_income <= AMOUNT_LIMIT,
        ensures
            final(self)@ == (VaultModel {
                interest_income: old(self)@.interests_recorded(-(amount as int)).0,
                interest_debt: old(self)@.interests_recorded(-(amount as int)).1,
                ..old(self)@
            }),
    {
        if self.interest_income >= amount {
            self.interest_income = self.interest_income - amount;
        } else {
            self.interest_debt = self.interest_debt + (amount - self.interest_income);
            self.interest_income = 0;
        }
    }

    /// Re-accrue one vault's debt at the already-accrued coefficient.
    fn update_vault_debt_at_index(&mut self, vault_id: u128) -> (r: u128)
        requires
            old(self).wf(),
            old(self)@.update_fits(vault_id),
        ensures
            final(self).wf(),
            final(self)@ == old(self)@.debt_updated(vault_id),
            r == accrued_debt(old(self)@.vault(vault_id), old(self)@.index.index_e12),
    {
        let v = self.get_vault(vault_id);
        let idx = self.index.index_e12;
        proof {
            if self.vaults@.contains_key(vault_id) {
                assert(self@.vaults[vault_id].ok());
            }
            lemma_amount_product_fits(v.debt as int, idx as int);
        }
        let nd: u128 = (v.debt * idx + (v.last_coefficient_e12 - 1)) / v.last_coefficient_e12;
        self.vaults.insert(vault_id, VaultRecord { debt: nd, last_coefficient_e12: idx, ..v });
        if nd >= v.debt {
            let delta = nd - v.debt;
            self.total_debt = self.total_debt + delta;
            self.add_collected_interests(delta);
        } else {
            let delta = v.debt - nd;
            self.total_debt = self.total_debt - delta;
            self.sub_collected_interests(delta);
        }
        nd
    }

    /// The single debt primitive: accrue the global coefficient to `now`,
    /// then re-accrue this vault's stored debt at it, rounding up, moving
    /// its snapshot, and recording the change in the collected-interest
    /// counters.  Every debt-reading or debt-changing operation goes
    /// through this first; run twice at the same instant, the second run
    /// changes nothing.
    pub fn update_vault_debt(&mut self, vault_id: u128, now: u64) -> (r: u128)
        requires
            old(self).wf(),
            old(self)@.index.accrue_fits(now),
            old(self)@.accrued(now).update_fits(vault_id),
        ensures
            final(self).wf(),
            final(self)@ == old(self)@.accrued(now).debt_updated(vault_id),
            r == old(self)@.debt_at(vault_id, now),
    {
        self.index.accrue(now);
        proof {
            self.lemma_same_vaults_keep_ok(old(self)@);
        }
        self.update_vault_debt_at_index(vault_id)
    }

    /// The most debt the vault's collateral supports at the fed price.
    /// Fails when the feed gave no price, and when the minimum collateral
    /// coefficient is zero, which would put a zero divisor under the
    /// collateral value.
    pub fn get_debt_ceiling(&self, vault_id: u128, price_e6: Option<u128>) -> (r: Result<
        u128,
        VaultError,
    >)
        requires
            self.wf(),
            price_e6 matches Some(p) ==> p <= AMOUNT_LIMIT,
        ensures
            price_e6 is None <==> r == Err::<u128, VaultError>(VaultError::FeedUnavailable),
            price_e6 is Some && self@.minimum_collateral_coefficient_e6 == 0 <==> r == Err::<
                u128,
                VaultError,
            >(VaultError::ZeroCoefficient),
            price_e6 matches Some(p) ==> (self@.minimum_collateral_coefficient_e6 > 0 ==> (
            r matches Ok(c) && c == self@.debt_ceiling_of(vault_id, p))),
    {
        let price = match price_e6 {
            None => {
                return Err(VaultError::FeedUnavailable);
            },
            Some(p) => p,
        };
        if self.minimum_collateral_coefficient_e6 == 0 {
            return Err(VaultError::ZeroCoefficient);
        }
        let v = self.get_vault(vault_id);
        proof {
            if self.vaults@.contains_key(vault_id) {
                assert(self@.vaults[vault_id].ok());
            }
            lemma_amount_product_fits(v.collateral as int, price as int);
        }
        Ok(v.collateral * price / self.minimum_collateral_coefficient_e6)
    }

    /// The vault's collateral and its debt with interest accounted up to
    /// `now`, without touching any state.
    pub fn get_vault_details(&self, vault_id: u128, now: u64) -> (r: (u128, u128))
        requires
            self.wf(),
            self@.index.accrue_fits(now),
        ensures
            r.0 == self@.vault(vault_id).collateral,
            r.1 == self@.debt_at(vault_id, now),
    {
        let idx = self.index.peek(now);
        let v = self.get_vault(vault_id);
        proof {
            if self.vaults@.contains_key(vault_id) {
                assert(self@.vaults[vault_id].ok());
            }
            lemma_amount_product_fits(v.debt as int, idx as int);
        }
        let nd: u128 = (v.debt * idx + (v.last_coefficient_e12 - 1)) / v.last_coefficient_e12;
        (v.collateral, nd)
    }

    /// Lock more collateral in the caller's vault.  The host has moved the
    /// tokens in; the vault and the custody total record them.
    pub fn deposit_collateral(
        &mut self,
        vault_id: u128,
        amount: u128,
        caller: u64,
        registered_owner: Option<u64>,
    ) -> (r: Result<(), VaultError>)
        requires
            old(self).wf(),
            registered_owner == Some(caller) ==> {
                &&& old(self)@.vault(vault_id).collateral + amount <= AMOUNT_LIMIT
                &&& old(self)@.collateral_amount + amount <= AMOUNT_LIMIT
            },
        ensures
            final(self).wf(),
            registered_owner != Some(caller) <==> r == Err::<(), VaultError>(
                VaultError::VaultOwnership,
            ),
            r is Ok <==> registered_owner == Some(caller),
            r is Err ==> *final(self) == *old(self),
            r is Ok ==> final(self)@ == (VaultModel {
                vaults: old(self)@.vaults.insert(
                    vault_id,
                    VaultRecord {
                        collateral: (old(self)@.vault(vault_id).collateral + amount) as u128,
                        ..old(self)@.vault(vault_id)
                    },
                ),
                collateral_amount: (old(self)@.collateral_amount + amount) as u128,
                ..old(self)@
            }),
    {
        let owned = match registered_owner {
            Some(o) => o == caller,
            None => false,
        };
        if !owned {
            return Err(VaultError::VaultOwnership);
        }
        let v = self.get_vault(vault_id);
        self.vaults.insert(vault_id, VaultRecord { collateral: v.collateral + amount, ..v });
        self.collateral_amount = self.collateral_amount + amount;
        Ok(())
    }

    /// Release collateral from the caller's vault: the debt is re-accrued
    /// first, and the withdrawal goes through only if what remains still
    /// over-collateralizes that fresh debt at the fed price.  On success
    /// the host pays the amount out; a failed withdrawal changes nothing.
    pub fn withdraw_collateral(
        &mut self,
        vault_id: u128,
        amount: u128,
        caller: u64,
        registered_owner: Option<u64>,
        now: u64,
        price_e6: Option<u128>,
    ) -> (r: Result<(), VaultError>)
        requires
            old(self).wf(),
            old(self)@.index.accrue_fits(now),
            price_e6 matches Some(p) ==> p <= AMOUNT_LIMIT,
            registered_owner == Some(caller) && amount <= old(self)@.vault(vault_id).collateral
                && price_e6 is Some ==> {
                &&& old(self)@.accrued(now).update_fits(vault_id)
                &&& amount <= old(self)@.collateral_amount
            },
        ensures
            final(self).wf(),
            registered_owner != Some(caller) <==> r == Err::<(), VaultError>(
                VaultError::VaultOwnership,
            ),
            r == Err::<(), VaultError>(VaultError::InsufficientCollateral) <==> registered_owner
                == Some(caller) && amount > old(self)@.vault(vault_id).collateral,
            r == Err::<(), VaultError>(VaultError::FeedUnavailable) <==> registered_owner == Some(
                caller,
            ) && amount <= old(self)@.vault(vault_id).collateral && price_e6 is None,
            r == Err::<(), VaultError>(VaultError::CollateralBelowMinimum) <==> (
            price_e6 matches Some(p) && registered_owner == Some(caller) && amount <= old(
                self,
            )@.vault(vault_id).collateral && old(self)@.debt_at(vault_id, now) * old(
                self,
            )@.minimum_collateral_coefficient_e6 >= (old(self)@.vault(vault_id).collateral - amount)
                * p),
            r is Err ==> *final(self) == *old(self),
            r is Ok <==> (price_e6 matches Some(p) && registered_owner == Some(caller) && amount
                <= old(self)@.vault(vault_id).collateral && old(self)@.debt_at(vault_id, now) * old(
                self,
            )@.minimum_collateral_coefficient_e6 < (old(self)@.vault(vault_id).collateral - amount)
                * p),
            r is Ok ==> final(self)@ == ({
                let m2 = old(self)@.accrued(now).debt_updated(vault_id);
                VaultModel {
                    vaults: m2.vaults.insert(
                        vault_id,
                        VaultRecord {
                            collateral: (old(self)@.vault(vault_id).collateral - amount) as u128,
                            ..m2.vault(vault_id)
                        },
                    ),
                    collateral_amount: (old(self)@.collateral_amount - amount) as u128,
                    ..m2
                }
            }),
            price_e6 matches Some(p) ==> (r is Ok ==> final(self)@.vault(vault_id).debt
                * final(self)@.minimum_collateral_coefficient_e6 < final(self)@.vault(
                vault_id,
            ).collateral * p),
    {
        let owned = match registered_owner {
            Some(o) => o == caller,
            None => false,
        };
        if !owned {
            return Err(VaultError::VaultOwnership);
        }
        let v = self.get_vault(vault_id);
        if amount > v.collateral {
            return Err(VaultError::InsufficientCollateral);
        }
        let price = match price_e6 {
            None => {
                return Err(VaultError::FeedUnavailable);
            },
            Some(p) => p,
        };
        let idx = self.index.peek(now);
        proof {
            if self.vaults@.contains_key(vault_id) {
                assert(self@.vaults[vault_id].ok());
            }
            lemma_amount_product_fits(v.debt as int, idx as int);
            lemma_amount_product_fits((v.collateral - amount) as int, price as int);
        }
        let nd: u128 = (v.debt * idx + (v.last_coefficient_e12 - 1)) / v.last_coefficient_e12;
        let remaining_value: u128 = (v.collateral - amount) * price;
        let covered = match nd.checked_mul(self.minimum_collateral_coefficient_e6) {
            Some(scaled_debt) => scaled_debt < remaining_value,
            None => false,
        };
        if !covered {
            return Err(VaultError::CollateralBelowMinimum);
        }
        self.update_vault_debt(vault_id, now);
        let v2 = self.get_vault(vault_id);
        self.vaults.insert(vault_id, VaultRecord { collateral: v.collateral - amount, ..v2 });
        self.collateral_amount = self.collateral_amount - amount;
        Ok(())
    }

    /// Mint new debt against the caller's vault.  The debt is re-accrued
    /// first; the fresh debt plus the borrowed amount must stay strictly
    /// under the vault's debt ceiling at the fed price.  On success the
    /// host mints the amount to the owner; a failed borrow changes
    /// nothing.
    pub fn borrow_token(
        &mut self,
        vault_id: u128,
        amount: u128,
        caller: u64,
        registered_owner: Option<u64>,
        now: u64,
        price_e6: Option<u128>,
    ) -> (r: Result<(), VaultError>)
        requires
            old(self).wf(),
            old(self)@.index.accrue_fits(now),
            price_e6 matches Some(p) ==> p <= AMOUNT_LIMIT,
            price_e6 matches Some(p) ==> (registered_owner == Some(caller) && old(
                self,
            )@.minimum_collateral_coefficient_e6 > 0 && old(self)@.debt_at(vault_id, now) + amount
                < old(self)@.debt_ceiling_of(vault_id, p) ==> {
                &&& old(self)@.accrued(now).update_fits(vault_id)
                &&& old(self)@.debt_at(vault_id, now) + amount <= AMOUNT_LIMIT
                &&& old(self)@.total_debt + old(self)@.debt_at(vault_id, now) - old(self)@.vault(
                    vault_id,
                ).debt + amount <= AMOUNT_LIMIT
                &&& old(self)@.emited_amount + amount <= AMOUNT_LIMIT
            }),
        ensures
            final(self).wf(),
            registered_owner != Some(caller) <==> r == Err::<(), VaultError>(
                VaultError::VaultOwnership,
            ),
            r == Err::<(), VaultError>(VaultError::FeedUnavailable) <==> registered_owner == Some(
                caller,
            ) && price_e6 is None,
            r == Err::<(), VaultError>(VaultError::ZeroCoefficient) <==> registered_owner == Some(
                caller,
            ) && price_e6 is Some && old(self)@.minimum_collateral_coefficient_e6 == 0,
            r == Err::<(), VaultError>(VaultError::CollateralBelowMinimum) <==> (
            price_e6 matches Some(p) && registered_owner == Some(caller) && old(
                self,
            )@.minimum_collateral_coefficient_e6 > 0 && old(self)@.debt_at(vault_id, now) + amount
                >= old(self)@.debt_ceiling_of(vault_id, p)),
            r is Err ==> *final(self) == *old(self),
            r is Ok <==> (price_e6 matches Some(p) && registered_owner == Some(caller) && old(
                self,
            )@.minimum_collateral_coefficient_e6 > 0 && old(self)@.debt_at(vault_id, now) + amount
                < old(self)@.debt_ceiling_of(vault_id, p)),
            r is Ok ==> final(self)@ == ({
                let m2 = old(self)@.accrued(now).debt_updated(vault_id);
                VaultModel {
                    vaults: m2.vaults.insert(
                        vault_id,
                        VaultRecord {
                            debt: (old(self)@.debt_at(vault_id, now) + amount) as u128,
                            ..m2.vault(vault_id)
                        },
                    ),
                    total_debt: (m2.total_debt + amount) as u128,
                    emited_amount: (old(self)@.emited_amount + amount) as u128,
                    ..m2
                }
            }),
            price_e6 matches Some(p) ==> (r is Ok ==> final(self)@.vault(vault_id).debt
                * final(self)@.minimum_collateral_coefficient_e6 < final(self)@.vault(
                vault_id,
            ).collateral * p),
    {
        let owned = match registered_owner {
            Some(o) => o == caller,
            None => false,
        };
        if !owned {
            return Err(VaultError::VaultOwnership);
        }
        let price = match price_e6 {
            None => {
                return Err(VaultError::FeedUnavailable);
            },
            Some(p) => p,
        };
        if self.minimum_collateral_coefficient_e6 == 0 {
            return Err(VaultError::ZeroCoefficient);
        }
        let idx = self.index.peek(now);
        let v = self.get_vault(vault_id);
        proof {
            if self.vaults@.contains_key(vault_id) {
                assert(self@.vaults[vault_id].ok());
            }
            lemma_amount_product_fits(v.debt as int, idx as int);
            lemma_amount_product_fits(v.collateral as int, price as int);
        }
        let nd: u128 = (v.debt * idx + (v.last_coefficient_e12 - 1)) / v.last_coefficient_e12;
        let ceiling: u128 = v.collateral * price / self.minimum_collateral_coefficient_e6;
        let under_ceiling = match nd.checked_add(amount) {
            Some(total) => total < ceiling,
            None => false,
        };
        if !under_ceiling {
            return Err(VaultError::CollateralBelowMinimum);
        }
        self.update_vault_debt(vault_id, now);
        let v2 = self.get_vault(vault_id);
        self.vaults.insert(vault_id, VaultRecord { debt: nd + amount, ..v2 });
        self.total_debt = self.total_debt + amount;
        self.emited_amount = self.emited_amount + amount;
        proof {
            lemma_below_ceiling(
                nd + amount,
                (v.collateral * price) as int,
                self.minimum_collateral_coefficient_e6 as int,
            );
        }
        Ok(())
    }

    /// Pay debt back into the caller's vault.  The debt is re-accrued
    /// first; an offer covering the whole debt burns exactly the debt and
    /// clears the vault, never more — the excess stays with the payer.
    /// Returns the amount the host must burn from the owner.
    pub fn pay_back_token(
        &mut self,
        vault_id: u128,
        amount: u128,
        caller: u64,
        registered_owner: Option<u64>,
        now: u64,
    ) -> (r: Result<u128, VaultError>)
        requires
            old(self).wf(),
            old(self)@.index.accrue_fits(now),
            registered_owner == Some(caller) ==> {
                let m = old(self)@.accrued(now);
                let nd = m.debt_of(vault_id);
                let burned = if amount >= nd {
                    nd
                } else {
                    amount as int
                };
                &&& m.update_fits(vault_id)
                &&& burned <= m.total_debt + nd - m.vault(vault_id).debt
                &&& burned <= m.emited_amount
            },
        ensures
            final(self).wf(),
            registered_owner != Some(caller) <==> r == Err::<u128, VaultError>(
                VaultError::VaultOwnership,
            ),
            r is Err ==> *final(self) == *old(self),
            registered_owner == Some(caller) ==> (r matches Ok(burned) && burned == (
            if amount >= old(self)@.debt_at(vault_id, now) {
                old(self)@.debt_at(vault_id, now)
            } else {
                amount as int
            })),
            r matches Ok(burned) ==> final(self)@ == ({
                let m2 = old(self)@.accrued(now).debt_updated(vault_id);
                VaultModel {
                    vaults: m2.vaults.insert(
                        vault_id,
                        VaultRecord {
                            debt: (old(self)@.debt_at(vault_id, now) - burned) as u128,
                            ..m2.vault(vault_id)
                        },
                    ),
                    total_debt: (m2.total_debt - burned) as u128,
                    emited_amount: (old(self)@.emited_amount - burned) as u128,
                    ..m2
                }
            }),
    {
        let owned = match registered_owner {
            Some(o) => o == caller,
            None => false,
        };
        if !owned {
            return Err(VaultError::VaultOwnership);
        }
        let nd = self.update_vault_debt(vault_id, now);
        let burned: u128 = if amount >= nd {
            nd
        } else {
            amount
        };
        let v2 = self.get_vault(vault_id);
        self.vaults.insert(vault_id, VaultRecord { debt: nd - burned, ..v2 });
        self.total_debt = self.total_debt - burned;
        self.emited_amount = self.emited_amount - burned;
        Ok(burned)
    }

    /// Buy an under-collateralized vault.  The buyer covers the shortfall
    /// between the accrued debt and the debt ceiling, plus one unit, and
    /// the vault's ownership moves to the buyer — the host burns the
    /// returned amount from the buyer and transfers the ownership token,
    /// with the buyer's acknowledgement already in hand.  A healthy vault
    /// cannot be bought; a vault whose collateral supports no debt at all
    /// is paid off entirely.
    pub fn buy_risky_vault(
        &mut self,
        vault_id: u128,
        now: u64,
        price_e6: Option<u128>,
        ack: TransferAck,
    ) -> (r: Result<u128, VaultError>)
        requires
            old(self).wf(),
            old(self)@.index.accrue_fits(now),
            price_e6 matches Some(p) ==> p <= AMOUNT_LIMIT,
            price_e6 matches Some(p) ==> (old(self)@.minimum_collateral_coefficient_e6 > 0 && old(
                self,
            )@.debt_ceiling_of(vault_id, p) < old(self)@.debt_at(vault_id, now)
                && ack.tolerated() ==> {
                let m = old(self)@.accrued(now);
                let nd = m.debt_of(vault_id);
                let ceiling = old(self)@.debt_ceiling_of(vault_id, p);
                let to_pay = nd - (if ceiling >= 1 {
                    ceiling - 1
                } else {
                    0
                });
                &&& m.update_fits(vault_id)
                &&& to_pay <= m.total_debt + nd - m.vault(vault_id).debt
                &&& to_pay <= m.emited_amount
            }),
        ensures
            final(self).wf(),
            price_e6 is None <==> r == Err::<u128, VaultError>(VaultError::FeedUnavailable),
            price_e6 is Some && old(self)@.minimum_collateral_coefficient_e6 == 0 <==> r == Err::<
                u128,
                VaultError,
            >(VaultError::ZeroCoefficient),
            r == Err::<u128, VaultError>(VaultError::CollateralAboveMinimum) <==> (
            price_e6 matches Some(p) && old(self)@.minimum_collateral_coefficient_e6 > 0 && old(
                self,
            )@.debt_ceiling_of(vault_id, p) >= old(self)@.debt_at(vault_id, now)),
            r == Err::<u128, VaultError>(VaultError::TransferRejected) <==> (price_e6 matches Some(
                p,
            ) && old(self)@.minimum_collateral_coefficient_e6 > 0 && old(self)@.debt_ceiling_of(
                vault_id,
                p,
            ) < old(self)@.debt_at(vault_id, now) && ack is Rejected),
            r == Err::<u128, VaultError>(VaultError::SafeTransferCheckFailed) <==> (
            price_e6 matches Some(p) && old(self)@.minimum_collateral_coefficient_e6 > 0 && old(
                self,
            )@.debt_ceiling_of(vault_id, p) < old(self)@.debt_at(vault_id, now)
                && ack is CallFailed),
            r is Err ==> *final(self) == *old(self),
            r is Ok <==> (price_e6 matches Some(p) && old(
                self,
            )@.minimum_collateral_coefficient_e6 > 0 && old(self)@.debt_ceiling_of(vault_id, p)
                < old(self)@.debt_at(vault_id, now) && ack.tolerated()),
            price_e6 matches Some(p) ==> (old(self)@.minimum_collateral_coefficient_e6 > 0
                && ack.tolerated() ==> (r is Ok <==> old(self)@.debt_ceiling_of(vault_id, p) < old(
                self,
            )@.debt_at(vault_id, now))),
            price_e6 matches Some(p) ==> (r matches Ok(paid) ==> {
                let nd = old(self)@.debt_at(vault_id, now);
                let ceiling = old(self)@.debt_ceiling_of(vault_id, p);
                let remaining = if ceiling >= 1 {
                    ceiling - 1
                } else {
                    0
                };
                &&& paid == nd - remaining
                &&& final(self)@ == ({
                    let m2 = old(self)@.accrued(now).debt_updated(vault_id);
                    VaultModel {
                        vaults: m2.vaults.insert(
                            vault_id,
                            VaultRecord { debt: remaining as u128, ..m2.vault(vault_id) },
                        ),
                        total_debt: (m2.total_debt - paid) as u128,
                        emited_amount: (old(self)@.emited_amount - paid) as u128,
                        ..m2
                    }
                })
            }),
    {
        let price = match price_e6 {
            None => {
                return Err(VaultError::FeedUnavailable);
            },
            Some(p) => p,
        };
        if self.minimum_collateral_coefficient_e6 == 0 {
            return Err(VaultError::ZeroCoefficient);
        }
        let idx = self.index.peek(now);
        let v = self.get_vault(vault_id);
        proof {
            if self.vaults@.contains_key(vault_id) {
                assert(self@.vaults[vault_id].ok());
            }
            lemma_amount_product_fits(v.debt as int, idx as int);
            lemma_amount_product_fits(v.collateral as int, price as int);
        }
        let nd: u128 = (v.debt * idx + (v.last_coefficient_e12 - 1)) / v.last_coefficient_e12;
        let ceiling: u128 = v.collateral * price / self.minimum_collateral_coefficient_e6;
        if ceiling >= nd {
            return Err(VaultError::CollateralAboveMinimum);
        }
        match crate::ledger::do_safe_transfer_check(ack) {
            Err(crate::ledger::TokenError::TransferRejected) => {
                return Err(VaultError::TransferRejected);
            },
            Err(_) => {
                return Err(VaultError::SafeTransferCheckFailed);
            },
            Ok(()) => {},
        }
        let remaining: u128 = if ceiling >= 1 {
            ceiling - 1
        } else {
            0
        };
        let minimum_to_pay: u128 = nd - remaining;
        self.update_vault_debt(vault_id, now);
        let v2 = self.get_vault(vault_id);
        self.vaults.insert(vault_id, VaultRecord { debt: remaining, ..v2 });
        self.total_debt = self.total_debt - minimum_to_pay;
        self.emited_amount = self.emited_amount - minimum_to_pay;
        Ok(minimum_to_pay)
    }

    /// The controller hands down new steps.  Interest up to `now` still
    /// compounds at the old rate; afterwards the rate is the step times
    /// the step value, and the minimum collateral coefficient its widest
    /// value narrowed by the collateral step.  Anyone but the registered
    /// controller is turned away.
    pub fn be_controlled(
        &mut self,
        caller: u64,
        current_interest_rate_step: i16,
        current_collateral_step: u16,
        now: u64,
    ) -> (r: Result<(), VaultError>)
        requires
            old(self).wf(),
            old(self)@.index.accrue_fits(now),
            caller == old(self)@.controller ==> current_collateral_step * old(
                self,
            )@.collateral_step_value_e6 <= old(self)@.maximum_minimum_collateral_coefficient_e6,
        ensures
            final(self).wf(),
            caller != old(self)@.controller <==> r == Err::<(), VaultError>(
                VaultError::VaultController,
            ),
            r is Ok <==> caller == old(self)@.controller,
            r is Err ==> *final(self) == *old(self),
            r is Ok ==> final(self)@ == (VaultModel {
                index: (InterestIndex {
                    rate_e12: (current_interest_rate_step * old(
                        self,
                    )@.interest_rate_step_value_e12) as i128,
                    ..old(self)@.index.accrued_state(now)
                }),
                minimum_collateral_coefficient_e6: (old(
                    self,
                )@.maximum_minimum_collateral_coefficient_e6 - current_collateral_step * old(
                    self,
                )@.collateral_step_value_e6) as u128,
                ..old(self)@
            }),
    {
        if caller != self.controller {
            return Err(VaultError::VaultController);
        }
        self.index.accrue(now);
        proof {
            self.lemma_same_vaults_keep_ok(old(self)@);
            lemma_amount_product_fits(current_collateral_step as int, self.collateral_step_value_e6 as int);
            lemma_i16_step_product_fits(current_interest_rate_step, self.interest_rate_step_value_e12);
        }
        self.index.rate_e12 = (current_interest_rate_step as i128)
            * self.interest_rate_step_value_e12;
        self.minimum_collateral_coefficient_e6 = self.maximum_minimum_collateral_coefficient_e6
            - (current_collateral_step as u128) * self.collateral_step_value_e6;
        Ok(())
    }
}

/// Re-accruing a vault's debt is idempotent within one tick: once the
/// stored debt sits at the current coefficient, running the debt primitive
/// again moves neither the debt, nor the total, nor the collected-interest
/// counters.
pub proof fn lemma_debt_update_idempotent(m: VaultModel, id: u128)
    requires
        m.wf(),
        m.update_fits(id),
    ensures
        m.debt_updated(id).debt_updated(id) == m.debt_updated(id),
{
    let idx = m.index.index_e12;
    let v = m.vault(id);
    let nd = accrued_debt(v, idx);
    let m1 = m.debt_updated(id);
    let v1 = m1.vault(id);
    assert((v1.debt * idx + (idx - 1)) / (idx as int) == v1.debt) by {
        vstd::arithmetic::div_mod::lemma_div_multiples_vanish_fancy(
            v1.debt as int,
            (idx - 1) as int,
            idx as int,
        );
        assert((idx as int) * (v1.debt as int) == (v1.debt as int) * (idx as int));
    }
    assert(m1.debt_updated(id).vaults =~= m1.vaults);
    assert(m1.debt_updated(id) == m1);
}

/// A value strictly below a floored quotient, scaled back up by the
/// divisor, stays strictly below the dividend: what keeps a borrow under
/// its ceiling solvent.
proof fn lemma_below_ceiling(x: int, value: int, c: int)
    requires
        0 <= x,
        0 <= value,
        1 <= c,
        x < value / c,
    ensures
        x * c < value,
{
    vstd::arithmetic::div_mod::lemma_fundamental_div_mod(value, c);
    vstd::arithmetic::div_mod::lemma_mod_bound(value, c);
    assert(x * c < value) by (nonlinear_arith)
        requires
            x <= value / c - 1,
            value == c * (value / c) + value % c,
            0 <= value % c,
            1 <= c,
            0 <= x,
    ;
}

/// A 16-bit step times a bounded step value stays within `i128`.
proof fn lemma_i16_step_product_fits(step: i16, step_value: i128)
    requires
        -(AMOUNT_LIMIT as int) <= step_value <= AMOUNT_LIMIT,
    ensures
        -(i128::MAX as int) <= step * step_value <= i128::MAX,
{
    assert(-(i128::MAX as int) <= step * step_value <= i128::MAX) by (nonlinear_arith)
        requires
            -0x8000 <= step <= 0x7fff,
            -(AMOUNT_LIMIT as int) <= step_value <= AMOUNT_LIMIT,
    ;
}

/// Whether a rescue of mistakenly sent tokens may go ahead: any foreign
/// token may leave freely; the collateral token may leave only from the
/// surplus beyond the tracked collateral custody.
pub fn rescue_psp22(
    is_collateral_token: bool,
    tracked_collateral: u128,
    system_balance: u128,
    amount: u128,
) -> (r: bool)
    ensures
        r == (!is_collateral_token || (amount <= system_balance && tracked_collateral
            <= system_balance - amount)),
{
    if !is_collateral_token {
        return true;
    }
    if amount > system_balance {
        return false;
    }
    tracked_collateral <= system_balance - amount
}

} // verus!

//! The rebasing ledger of the debt token: per-account balances that shrink
//! or grow with the interest regime without any per-account background
//! work.  An exempt ("unrated") account stores its face value directly; a
//! rated account stores raw units beside a snapshot of the interest index,
//! and its face value is `units * index / snapshot`, rounded down so the
//! ledger never reports more value than exists.
//!
//! Rounding residues and the transfer fee accumulate in a signed income
//! counter, the protocol's profit.

use std::collections::HashMap;
use vstd::prelude::*;
use vstd::arithmetic::div_mod::lemma_div_by_multiple;
use crate::interest::InterestIndex;
use crate::profit::PGeneratingError;
use crate::{lemma_amount_product_fits, TransferAck, AMOUNT_LIMIT, E12, E6};

verus! {

/// The errors of the token ledger.
#[derive(Clone, Copy, Debug, PartialEq, Eq, Structural)]
pub enum TokenError {
    ZeroSenderAddress,
    ZeroRecipientAddress,
    InsufficientBalance,
    InsufficientAllowance,
    /// The recipient's acknowledgement callback explicitly rejected the
    /// transfer.
    TransferRejected,
    /// The acknowledgement callback could not be made at all.
    SafeTransferCheckFailed,
    /// The caller is not the registered controller.
    NotController,
}

/// How an account stores its balance: exempt accounts at face value, rated
/// accounts as raw units beside the index snapshot they were written at.
#[derive(Clone, Copy, Debug, PartialEq, Eq, Structural)]
pub enum AccountMode {
    Exempt(u128),
    Indexed(u128, u128),
}

/// One holder's entry: its balance representation, its exemption from the
/// transfer fee, and the balance threshold below which a negotiated tax
/// holiday applies.
#[derive(Clone, Copy, Debug, PartialEq, Eq, Structural)]
pub struct Account {
    pub mode: AccountMode,
    pub is_tax_free: bool,
    pub account_debt: u128,
}

impl Account {
    /// What an account looks like before anything touched it: a rated
    /// account with no units, snapshotted at 1.0.
    pub open spec fn absent() -> Account {
        Account { mode: AccountMode::Indexed(0, E12), is_tax_free: false, account_debt: 0 }
    }

    /// Bounds under which every conversion product fits in `u128`.
    pub open spec fn ok(self) -> bool {
        match self.mode {
            AccountMode::Exempt(b) => b <= AMOUNT_LIMIT,
            AccountMode::Indexed(u, s) => u <= AMOUNT_LIMIT && 1 <= s <= AMOUNT_LIMIT,
        }
    }
}

/// The face value a stored mode has at the given index: exempt balances as
/// stored, rated balances converted from their snapshot, rounded down.
pub open spec fn face_value(mode: AccountMode, index_e12: u128) -> int {
    match mode {
        AccountMode::Exempt(b) => b as int,
        AccountMode::Indexed(u, s) => u * index_e12 / (s as int),
    }
}

/// The mathematical state of the ledger: what the contracts speak of.
#[verifier::ext_equal]
pub struct LedgerModel {
    pub index: InterestIndex,
    pub accounts: Map<u64, Account>,
    pub allowances: Map<u128, u128>,
    pub supply: u128,
    /// Sum of the raw units of rated accounts, as the operations maintain it.
    pub rated_units: u128,
    /// Sum of the face values of exempt accounts, as the operations maintain it.
    pub unrated_supply: u128,
    pub tax_e6: u128,
    pub treasury: u64,
    pub controller: u64,
    pub profit_controller: u64,
    /// The protocol's accumulated profit: transfer fees plus what rounding
    /// and rebasing leave unbacked.  Negative under a regime that credits
    /// holders.
    pub income: i128,
}

/// The allowance map's key for an owner-spender pair.  Account identifiers
/// fit in 64 bits, so the pair packs injectively into one `u128`.
pub open spec fn spec_allowance_key(owner: u64, spender: u64) -> u128 {
    (owner * 0x1_0000_0000_0000_0000 + spender) as u128
}

impl LedgerModel {
    pub open spec fn acct(self, a: u64) -> Account {
        if self.accounts.contains_key(a) {
            self.accounts[a]
        } else {
            Account::absent()
        }
    }

    /// The face value of an account at the model's current index.
    pub open spec fn face_of(self, a: u64) -> int {
        face_value(self.acct(a).mode, self.index.index_e12)
    }

    /// The face value of an account once time `now` is accounted for.
    pub open spec fn face_at(self, a: u64, now: u64) -> int {
        face_value(self.acct(a).mode, self.index.accrued_index(now) as u128)
    }

    pub open spec fn allowance_of(self, owner: u64, spender: u64) -> u128 {
        let key = spec_allowance_key(owner, spender);
        if self.allowances.contains_key(key) {
            self.allowances[key]
        } else {
            0
        }
    }

    /// The model after the index accrued to time `now`.
    pub open spec fn accrued(self, now: u64) -> LedgerModel {
        LedgerModel { index: self.index.accrued_state(now), ..self }
    }

    /// Room in the income counter for the few bounded adjustments one
    /// operation makes.
    pub open spec fn income_headroom(self) -> bool {
        -0x4000_0000_0000_0000_0000_0000_0000_0000 + 0x10_0000_0000_0000_0000 <= self.income
            <= 0x4000_0000_0000_0000_0000_0000_0000_0000 - 0x10_0000_0000_0000_0000
    }

    /// The fee a transfer of `amount` to this recipient carries: the
    /// configured fraction of the amount, waived entirely for fee-exempt
    /// recipients, and waived up to the negotiated balance threshold for
    /// recipients holding a tax holiday.
    pub open spec fn tax_for(self, to: u64, amount: u128) -> int {
        let e = self.acct(to);
        if e.is_tax_free {
            0
        } else if e.account_debt == 0 {
            amount * self.tax_e6 / (E6 as int)
        } else if e.account_debt >= self.face_of(to) {
            0
        } else {
            (self.face_of(to) - e.account_debt) * self.tax_e6 / (E6 as int)
        }
    }

    /// The model after a transfer: the sender debited, the recipient
    /// credited with the amount net of the fee, the fee added to the
    /// protocol's income.  The fee is computed against the recipient's
    /// state once the sender's debit has settled, which matters when an
    /// account sends to itself.
    pub open spec fn transferred(self, from: u64, to: u64, amount: u128) -> LedgerModel {
        let afterdebit = self.debited(from, amount);
        let tax = afterdebit.tax_for(to, amount);
        let aftercredit = afterdebit.credited(to, (amount - tax) as u128);
        LedgerModel { income: (aftercredit.income + tax) as i128, ..aftercredit }
    }

    /// Machine bounds on a transfer at the current index, for a sender
    /// whose face value covers the amount.
    pub open spec fn transfer_fits(self, from: u64, to: u64, amount: u128) -> bool {
        let afterdebit = self.debited(from, amount);
        let tax = afterdebit.tax_for(to, amount);
        &&& amount <= AMOUNT_LIMIT
        &&& self.debit_fits(from, amount)
        &&& afterdebit.face_of(to) <= AMOUNT_LIMIT
        &&& 0 <= tax <= amount
        &&& afterdebit.credit_fits(to, (amount - tax) as u128)
        &&& self.income_headroom()
    }

    /// Machine bounds on adding `amount` to an account at the current index.
    pub open spec fn credit_fits(self, a: u64, amount: u128) -> bool {
        match self.acct(a).mode {
            AccountMode::Exempt(b) => {
                &&& b + amount <= AMOUNT_LIMIT
                &&& self.unrated_supply + amount <= AMOUNT_LIMIT
            },
            AccountMode::Indexed(u, s) => {
                let fresh = face_value(self.acct(a).mode, self.index.index_e12);
                &&& fresh + amount <= AMOUNT_LIMIT
                &&& 0 <= self.rated_units - u + fresh + amount <= AMOUNT_LIMIT
                &&& self.income_headroom()
            },
        }
    }

    /// The model after `amount` was added to an account at the current
    /// index.  A rated account is first rebased to the current index; the
    /// face value that rebasing uncovers or buries moves out of or into the
    /// protocol's income.
    pub open spec fn credited(self, a: u64, amount: u128) -> LedgerModel {
        let e = self.acct(a);
        match e.mode {
            AccountMode::Exempt(b) => LedgerModel {
                accounts: self.accounts.insert(
                    a,
                    Account { mode: AccountMode::Exempt((b + amount) as u128), ..e },
                ),
                unrated_supply: (self.unrated_supply + amount) as u128,
                ..self
            },
            AccountMode::Indexed(u, s) => {
                let fresh = face_value(e.mode, self.index.index_e12);
                LedgerModel {
                    accounts: self.accounts.insert(
                        a,
                        Account {
                            mode: AccountMode::Indexed(
                                (fresh + amount) as u128,
                                self.index.index_e12,
                            ),
                            ..e
                        },
                    ),
                    rated_units: (self.rated_units - u + fresh + amount) as u128,
                    income: (self.income - (fresh - u)) as i128,
                    ..self
                }
            },
        }
    }

    /// Machine bounds on removing `amount` from an account at the current
    /// index; assumes `amount` is at most the account's face value.
    pub open spec fn debit_fits(self, a: u64, amount: u128) -> bool {
        match self.acct(a).mode {
            AccountMode::Exempt(b) => amount <= self.unrated_supply,
            AccountMode::Indexed(u, s) => {
                let fresh = face_value(self.acct(a).mode, self.index.index_e12);
                &&& fresh <= AMOUNT_LIMIT
                &&& 0 <= self.rated_units - u + fresh - amount <= AMOUNT_LIMIT
                &&& self.income_headroom()
            },
        }
    }

    /// The model after `amount` was removed from an account at the current
    /// index.
    pub open spec fn debited(self, a: u64, amount: u128) -> LedgerModel {
        let e = self.acct(a);
        match e.mode {
            AccountMode::Exempt(b) => LedgerModel {
                accounts: self.accounts.insert(
                    a,
                    Account { mode: AccountMode::Exempt((b - amount) as u128), ..e },
                ),
                unrated_supply: (self.unrated_supply - amount) as u128,
                ..self
            },
            AccountMode::Indexed(u, s) => {
                let fresh = face_value(e.mode, self.index.index_e12);
                LedgerModel {
                    accounts: self.accounts.insert(
                        a,
                        Account {
                            mode: AccountMode::Indexed(
                                (fresh - amount) as u128,
                                self.index.index_e12,
                            ),
                            ..e
                        },
                    ),
                    rated_units: (self.rated_units - u + fresh - amount) as u128,
                    income: (self.income - (fresh - u)) as i128,
                    ..self
                }
            },
        }
    }

    /// Machine bounds on switching an account's exemption at the current
    /// index.
    pub open spec fn switch_fits(self, a: u64) -> bool {
        match self.acct(a).mode {
            AccountMode::Exempt(b) => {
                &&& b <= self.unrated_supply
                &&& self.rated_units + b <= AMOUNT_LIMIT
            },
            AccountMode::Indexed(u, s) => {
                let fresh = face_value(self.acct(a).mode, self.index.index_e12);
                &&& fresh <= AMOUNT_LIMIT
                &&& u <= self.rated_units
                &&& self.unrated_supply + fresh <= AMOUNT_LIMIT
                &&& self.income_headroom()
            },
        }
    }

    /// The model after an account's exemption switched at the current
    /// index.  An exempt account becomes a rated one snapshotted now, its
    /// face value carried over exactly; a rated account is rebased to the
    /// current index and its face value frozen, the rebasing residue
    /// settling into the income counter.
    pub open spec fn switched(self, a: u64) -> LedgerModel {
        let e = self.acct(a);
        match e.mode {
            AccountMode::Exempt(b) => LedgerModel {
                accounts: self.accounts.insert(
                    a,
                    Account { mode: AccountMode::Indexed(b, self.index.index_e12), ..e },
                ),
                unrated_supply: (self.unrated_supply - b) as u128,
                rated_units: (self.rated_units + b) as u128,
                ..self
            },
            AccountMode::Indexed(u, s) => {
                let fresh = face_value(e.mode, self.index.index_e12);
                LedgerModel {
                    accounts: self.accounts.insert(
                        a,
                        Account { mode: AccountMode::Exempt(fresh as u128), ..e },
                    ),
                    rated_units: (self.rated_units - u) as u128,
                    unrated_supply: (self.unrated_supply + fresh) as u128,
                    income: (self.income - (fresh - u)) as i128,
                    ..self
                }
            },
        }
    }

    /// The model after a mint: a credit plus the grown supply.
    pub open spec fn minted(self, a: u64, amount: u128) -> LedgerModel {
        LedgerModel { supply: (self.supply + amount) as u128, ..self.credited(a, amount) }
    }

    /// The model after a burn: a debit plus the shrunk supply.
    pub open spec fn burned(self, a: u64, amount: u128) -> LedgerModel {
        LedgerModel { supply: (self.supply - amount) as u128, ..self.debited(a, amount) }
    }

    /// The ledger's conservation equation, in its lazy form: the supply
    /// counter exceeds the stored balances (exempt faces plus rated raw
    /// units) by exactly the accumulated income.  Rebasing moves value
    /// between a stored balance and the income counter only at the moment
    /// an account is touched, so the gap is precisely what the fee took
    /// and the regime shaved off — or, negative, credited — so far.
    pub open spec fn conserved(self) -> bool {
        self.supply - self.unrated_supply - self.rated_units == self.income
    }

    /// Bounds under which every operation's arithmetic stays in range.
    pub open spec fn wf(self) -> bool {
        &&& self.index.wf()
        &&& self.supply <= AMOUNT_LIMIT
        &&& self.rated_units <= AMOUNT_LIMIT
        &&& self.unrated_supply <= AMOUNT_LIMIT
        &&& self.tax_e6 <= E6
        &&& forall|a: u64| #[trigger] self.accounts.contains_key(a) ==> self.accounts[a].ok()
    }
}

/// The ledger itself: the global index, the account and allowance tables,
/// and the aggregate counters.
pub struct RebasingLedger {
    pub index: InterestIndex,
    pub accounts: HashMap<u64, Account>,
    pub allowances: HashMap<u128, u128>,
    pub supply: u128,
    pub rated_units: u128,
    pub unrated_supply: u128,
    pub tax_e6: u128,
    pub treasury: u64,
    pub controller: u64,
    pub profit_controller: u64,
    pub income: i128,
}

impl View for RebasingLedger {
    type V = LedgerModel;

    open spec fn view(&self) -> LedgerModel {
        LedgerModel {
            index: self.index,
            accounts: self.accounts@,
            allowances: self.allowances@,
            supply: self.supply,
            rated_units: self.rated_units,
            unrated_supply: self.unrated_supply,
            tax_e6: self.tax_e6,
            treasury: self.treasury,
            controller: self.controller,
            profit_controller: self.profit_controller,
            income: self.income,
        }
    }
}

impl RebasingLedger {
    pub open spec fn wf(self) -> bool {
        self@.wf()
    }

    /// A fresh ledger: nothing minted, index at 1.0, the treasury exempt
    /// from rebasing from the start.
    pub fn new(
        now: u64,
        rate_e12: i128,
        tax_e6: u128,
        treasury: u64,
        controller: u64,
        profit_controller: u64,
    ) -> (r: RebasingLedger)
        requires
            tax_e6 <= E6,
        ensures
            r.wf(),
            r@.index.index_e12 == E12,
            r@.index.last_timestamp == now,
            r@.index.rate_e12 == rate_e12,
            r@.supply == 0,
            r@.rated_units == 0,
            r@.unrated_supply == 0,
            r@.income == 0,
            r@.tax_e6 == tax_e6,
            r@.treasury == treasury,
            r@.controller == controller,
            r@.profit_controller == profit_controller,
            r@.accounts == Map::<u64, Account>::empty().insert(
                treasury,
                Account { mode: AccountMode::Exempt(0), is_tax_free: false, account_debt: 0 },
            ),
            r@.allowances == Map::<u128, u128>::empty(),
    {
        let mut accounts: HashMap<u64, Account> = HashMap::new();
        accounts.insert(
            treasury,
            Account { mode: AccountMode::Exempt(0), is_tax_free: false, account_debt: 0 },
        );
        RebasingLedger {
            index: InterestIndex::new(now, rate_e12),
            accounts,
            allowances: HashMap::new(),
            supply: 0,
            rated_units: 0,
            unrated_supply: 0,
            tax_e6,
            treasury,
            controller,
            profit_controller,
            income: 0,
        }
    }

    /// The stored account entry, or the untouched default.
    fn get_account(&self, account: u64) -> (r: Account)
        ensures
            r == self@.acct(account),
    {
        match self.accounts.get(&account) {
            Some(e) => *e,
            None => Account {
                mode: AccountMode::Indexed(0, E12),
                is_tax_free: false,
                account_debt: 0,
            },
        }
    }

    /// The account's face value with interest accounted up to `now`,
    /// without touching any state.  Rounds down, so the ledger never
    /// reports more value than exists.
    pub fn balance_of(&self, account: u64, now: u64) -> (r: u128)
        requires
            self.wf(),
            self@.index.accrue_fits(now),
        ensures
            r == self@.face_at(account, now),
    {
        let idx = self.index.peek(now);
        let e = self.get_account(account);
        match e.mode {
            AccountMode::Exempt(b) => b,
            AccountMode::Indexed(u, s) => {
                proof {
                    lemma_amount_product_fits(u as int, idx as int);
                }
                u * idx / s
            },
        }
    }

    pub fn total_supply(&self) -> (r: u128)
        ensures
            r == self@.supply,
    {
        self.supply
    }

    pub fn rated_supply(&self) -> (r: u128)
        ensures
            r == self@.rated_units,
    {
        self.rated_units
    }

    pub fn unrated_supply(&self) -> (r: u128)
        ensures
            r == self@.unrated_supply,
    {
        self.unrated_supply
    }

    /// The account's stored figure as it stands, without any conversion:
    /// raw units for a rated account, the face value for an exempt one.
    pub fn undivided_taxed_balances(&self, account: u64) -> (r: u128)
        ensures
            r == match self@.acct(account).mode {
                AccountMode::Indexed(u, s) => u,
                AccountMode::Exempt(b) => b,
            },
    {
        let e = self.get_account(account);
        match e.mode {
            AccountMode::Indexed(u, _s) => u,
            AccountMode::Exempt(b) => b,
        }
    }

    /// The index snapshot the account's raw units were written at; exempt
    /// and untouched accounts report the scale itself.
    pub fn applied_denominator_e12(&self, account: u64) -> (r: u128)
        ensures
            r == match self@.acct(account).mode {
                AccountMode::Indexed(u, s) => s,
                AccountMode::Exempt(b) => E12,
            },
    {
        let e = self.get_account(account);
        match e.mode {
            AccountMode::Indexed(_u, s) => s,
            AccountMode::Exempt(_b) => E12,
        }
    }

    /// Accrue the interest index to `now` and return it.  Every state-
    /// changing operation does this first; this entry point lets the host
    /// do it eagerly.
    pub fn update_current_denominator_e12(&mut self, now: u64) -> (r: u128)
        requires
            old(self).wf(),
            old(self)@.index.accrue_fits(now),
        ensures
            final(self).wf(),
            final(self)@ == old(self)@.accrued(now),
            r == final(self)@.index.index_e12,
    {
        let r = self.index.accrue(now);
        proof {
            self.lemma_same_accounts_keep_ok(old(self)@);
        }
        r
    }

    /// Accounts stay within bounds across a step that leaves the account
    /// table untouched.
    proof fn lemma_same_accounts_keep_ok(&self, pre: LedgerModel)
        requires
            pre.wf(),
            self@.accounts == pre.accounts,
        ensures
            forall|a: u64| #[trigger] self@.accounts.contains_key(a) ==> self@.accounts[a].ok(),
    {
        assert forall|a: u64| #[trigger] self@.accounts.contains_key(a) implies self@.accounts[a].ok() by {
            assert(pre.accounts.contains_key(a));
        }
    }

    /// Add `amount` to the account at the current index, updating the
    /// matching aggregate and the income counter.  Callers have accrued the
    /// index already.
    fn credit(&mut self, account: u64, amount: u128)
        requires
            old(self).wf(),
            old(self)@.credit_fits(account, amount),
        ensures
            final(self).wf(),
            final(self)@ == old(self)@.credited(account, amount),
    {
        let e = self.get_account(account);
        match e.mode {
            AccountMode::Exempt(b) => {
                self.accounts.insert(
                    account,
                    Account { mode: AccountMode::Exempt(b + amount), ..e },
                );
                self.unrated_supply = self.unrated_supply + amount;
            },
            AccountMode::Indexed(u, s) => {
                let idx = self.index.index_e12;
                proof {
                    lemma_amount_product_fits(u as int, idx as int);
                }
                let fresh: u128 = u * idx / s;
                self.accounts.insert(
                    account,
                    Account { mode: AccountMode::Indexed(fresh + amount, idx), ..e },
                );
                self.rated_units = self.rated_units + fresh + amount - u;
                self.income = self.income - (fresh as i128 - u as i128);
            },
        }
    }

    /// Remove `amount` from the account at the current index; callers have
    /// checked that the face value covers it.
    fn debit(&mut self, account: u64, amount: u128)
        requires
            old(self).wf(),
            amount <= old(self)@.face_of(account),
            old(self)@.debit_fits(account, amount),
        ensures
            final(self).wf(),
            final(self)@ == old(self)@.debited(account, amount),
    {
        let e = self.get_account(account);
        match e.mode {
            AccountMode::Exempt(b) => {
                self.accounts.insert(
                    account,
                    Account { mode: AccountMode::Exempt(b - amount), ..e },
                );
                self.unrated_supply = self.unrated_supply - amount;
            },
            AccountMode::Indexed(u, s) => {
                let idx = self.index.index_e12;
                proof {
                    lemma_amount_product_fits(u as int, idx as int);
                }
                let fresh: u128 = u * idx / s;
                self.accounts.insert(
                    account,
                    Account { mode: AccountMode::Indexed(fresh - amount, idx), ..e },
                );
                self.rated_units = self.rated_units + fresh - amount - u;
                self.income = self.income - (fresh as i128 - u as i128);
            },
        }
    }

    /// Mint `amount` to the account: interest accrues first, then the
    /// account is credited and the supply grows.  Fails only on the zero
    /// address, with nothing changed.
    pub fn mint(&mut self, account: u64, amount: u128, now: u64) -> (r: Result<(), TokenError>)
        requires
            old(self).wf(),
            old(self)@.index.accrue_fits(now),
            account != 0 ==> old(self)@.accrued(now).credit_fits(account, amount),
            account != 0 ==> old(self)@.supply + amount <= AMOUNT_LIMIT,
        ensures
            final(self).wf(),
            account == 0 <==> r == Err::<(), TokenError>(TokenError::ZeroRecipientAddress),
            account == 0 ==> *final(self) == *old(self),
            account != 0 ==> r == Ok::<(), TokenError>(()) && final(self)@ == old(self)@.accrued(
                now,
            ).minted(account, amount),
    {
        if account == 0 {
            return Err(TokenError::ZeroRecipientAddress);
        }
        self.index.accrue(now);
        self.credit(account, amount);
        self.supply = self.supply + amount;
        Ok(())
    }

    /// The fee the recipient's entry carries for this transfer, computed at
    /// the current index.
    fn calculate_tax(&self, to: u64, amount: u128) -> (r: u128)
        requires
            self.wf(),
            amount <= AMOUNT_LIMIT,
            self@.face_of(to) <= AMOUNT_LIMIT,
        ensures
            r == self@.tax_for(to, amount),
    {
        let e = self.get_account(to);
        if e.is_tax_free {
            return 0;
        }
        if e.account_debt == 0 {
            proof {
                lemma_amount_product_fits(amount as int, self.tax_e6 as int);
            }
            return amount * self.tax_e6 / E6;
        }
        let balance: u128 = match e.mode {
            AccountMode::Exempt(b) => b,
            AccountMode::Indexed(u, s) => {
                proof {
                    lemma_amount_product_fits(u as int, self.index.index_e12 as int);
                }
                u * self.index.index_e12 / s
            },
        };
        if e.account_debt >= balance {
            0
        } else {
            proof {
                lemma_amount_product_fits((balance - e.account_debt) as int, self.tax_e6 as int);
            }
            (balance - e.account_debt) * self.tax_e6 / E6
        }
    }

    /// The settled movement of a transfer whose checks have all passed:
    /// accrue, debit the sender, take the fee, credit the rest.
    fn transfer_committed(&mut self, from: u64, to: u64, amount: u128, now: u64)
        requires
            old(self).wf(),
            old(self)@.index.accrue_fits(now),
            amount <= old(self)@.face_at(from, now),
            old(self)@.accrued(now).transfer_fits(from, to, amount),
        ensures
            final(self).wf(),
            final(self)@ == old(self)@.accrued(now).transferred(from, to, amount),
    {
        self.index.accrue(now);
        proof {
            self.lemma_same_accounts_keep_ok(old(self)@);
        }
        self.debit(from, amount);
        let tax = self.calculate_tax(to, amount);
        self.credit(to, amount - tax);
        self.income = self.income + (tax as i128);
    }

    /// Move `amount` from one holder to another: the zero address can
    /// neither send nor receive, the recipient's acknowledgement callback
    /// must not have objected, and the sender's accrued face value must
    /// cover the amount.  A fee may be routed to the protocol's income on
    /// the way.  A failed transfer changes nothing.
    pub fn transfer_from_to(
        &mut self,
        from: u64,
        to: u64,
        amount: u128,
        now: u64,
        ack: TransferAck,
    ) -> (r: Result<(), TokenError>)
        requires
            old(self).wf(),
            old(self)@.index.accrue_fits(now),
            from != 0 && to != 0 && ack.tolerated() && amount <= old(self)@.face_at(from, now)
                ==> old(self)@.accrued(now).transfer_fits(from, to, amount),
        ensures
            final(self).wf(),
            r == Err::<(), TokenError>(TokenError::ZeroSenderAddress) <==> from == 0,
            r == Err::<(), TokenError>(TokenError::ZeroRecipientAddress) <==> from != 0 && to == 0,
            r == Err::<(), TokenError>(TokenError::TransferRejected) <==> from != 0 && to != 0
                && ack is Rejected,
            r == Err::<(), TokenError>(TokenError::SafeTransferCheckFailed) <==> from != 0 && to
                != 0 && ack is CallFailed,
            r == Err::<(), TokenError>(TokenError::InsufficientBalance) <==> from != 0 && to != 0
                && ack.tolerated() && amount > old(self)@.face_at(from, now),
            r is Err ==> *final(self) == *old(self),
            r is Ok <==> from != 0 && to != 0 && ack.tolerated() && amount <= old(self)@.face_at(
                from,
                now,
            ),
            r is Ok ==> final(self)@ == old(self)@.accrued(now).transferred(from, to, amount),
    {
        if from == 0 {
            return Err(TokenError::ZeroSenderAddress);
        }
        if to == 0 {
            return Err(TokenError::ZeroRecipientAddress);
        }
        match do_safe_transfer_check(ack) {
            Err(e) => {
                return Err(e);
            },
            Ok(()) => {},
        }
        let balance = self.balance_of(from, now);
        if amount > balance {
            return Err(TokenError::InsufficientBalance);
        }
        self.transfer_committed(from, to, amount, now);
        Ok(())
    }

    /// A transfer the caller makes from its own balance.
    pub fn transfer(&mut self, caller: u64, to: u64, value: u128, now: u64, ack: TransferAck) -> (r:
        Result<(), TokenError>)
        requires
            old(self).wf(),
            old(self)@.index.accrue_fits(now),
            caller != 0 && to != 0 && ack.tolerated() && value <= old(self)@.face_at(caller, now)
                ==> old(self)@.accrued(now).transfer_fits(caller, to, value),
        ensures
            final(self).wf(),
            r == Err::<(), TokenError>(TokenError::ZeroSenderAddress) <==> caller == 0,
            r == Err::<(), TokenError>(TokenError::ZeroRecipientAddress) <==> caller != 0 && to
                == 0,
            r == Err::<(), TokenError>(TokenError::TransferRejected) <==> caller != 0 && to != 0
                && ack is Rejected,
            r == Err::<(), TokenError>(TokenError::SafeTransferCheckFailed) <==> caller != 0 && to
                != 0 && ack is CallFailed,
            r == Err::<(), TokenError>(TokenError::InsufficientBalance) <==> caller != 0 && to != 0
                && ack.tolerated() && value > old(self)@.face_at(caller, now),
            r is Err ==> *final(self) == *old(self),
            r is Ok <==> caller != 0 && to != 0 && ack.tolerated() && value <= old(
                self,
            )@.face_at(caller, now),
            r is Ok ==> final(self)@ == old(self)@.accrued(now).transferred(caller, to, value),
    {
        self.transfer_from_to(caller, to, value, now, ack)
    }

    /// A transfer the caller makes on the sender's behalf, against the
    /// sender's allowance, which shrinks by the value moved.  The allowance
    /// is checked first; a failed transfer leaves balance and allowance
    /// both unchanged.
    pub fn transfer_from(
        &mut self,
        caller: u64,
        from: u64,
        to: u64,
        value: u128,
        now: u64,
        ack: TransferAck,
    ) -> (r: Result<(), TokenError>)
        requires
            old(self).wf(),
            old(self)@.index.accrue_fits(now),
            old(self)@.allowance_of(from, caller) >= value && from != 0 && to != 0
                && ack.tolerated() && value <= old(self)@.face_at(from, now) ==> old(
                self,
            )@.accrued(now).transfer_fits(from, to, value),
        ensures
            final(self).wf(),
            r == Err::<(), TokenError>(TokenError::InsufficientAllowance) <==> old(
                self,
            )@.allowance_of(from, caller) < value,
            r == Err::<(), TokenError>(TokenError::ZeroSenderAddress) <==> old(self)@.allowance_of(
                from,
                caller,
            ) >= value && from == 0,
            r == Err::<(), TokenError>(TokenError::ZeroRecipientAddress) <==> old(
                self,
            )@.allowance_of(from, caller) >= value && from != 0 && (to == 0 || (to != 0
                && ack.tolerated() && value <= old(self)@.face_at(from, now) && caller == 0)),
            r == Err::<(), TokenError>(TokenError::TransferRejected) <==> old(self)@.allowance_of(
                from,
                caller,
            ) >= value && from != 0 && to != 0 && ack is Rejected,
            r == Err::<(), TokenError>(TokenError::SafeTransferCheckFailed) <==> old(
                self,
            )@.allowance_of(from, caller) >= value && from != 0 && to != 0 && ack is CallFailed,
            r == Err::<(), TokenError>(TokenError::InsufficientBalance) <==> old(
                self,
            )@.allowance_of(from, caller) >= value && from != 0 && to != 0 && ack.tolerated()
                && value > old(self)@.face_at(from, now),
            r is Err ==> *final(self) == *old(self),
            r is Ok <==> old(self)@.allowance_of(from, caller) >= value && from != 0 && to != 0
                && caller != 0 && ack.tolerated() && value <= old(self)@.face_at(from, now),
            r is Ok ==> final(self)@ == ({
                let m = old(self)@.accrued(now).transferred(from, to, value);
                LedgerModel {
                    allowances: m.allowances.insert(
                        spec_allowance_key(from, caller),
                        (old(self)@.allowance_of(from, caller) - value) as u128,
                    ),
                    ..m
                }
            }),
    {
        let granted = self.allowance(from, caller);
        if granted < value {
            return Err(TokenError::InsufficientAllowance);
        }
        if from == 0 {
            return Err(TokenError::ZeroSenderAddress);
        }
        if to == 0 {
            return Err(TokenError::ZeroRecipientAddress);
        }
        match do_safe_transfer_check(ack) {
            Err(e) => {
                return Err(e);
            },
            Ok(()) => {},
        }
        let balance = self.balance_of(from, now);
        if value > balance {
            return Err(TokenError::InsufficientBalance);
        }
        if caller == 0 {
            return Err(TokenError::ZeroRecipientAddress);
        }
        self.transfer_committed(from, to, value, now);
        let key = allowance_key(from, caller);
        self.allowances.insert(key, granted - value);
        proof {
            self.lemma_same_accounts_keep_ok(old(self)@.accrued(now).transferred(from, to, value));
        }
        Ok(())
    }

    /// The standing allowance of a spender on an owner's balance.
    pub fn allowance(&self, owner: u64, spender: u64) -> (r: u128)
        ensures
            r == self@.allowance_of(owner, spender),
    {
        let key = allowance_key(owner, spender);
        match self.allowances.get(&key) {
            Some(v) => *v,
            None => 0,
        }
    }

    /// Grant a spender an allowance on the owner's balance.  The zero
    /// address can neither grant nor receive one.
    fn approve_from_to(&mut self, owner: u64, spender: u64, amount: u128) -> (r: Result<
        (),
        TokenError,
    >)
        requires
            old(self).wf(),
        ensures
            final(self).wf(),
            r == Err::<(), TokenError>(TokenError::ZeroSenderAddress) <==> owner == 0,
            r == Err::<(), TokenError>(TokenError::ZeroRecipientAddress) <==> owner != 0 && spender
                == 0,
            r is Err ==> *final(self) == *old(self),
            r is Ok <==> owner != 0 && spender != 0,
            r is Ok ==> final(self)@ == (LedgerModel {
                allowances: old(self)@.allowances.insert(
                    spec_allowance_key(owner, spender),
                    amount,
                ),
                ..old(self)@
            }),
    {
        if owner == 0 {
            return Err(TokenError::ZeroSenderAddress);
        }
        if spender == 0 {
            return Err(TokenError::ZeroRecipientAddress);
        }
        let key = allowance_key(owner, spender);
        self.allowances.insert(key, amount);
        proof {
            self.lemma_same_accounts_keep_ok(old(self)@);
        }
        Ok(())
    }

    /// Set the caller's allowance for a spender outright.
    pub fn approve(&mut self, caller: u64, spender: u64, value: u128) -> (r: Result<
        (),
        TokenError,
    >)
        requires
            old(self).wf(),
        ensures
            final(self).wf(),
            r == Err::<(), TokenError>(TokenError::ZeroSenderAddress) <==> caller == 0,
            r == Err::<(), TokenError>(TokenError::ZeroRecipientAddress) <==> caller != 0 && spender
                == 0,
            r is Err ==> *final(self) == *old(self),
            r is Ok <==> caller != 0 && spender != 0,
            r is Ok ==> final(self)@ == (LedgerModel {
                allowances: old(self)@.allowances.insert(
                    spec_allowance_key(caller, spender),
                    value,
                ),
                ..old(self)@
            }),
    {
        self.approve_from_to(caller, spender, value)
    }

    /// Raise the caller's allowance for a spender by `delta_value`.
    pub fn increase_allowance(&mut self, caller: u64, spender: u64, delta_value: u128) -> (r:
        Result<(), TokenError>)
        requires
            old(self).wf(),
            old(self)@.allowance_of(caller, spender) + delta_value <= u128::MAX,
        ensures
            final(self).wf(),
            r == Err::<(), TokenError>(TokenError::ZeroSenderAddress) <==> caller == 0,
            r == Err::<(), TokenError>(TokenError::ZeroRecipientAddress) <==> caller != 0 && spender
                == 0,
            r is Err ==> *final(self) == *old(self),
            r is Ok <==> caller != 0 && spender != 0,
            r is Ok ==> final(self)@ == (LedgerModel {
                allowances: old(self)@.allowances.insert(
                    spec_allowance_key(caller, spender),
                    (old(self)@.allowance_of(caller, spender) + delta_value) as u128,
                ),
                ..old(self)@
            }),
    {
        let granted = self.allowance(caller, spender);
        self.approve_from_to(caller, spender, granted + delta_value)
    }

    /// Lower the caller's allowance for a spender by `delta_value`; fails
    /// with `InsufficientAllowance` when the standing allowance is smaller.
    pub fn decrease_allowance(&mut self, caller: u64, spender: u64, delta_value: u128) -> (r:
        Result<(), TokenError>)
        requires
            old(self).wf(),
        ensures
            final(self).wf(),
            r == Err::<(), TokenError>(TokenError::InsufficientAllowance) <==> old(
                self,
            )@.allowance_of(caller, spender) < delta_value,
            r == Err::<(), TokenError>(TokenError::ZeroSenderAddress) <==> old(self)@.allowance_of(
                caller,
                spender,
            ) >= delta_value && caller == 0,
            r == Err::<(), TokenError>(TokenError::ZeroRecipientAddress) <==> old(
                self,
            )@.allowance_of(caller, spender) >= delta_value && caller != 0 && spender == 0,
            r is Err ==> *final(self) == *old(self),
            r is Ok <==> old(self)@.allowance_of(caller, spender) >= delta_value && caller != 0
                && spender != 0,
            r is Ok ==> final(self)@ == (LedgerModel {
                allowances: old(self)@.allowances.insert(
                    spec_allowance_key(caller, spender),
                    (old(self)@.allowance_of(caller, spender) - delta_value) as u128,
                ),
                ..old(self)@
            }),
    {
        let granted = self.allowance(caller, spender);
        if granted < delta_value {
            return Err(TokenError::InsufficientAllowance);
        }
        self.approve_from_to(caller, spender, granted - delta_value)
    }

    /// Burn `amount` from the account: interest accrues first, then the
    /// account is debited and the supply shrinks.  Fails on the zero
    /// address and, with `InsufficientBalance`, exactly when the account's
    /// accrued face value is smaller than `amount`; a failed burn changes
    /// nothing.
    pub fn burn(&mut self, account: u64, amount: u128, now: u64) -> (r: Result<(), TokenError>)
        requires
            old(self).wf(),
            old(self)@.index.accrue_fits(now),
            account != 0 && amount <= old(self)@.face_at(account, now) ==> {
                &&& old(self)@.accrued(now).debit_fits(account, amount)
                &&& amount <= old(self)@.supply
            },
        ensures
            final(self).wf(),
            account == 0 <==> r == Err::<(), TokenError>(TokenError::ZeroRecipientAddress),
            r == Err::<(), TokenError>(TokenError::InsufficientBalance) <==> account != 0 && amount
                > old(self)@.face_at(account, now),
            r is Err ==> *final(self) == *old(self),
            r is Ok ==> final(self)@ == old(self)@.accrued(now).burned(account, amount),
            account != 0 && amount <= old(self)@.face_at(account, now) ==> r == Ok::<
                (),
                TokenError,
            >(()),
    {
        if account == 0 {
            return Err(TokenError::ZeroRecipientAddress);
        }
        let balance = self.balance_of(account, now);
        if amount > balance {
            return Err(TokenError::InsufficientBalance);
        }
        self.index.accrue(now);
        self.debit(account, amount);
        self.supply = self.supply - amount;
        Ok(())
    }

    /// Switch the account's exemption at the current index; callers have
    /// accrued the index and checked the bounds.
    fn switch(&mut self, account: u64)
        requires
            old(self).wf(),
            old(self)@.switch_fits(account),
        ensures
            final(self).wf(),
            final(self)@ == old(self)@.switched(account),
    {
        let e = self.get_account(account);
        match e.mode {
            AccountMode::Exempt(b) => {
                self.accounts.insert(
                    account,
                    Account { mode: AccountMode::Indexed(b, self.index.index_e12), ..e },
                );
                self.unrated_supply = self.unrated_supply - b;
                self.rated_units = self.rated_units + b;
            },
            AccountMode::Indexed(u, s) => {
                let idx = self.index.index_e12;
                proof {
                    lemma_amount_product_fits(u as int, idx as int);
                }
                let fresh: u128 = u * idx / s;
                self.accounts.insert(account, Account { mode: AccountMode::Exempt(fresh), ..e });
                self.rated_units = self.rated_units - u;
                self.unrated_supply = self.unrated_supply + fresh;
                self.income = self.income - (fresh as i128 - u as i128);
            },
        }
    }

    /// Move the account between the exempt and the rated representation.
    /// Interest accrues first; the conversion freezes or re-opens the
    /// account's face value exactly, with any rebasing residue settling
    /// into the income counter.  The treasury stays exempt: asking to
    /// change it does nothing, as does asking for the state the account is
    /// already in.
    pub fn set_is_unrated(&mut self, account: u64, set_to: bool, now: u64) -> (r: Result<
        (),
        TokenError,
    >)
        requires
            old(self).wf(),
            old(self)@.index.accrue_fits(now),
            account != old(self)@.treasury && (old(self)@.acct(account).mode is Exempt) != set_to
                ==> old(self)@.accrued(now).switch_fits(account),
        ensures
            final(self).wf(),
            r == Ok::<(), TokenError>(()),
            account == old(self)@.treasury || (old(self)@.acct(account).mode is Exempt) == set_to
                ==> *final(self) == *old(self),
            account != old(self)@.treasury && (old(self)@.acct(account).mode is Exempt) != set_to
                ==> final(self)@ == old(self)@.accrued(now).switched(account),
    {
        let e = self.get_account(account);
        let currently_exempt = match e.mode {
            AccountMode::Exempt(_) => true,
            AccountMode::Indexed(_, _) => false,
        };
        if account == self.treasury || currently_exempt == set_to {
            return Ok(());
        }
        self.index.accrue(now);
        proof {
            self.lemma_same_accounts_keep_ok(old(self)@);
        }
        self.switch(account);
        Ok(())
    }

    /// Whether the account is exempt from rebasing.
    pub fn is_unrated(&self, account: u64) -> (r: bool)
        ensures
            r == (self@.acct(account).mode is Exempt),
    {
        let e = self.get_account(account);
        match e.mode {
            AccountMode::Exempt(_) => true,
            AccountMode::Indexed(_, _) => false,
        }
    }

    /// Whether transfers to the account carry no fee.
    pub fn is_tax_free(&self, account: u64) -> (r: bool)
        ensures
            r == self@.acct(account).is_tax_free,
    {
        let e = self.get_account(account);
        e.is_tax_free
    }

    /// The balance threshold of the account's negotiated tax holiday.
    pub fn account_debt(&self, account: u64) -> (r: u128)
        ensures
            r == self@.acct(account).account_debt,
    {
        let e = self.get_account(account);
        e.account_debt
    }

    /// Exempt the account from the transfer fee, or end the exemption.
    pub fn set_is_tax_free(&mut self, account: u64, set_to: bool)
        requires
            old(self).wf(),
        ensures
            final(self).wf(),
            final(self)@ == (LedgerModel {
                accounts: old(self)@.accounts.insert(
                    account,
                    Account { is_tax_free: set_to, ..old(self)@.acct(account) },
                ),
                ..old(self)@
            }),
    {
        let e = self.get_account(account);
        self.accounts.insert(account, Account { is_tax_free: set_to, ..e });
    }

    /// Set the balance threshold of the account's tax holiday.
    pub fn set_account_debt(&mut self, account: u64, value: u128)
        requires
            old(self).wf(),
        ensures
            final(self).wf(),
            final(self)@ == (LedgerModel {
                accounts: old(self)@.accounts.insert(
                    account,
                    Account { account_debt: value, ..old(self)@.acct(account) },
                ),
                ..old(self)@
            }),
    {
        let e = self.get_account(account);
        self.accounts.insert(account, Account { account_debt: value, ..e });
    }

    /// The controller hands down a new interest rate.  Interest up to `now`
    /// still compounds at the old rate; the new one applies from here on.
    /// Anyone but the registered controller is turned away.
    pub fn be_controlled(&mut self, caller: u64, interest_rate_e12: i128, now: u64) -> (r: Result<
        (),
        TokenError,
    >)
        requires
            old(self).wf(),
            old(self)@.index.accrue_fits(now),
        ensures
            final(self).wf(),
            caller != old(self)@.controller <==> r == Err::<(), TokenError>(
                TokenError::NotController,
            ),
            r is Ok <==> caller == old(self)@.controller,
            r is Err ==> *final(self) == *old(self),
            r is Ok ==> final(self)@ == (LedgerModel {
                index: (InterestIndex {
                    rate_e12: interest_rate_e12,
                    ..old(self)@.index.accrued_state(now)
                }),
                ..old(self)@
            }),
    {
        if caller != self.controller {
            return Err(TokenError::NotController);
        }
        self.index.accrue(now);
        self.index.rate_e12 = interest_rate_e12;
        proof {
            self.lemma_same_accounts_keep_ok(old(self)@);
        }
        Ok(())
    }

    /// Point the ledger at another rate controller.
    pub fn set_controller_address(&mut self, new_controller_address: u64) -> (r: Result<
        (),
        TokenError,
    >)
        requires
            old(self).wf(),
        ensures
            final(self).wf(),
            r == Ok::<(), TokenError>(()),
            final(self)@ == (LedgerModel { controller: new_controller_address, ..old(self)@ }),
    {
        self.controller = new_controller_address;
        proof {
            self.lemma_same_accounts_keep_ok(old(self)@);
        }
        Ok(())
    }

    /// Point profit extraction at another controller.
    pub fn set_profit_controller_address(&mut self, new_profit_controller: u64) -> (r: Result<
        (),
        TokenError,
    >)
        requires
            old(self).wf(),
        ensures
            final(self).wf(),
            r == Ok::<(), TokenError>(()),
            final(self)@ == (LedgerModel {
                profit_controller: new_profit_controller,
                ..old(self)@
            }),
    {
        self.profit_controller = new_profit_controller;
        proof {
            self.lemma_same_accounts_keep_ok(old(self)@);
        }
        Ok(())
    }

    /// The positive part of the income counter: what a tax collection
    /// would realize.
    pub open spec fn spec_tax_collectible(self) -> int {
        if self@.income > 0 {
            self@.income as int
        } else {
            0
        }
    }

    /// Mint the accumulated positive income to the treasury, settling the
    /// income counter by the same amount.  With no positive income this
    /// mints nothing; the accrual to `now` still happens.  On a conserved
    /// ledger the minted amount is exactly the supply counter's lead over
    /// the stored balances — the conservation gap, realized into the
    /// treasury's balance.
    pub fn collect_tax(&mut self, now: u64) -> (r: Result<u128, TokenError>)
        requires
            old(self).wf(),
            old(self)@.index.accrue_fits(now),
            old(self)@.treasury != 0 ==> {
                let m = old(self)@.accrued(now);
                let t = (if m.income > 0 {
                    m.income as int
                } else {
                    0
                }) as u128;
                &&& t <= AMOUNT_LIMIT
                &&& m.credit_fits(m.treasury, t)
                &&& m.supply + t <= AMOUNT_LIMIT
            },
        ensures
            final(self).wf(),
            old(self)@.treasury == 0 <==> r == Err::<u128, TokenError>(
                TokenError::ZeroRecipientAddress,
            ),
            r is Ok <==> old(self)@.treasury != 0,
            r is Err ==> *final(self) == *old(self),
            r matches Ok(t) ==> {
                let m = old(self)@.accrued(now);
                let m2 = m.minted(m.treasury, t);
                &&& t == (if m.income > 0 {
                    m.income as int
                } else {
                    0
                })
                &&& final(self)@ == (LedgerModel { income: (m2.income - t) as i128, ..m2 })
            },
            r matches Ok(t) ==> (old(self)@.conserved() && old(self)@.income >= 0 ==> t == old(
                self,
            )@.supply - old(self)@.unrated_supply - old(self)@.rated_units),
    {
        let treasury = self.treasury;
        if treasury == 0 {
            return Err(TokenError::ZeroRecipientAddress);
        }
        self.index.accrue(now);
        proof {
            self.lemma_same_accounts_keep_ok(old(self)@);
        }
        let tax: u128 = if self.income > 0 {
            self.income as u128
        } else {
            0
        };
        self.credit(treasury, tax);
        self.supply = self.supply + tax;
        self.income = self.income - (tax as i128);
        Ok(tax)
    }

    /// Hand the accumulated income to the profit controller and reset it.
    /// The returned amount (possibly negative) is what the host reports to
    /// the controller's `collect_profit`.
    pub fn give_profit(&mut self, caller: u64) -> (r: Result<i128, PGeneratingError>)
        requires
            old(self).wf(),
        ensures
            final(self).wf(),
            caller != old(self)@.profit_controller <==> r == Err::<i128, PGeneratingError>(
                PGeneratingError::Controller,
            ),
            r is Err ==> *final(self) == *old(self),
            r is Ok ==> r == Ok::<i128, PGeneratingError>(old(self)@.income) && final(self)@ == (
            LedgerModel { income: 0, ..old(self)@ }),
    {
        if caller != self.profit_controller {
            return Err(PGeneratingError::Controller);
        }
        let income = self.income;
        self.income = 0;
        proof {
            self.lemma_same_accounts_keep_ok(old(self)@);
        }
        Ok(income)
    }

    /// The ledger after the treasury moved: the incoming treasury is made
    /// exempt, the outgoing one returned to the rated representation, each
    /// only if not already there.  Moving the treasury onto itself does
    /// nothing.
    pub open spec fn spec_treasury_changed(m: LedgerModel, new_treassury: u64) -> LedgerModel {
        if new_treassury == m.treasury {
            m
        } else {
            let m1 = if m.acct(new_treassury).mode is Indexed {
                m.switched(new_treassury)
            } else {
                m
            };
            let m2 = LedgerModel { treasury: new_treassury, ..m1 };
            if m2.acct(m.treasury).mode is Exempt {
                m2.switched(m.treasury)
            } else {
                m2
            }
        }
    }

    /// Machine bounds on a treasury change.
    pub open spec fn spec_treasury_change_fits(m: LedgerModel, new_treassury: u64) -> bool {
        new_treassury != m.treasury ==> {
            let m1 = if m.acct(new_treassury).mode is Indexed {
                m.switched(new_treassury)
            } else {
                m
            };
            let m2 = LedgerModel { treasury: new_treassury, ..m1 };
            &&& (m.acct(new_treassury).mode is Indexed ==> m.switch_fits(new_treassury))
            &&& (m2.acct(m.treasury).mode is Exempt ==> m2.switch_fits(m.treasury))
        }
    }

    /// Move the treasury to another account.  The new treasury joins the
    /// exempt side, the old one returns to the rated side, both at the
    /// index accrued to `now`.
    pub fn change_treassury(&mut self, new_treassury: u64, now: u64) -> (r: Result<
        (),
        TokenError,
    >)
        requires
            old(self).wf(),
            old(self)@.index.accrue_fits(now),
            Self::spec_treasury_change_fits(old(self)@.accrued(now), new_treassury),
        ensures
            final(self).wf(),
            r == Ok::<(), TokenError>(()),
            new_treassury == old(self)@.treasury ==> *final(self) == *old(self),
            new_treassury != old(self)@.treasury ==> final(self)@ == Self::spec_treasury_changed(
                old(self)@.accrued(now),
                new_treassury,
            ),
    {
        if new_treassury == self.treasury {
            return Ok(());
        }
        self.index.accrue(now);
        proof {
            self.lemma_same_accounts_keep_ok(old(self)@);
        }
        let e = self.get_account(new_treassury);
        let incoming_rated = match e.mode {
            AccountMode::Indexed(_, _) => true,
            AccountMode::Exempt(_) => false,
        };
        if incoming_rated {
            self.switch(new_treassury);
        }
        let old_treassury = self.treasury;
        self.treasury = new_treassury;
        proof {
            self.lemma_same_accounts_keep_ok(
                if old(self)@.accrued(now).acct(new_treassury).mode is Indexed {
                    old(self)@.accrued(now).switched(new_treassury)
                } else {
                    old(self)@.accrued(now)
                },
            );
        }
        let e2 = self.get_account(old_treassury);
        let outgoing_exempt = match e2.mode {
            AccountMode::Exempt(_) => true,
            AccountMode::Indexed(_, _) => false,
        };
        if outgoing_exempt {
            self.switch(old_treassury);
        }
        Ok(())
    }
}

/// Conservation under exemption toggling: freezing an account's face value
/// and thawing it again hands back exactly the face value it had, at an
/// unchanged index.  The first conversion stores the floored face, so the
/// round trip can never increase a balance, and here it loses nothing
/// either.
pub proof fn lemma_exemption_round_trip(m: LedgerModel, account: u64)
    requires
        m.wf(),
        m.switch_fits(account),
    ensures
        m.switched(account).face_of(account) == m.face_of(account),
        m.switched(account).switched(account).face_of(account) == m.face_of(account),
{
    let idx = m.index.index_e12;
    match m.acct(account).mode {
        AccountMode::Exempt(b) => {
            lemma_div_by_multiple(b as int, idx as int);
        },
        AccountMode::Indexed(u, s) => {
            if m.accounts.contains_key(account) {
                assert(m.accounts[account].ok());
            }
            lemma_amount_product_fits(u as int, idx as int);
            let fresh = u * idx / (s as int);
            vstd::arithmetic::div_mod::lemma_div_nonincreasing(u * idx, s as int);
            assert(fresh >= 0) by {
                vstd::arithmetic::div_mod::lemma_div_pos_is_pos(u * idx, s as int);
            }
            lemma_div_by_multiple(fresh, idx as int);
        },
    }
}

/// Conservation under every balance-moving operation: an accrual, a mint,
/// a burn, a transfer with its fee, and an exemption switch each keep the
/// supply counter ahead of the stored balances by exactly the income
/// counter.  This is the ledger's supply equation: no operation creates
/// or loses value that the income counter does not account for.
pub proof fn lemma_operations_conserve(m: LedgerModel, a: u64, b: u64, amount: u128, now: u64)
    requires
        m.wf(),
        m.conserved(),
    ensures
        m.accrued(now).conserved(),
        m.credit_fits(a, amount) && m.supply + amount <= AMOUNT_LIMIT ==> m.minted(
            a,
            amount,
        ).conserved(),
        m.debit_fits(a, amount) && amount <= m.face_of(a) && amount <= m.supply ==> m.burned(
            a,
            amount,
        ).conserved(),
        m.switch_fits(a) ==> m.switched(a).conserved(),
        m.transfer_fits(a, b, amount) && amount <= m.face_of(a) ==> m.transferred(
            a,
            b,
            amount,
        ).conserved(),
{
    if m.accounts.contains_key(a) {
        assert(m.accounts[a].ok());
    }
    if m.transfer_fits(a, b, amount) && amount <= m.face_of(a) {
        let afterdebit = m.debited(a, amount);
        if afterdebit.accounts.contains_key(b) {
            assert(afterdebit.accounts[b].ok());
        }
    }
}

/// Accruing the ledger's index twice at one instant equals accruing once:
/// the denominator update is idempotent within a tick.
pub proof fn lemma_ledger_accrual_idempotent(m: LedgerModel, now: u64)
    requires
        m.wf(),
        m.index.accrue_fits(now),
    ensures
        m.accrued(now).accrued(now) == m.accrued(now),
{
    m.index.lemma_accrue_idempotent(now);
}

/// The decision on the recipient's safe-transfer acknowledgement: an
/// explicit rejection and a failed call stop the transfer; a recipient
/// that does not implement the callback (or trapped, which cannot be told
/// apart) is treated as having accepted.
pub fn do_safe_transfer_check(ack: TransferAck) -> (r: Result<(), TokenError>)
    ensures
        r is Ok <==> ack.tolerated(),
        r == Err::<(), TokenError>(TokenError::TransferRejected) <==> ack is Rejected,
        r == Err::<(), TokenError>(TokenError::SafeTransferCheckFailed) <==> ack is CallFailed,
{
    match ack {
        TransferAck::Accepted => Ok(()),
        TransferAck::NotCallable => Ok(()),
        TransferAck::Trapped => Ok(()),
        TransferAck::Rejected => Err(TokenError::TransferRejected),
        TransferAck::CallFailed => Err(TokenError::SafeTransferCheckFailed),
    }
}

/// The packed allowance key of an owner-spender pair.
fn allowance_key(owner: u64, spender: u64) -> (r: u128)
    ensures
        r == spec_allowance_key(owner, spender),
{
    (owner as u128) * 0x1_0000_0000_0000_0000 + (spender as u128)
}

/// Distinct owner-spender pairs pack to distinct allowance keys, so one
/// pair's allowance never shadows another's.
pub proof fn lemma_allowance_key_injective(o1: u64, s1: u64, o2: u64, s2: u64)
    requires
        spec_allowance_key(o1, s1) == spec_allowance_key(o2, s2),
    ensures
        o1 == o2 && s1 == s2,
{
    assert(o1 == o2 && s1 == s2) by (nonlinear_arith)
        requires
            o1 * 0x1_0000_0000_0000_0000 + s1 == o2 * 0x1_0000_0000_0000_0000 + s2,
            s1 < 0x1_0000_0000_0000_0000,
            s2 < 0x1_0000_0000_0000_0000,
            0 <= o1,
            0 <= o2,
    ;
}

} // verus!

//! Profit control: registered generators report their accumulated income
//! to a controller, which pools it and decides how a distribution splits
//! between the treasury and the owner.  Moving the actual share tokens is
//! the host's part; the functions here return the amounts to move.

use std::collections::HashMap;
use vstd::prelude::*;
use vstd::arithmetic::div_mod::{lemma_div_is_ordered, lemma_div_multiples_vanish};
use vstd::arithmetic::mul::lemma_mul_inequality;
use crate::{lemma_amount_product_fits, AMOUNT_LIMIT, E6};

verus! {

/// Raised by a generator handing out its income.
#[derive(Clone, Copy, Debug, PartialEq, Eq, Structural)]
pub enum PGeneratingError {
    /// The caller is not the registered profit controller.
    Controller,
}

/// The errors of the profit controller.
#[derive(Clone, Copy, Debug, PartialEq, Eq, Structural)]
pub enum SPControllingError {
    /// The named account is not a registered profit generator.
    Generator,
    /// There is no positive profit to distribute.
    NoProfit,
    /// A part larger than the whole: the treasury share must stay within
    /// one, that is within `E6`.
    One,
}

/// The profit controller: which accounts count as generators, how much
/// profit is pooled, and what part of a distribution the treasury takes.
pub struct ProfitController {
    pub is_generator: HashMap<u64, bool>,
    pub total_profit: i128,
    pub treasury_address: u64,
    pub treasury_part_e6: u128,
    pub owner: u64,
}

impl ProfitController {
    pub open spec fn wf(self) -> bool {
        &&& self.treasury_part_e6 <= E6
        &&& -0x4000_0000_0000_0000_0000_0000_0000_0000 <= self.total_profit
            <= 0x4000_0000_0000_0000_0000_0000_0000_0000
    }

    pub open spec fn generator_registered(self, account: u64) -> bool {
        self.is_generator@.contains_key(account) && self.is_generator@[account]
    }

    pub fn new(treasury_address: u64, treasury_part_e6: u128, owner: u64) -> (r: ProfitController)
        requires
            treasury_part_e6 <= E6,
        ensures
            r.wf(),
            r.total_profit == 0,
            r.treasury_address == treasury_address,
            r.treasury_part_e6 == treasury_part_e6,
            r.owner == owner,
            forall|a: u64| !r.generator_registered(a),
    {
        ProfitController {
            is_generator: HashMap::new(),
            total_profit: 0,
            treasury_address,
            treasury_part_e6,
            owner,
        }
    }

    /// Pool the profit a generator reported.  Only registered generators
    /// are heard; the host has already called the generator's `give_profit`
    /// and hands its answer in.
    pub fn collect_profit(&mut self, profit_generator: u64, reported_profit: i128) -> (r: Result<
        i128,
        SPControllingError,
    >)
        requires
            old(self).wf(),
            -0x1000_0000_0000_0000_0000_0000_0000_0000 <= reported_profit
                <= 0x1000_0000_0000_0000_0000_0000_0000_0000,
        ensures
            r == Err::<i128, SPControllingError>(SPControllingError::Generator) <==> !old(
                self,
            ).generator_registered(profit_generator),
            r is Ok <==> old(self).generator_registered(profit_generator),
            r is Err ==> *final(self) == *old(self),
            r is Ok ==> r == Ok::<i128, SPControllingError>(reported_profit) && *final(self) == (
            ProfitController {
                total_profit: (old(self).total_profit + reported_profit) as i128,
                ..*old(self)
            }),
    {
        let registered = match self.is_generator.get(&profit_generator) {
            Some(b) => *b,
            None => false,
        };
        if !registered {
            return Err(SPControllingError::Generator);
        }
        self.total_profit = self.total_profit + reported_profit;
        Ok(reported_profit)
    }

    /// Decide a distribution: the pooled profit is zeroed and split, the
    /// treasury's configured part to the treasury, the rest to the owner.
    /// The host moves the two returned amounts.  Fails exactly when no
    /// positive profit is pooled, with nothing changed.
    pub fn distribute_income(&mut self) -> (r: Result<(u128, u128), SPControllingError>)
        requires
            old(self).wf(),
            old(self).total_profit <= AMOUNT_LIMIT,
        ensures
            final(self).wf(),
            old(self).total_profit <= 0 <==> r == Err::<(u128, u128), SPControllingError>(
                SPControllingError::NoProfit,
            ),
            r is Ok <==> old(self).total_profit > 0,
            r is Err ==> *final(self) == *old(self),
            r matches Ok(split) ==> {
                &&& *final(self) == (ProfitController { total_profit: 0, ..*old(self) })
                &&& split.0 == old(self).total_profit * old(self).treasury_part_e6 / (E6 as int)
                &&& split.1 == old(self).total_profit - split.0
            },
    {
        let profit: i128 = self.total_profit;
        if profit <= 0 {
            return Err(SPControllingError::NoProfit);
        }
        self.total_profit = 0;
        proof {
            let p = profit as int;
            let part = self.treasury_part_e6 as int;
            lemma_amount_product_fits(p, part);
            lemma_mul_inequality(part, E6 as int, p);
            lemma_div_is_ordered(p * part, p * (E6 as int), E6 as int);
            lemma_div_multiples_vanish(p, E6 as int);
        }
        let treasury_profit: u128 = profit as u128 * self.treasury_part_e6 / E6;
        Ok((treasury_profit, profit as u128 - treasury_profit))
    }

    /// Register or unregister a profit generator.
    pub fn set_is_generator(&mut self, account: u64, is: bool) -> (r: Result<
        (),
        SPControllingError,
    >)
        ensures
            r == Ok::<(), SPControllingError>(()),
            final(self).is_generator@ == old(self).is_generator@.insert(account, is),
            final(self).total_profit == old(self).total_profit,
            final(self).treasury_address == old(self).treasury_address,
            final(self).treasury_part_e6 == old(self).treasury_part_e6,
            final(self).owner == old(self).owner,
    {
        self.is_generator.insert(account, is);
        Ok(())
    }

    /// Point distributions at another treasury.
    pub fn set_treassury_address(&mut self, new_treassury_address: u64) -> (r: Result<
        (),
        SPControllingError,
    >)
        ensures
            r == Ok::<(), SPControllingError>(()),
            *final(self) == (ProfitController {
                treasury_address: new_treassury_address,
                ..*old(self)
            }),
    {
        self.treasury_address = new_treassury_address;
        Ok(())
    }

    /// Set the treasury's part of a distribution; a part beyond the whole
    /// is refused.
    pub fn set_treassury_part_e6(&mut self, new_treassury_part_e6: u128) -> (r: Result<
        (),
        SPControllingError,
    >)
        ensures
            new_treassury_part_e6 > E6 <==> r == Err::<(), SPControllingError>(
                SPControllingError::One,
            ),
            r is Ok <==> new_treassury_part_e6 <= E6,
            r is Err ==> *final(self) == *old(self),
            r is Ok ==> *final(self) == (ProfitController {
                treasury_part_e6: new_treassury_part_e6,
                ..*old(self)
            }),
    {
        if new_treassury_part_e6 > E6 {
            return Err(SPControllingError::One);
        }
        self.treasury_part_e6 = new_treassury_part_e6;
        Ok(())
    }

    pub fn get_total_profit(&self) -> (r: i128)
        ensures
            r == self.total_profit,
    {
        self.total_profit
    }

    pub fn get_treassury_address(&self) -> (r: u64)
        ensures
            r == self.treasury_address,
    {
        self.treasury_address
    }
}

} // verus!

//! The storage ledger: how much storage currency each account has deposited,
//! and whether that covers a given number of concurrent listings at the
//! marketplace's fixed cost per sale.

use vstd::prelude::*;

use crate::assoc_map::AssocMap;
use vstd::arithmetic::div_mod::{lemma_fundamental_div_mod, lemma_mod_bound};

verus! {

pub struct StorageLedger {
    /// Cumulative storage currency deposited, per account.
    pub deposits: AssocMap<u128>,
    /// Storage cost of one concurrent listing; always positive.
    pub cost_per_sale: u128,
}

impl StorageLedger {
    /// An absent account has paid nothing.
    pub open spec fn spec_paid(self, account: Seq<char>) -> u128 {
        if self.deposits@.contains_key(account) {
            self.deposits@[account]
        } else {
            0
        }
    }

    /// The deposit needed to hold `n` concurrent listings.
    pub open spec fn required_for(self, n: int) -> int {
        n * self.cost_per_sale
    }

    pub open spec fn wf(self) -> bool {
        self.deposits.wf() && self.cost_per_sale > 0
    }

    pub fn new(cost_per_sale: u128) -> (r: StorageLedger)
        requires
            cost_per_sale > 0,
        ensures
            r.wf(),
            r.cost_per_sale == cost_per_sale,
            forall|a: Seq<char>| r.spec_paid(a) == 0,
    {
        StorageLedger { deposits: AssocMap::new(), cost_per_sale }
    }

    pub fn paid_amount(&self, account: &String) -> (r: u128)
        requires
            self.wf(),
        ensures
            r == self.spec_paid(account@),
    {
        match self.deposits.get(account) {
            Some(v) => *v,
            None => 0,
        }
    }

    /// Adds a deposit to an account; the paid amount never decreases.
    pub fn deposit(&mut self, account: String, amount: u128)
        requires
            old(self).wf(),
            old(self).spec_paid(account@) + amount <= u128::MAX,
        ensures
            final(self).wf(),
            final(self).cost_per_sale == old(self).cost_per_sale,
            final(self).spec_paid(account@) == old(self).spec_paid(account@) + amount,
            forall|a: Seq<char>| a != account@ ==> final(self).spec_paid(a) == old(self).spec_paid(
                a,
            ),
    {
        let current = self.paid_amount(&account);
        self.deposits.insert(account, current + amount);
    }

    /// Whether `account` has paid enough storage for `n` concurrent listings.
    pub fn covers(&self, account: &String, n: u128) -> (r: bool)
        requires
            self.wf(),
        ensures
            r == (self.spec_paid(account@) >= self.required_for(n as int)),
    {
        let paid = self.paid_amount(account);
        let r = paid / self.cost_per_sale >= n;
        proof {
            let p = paid as int;
            let c = self.cost_per_sale as int;
            let m = n as int;
            lemma_fundamental_div_mod(p, c);
            lemma_mod_bound(p, c);
            let q = p / c;
            let rem = p % c;
            assert((q >= m) == (p >= m * c)) by (nonlinear_arith)
                requires
                    p == q * c + rem,
                    0 <= rem < c,
                    c > 0,
            ;
        }
        r
    }
}

} // verus!

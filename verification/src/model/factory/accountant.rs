//! The keeper of a factory's bills.
use crate::fixed::Money;
use crate::model::factory::financial_bill::FinancialBill;
use crate::model::factory::window::{Window, WindowView};
use vstd::prelude::*;

verus! {

/// The number of rounds whose bills an accountant keeps.
pub const MAX_BILLS: usize = 20;

/// Keeps the bills of the rounds entered last, one bill per round.
pub struct Accountant {
    ledger: Window<FinancialBill>,
}

impl View for Accountant {
    type V = WindowView<FinancialBill>;

    closed spec fn view(&self) -> WindowView<FinancialBill> {
        self.ledger@
    }
}

/// The books after the bill of `round` was asked for: where there was none,
/// an empty bill was entered for the round.
pub open spec fn books_after_lookup(books: WindowView<FinancialBill>, round: u64) -> WindowView<
    FinancialBill,
> {
    if books.entries.contains_key(round) {
        books
    } else {
        books.recorded(round, FinancialBill::spec_new(0))
    }
}

/// The bill of `round` as it is handed out: the one in the books, or an
/// empty bill where there was none.
pub open spec fn bill_or_default(books: WindowView<FinancialBill>, round: u64) -> FinancialBill {
    if books.entries.contains_key(round) {
        books.entries[round]
    } else {
        FinancialBill::spec_new(0)
    }
}

impl Accountant {
    /// Whether the books are sound, with room for `MAX_BILLS` rounds.
    pub open spec fn wf(&self) -> bool {
        self@.wf() && self@.capacity == MAX_BILLS
    }

    /// The books of a factory that starts with `cash`: one bill, for round
    /// zero, that holds the cash.
    pub fn new(cash: Money) -> (a: Self)
        ensures
            a@.entries == Map::<u64, FinancialBill>::empty().insert(
                0,
                FinancialBill::spec_new(cash),
            ),
            a@.order == seq![0u64],
            a.wf(),
    {
        let mut ledger: Window<FinancialBill> = Window::new(MAX_BILLS);
        ledger.record(0, FinancialBill::new(cash));
        assert(ledger@.order =~= seq![0u64]);
        Accountant { ledger }
    }

    /// Enters `bill` for the round `moment`. A round that the books hold
    /// gets the bill and keeps its place. With any other round, when that
    /// makes more than `MAX_BILLS` rounds, the round entered first leaves the
    /// books.
    pub fn add_bill(&mut self, moment: u64, bill: FinancialBill)
        requires
            old(self).wf(),
        ensures
            final(self)@ == old(self)@.recorded(moment, bill),
            final(self).wf(),
            final(self)@.entries.contains_key(moment),
            final(self)@.entries[moment] == bill,
    {
        self.ledger.record(moment, bill);
    }

    /// The bill of `round`. Where the books hold none, an empty bill is
    /// entered for the round and handed out.
    pub fn get_bill_or_default(&mut self, round: u64) -> (bill: FinancialBill)
        requires
            old(self).wf(),
        ensures
            bill == bill_or_default(old(self)@, round),
            final(self)@ == books_after_lookup(old(self)@, round),
            final(self).wf(),
            final(self)@.entries.contains_key(round),
            final(self)@.entries[round] == bill,
    {
        match self.ledger.get(round) {
            Some(bill) => bill,
            None => {
                let bill = FinancialBill::new(0);
                self.ledger.record(round, bill);
                bill
            },
        }
    }

    /// The bill of `round`, if the books hold one.
    pub fn get_bill(&self, round: u64) -> (r: Option<FinancialBill>)
        ensures
            r == (if self@.entries.contains_key(round) {
                Some(self@.entries[round])
            } else {
                None
            }),
    {
        self.ledger.get(round)
    }

    /// Writes `bill` over the bill of `round`, which the books must hold.
    pub fn store_bill(&mut self, round: u64, bill: FinancialBill)
        requires
            old(self).wf(),
            old(self)@.entries.contains_key(round),
        ensures
            final(self)@ == old(self)@.replaced(round, bill),
            final(self).wf(),
    {
        self.ledger.replace(round, bill);
    }

    /// The number of bills in the books: never more than `MAX_BILLS`.
    pub fn bills_len(&self) -> (n: usize)
        requires
            self.wf(),
        ensures
            n == self@.entries.dom().len(),
            n <= MAX_BILLS,
    {
        self.ledger.len()
    }

    /// The number of rounds entered and not yet gone: never more than
    /// `MAX_BILLS`.
    pub fn moments_len(&self) -> (n: usize)
        requires
            self.wf(),
        ensures
            n == self@.order.len(),
            n <= MAX_BILLS,
    {
        self.ledger.rounds()
    }
}

} // verus!

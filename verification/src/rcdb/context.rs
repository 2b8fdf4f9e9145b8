//! Which runs a query looks at, and which of them it keeps.

use vstd::prelude::*;
use crate::rcdb::cond::{all, combination, formulas_of, Expr, Formula, GroupKind, IntoExprList};
use crate::RunNumber;

verus! {

/// The runs that a query looks at.
#[derive(Debug, Clone)]
pub enum RunSelection {
    /// Every run.
    All,
    /// The runs from `start` to `end`, both included.
    Range { start: RunNumber, end: RunNumber },
    /// The listed runs.
    Runs(Vec<RunNumber>),
}

/// A run selection together with the filters that a run must pass.
#[derive(Debug, Clone)]
pub struct Context {
    selection: RunSelection,
    filters: Vec<Expr>,
}

impl Default for Context {
    /// Every run, no filter.
    fn default() -> (c: Self)
        ensures
            c.spec_selection() is All,
            c.spec_filters().len() == 0,
    {
        Context { selection: RunSelection::All, filters: Vec::new() }
    }
}

impl Context {
    /// The run selection.
    pub closed spec fn spec_selection(&self) -> RunSelection {
        self.selection
    }

    /// The filters, in the order in which they were added.
    pub closed spec fn spec_filters(&self) -> Seq<Expr> {
        self.filters@
    }

    /// The predicates of the filters, in order.
    pub open spec fn predicates(&self) -> Seq<Formula> {
        formulas_of(self.spec_filters(), self.spec_filters().len())
    }

    /// Restricts the context to one run.
    pub fn with_run(self, run: RunNumber) -> (c: Context)
        ensures
            c.spec_selection() matches RunSelection::Runs(runs) && runs@ == seq![run],
            c.spec_filters() == self.spec_filters(),
    {
        let mut runs: Vec<RunNumber> = Vec::new();
        runs.push(run);
        Context { selection: RunSelection::Runs(runs), filters: self.filters }
    }

    /// Restricts the context to the listed runs.
    pub fn with_runs(self, runs: Vec<RunNumber>) -> (c: Context)
        ensures
            c.spec_selection() matches RunSelection::Runs(list) && list@ == runs@,
            c.spec_filters() == self.spec_filters(),
    {
        Context { selection: RunSelection::Runs(runs), filters: self.filters }
    }

    /// Restricts the context to the runs from `start` to `end`, both
    /// included.
    pub fn with_run_range(self, start: RunNumber, end: RunNumber) -> (c: Context)
        ensures
            c.spec_selection() == (RunSelection::Range { start, end }),
            c.spec_filters() == self.spec_filters(),
    {
        Context { selection: RunSelection::Range { start, end }, filters: self.filters }
    }

    /// Adds a filter: the conjunction of `exprs`. A run must pass every
    /// filter of the context.
    pub fn filter<L: IntoExprList>(self, exprs: L) -> (c: Context)
        ensures
            c.spec_selection() == self.spec_selection(),
            c.spec_filters().len() == self.spec_filters().len() + 1,
            c.spec_filters().drop_last() == self.spec_filters(),
            c.spec_filters().last()@ == combination(
                GroupKind::And,
                formulas_of(exprs.listed(), exprs.listed().len()),
            ),
    {
        let list = exprs.into_list();
        let conjunction = all(list);
        let mut filters = self.filters;
        filters.push(conjunction);
        assert(filters@.drop_last() == self.filters@);
        Context { selection: self.selection, filters }
    }

    pub fn selection(&self) -> (r: &RunSelection)
        ensures
            *r == self.spec_selection(),
    {
        &self.selection
    }

    pub fn filters(&self) -> (r: &Vec<Expr>)
        ensures
            r@ == self.spec_filters(),
    {
        &self.filters
    }

    /// The listed runs, where the context lists runs.
    pub fn runs(&self) -> (r: Option<&Vec<RunNumber>>)
        ensures
            match self.spec_selection() {
                RunSelection::Runs(list) => r matches Some(runs) && runs@ == list@,
                _ => r is None,
            },
    {
        match &self.selection {
            RunSelection::Runs(list) => Some(list),
            _ => None,
        }
    }
}

} // verus!

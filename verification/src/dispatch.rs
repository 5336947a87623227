//! The strategy dispatcher: tries the resolution strategies in fixed
//! priority order and keeps the first success.
//!
//! The dispatcher itself performs no lookup, no enumeration and no parsing:
//! it only decides which strategy runs next. The embedding program runs the
//! strategy an action names and reports the outcome back; the dispatcher is
//! done as soon as one strategy succeeds, or once every applicable strategy
//! has failed.

use crate::{ResolveError, ResolvedSymbol};
use vstd::prelude::*;

verus! {

/// The resolution strategies, in the order the dispatcher may name them.
#[derive(Clone, Copy, Debug, PartialEq, Eq, Structural)]
pub enum StrategyKind {
    /// Query the running process's own exported symbol table; no file is
    /// touched.
    DirectSymbolTable,
    /// Enumerate the loaded modules and parse the matched module's backing
    /// file from disk.
    RestrictedFallback,
}

/// Which strategies the current platform offers: whether the process's own
/// symbol table can be queried directly, and whether the restricted-platform
/// fallback is compiled in.
#[derive(Clone, Copy, Debug, PartialEq, Eq, Structural)]
pub struct PlatformCaps {
    pub direct_symbol_table: bool,
    pub restricted_fallback: bool,
}

/// What the dispatcher asks for next: run one more strategy, or stop with
/// the final result.
#[derive(Clone, Copy, Debug, PartialEq, Eq, Structural)]
pub enum DispatchAction {
    Run(StrategyKind),
    Finished(Option<ResolvedSymbol>),
}

/// The strategy order a platform yields: the direct strategy first when it
/// is available, then the fallback when it is compiled in.
pub open spec fn spec_strategy_order(caps: PlatformCaps) -> Seq<StrategyKind> {
    (if caps.direct_symbol_table {
        seq![StrategyKind::DirectSymbolTable]
    } else {
        Seq::empty()
    }) + (if caps.restricted_fallback {
        seq![StrategyKind::RestrictedFallback]
    } else {
        Seq::empty()
    })
}

/// Tries strategies in fixed priority order; the first success wins and no
/// later strategy is attempted.
pub struct Dispatcher {
    order: Vec<StrategyKind>,
    position: usize,
    resolved: Option<ResolvedSymbol>,
}

impl Dispatcher {
    /// The strategies this dispatcher will try, in priority order.
    pub closed spec fn strategies(self) -> Seq<StrategyKind> {
        self.order@
    }

    /// How many strategies have been attempted so far.
    pub closed spec fn attempted(self) -> int {
        self.position as int
    }

    /// The first success reported, if any.
    pub closed spec fn resolution(self) -> Option<ResolvedSymbol> {
        self.resolved
    }

    pub open spec fn wf(self) -> bool {
        self.attempted() <= self.strategies().len()
    }

    /// The action the dispatcher takes in its current state: once a strategy
    /// has succeeded, or every strategy has been attempted, the dispatcher is
    /// finished; otherwise the next strategy in priority order runs.
    pub open spec fn spec_action(self) -> DispatchAction {
        if self.resolution() is Some {
            DispatchAction::Finished(self.resolution())
        } else if self.attempted() < self.strategies().len() {
            DispatchAction::Run(self.strategies()[self.attempted()])
        } else {
            DispatchAction::Finished(None)
        }
    }

    /// The state after one strategy's outcome is reported: the same
    /// strategies, one more of them attempted, and the outcome recorded.
    pub closed spec fn spec_after_outcome(self, outcome: Option<ResolvedSymbol>) -> Dispatcher {
        Dispatcher { order: self.order, position: (self.position + 1) as usize, resolved: outcome }
    }

    /// Sets the dispatcher up for the strategies the platform offers, in the
    /// fixed priority order. A platform that offers none is unsupported:
    /// resolution cannot even start.
    pub fn new(caps: PlatformCaps) -> (r: Result<Dispatcher, ResolveError>)
        ensures
            !caps.direct_symbol_table && !caps.restricted_fallback ==> r == Err::<
                Dispatcher,
                ResolveError,
            >(ResolveError::PlatformUnsupported),
            caps.direct_symbol_table || caps.restricted_fallback ==> (r matches Ok(d) && d.wf()
                && d.strategies() == spec_strategy_order(caps) && d.attempted() == 0
                && d.resolution() is None),
    {
        if !caps.direct_symbol_table && !caps.restricted_fallback {
            return Err(ResolveError::PlatformUnsupported);
        }
        let mut order: Vec<StrategyKind> = Vec::new();
        if caps.direct_symbol_table {
            order.push(StrategyKind::DirectSymbolTable);
        }
        if caps.restricted_fallback {
            order.push(StrategyKind::RestrictedFallback);
        }
        proof {
            assert(order@ =~= spec_strategy_order(caps));
        }
        Ok(Dispatcher { order, position: 0, resolved: None })
    }

    /// What to do next; pure, and decided by the current state alone.
    pub fn next_action(&self) -> (a: DispatchAction)
        requires
            self.wf(),
        ensures
            a == self.spec_action(),
    {
        match self.resolved {
            Some(s) => DispatchAction::Finished(Some(s)),
            None => {
                if self.position < self.order.len() {
                    DispatchAction::Run(self.order[self.position])
                } else {
                    DispatchAction::Finished(None)
                }
            },
        }
    }

    /// Records what the strategy named by the pending `Run` action returned:
    /// an address on success, nothing on any failure. May only be called
    /// while a strategy run is pending, so no outcome can ever overwrite an
    /// earlier success.
    pub fn note_outcome(&mut self, outcome: Option<ResolvedSymbol>)
        requires
            old(self).wf(),
            old(self).spec_action() matches DispatchAction::Run(_),
        ensures
            *final(self) == old(self).spec_after_outcome(outcome),
            final(self).wf(),
            final(self).strategies() == old(self).strategies(),
            final(self).attempted() == old(self).attempted() + 1,
            final(self).resolution() == outcome,
    {
        let n = self.order.len();
        assert(self.position < n);
        self.position = self.position + 1;
        self.resolved = outcome;
    }
}

/// Once any strategy has succeeded, the dispatcher is finished with exactly
/// that result: no action naming another strategy — in particular, none
/// naming the fallback — is ever issued again.
pub proof fn lemma_first_success_is_final(d: Dispatcher, s: ResolvedSymbol)
    requires
        d.wf(),
        d.resolution() == Some(s),
    ensures
        d.spec_action() == DispatchAction::Finished(Some(s)),
{
}

/// On a platform that offers both strategies, the direct strategy is named
/// first, and if it succeeds the dispatcher finishes at once with its
/// address: the fallback strategy is never named, so it is never run.
pub proof fn lemma_direct_success_skips_fallback(caps: PlatformCaps, d: Dispatcher, s: ResolvedSymbol)
    requires
        caps.direct_symbol_table,
        caps.restricted_fallback,
        d.wf(),
        d.strategies() == spec_strategy_order(caps),
        d.attempted() == 0,
        d.resolution() is None,
    ensures
        d.spec_action() == DispatchAction::Run(StrategyKind::DirectSymbolTable),
        d.spec_after_outcome(Some(s)).spec_action() == DispatchAction::Finished(Some(s)),
{
    assert(spec_strategy_order(caps)[0] == StrategyKind::DirectSymbolTable);
}

/// The dispatcher reports an absent result only after every applicable
/// strategy has been attempted and none has succeeded.
pub proof fn lemma_absent_only_after_all_strategies(d: Dispatcher)
    requires
        d.wf(),
    ensures
        d.spec_action() == DispatchAction::Finished(None::<ResolvedSymbol>) ==> d.attempted()
            == d.strategies().len() && d.resolution() is None,
{
}

/// Collapses a strategy's outcome to what the dispatcher — and so the
/// external caller — sees: the error taxonomy is never exposed, every
/// failure becomes an absent result.
pub fn collapse_outcome(r: &Result<ResolvedSymbol, ResolveError>) -> (o: Option<ResolvedSymbol>)
    ensures
        o == (match r {
            Ok(s) => Some(*s),
            Err(_) => None::<ResolvedSymbol>,
        }),
{
    match r {
        Ok(s) => Some(*s),
        Err(_) => None,
    }
}

} // verus!

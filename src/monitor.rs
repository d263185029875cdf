//! One vault's monitoring cycle as a state machine.
//!
//! The caller performs each action (reading the chain, asking the strategy,
//! sending the transaction, alerting, sleeping) and feeds back what happened;
//! `step` decides what comes next. A failure anywhere ends the cycle with an
//! alert and returns to `Idle`, so the next interval starts a fresh cycle.
use vstd::prelude::*;
use crate::engine::{
    evaluate_vault, plan_rebalance, evaluation_spec, plan_spec, Decision, DecisionModel,
    Evaluation, RangeRecommendation, RebalancePlan, SkipReason,
};
use crate::types::{VaultDetails, VaultTokenBalances};
use crate::MathError;

verus! {

/// Where a cycle stands.
#[derive(Clone, Copy, Debug, PartialEq, Eq, Structural)]
pub enum CycleState {
    /// Between cycles.
    Idle,
    /// Waiting for the vault's live state.
    Refreshing,
    /// Waiting for the strategy's range.
    AwaitingStrategy,
    /// Waiting for the outcome of the submitted plan.
    Submitting(RebalancePlan),
}

/// What the caller reports back.
#[derive(Clone, Copy, Debug, PartialEq, Eq, Structural)]
pub enum CycleEvent {
    /// The monitoring interval has elapsed.
    IntervalElapsed,
    /// The vault's live state was read; it is passed to `step` beside the event.
    Refreshed,
    /// Reading the chain failed.
    ChainCallFailed,
    /// The strategy answered.
    StrategyAnswered(RangeRecommendation),
    /// The strategy could not be reached or its answer could not be read.
    StrategyFailed,
    /// The transaction was confirmed, with its status.
    Submitted(bool),
    /// Sending the transaction or waiting for its receipt failed.
    TransactionFailed,
}

/// Why a cycle failed.
#[derive(Clone, Copy, Debug, PartialEq, Eq, Structural)]
pub enum CycleFailure {
    ChainCall,
    Strategy,
    /// The plan could not be computed.
    Arithmetic(MathError),
    /// The transaction failed or was reverted.
    Transaction,
    /// An event that does not belong to the current state.
    UnexpectedEvent,
}

/// How a cycle ended without failure.
#[derive(Clone, Copy, Debug, PartialEq, Eq, Structural)]
pub enum CycleEnd {
    Skipped(SkipReason),
    Rebalanced,
}

/// What the caller does next.
#[derive(Clone, Copy, Debug, PartialEq, Eq, Structural)]
pub enum CycleAction {
    /// Read the vault's live state and idle balances.
    Refresh,
    /// Ask the strategy for a range.
    AskStrategy,
    /// Send the rebalance transaction.
    Submit(RebalancePlan),
    /// Notify the operators, then wait for the next interval.
    Alert(CycleFailure),
    /// Wait for the next interval.
    Sleep(CycleEnd),
}

/// Whether `next` is the transition of a cycle in `state` on `event`; `vault`
/// and `idle` are the vault's state and idle balances as last refreshed.
pub open spec fn is_step(
    state: CycleState,
    event: CycleEvent,
    vault: VaultDetails,
    idle: VaultTokenBalances,
    next: (CycleState, CycleAction),
) -> bool {
    match (state, event) {
        (CycleState::Idle, CycleEvent::IntervalElapsed) => next == (CycleState::Refreshing, CycleAction::Refresh),
        (CycleState::Refreshing, CycleEvent::Refreshed) => match evaluation_spec(vault, idle) {
            Evaluation::Skip(reason) => next == (CycleState::Idle, CycleAction::Sleep(CycleEnd::Skipped(reason))),
            Evaluation::ConsultStrategy => next == (CycleState::AwaitingStrategy, CycleAction::AskStrategy),
        },
        (CycleState::Refreshing, CycleEvent::ChainCallFailed) => next == (
            CycleState::Idle,
            CycleAction::Alert(CycleFailure::ChainCall),
        ),
        (CycleState::AwaitingStrategy, CycleEvent::StrategyAnswered(rec)) => match plan_spec(vault, idle, rec) {
            Ok(DecisionModel::Skip(reason)) => next == (CycleState::Idle, CycleAction::Sleep(CycleEnd::Skipped(reason))),
            Ok(DecisionModel::Planned(m)) => {
                &&& next.0 matches CycleState::Submitting(p)
                &&& next.1 == CycleAction::Submit(p)
                &&& Decision::Planned(p).model() == DecisionModel::Planned(m)
            },
            Err(e) => next == (CycleState::Idle, CycleAction::Alert(CycleFailure::Arithmetic(e))),
        },
        (CycleState::AwaitingStrategy, CycleEvent::StrategyFailed) => next == (
            CycleState::Idle,
            CycleAction::Alert(CycleFailure::Strategy),
        ),
        (CycleState::Submitting(_), CycleEvent::Submitted(true)) => next == (
            CycleState::Idle,
            CycleAction::Sleep(CycleEnd::Rebalanced),
        ),
        (CycleState::Submitting(_), CycleEvent::Submitted(false)) => next == (
            CycleState::Idle,
            CycleAction::Alert(CycleFailure::Transaction),
        ),
        (CycleState::Submitting(_), CycleEvent::TransactionFailed) => next == (
            CycleState::Idle,
            CycleAction::Alert(CycleFailure::Transaction),
        ),
        _ => next == (CycleState::Idle, CycleAction::Alert(CycleFailure::UnexpectedEvent)),
    }
}

/// The next state of a cycle and the action the caller performs.
pub fn step(
    state: CycleState,
    event: CycleEvent,
    vault: &VaultDetails,
    idle: &VaultTokenBalances,
) -> (r: (CycleState, CycleAction))
    ensures
        is_step(state, event, *vault, *idle, r),
{
    match (state, event) {
        (CycleState::Idle, CycleEvent::IntervalElapsed) => (CycleState::Refreshing, CycleAction::Refresh),
        (CycleState::Refreshing, CycleEvent::Refreshed) => match evaluate_vault(vault, idle) {
            Evaluation::Skip(reason) => (CycleState::Idle, CycleAction::Sleep(CycleEnd::Skipped(reason))),
            Evaluation::ConsultStrategy => (CycleState::AwaitingStrategy, CycleAction::AskStrategy),
        },
        (CycleState::Refreshing, CycleEvent::ChainCallFailed) => (
            CycleState::Idle,
            CycleAction::Alert(CycleFailure::ChainCall),
        ),
        (CycleState::AwaitingStrategy, CycleEvent::StrategyAnswered(rec)) => match plan_rebalance(vault, idle, &rec) {
            Ok(Decision::Skip(reason)) => (CycleState::Idle, CycleAction::Sleep(CycleEnd::Skipped(reason))),
            Ok(Decision::Planned(p)) => (CycleState::Submitting(p), CycleAction::Submit(p)),
            Err(e) => (CycleState::Idle, CycleAction::Alert(CycleFailure::Arithmetic(e))),
        },
        (CycleState::AwaitingStrategy, CycleEvent::StrategyFailed) => (
            CycleState::Idle,
            CycleAction::Alert(CycleFailure::Strategy),
        ),
        (CycleState::Submitting(_), CycleEvent::Submitted(true)) => (
            CycleState::Idle,
            CycleAction::Sleep(CycleEnd::Rebalanced),
        ),
        (CycleState::Submitting(_), CycleEvent::Submitted(false)) => (
            CycleState::Idle,
            CycleAction::Alert(CycleFailure::Transaction),
        ),
        (CycleState::Submitting(_), CycleEvent::TransactionFailed) => (
            CycleState::Idle,
            CycleAction::Alert(CycleFailure::Transaction),
        ),
        _ => (CycleState::Idle, CycleAction::Alert(CycleFailure::UnexpectedEvent)),
    }
}

/// Every failure ends the cycle: an alert always leaves the machine idle,
/// ready for the next interval.
pub proof fn lemma_failure_returns_to_idle(
    state: CycleState,
    event: CycleEvent,
    vault: VaultDetails,
    idle: VaultTokenBalances,
    next: (CycleState, CycleAction),
)
    requires
        is_step(state, event, vault, idle, next),
        next.1 is Alert,
    ensures
        next.0 == CycleState::Idle,
{
}

} // verus!

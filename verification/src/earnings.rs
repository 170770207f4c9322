//! Settling earnings into balances: the steps one earning goes through,
//! from being marked processed to its amount landing on an account.

use vstd::prelude::*;

verus! {

/// Seconds between two settlement rounds.
pub const PROCESS_INTERVAL: u64 = 30;

/// Where the settlement of one earning stands: the step to perform next.
#[derive(Clone, Copy, Debug, PartialEq, Eq, Structural)]
pub enum EarningStep {
    /// Mark the earning processed.
    MarkProcessed,
    /// Look up the account of the earning's user on its coin.
    FindAccount,
    /// Credit the earning's amount to the account found.
    CreditBalance,
    /// Delete the earning, whose account does not exist.
    DeleteEarning,
    /// Nothing more is done with the earning.
    Done,
}

/// How the step just performed turned out.
#[derive(Clone, Copy, Debug, PartialEq, Eq, Structural)]
pub enum StepOutcome {
    /// The update went through, or the account was found.
    Succeeded,
    /// The update failed, or there is no such account.
    Failed,
}

/// The step after `step`, given how `step` turned out. An earning that
/// could not be marked processed is left for a later round; one without an
/// account is deleted; a credit or a deletion ends its settlement whatever
/// came of it.
pub open spec fn step_after(step: EarningStep, outcome: StepOutcome) -> EarningStep {
    match step {
        EarningStep::MarkProcessed => if outcome == StepOutcome::Succeeded {
            EarningStep::FindAccount
        } else {
            EarningStep::Done
        },
        EarningStep::FindAccount => if outcome == StepOutcome::Succeeded {
            EarningStep::CreditBalance
        } else {
            EarningStep::DeleteEarning
        },
        _ => EarningStep::Done,
    }
}

/// The step an earning stands at after the outcomes `outcomes`, starting
/// from the first step.
pub open spec fn step_after_all(outcomes: Seq<StepOutcome>) -> EarningStep
    decreases outcomes.len(),
{
    if outcomes.len() == 0 {
        EarningStep::MarkProcessed
    } else {
        step_after(step_after_all(outcomes.drop_last()), outcomes.last())
    }
}

/// The first step of an earning's settlement.
pub fn first_earning_step() -> (s: EarningStep)
    ensures
        s == step_after_all(Seq::empty()),
{
    EarningStep::MarkProcessed
}

/// The step after `step`, given how `step` turned out.
pub fn next_earning_step(step: EarningStep, outcome: StepOutcome) -> (next: EarningStep)
    ensures
        next == step_after(step, outcome),
{
    match step {
        EarningStep::MarkProcessed => match outcome {
            StepOutcome::Succeeded => EarningStep::FindAccount,
            StepOutcome::Failed => EarningStep::Done,
        },
        EarningStep::FindAccount => match outcome {
            StepOutcome::Succeeded => EarningStep::CreditBalance,
            StepOutcome::Failed => EarningStep::DeleteEarning,
        },
        _ => EarningStep::Done,
    }
}

/// Where an earning stands after the first `k` outcomes, for each `k`:
/// after none it is to be marked, after one it is looked up or done, after
/// two it is credited, deleted or done, and after more it is done.
proof fn lemma_steps(outcomes: Seq<StepOutcome>)
    ensures
        outcomes.len() == 0 ==> step_after_all(outcomes) == EarningStep::MarkProcessed,
        outcomes.len() == 1 ==> step_after_all(outcomes) == (if outcomes[0]
            == StepOutcome::Succeeded {
            EarningStep::FindAccount
        } else {
            EarningStep::Done
        }),
        outcomes.len() == 2 ==> step_after_all(outcomes) == (if outcomes[0]
            == StepOutcome::Succeeded {
            if outcomes[1] == StepOutcome::Succeeded {
                EarningStep::CreditBalance
            } else {
                EarningStep::DeleteEarning
            }
        } else {
            EarningStep::Done
        }),
        outcomes.len() > 2 ==> step_after_all(outcomes) == EarningStep::Done,
    decreases outcomes.len(),
{
    if outcomes.len() > 0 {
        lemma_steps(outcomes.drop_last());
        if outcomes.len() == 2 {
            assert(outcomes.drop_last()[0] == outcomes[0]);
        }
    }
}

/// A balance is credited only with an earning that was marked processed
/// and whose account was found, and at most once: only right after those
/// two steps.
pub proof fn law_credit_only_after_mark_and_lookup(outcomes: Seq<StepOutcome>)
    ensures
        step_after_all(outcomes) == EarningStep::CreditBalance ==> outcomes.len() == 2
            && outcomes[0] == StepOutcome::Succeeded && outcomes[1] == StepOutcome::Succeeded,
{
    lemma_steps(outcomes);
}

/// An earning is deleted only when it was marked processed and no account
/// was found for it.
pub proof fn law_delete_only_without_account(outcomes: Seq<StepOutcome>)
    ensures
        step_after_all(outcomes) == EarningStep::DeleteEarning ==> outcomes.len() == 2
            && outcomes[0] == StepOutcome::Succeeded && outcomes[1] == StepOutcome::Failed,
{
    lemma_steps(outcomes);
}

/// Settlement ends: after three outcomes an earning is done, and stays so.
pub proof fn law_settlement_ends(outcomes: Seq<StepOutcome>)
    ensures
        outcomes.len() >= 3 ==> step_after_all(outcomes) == EarningStep::Done,
{
    lemma_steps(outcomes);
}

} // verus!

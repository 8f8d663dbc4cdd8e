//! A whole run without its input and output: selecting the case or cases
//! of a parsed document, and tallying the outcomes of a batch.

use vstd::prelude::*;

use crate::case::{CaseModel, ChallengeCase};
use crate::command::{ChallengeCommand, CommandModel};
use crate::errors::{ChallengeCaseError, ChallengeExecutionError, ChallengeParseError, ProgramError};
use crate::overlay::{empty_model, strings_view, CommandConfig};
use crate::parsing::{commanded, lacks_command, resolves_to, ChallengeConfigData};
use crate::tree::{locate, locate_all, located_pair, located_pairs, walk_matches, ChallengeConfig};

verus! {

/// `r` failed to resolve `data` exactly when a part of it lacks a command,
/// and then names such a part.
pub open spec fn resolution_failure<T>(data: ChallengeConfigData, r: Result<T, ProgramError>) -> bool {
    &&& !commanded(data.node, false) <==> (r is Err && r->Err_0 is ParseError)
    &&& (r is Err && r->Err_0 is ParseError) ==> match r->Err_0 {
        ProgramError::ParseError(ChallengeParseError::NoCommandFound(n)) => lacks_command(
            data.node,
            data.name@,
            false,
            n@,
        ),
        _ => false,
    }
}

/// A run's result as a lookup result. Only used where the run got past
/// resolution, so that its error, if any, is a lookup error.
pub open spec fn case_part<T>(r: Result<T, ProgramError>) -> Result<T, ChallengeCaseError> {
    match r {
        Ok(x) => Ok(x),
        Err(ProgramError::InputCaseError(e)) => Err(e),
        Err(_) => Err(ChallengeCaseError::NotEnoughCases),
    }
}

/// Whether `r` is a result of resolution or of a lookup.
pub open spec fn resolved_or_looked_up<T>(r: Result<T, ProgramError>) -> bool {
    r is Ok || r->Err_0 is ParseError || r->Err_0 is InputCaseError
}

/// Resolves the document `data` and selects the case that `cases` names in
/// it, with no overlay added.
pub fn select_case(data: ChallengeConfigData, cases: Vec<String>) -> (r: Result<
    (ChallengeCommand, ChallengeCase),
    ProgramError,
>)
    ensures
        resolved_or_looked_up(r),
        resolution_failure(data, r),
        commanded(data.node, false) ==> exists|t: ChallengeConfig|
            #[trigger] resolves_to(data.node, data.name@, None, empty_model(), t) && walk_matches(
                locate(t, strings_view(cases@), empty_model()),
                case_part(r),
                |r: (ChallengeCommand, ChallengeCase), w: (CommandModel, CaseModel)|
                    located_pair(r, w),
            ),
{
    let tree = match ChallengeConfig::try_from(data) {
        Ok(t) => t,
        Err(e) => {
            return Err(ProgramError::ParseError(e));
        },
    };
    let r = tree.resolve_case(cases, CommandConfig::empty());
    match r {
        Ok(x) => Ok(x),
        Err(e) => Err(ProgramError::InputCaseError(e)),
    }
}

/// Resolves the document `data` and selects every case that `cases`
/// names in it for a batch run, with no overlay added.
pub fn select_cases(data: ChallengeConfigData, cases: Vec<String>) -> (r: Result<
    Vec<(ChallengeCommand, ChallengeCase)>,
    ProgramError,
>)
    ensures
        resolved_or_looked_up(r),
        resolution_failure(data, r),
        commanded(data.node, false) ==> exists|t: ChallengeConfig|
            #[trigger] resolves_to(data.node, data.name@, None, empty_model(), t) && walk_matches(
                locate_all(t, strings_view(cases@), empty_model()),
                case_part(r),
                |r: Vec<(ChallengeCommand, ChallengeCase)>, w: Seq<(CommandModel, CaseModel)>|
                    located_pairs(r, w),
            ),
{
    let tree = match ChallengeConfig::try_from(data) {
        Ok(t) => t,
        Err(e) => {
            return Err(ProgramError::ParseError(e));
        },
    };
    let r = tree.resolve_cases(cases, CommandConfig::empty());
    match r {
        Ok(x) => Ok(x),
        Err(e) => Err(ProgramError::InputCaseError(e)),
    }
}

/// How one case of a batch ended.
#[derive(Debug, Clone, Copy, PartialEq, Eq)]
pub enum Verdict {
    Passed,
    /// The output differed from the expected one.
    Failed,
    /// The case could not be run.
    Errored,
}

/// The verdict on a case's outcome.
pub open spec fn verdict_of(r: Result<(), ChallengeExecutionError>) -> Verdict {
    match r {
        Ok(()) => Verdict::Passed,
        Err(ChallengeExecutionError::UnexpectedOutput { .. }) => Verdict::Failed,
        Err(_) => Verdict::Errored,
    }
}

/// How many outcomes of `s` have the verdict `v`.
pub open spec fn count_verdict(s: Seq<Result<(), ChallengeExecutionError>>, v: Verdict) -> nat
    decreases s.len(),
{
    if s.len() == 0 {
        0
    } else {
        count_verdict(s.drop_last(), v) + if verdict_of(s.last()) == v {
            1nat
        } else {
            0nat
        }
    }
}

/// The tally of a batch run.
#[derive(Debug)]
pub struct BatchSummary {
    pub passed: usize,
    pub failed: usize,
    pub errored: usize,
}

impl BatchSummary {
    /// The verdict on one outcome.
    pub fn verdict(outcome: &Result<(), ChallengeExecutionError>) -> (r: Verdict)
        ensures
            r == verdict_of(*outcome),
    {
        match outcome {
            Ok(()) => Verdict::Passed,
            Err(ChallengeExecutionError::UnexpectedOutput { .. }) => Verdict::Failed,
            Err(_) => Verdict::Errored,
        }
    }

    /// Tallies the outcomes of every case of a batch, each counted once.
    pub fn summarize(outcomes: &Vec<Result<(), ChallengeExecutionError>>) -> (r: BatchSummary)
        ensures
            r.passed == count_verdict(outcomes@, Verdict::Passed),
            r.failed == count_verdict(outcomes@, Verdict::Failed),
            r.errored == count_verdict(outcomes@, Verdict::Errored),
            r.passed + r.failed + r.errored == outcomes.len(),
    {
        let mut r = BatchSummary { passed: 0, failed: 0, errored: 0 };
        let mut i: usize = 0;
        while i < outcomes.len()
            invariant
                i <= outcomes.len(),
                r.passed == count_verdict(outcomes@.subrange(0, i as int), Verdict::Passed),
                r.failed == count_verdict(outcomes@.subrange(0, i as int), Verdict::Failed),
                r.errored == count_verdict(outcomes@.subrange(0, i as int), Verdict::Errored),
                r.passed + r.failed + r.errored == i,
            decreases outcomes.len() - i,
        {
            let ghost next = outcomes@.subrange(0, i + 1);
            assert(next.drop_last() =~= outcomes@.subrange(0, i as int));
            assert(next.last() == outcomes@[i as int]);
            match BatchSummary::verdict(&outcomes[i]) {
                Verdict::Passed => r.passed += 1,
                Verdict::Failed => r.failed += 1,
                Verdict::Errored => r.errored += 1,
            }
            i += 1;
        }
        assert(outcomes@.subrange(0, i as int) =~= outcomes@);
        r
    }
}

/// Whether a directory entry is a challenge file by its name.
pub fn is_challenge_file_name(name: &str) -> (r: bool)
    ensures
        r == (name@ == "challenge.yml"@ || name@ == "challenge.yaml"@),
{
    let n = String::from_str(name);
    let yml = String::from_str("challenge.yml");
    let yaml = String::from_str("challenge.yaml");
    n == yml || n == yaml
}

} // verus!

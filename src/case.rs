//! Cases: what one run is fed and what it must print, the plan for running
//! it, and the check of its output.

use vstd::prelude::*;

use crate::command::{materialized, ChallengeCommand, CommandLine};
use crate::errors::ChallengeExecutionError;
use crate::overlay::{copy_assignments, copy_strings, env_map, strings_view, CommandConfig, ConfigModel};

verus! {

/// A text given literally, or the name of a file, relative to the
/// challenge directory, that holds it.
#[derive(Debug)]
pub enum StringReference {
    Immediate(String),
    File { file: String },
}

impl StringReference {
    /// Copies this reference.
    pub fn duplicate(&self) -> (r: StringReference)
        ensures
            r == *self,
    {
        match self {
            StringReference::Immediate(s) => StringReference::Immediate(s.clone()),
            StringReference::File { file } => StringReference::File { file: file.clone() },
        }
    }
}

/// What a case must print on its standard output.
#[derive(Debug)]
pub struct ChallengeExpectation {
    pub stdout: StringReference,
}

impl ChallengeExpectation {
    /// Copies this expectation.
    pub fn duplicate(&self) -> (r: ChallengeExpectation)
        ensures
            r == *self,
    {
        ChallengeExpectation { stdout: self.stdout.duplicate() }
    }
}

/// A case after resolution: its own name, the name of the part that owns
/// it, its fully merged configuration, and its input and expectation.
#[derive(Debug)]
pub struct ChallengeCase {
    pub name: String,
    pub parent_name: String,
    pub config: CommandConfig,
    pub stdin: Option<StringReference>,
    pub expected: Option<ChallengeExpectation>,
}

/// The mathematical content of a [`ChallengeCase`].
pub struct CaseModel {
    pub name: Seq<char>,
    pub parent_name: Seq<char>,
    pub config: ConfigModel,
    pub stdin: Option<StringReference>,
    pub expected: Option<ChallengeExpectation>,
}

impl View for ChallengeCase {
    type V = CaseModel;

    open spec fn view(&self) -> CaseModel {
        CaseModel {
            name: self.name@,
            parent_name: self.parent_name@,
            config: self.config@,
            stdin: self.stdin,
            expected: self.expected,
        }
    }
}

fn copy_stdin(s: &Option<StringReference>) -> (r: Option<StringReference>)
    ensures
        r == *s,
{
    match s {
        Some(x) => Some(x.duplicate()),
        None => None,
    }
}

fn copy_expected(e: &Option<ChallengeExpectation>) -> (r: Option<ChallengeExpectation>)
    ensures
        r == *e,
{
    match e {
        Some(x) => Some(x.duplicate()),
        None => None,
    }
}

/// Everything needed to start the process of a case and judge its output.
#[derive(Debug)]
pub struct ExecutionPlan {
    pub program: String,
    pub args: Vec<String>,
    /// Assignments applied in order; a later one for a key wins.
    pub environment: Vec<(String, String)>,
    pub stdin: Option<StringReference>,
    pub expected: Option<ChallengeExpectation>,
}

/// The arguments a configuration appends, none where it sets none.
pub open spec fn appended_arguments(c: ConfigModel) -> Seq<Seq<char>> {
    match c.arguments {
        Some(a) => a,
        None => Seq::empty(),
    }
}

/// The variables a configuration sets, none where it sets none.
pub open spec fn set_variables(c: ConfigModel) -> Map<Seq<char>, Seq<char>> {
    match c.environment {
        Some(e) => e,
        None => Map::empty(),
    }
}

/// The plan for running `case` with `cmd`: the materialized command with the
/// case's arguments after its own tokens, the case's environment, and its
/// input and expectation unchanged.
pub open spec fn plan_matches(case: CaseModel, cmd: ChallengeCommand, r: Result<ExecutionPlan, ChallengeExecutionError>) -> bool {
    match materialized(cmd@, case.parent_name, case.name) {
        Err(f) => r is Err && r->Err_0 is BadCommand && r->Err_0->BadCommand_0@ == f,
        Ok(t) => r is Ok && seq![r->Ok_0.program@] + strings_view(r->Ok_0.args@) == t
            + appended_arguments(case.config) && env_map(r->Ok_0.environment@) == set_variables(
            case.config,
        ) && r->Ok_0.stdin == case.stdin && r->Ok_0.expected == case.expected,
    }
}

impl ChallengeCase {
    /// Copies this case.
    pub fn duplicate(&self) -> (r: ChallengeCase)
        ensures
            r@ == self@,
    {
        ChallengeCase {
            name: self.name.clone(),
            parent_name: self.parent_name.clone(),
            config: self.config.duplicate(),
            stdin: copy_stdin(&self.stdin),
            expected: copy_expected(&self.expected),
        }
    }

    /// How to run this case with `command`: the command materialized for
    /// this case, followed by the case's arguments, with its environment.
    pub fn plan(&self, command: &ChallengeCommand) -> (r: Result<ExecutionPlan, ChallengeExecutionError>)
        ensures
            plan_matches(self@, *command, r),
    {
        let line: CommandLine = match command.get_command(self.parent_name.as_str(), self.name.as_str()) {
            Ok(l) => l,
            Err(e) => {
                return Err(ChallengeExecutionError::BadCommand(e));
            },
        };
        let CommandLine { program, args } = line;
        let mut args = args;
        let ghost cmd_args = strings_view(args@);
        match &self.config.arguments {
            Some(extra) => {
                let mut more = copy_strings(extra);
                args.append(&mut more);
                assert(strings_view(args@) =~= cmd_args + strings_view(extra@));
            },
            None => {
                assert(cmd_args + Seq::<Seq<char>>::empty() =~= cmd_args);
            },
        }
        let environment = match &self.config.environment {
            Some(env) => copy_assignments(env),
            None => Vec::new(),
        };
        assert(seq![program@] + strings_view(args@) =~= seq![program@] + cmd_args
            + appended_arguments(self@.config));
        assert(env_map(environment@) =~= set_variables(self@.config));
        Ok(ExecutionPlan {
            program,
            args,
            environment,
            stdin: copy_stdin(&self.stdin),
            expected: copy_expected(&self.expected),
        })
    }
}

/// Whether `c` has the Unicode `White_Space` property.
pub uninterp spec fn is_white_space(c: char) -> bool;

/// `s[i..j]` is `s` without its leading and trailing white space.
pub open spec fn trim_bounds(s: Seq<char>, i: int, j: int) -> bool {
    &&& 0 <= i <= j <= s.len()
    &&& forall|k: int| 0 <= k < i ==> is_white_space(#[trigger] s[k])
    &&& forall|k: int| j <= k < s.len() ==> is_white_space(#[trigger] s[k])
    &&& i < j ==> !is_white_space(s[i]) && !is_white_space(s[j - 1])
}

/// The text with leading and trailing white space removed.
pub open spec fn trim_of(s: Seq<char>) -> Seq<char> {
    if exists|i: int, j: int| trim_bounds(s, i, j) {
        let (i, j) = choose|i: int, j: int| trim_bounds(s, i, j);
        s.subrange(i, j)
    } else {
        s
    }
}

/// Any bounds that trim `s` select the same text, so [`trim_of`] does not
/// depend on which bounds it chooses.
pub proof fn lemma_trim_unique(s: Seq<char>, i: int, j: int)
    requires
        trim_bounds(s, i, j),
    ensures
        trim_of(s) == s.subrange(i, j),
{
    let (a, b) = choose|a: int, b: int| trim_bounds(s, a, b);
    assert(trim_bounds(s, a, b));
    if i < j {
        assert(!is_white_space(s[i]) && !is_white_space(s[j - 1]));
        assert(a == i) by {
            if a < i {
                assert(is_white_space(s[a]));
                if a == b {
                    assert(is_white_space(s[i]));
                }
            } else if a > i {
                assert(is_white_space(s[i]));
            }
        }
        assert(b == j) by {
            if b < j {
                assert(is_white_space(s[j - 1]));
            } else if b > j {
                assert(is_white_space(s[b - 1]));
            }
        }
    } else {
        assert(a == b) by {
            if a < b {
                assert(!is_white_space(s[a]));
                if a < i {
                    assert(is_white_space(s[a]));
                } else {
                    assert(is_white_space(s[a]));
                }
            }
        }
        assert(s.subrange(a, b) =~= s.subrange(i, j));
    }
}

/// Relies on `str::trim`: the text without its leading and trailing
/// characters that have the Unicode `White_Space` property.
#[verifier::external_body]
fn trim_text(s: &str) -> (r: &str)
    ensures
        r@ == trim_of(s@),
        r@.len() > 0 ==> !is_white_space(r@[0]) && !is_white_space(r@.last()),
{
    s.trim()
}

/// Judges output that is already trimmed: success where it equals the
/// trimmed expectation, else the full expectation and the trimmed output.
pub fn compare_trimmed(expected_content: String, expected_trimmed: &str, actual_trimmed: &str) -> (r: Result<
    (),
    ChallengeExecutionError,
>)
    ensures
        r is Ok <==> expected_trimmed@ == actual_trimmed@,
        r is Err ==> (match r->Err_0 {
            ChallengeExecutionError::UnexpectedOutput { expected, actual } => expected
                == expected_content && actual@ == actual_trimmed@,
            _ => false,
        }),
{
    let e = String::from_str(expected_trimmed);
    let a = String::from_str(actual_trimmed);
    if e == a {
        Ok(())
    } else {
        Err(ChallengeExecutionError::UnexpectedOutput { expected: expected_content, actual: a })
    }
}

/// Judges the output of a case against the expected text, both with
/// leading and trailing white space ignored.
pub fn check_output(expected_content: String, output: &str) -> (r: Result<(), ChallengeExecutionError>)
    ensures
        r is Ok <==> trim_of(expected_content@) == trim_of(output@),
        r is Err ==> (match r->Err_0 {
            ChallengeExecutionError::UnexpectedOutput { expected, actual } => expected
                == expected_content && actual@ == trim_of(output@),
            _ => false,
        }),
{
    let actual = trim_text(output);
    let expected = trim_text(expected_content.as_str());
    let expected_trimmed = String::from_str(expected);
    compare_trimmed(expected_content, expected_trimmed.as_str(), actual)
}

} // verus!

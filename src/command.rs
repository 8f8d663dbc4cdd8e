//! Commands: a shell string or an argument list, materialized into a
//! program and its arguments for one case.

use vstd::prelude::*;

use crate::errors::CommandParseError;
use crate::overlay::{copy_strings, strings_view};
use crate::template::{bindings_view, expand, template_string};

verus! {

/// How a command is written.
#[derive(Debug)]
pub enum ChallengeCommandScript {
    /// One string, split into words by POSIX shell rules.
    Shell(String),
    /// The program and its arguments, already split.
    Exec(Vec<String>),
}

/// A command, and whether `{{part}}` and `{{case}}` are substituted in it.
#[derive(Debug)]
pub struct ChallengeCommand {
    pub script: ChallengeCommandScript,
    pub template: bool,
}

/// The mathematical content of a [`ChallengeCommandScript`].
pub enum ScriptModel {
    Shell(Seq<char>),
    Exec(Seq<Seq<char>>),
}

/// The mathematical content of a [`ChallengeCommand`].
pub struct CommandModel {
    pub script: ScriptModel,
    pub template: bool,
}

impl View for ChallengeCommandScript {
    type V = ScriptModel;

    open spec fn view(&self) -> ScriptModel {
        match self {
            ChallengeCommandScript::Shell(s) => ScriptModel::Shell(s@),
            ChallengeCommandScript::Exec(l) => ScriptModel::Exec(strings_view(l@)),
        }
    }
}

impl View for ChallengeCommand {
    type V = CommandModel;

    open spec fn view(&self) -> CommandModel {
        CommandModel { script: self.script@, template: self.template }
    }
}

/// A program and the arguments to start it with.
#[derive(Debug)]
pub struct CommandLine {
    pub program: String,
    pub args: Vec<String>,
}

impl View for CommandLine {
    type V = Seq<Seq<char>>;

    /// The program followed by its arguments.
    open spec fn view(&self) -> Seq<Seq<char>> {
        seq![self.program@] + strings_view(self.args@)
    }
}

/// Why a command could not be materialized.
pub enum CommandFailure {
    Malformed(Seq<char>),
    Empty,
}

impl View for CommandParseError {
    type V = CommandFailure;

    open spec fn view(&self) -> CommandFailure {
        match self {
            CommandParseError::MalformedString(s) => CommandFailure::Malformed(s@),
            CommandParseError::EmptyCommand => CommandFailure::Empty,
        }
    }
}

/// The words of `s` by POSIX shell rules, or `None` where its quoting or
/// escaping is unbalanced.
pub uninterp spec fn shell_words_of(s: Seq<char>) -> Option<Seq<Seq<char>>>;

/// Relies on `shlex::split`: the shell words of `s`, or `None` where `s` is
/// malformed. The result depends on the text alone.
#[verifier::external_body]
fn split_shell_words(s: &str) -> (r: Option<Vec<String>>)
    ensures
        match r {
            Some(v) => shell_words_of(s@) == Some(strings_view(v@)),
            None => shell_words_of(s@) is None,
        },
{
    shlex::split(s)
}

/// The bindings offered to a command's template.
pub open spec fn template_bindings(part: Seq<char>, case: Seq<char>) -> Seq<(Seq<char>, Seq<char>)> {
    seq![("part"@, part), ("case"@, case)]
}

/// The tokens after templating, where it is switched on.
pub open spec fn templated_tokens(
    tokens: Seq<Seq<char>>,
    template: bool,
    part: Seq<char>,
    case: Seq<char>,
) -> Seq<Seq<char>> {
    if template {
        tokens.map_values(|t: Seq<char>| expand(t, template_bindings(part, case)))
    } else {
        tokens
    }
}

/// A command line made of `tokens`: the first is the program.
pub open spec fn line_of(tokens: Seq<Seq<char>>) -> Result<Seq<Seq<char>>, CommandFailure> {
    if tokens.len() == 0 {
        Err(CommandFailure::Empty)
    } else {
        Ok(tokens)
    }
}

/// What `cmd` materializes to for the case `case` of the part `part`.
pub open spec fn materialized(cmd: CommandModel, part: Seq<char>, case: Seq<char>) -> Result<
    Seq<Seq<char>>,
    CommandFailure,
> {
    match cmd.script {
        ScriptModel::Shell(s) => match shell_words_of(s) {
            None => Err(CommandFailure::Malformed(s)),
            Some(t) => line_of(templated_tokens(t, cmd.template, part, case)),
        },
        ScriptModel::Exec(l) => line_of(templated_tokens(l, cmd.template, part, case)),
    }
}

/// The view of a materialization result.
pub open spec fn line_result_view(r: Result<CommandLine, CommandParseError>) -> Result<
    Seq<Seq<char>>,
    CommandFailure,
> {
    match r {
        Ok(l) => Ok(l@),
        Err(e) => Err(e@),
    }
}

/// Makes a command line from already split `tokens`, templating each with
/// `{{part}}` and `{{case}}` where `template` is set.
pub fn command_line_from_tokens(tokens: Vec<String>, template: bool, part_name: &str, case_name: &str) -> (r: Result<
    CommandLine,
    CommandParseError,
>)
    ensures
        line_result_view(r) == line_of(
            templated_tokens(strings_view(tokens@), template, part_name@, case_name@),
        ),
{
    let ghost want = templated_tokens(strings_view(tokens@), template, part_name@, case_name@);
    let mut words: Vec<String>;
    if template {
        let context: Vec<(&str, &str)> = vec![("part", part_name), ("case", case_name)];
        assert(bindings_view(context@) =~= template_bindings(part_name@, case_name@));
        words = Vec::new();
        let mut i: usize = 0;
        while i < tokens.len()
            invariant
                i <= tokens.len(),
                bindings_view(context@) == template_bindings(part_name@, case_name@),
                want == templated_tokens(strings_view(tokens@), template, part_name@, case_name@),
                template,
                strings_view(words@) == want.subrange(0, i as int),
            decreases tokens.len() - i,
        {
            let t = template_string(tokens[i].as_str(), &context);
            assert(strings_view(tokens@)[i as int] == tokens@[i as int]@);
            assert(want[i as int] == t@);
            let ghost before = words@;
            let ghost tv = t@;
            words.push(t);
            assert(strings_view(words@) =~= strings_view(before).push(tv));
            assert(want.subrange(0, i + 1) =~= want.subrange(0, i as int).push(tv));
            i += 1;
            assert(strings_view(words@) =~= want.subrange(0, i as int));
        }
        assert(want.subrange(0, i as int) =~= want);
    } else {
        words = tokens;
    }
    if words.len() == 0 {
        Err(CommandParseError::EmptyCommand)
    } else {
        let program = words.remove(0);
        assert(seq![program@] + strings_view(words@) =~= want);
        Ok(CommandLine { program, args: words })
    }
}

impl ChallengeCommandScript {
    /// Copies this script.
    pub fn duplicate(&self) -> (r: ChallengeCommandScript)
        ensures
            r@ == self@,
    {
        match self {
            ChallengeCommandScript::Shell(s) => ChallengeCommandScript::Shell(s.clone()),
            ChallengeCommandScript::Exec(l) => ChallengeCommandScript::Exec(copy_strings(l)),
        }
    }
}

impl ChallengeCommand {
    /// A command written as one shell string, templated.
    pub fn shell(s: String) -> (r: ChallengeCommand)
        ensures
            r@ == (CommandModel { script: ScriptModel::Shell(s@), template: true }),
    {
        ChallengeCommand { script: ChallengeCommandScript::Shell(s), template: true }
    }

    /// Copies this command.
    pub fn duplicate(&self) -> (r: ChallengeCommand)
        ensures
            r@ == self@,
    {
        ChallengeCommand { script: self.script.duplicate(), template: self.template }
    }

    /// The program and arguments that run this command for the case
    /// `case_name` of the part `part_name`.
    pub fn get_command(&self, part_name: &str, case_name: &str) -> (r: Result<CommandLine, CommandParseError>)
        ensures
            line_result_view(r) == materialized(self@, part_name@, case_name@),
    {
        match &self.script {
            ChallengeCommandScript::Shell(s) => match split_shell_words(s.as_str()) {
                None => Err(CommandParseError::MalformedString(s.clone())),
                Some(tokens) => command_line_from_tokens(tokens, self.template, part_name, case_name),
            },
            ChallengeCommandScript::Exec(l) => command_line_from_tokens(
                copy_strings(l),
                self.template,
                part_name,
                case_name,
            ),
        }
    }
}

} // verus!

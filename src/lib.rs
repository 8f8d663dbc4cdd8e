//! Declarative challenge test harness: resolves a tree of groups, parts and
//! cases into runnable commands and checks their output.

pub mod case;
pub mod command;
pub mod errors;
pub mod overlay;
pub mod parsing;
pub mod program;
pub mod template;
pub mod tree;

pub use crate::case::{
    check_output, compare_trimmed, ChallengeCase, ChallengeExpectation, ExecutionPlan,
    StringReference,
};
pub use crate::command::{
    command_line_from_tokens, ChallengeCommand, ChallengeCommandScript, CommandLine,
};
pub use crate::errors::{
    ChallengeCaseError, ChallengeExecutionError, ChallengeFileError, ChallengeParseError,
    CommandParseError, ProgramError, StringReferenceError,
};
pub use crate::overlay::{CommandConfig, ConfigModel};
pub use crate::parsing::{
    ChallengeCaseData, ChallengeCommandData, ChallengeCommandObjectData,
    ChallengeCommandScriptData, ChallengeConfigData, ChallengeConfigGroupData, ChallengeConfigNode,
    ChallengeConfigPartData, ChallengeExpectationData,
};
pub use crate::program::{
    is_challenge_file_name, select_case, select_cases, BatchSummary, Verdict,
};
pub use crate::template::template_string;
pub use crate::tree::{ChallengeConfig, ChallengeConfigGroup, ChallengeConfigPart};

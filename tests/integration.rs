use challenge_script::{
    check_output, select_case, select_cases, BatchSummary, ChallengeCaseData, ChallengeCaseError,
    ChallengeCommand, ChallengeCommandData, ChallengeCommandObjectData,
    ChallengeCommandScriptData, ChallengeConfigData, ChallengeConfigGroupData,
    ChallengeConfigNode, ChallengeConfigPartData, ChallengeExecutionError,
    ChallengeExpectationData, ChallengeCase, ChallengeParseError, CommandConfig,
    CommandParseError, ExecutionPlan, ProgramError, StringReference,
};

fn text(x: &str) -> String {
    x.to_owned()
}

fn texts(v: &[&str]) -> Vec<String> {
    v.iter().map(|x| x.to_string()).collect()
}

fn overlay(args: Option<&[&str]>, env: Option<&[(&str, &str)]>) -> CommandConfig {
    CommandConfig {
        arguments: args.map(texts),
        environment: env.map(|e| e.iter().map(|(k, v)| (text(k), text(v))).collect()),
    }
}

fn no_overlay() -> CommandConfig {
    overlay(None, None)
}

fn case_data(stdin: Option<&str>, expected: Option<&str>, config: CommandConfig) -> ChallengeCaseData {
    ChallengeCaseData {
        config,
        stdin: stdin.map(|s| StringReference::Immediate(text(s))),
        expected: expected.map(|e| ChallengeExpectationData {
            stdout: StringReference::Immediate(text(e)),
        }),
    }
}

fn shell(s: &str) -> Option<ChallengeCommandData> {
    Some(ChallengeCommandData::Shell(text(s)))
}

fn part(
    command: Option<ChallengeCommandData>,
    config: CommandConfig,
    cases: Vec<(&str, ChallengeCaseData)>,
) -> ChallengeConfigNode {
    ChallengeConfigNode::Part(ChallengeConfigPartData {
        command,
        config,
        cases: cases.into_iter().map(|(n, c)| (text(n), c)).collect(),
    })
}

fn group(
    command: Option<ChallengeCommandData>,
    config: CommandConfig,
    parts: Vec<(&str, ChallengeConfigNode)>,
) -> ChallengeConfigNode {
    ChallengeConfigNode::Group(ChallengeConfigGroupData {
        command,
        config,
        parts: parts.into_iter().map(|(n, c)| (text(n), c)).collect(),
    })
}

fn document(name: &str, node: ChallengeConfigNode) -> ChallengeConfigData {
    ChallengeConfigData { name: text(name), node }
}

/// Plays the few programs these documents run: `echo`, `cat` and
/// `printenv`.
fn simulate(plan: &ExecutionPlan) -> String {
    match plan.program.as_str() {
        "echo" => format!("{}\n", plan.args.join(" ")),
        "cat" => match &plan.stdin {
            Some(StringReference::Immediate(s)) => s.clone(),
            _ => String::new(),
        },
        "printenv" => {
            let key = &plan.args[0];
            let value = plan
                .environment
                .iter()
                .rev()
                .find(|(k, _)| k == key)
                .map(|(_, v)| v.clone())
                .unwrap_or_default();
            format!("{value}\n")
        }
        other => panic!("no such program in these tests: {other}"),
    }
}

fn execute(command: &ChallengeCommand, case: &ChallengeCase) -> Result<(), ChallengeExecutionError> {
    let plan = case.plan(command)?;
    let output = simulate(&plan);
    match &plan.expected {
        Some(e) => match &e.stdout {
            StringReference::Immediate(s) => check_output(s.clone(), &output),
            StringReference::File { .. } => panic!("file expectations are not used here"),
        },
        None => Ok(()),
    }
}

fn run_challenge(data: ChallengeConfigData, cases: &[&str]) -> Result<(), ProgramError> {
    let (command, case) = select_case(data, texts(cases))?;
    execute(&command, &case).map_err(ProgramError::ExecutionError)
}

fn run_challenges(data: ChallengeConfigData, cases: &[&str]) -> Result<usize, ProgramError> {
    let selected = select_cases(data, texts(cases))?;
    let outcomes: Vec<_> = selected.iter().map(|(c, k)| execute(c, k)).collect();
    let summary = BatchSummary::summarize(&outcomes);
    assert_eq!(summary.passed, outcomes.len(), "{outcomes:?}");
    Ok(outcomes.len())
}

fn test1() -> ChallengeConfigData {
    document(
        "Test 1",
        part(shell("echo hello"), no_overlay(), vec![("test", case_data(None, Some("hello"), no_overlay()))]),
    )
}

fn test2() -> ChallengeConfigData {
    document(
        "Test 2",
        group(
            None,
            no_overlay(),
            vec![
                (
                    "group1",
                    part(shell("echo group1"), no_overlay(), vec![("test", case_data(None, Some("group1"), no_overlay()))]),
                ),
                (
                    "group2",
                    part(
                        Some(ChallengeCommandData::Exec(texts(&["echo", "group2"]))),
                        no_overlay(),
                        vec![("test", case_data(None, Some("group2"), no_overlay()))],
                    ),
                ),
                (
                    "args",
                    part(
                        shell("echo"),
                        overlay(Some(&["base"]), None),
                        vec![
                            ("test2", case_data(None, Some("base 2"), overlay(Some(&["2"]), None))),
                            ("test4", case_data(None, Some("base 4 four"), overlay(Some(&["4", "four"]), None))),
                        ],
                    ),
                ),
            ],
        ),
    )
}

fn test3() -> ChallengeConfigData {
    document(
        "Test 3",
        group(
            None,
            no_overlay(),
            vec![(
                "group1",
                part(
                    shell("cat"),
                    no_overlay(),
                    vec![
                        ("test", case_data(Some("5\n"), Some("5"), no_overlay())),
                        ("error", case_data(Some("test_2\n"), Some("test_1"), no_overlay())),
                    ],
                ),
            )],
        ),
    )
}

fn env_test() -> ChallengeConfigData {
    let cases = || {
        vec![
            ("toplevel", case_data(None, Some("toplevel"), no_overlay())),
            ("override", case_data(None, Some("override"), overlay(None, Some(&[("VALUE", "override")])))),
        ]
    };
    document(
        "Environment",
        group(
            shell("printenv VALUE"),
            overlay(None, Some(&[("VALUE", "toplevel")])),
            vec![
                ("group1", part(None, no_overlay(), cases())),
                ("group2", group(None, overlay(None, Some(&[("OTHER", "group2")])), vec![("inner", part(None, no_overlay(), cases()))])),
            ],
        ),
    )
}

fn arg_test() -> ChallengeConfigData {
    let cases = || {
        vec![
            ("toplevel", case_data(None, Some("toplevel"), no_overlay())),
            ("override", case_data(None, Some("toplevel override"), overlay(Some(&["override"]), None))),
        ]
    };
    document(
        "Arguments",
        group(
            shell("echo"),
            overlay(Some(&["toplevel"]), None),
            vec![("group1", part(None, no_overlay(), cases())), ("group2", part(None, no_overlay(), cases()))],
        ),
    )
}

#[test]
fn test_success_1() {
    run_challenge(test1(), &["test"]).unwrap();
}

#[test]
fn test_success_2() {
    run_challenge(test2(), &["group1", "test"]).unwrap();
    run_challenge(test2(), &["group2", "test"]).unwrap();
}

#[test]
fn test_success_3() {
    run_challenge(test3(), &["group1", "test"]).unwrap();
}

#[test]
fn test_success_env() {
    run_challenge(env_test(), &["group1", "toplevel"]).unwrap();
    run_challenge(env_test(), &["group1", "override"]).unwrap();
    run_challenge(env_test(), &["group2", "inner", "toplevel"]).unwrap();
    run_challenge(env_test(), &["group2", "inner", "override"]).unwrap();
}

#[test]
fn test_success_arg() {
    run_challenge(arg_test(), &["group1", "toplevel"]).unwrap();
    run_challenge(arg_test(), &["group1", "override"]).unwrap();
    run_challenge(arg_test(), &["group2", "toplevel"]).unwrap();
    run_challenge(arg_test(), &["group2", "override"]).unwrap();
}

fn command_inheritance() -> ChallengeConfigData {
    document(
        "Inheritance",
        group(
            shell("echo inherited"),
            no_overlay(),
            vec![
                ("group1", part(None, no_overlay(), vec![("test", case_data(None, Some("inherited"), no_overlay()))])),
                ("group2", part(shell("echo own"), no_overlay(), vec![("test", case_data(None, Some("own"), no_overlay()))])),
            ],
        ),
    )
}

#[test]
fn test_success_command_inheritance() {
    run_challenge(command_inheritance(), &["group1", "test"]).unwrap();
    run_challenge(command_inheritance(), &["group2", "test"]).unwrap();
}

fn template_test() -> ChallengeConfigData {
    let one = |expected: &str| vec![("test", case_data(None, Some(expected), no_overlay()))];
    document(
        "Templates",
        group(
            None,
            no_overlay(),
            vec![
                ("group1", part(shell("echo {{part}} {{case}}"), no_overlay(), one("group1 test"))),
                (
                    "group2",
                    part(
                        Some(ChallengeCommandData::Object(ChallengeCommandObjectData {
                            script: ChallengeCommandScriptData::Shell(text("echo {{part}}")),
                            template: Some(false),
                        })),
                        no_overlay(),
                        one("{{part}}"),
                    ),
                ),
                (
                    "group3",
                    part(
                        Some(ChallengeCommandData::Exec(texts(&["echo", "{{case}} of {{part}}"]))),
                        no_overlay(),
                        one("test of group3"),
                    ),
                ),
            ],
        ),
    )
}

#[test]
fn test_success_command_templating() {
    run_challenge(template_test(), &["group1", "test"]).unwrap();
    run_challenge(template_test(), &["group2", "test"]).unwrap();
    run_challenge(template_test(), &["group3", "test"]).unwrap();
}

#[test]
fn test_success_arguments() {
    run_challenge(test2(), &["args", "test2"]).unwrap();
    run_challenge(test2(), &["args", "test4"]).unwrap();
}

#[test]
fn test_error_expected() {
    let res = run_challenge(test3(), &["group1", "error"]);

    if let Err(ProgramError::ExecutionError(ChallengeExecutionError::UnexpectedOutput {
        expected,
        actual,
    })) = res
    {
        assert_eq!(expected, "test_1");
        assert_eq!(actual, "test_2");
    } else {
        panic!("Unexpected result: {:?}", res);
    }
}

#[test]
fn test_error_case_not_found_root() {
    let res = run_challenge(test3(), &["group2", "error"]);

    if let Err(ProgramError::InputCaseError(ChallengeCaseError::CaseNotFound { case, config_name })) = res {
        assert_eq!(config_name, "Test 3");
        assert_eq!(case, "group2");
    } else {
        panic!("Unexpected result: {:?}", res);
    }
}

#[test]
fn test_error_case_not_found_nested() {
    let res = run_challenge(test3(), &["group1", "nonexistent"]);

    if let Err(ProgramError::InputCaseError(ChallengeCaseError::CaseNotFound { case, config_name })) = res {
        assert_eq!(config_name, "group1");
        assert_eq!(case, "nonexistent");
    } else {
        panic!("Unexpected result: {:?}", res);
    }
}

#[test]
fn test_error_case_not_enough_cases() {
    let res = run_challenge(test3(), &["group1"]);

    let Err(ProgramError::InputCaseError(ChallengeCaseError::NotEnoughCases)) = res else {
        panic!("Unexpected Error: {res:?}");
    };
}

fn bad() -> ChallengeConfigData {
    document(
        "Bad",
        group(
            None,
            no_overlay(),
            vec![
                ("empty_command", part(Some(ChallengeCommandData::Exec(vec![])), no_overlay(), vec![("doesn't matter", case_data(None, None, no_overlay()))])),
                ("empty_shell", part(shell("   "), no_overlay(), vec![("doesn't matter", case_data(None, None, no_overlay()))])),
                ("malformed_command", part(shell("echo \"not closed"), no_overlay(), vec![("whatever", case_data(None, None, no_overlay()))])),
            ],
        ),
    )
}

#[test]
fn test_error_empty_command() {
    let res = run_challenge(bad(), &["empty_command", "doesn't matter"]);

    let Err(ProgramError::ExecutionError(ChallengeExecutionError::BadCommand(CommandParseError::EmptyCommand))) = res else {
        panic!("Unexpected Error: {res:?}");
    };

    let res = run_challenge(bad(), &["empty_shell", "doesn't matter"]);
    let Err(ProgramError::ExecutionError(ChallengeExecutionError::BadCommand(CommandParseError::EmptyCommand))) = res else {
        panic!("Unexpected Error: {res:?}");
    };
}

#[test]
fn test_error_malformed_command() {
    let res = run_challenge(bad(), &["malformed_command", "whatever"]);

    if let Err(ProgramError::ExecutionError(ChallengeExecutionError::BadCommand(
        CommandParseError::MalformedString(cmd),
    ))) = res
    {
        assert_eq!(cmd, "echo \"not closed");
    } else {
        panic!("Unexpected result: {:?}", res);
    }
}

#[test]
fn test_recursive_all() {
    assert_eq!(run_challenges(test2(), &[]).unwrap(), 4);
}

#[test]
fn test_recursive() {
    assert_eq!(run_challenges(test2(), &["args"]).unwrap(), 2);
}

#[test]
fn recursive_single_case_and_errors() {
    assert_eq!(run_challenges(test2(), &["args", "test4"]).unwrap(), 1);
    let res = run_challenges(test2(), &["missing"]);
    let Err(ProgramError::InputCaseError(ChallengeCaseError::CaseNotFound { case, config_name })) = res else {
        panic!("Unexpected result: {res:?}");
    };
    assert_eq!(case, "missing");
    assert_eq!(config_name, "Test 2");
}

#[test]
fn part_without_any_command_is_refused() {
    let data = document(
        "Root",
        group(
            None,
            no_overlay(),
            vec![
                ("fine", part(shell("echo"), no_overlay(), vec![])),
                ("orphan", part(None, no_overlay(), vec![("c", case_data(None, None, no_overlay()))])),
            ],
        ),
    );
    let res = select_case(data, texts(&["fine", "x"]));
    let Err(ProgramError::ParseError(ChallengeParseError::NoCommandFound(name))) = res else {
        panic!("Unexpected result: {res:?}");
    };
    assert_eq!(name, "orphan");
}

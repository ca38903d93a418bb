use pkgdeps::shell_ast::{
    AndOrChain, CompoundWord, Block, BlockKind, Branch, Pipeline,
    Param, PipelineStage, CommandItem, PlainCommand, WordPart, ShellCommand, ShellWord,
};
use pkgdeps::shell_scan::{
    command_words_effect, scan_top_levels, scan_word, word_to_string, Computed, Effect, Exit,
    ScanError,
};

fn word(w: WordPart) -> CommandItem {
    CommandItem::CmdWord(CompoundWord::Single(ShellWord::Simple(w)))
}

fn lit(s: &str) -> CommandItem {
    word(WordPart::Literal(s.to_string()))
}

fn param(n: u32) -> CommandItem {
    word(WordPart::Param(Param::Positional(n)))
}

fn open() -> CommandItem {
    word(WordPart::SquareOpen)
}

fn close() -> CommandItem {
    word(WordPart::SquareClose)
}

fn simple(words: Vec<CommandItem>) -> PipelineStage {
    PipelineStage::Simple(Box::new(PlainCommand::new(false, words).unwrap()))
}

fn list(cmd: PipelineStage) -> AndOrChain {
    AndOrChain { first: Pipeline::Single(cmd), has_rest: false }
}

fn top(cmd: PipelineStage) -> ShellCommand {
    ShellCommand::List(list(cmd))
}

fn cmd(words: &[&str]) -> ShellCommand {
    top(simple(words.iter().map(|w| lit(w)).collect()))
}

fn test_eq(a: CommandItem, b: CommandItem) -> ShellCommand {
    top(simple(vec![open(), a, lit("="), b, close()]))
}

fn if_cmd(
    conditionals: Vec<(Vec<ShellCommand>, Vec<ShellCommand>)>,
    else_branch: Option<Vec<ShellCommand>>,
) -> ShellCommand {
    let conditionals =
        conditionals.into_iter().map(|(guard, body)| Branch { guard, body }).collect();
    top(PipelineStage::Compound(Box::new(Block {
        kind: BlockKind::If { conditionals, else_branch },
        has_io: false,
    })))
}

fn scan(items: Vec<ShellCommand>) -> (Vec<(u8, Vec<Effect>)>, Result<(), ScanError>) {
    let mut out: Vec<Exit> = Vec::new();
    let r = scan_top_levels(&items, &mut out);
    (out.into_iter().map(|e| (e.code, e.effects)).collect(), r)
}

fn error_of(items: Vec<ShellCommand>) -> ScanError {
    scan(items).1.unwrap_err()
}

#[test]
fn set_e_and_ldconfig_are_recorded() {
    let (out, r) = scan(vec![cmd(&["set", "-e"]), cmd(&["ldconfig"])]);
    assert_eq!(r, Ok(()));
    assert_eq!(out, vec![(0, vec![Effect::ChangeSettings]), (0, vec![Effect::RunsLdConfig])]);
}

#[test]
fn empty_script_prints_nothing() {
    let (out, r) = scan(vec![]);
    assert_eq!(r, Ok(()));
    assert!(out.is_empty());
}

#[test]
fn comparisons_are_computed() {
    let (out, r) = scan(vec![
        test_eq(lit("a"), lit("a")),
        test_eq(lit("a"), lit("b")),
        test_eq(param(1), lit("configure")),
        test_eq(param(1), lit("upgrade")),
    ]);
    assert_eq!(r, Ok(()));
    assert_eq!(
        out,
        vec![
            (0, vec![Effect::ComparisonResult(Computed::True)]),
            (0, vec![Effect::ComparisonResult(Computed::False)]),
            (0, vec![Effect::ComparisonResult(Computed::True)]),
            (0, vec![Effect::ComparisonResult(Computed::False)]),
        ]
    );
}

#[test]
fn double_quoted_single_words_are_read() {
    let quoted = CommandItem::CmdWord(CompoundWord::Single(ShellWord::DoubleQuoted(vec![
        WordPart::Param(Param::Positional(1)),
    ])));
    let (out, r) = scan(vec![test_eq(quoted, lit("configure"))]);
    assert_eq!(r, Ok(()));
    assert_eq!(out, vec![(0, vec![Effect::ComparisonResult(Computed::True)])]);
}

#[test]
fn if_runs_the_body_of_the_first_true_guard() {
    let script = vec![
        cmd(&["set", "-e"]),
        if_cmd(
            vec![
                (vec![test_eq(param(1), lit("remove"))], vec![cmd(&["set", "-e"])]),
                (vec![test_eq(param(1), lit("configure"))], vec![cmd(&["ldconfig"])]),
                (vec![test_eq(lit("x"), lit("x"))], vec![cmd(&["unknown"])]),
            ],
            None,
        ),
    ];
    let (out, r) = scan(script);
    assert_eq!(r, Ok(()));
    assert_eq!(
        out,
        vec![
            (0, vec![Effect::ChangeSettings]),
            (0, vec![Effect::RunsLdConfig]),
            (0, vec![]),
        ]
    );
}

#[test]
fn if_with_no_true_guard_does_nothing() {
    let (out, r) =
        scan(vec![if_cmd(vec![(vec![test_eq(lit("a"), lit("b"))], vec![cmd(&["echo"])])], None)]);
    assert_eq!(r, Ok(()));
    assert_eq!(out, vec![(0, vec![])]);
}

#[test]
fn a_failure_stops_the_scan_after_what_was_printed() {
    let (out, r) = scan(vec![cmd(&["set", "-e"]), cmd(&["echo", "hi"]), cmd(&["ldconfig"])]);
    assert_eq!(r, Err(ScanError::UnsupportedCommand));
    assert_eq!(out, vec![(0, vec![Effect::ChangeSettings])]);
}

#[test]
fn a_failure_inside_a_body_keeps_the_body_output() {
    let (out, r) = scan(vec![if_cmd(
        vec![(
            vec![test_eq(lit("a"), lit("a"))],
            vec![cmd(&["ldconfig"]), cmd(&["rm", "-f", "x"])],
        )],
        None,
    )]);
    assert_eq!(r, Err(ScanError::UnsupportedCommand));
    assert_eq!(out, vec![(0, vec![Effect::RunsLdConfig])]);
}

#[test]
fn pipelines_gather_effects_in_order() {
    let pipe = Pipeline::Pipe(
        false,
        vec![simple(vec![lit("ldconfig")]), simple(vec![lit("set"), lit("-e")])],
    );
    let (out, r) =
        scan(vec![ShellCommand::List(AndOrChain { first: pipe, has_rest: false })]);
    assert_eq!(r, Ok(()));
    assert_eq!(out, vec![(0, vec![Effect::RunsLdConfig, Effect::ChangeSettings])]);
}

#[test]
fn error_launches_job() {
    let job = ShellCommand::Job(list(simple(vec![lit("ldconfig")])));
    assert_eq!(error_of(vec![job]), ScanError::LaunchesJob);
}

#[test]
fn error_top_level_and_or() {
    let l = AndOrChain { first: Pipeline::Single(simple(vec![lit("ldconfig")])), has_rest: true };
    assert_eq!(error_of(vec![ShellCommand::List(l)]), ScanError::TopLevelAndOr);
}

#[test]
fn error_compound_does_io() {
    let c = PipelineStage::Compound(Box::new(Block {
        kind: BlockKind::If { conditionals: vec![], else_branch: None },
        has_io: true,
    }));
    assert_eq!(error_of(vec![top(c)]), ScanError::CompoundDoesIo);
}

#[test]
fn error_unsupported_command_kind() {
    let c = PipelineStage::Compound(Box::new(Block {
        kind: BlockKind::Other,
        has_io: false,
    }));
    assert_eq!(error_of(vec![top(c)]), ScanError::UnsupportedCommandKind);
}

#[test]
fn error_unsupported_function_def() {
    assert_eq!(error_of(vec![top(PipelineStage::FunctionDef)]), ScanError::UnsupportedFunctionDef);
}

#[test]
fn error_redirects_not_supported() {
    let c = PipelineStage::Simple(Box::new(PlainCommand::new(true, vec![lit("ldconfig")]).unwrap()));
    assert_eq!(error_of(vec![top(c)]), ScanError::RedirectsNotSupported);
    let only = PlainCommand::new(true, vec![]).unwrap();
    assert!(only.has_redirects_or_env_vars());
    assert!(PlainCommand::new(false, vec![]).is_none());
}

#[test]
fn error_set_argument_count() {
    assert_eq!(error_of(vec![cmd(&["set"])]), ScanError::SetArgumentCount);
    assert_eq!(error_of(vec![cmd(&["set", "-e", "-x"])]), ScanError::SetArgumentCount);
}

#[test]
fn error_set_only_e() {
    assert_eq!(error_of(vec![cmd(&["set", "-x"])]), ScanError::SetOnlyE);
}

#[test]
fn error_ldconfig_arguments() {
    assert_eq!(error_of(vec![cmd(&["ldconfig", "-v"])]), ScanError::LdconfigArguments);
}

#[test]
fn error_unsupported_command() {
    assert_eq!(error_of(vec![cmd(&["echo", "hi"])]), ScanError::UnsupportedCommand);
}

#[test]
fn error_square_open_without_close() {
    let c = top(simple(vec![open(), lit("a"), lit("="), lit("b")]));
    assert_eq!(error_of(vec![c]), ScanError::SquareOpenWithoutClose);
}

#[test]
fn error_triplet_comparison() {
    let c = top(simple(vec![open(), lit("-f"), lit("x"), lit("y"), lit("z"), close()]));
    assert_eq!(error_of(vec![c]), ScanError::TripletComparison);
    let c1 = top(simple(vec![open(), lit("a"), close()]));
    assert_eq!(error_of(vec![c1]), ScanError::TripletComparison);
}

#[test]
fn error_unsupported_comparator() {
    let c = top(simple(vec![open(), lit("a"), lit("!="), lit("b"), close()]));
    assert_eq!(error_of(vec![c]), ScanError::UnsupportedComparator);
}

#[test]
fn error_unsupported_command_type() {
    let c = top(simple(vec![word(WordPart::Star)]));
    assert_eq!(error_of(vec![c]), ScanError::UnsupportedCommandType);
}

#[test]
fn error_else_unsupported() {
    let c = if_cmd(vec![(vec![test_eq(lit("a"), lit("b"))], vec![])], Some(vec![cmd(&["ldconfig"])]));
    assert_eq!(error_of(vec![c]), ScanError::ElseUnsupported);
    // an else branch is never reached when a guard holds
    let ok = if_cmd(vec![(vec![test_eq(lit("a"), lit("a"))], vec![])], Some(vec![]));
    assert_eq!(scan(vec![ok]).1, Ok(()));
}

#[test]
fn error_more_than_one_guard() {
    let two = if_cmd(vec![(vec![test_eq(lit("a"), lit("a")), cmd(&["ldconfig"])], vec![])], None);
    assert_eq!(error_of(vec![two]), ScanError::MoreThanOneGuard);
    let none = if_cmd(vec![(vec![], vec![])], None);
    assert_eq!(error_of(vec![none]), ScanError::MoreThanOneGuard);
}

#[test]
fn error_only_one_effect() {
    let pipe = Pipeline::Pipe(
        false,
        vec![
            simple(vec![open(), lit("a"), lit("="), lit("a"), close()]),
            simple(vec![lit("ldconfig")]),
        ],
    );
    let guard = ShellCommand::List(AndOrChain { first: pipe, has_rest: false });
    assert_eq!(error_of(vec![if_cmd(vec![(vec![guard], vec![])], None)]), ScanError::OnlyOneEffect);
}

#[test]
fn error_unexpected_effect() {
    let c = if_cmd(vec![(vec![cmd(&["ldconfig"])], vec![])], None);
    assert_eq!(error_of(vec![c]), ScanError::UnexpectedEffect);
}

#[test]
fn error_redirect_in_command() {
    let c = top(simple(vec![lit("ldconfig"), CommandItem::Redirect]));
    assert_eq!(error_of(vec![c]), ScanError::RedirectInCommand);
}

#[test]
fn error_concat() {
    let c = top(simple(vec![lit("set"), CommandItem::CmdWord(CompoundWord::Concat)]));
    assert_eq!(error_of(vec![c]), ScanError::Concat);
}

#[test]
fn error_double_quoted_multiple_words() {
    let q = CommandItem::CmdWord(CompoundWord::Single(ShellWord::DoubleQuoted(vec![
        WordPart::Literal("a".to_string()),
        WordPart::Literal("b".to_string()),
    ])));
    assert_eq!(error_of(vec![top(simple(vec![q]))]), ScanError::DoubleQuotedMultipleWords);
}

#[test]
fn error_single_quoted_word() {
    let q = CommandItem::CmdWord(CompoundWord::Single(ShellWord::SingleQuoted("x".to_string())));
    assert_eq!(error_of(vec![top(simple(vec![lit("set"), q]))]), ScanError::SingleQuotedWord);
}

#[test]
fn error_unsupported_word_type() {
    assert_eq!(error_of(vec![test_eq(param(2), lit("x"))]), ScanError::UnsupportedWordType);
    let var = word(WordPart::Param(Param::Var("x".to_string())));
    assert_eq!(error_of(vec![test_eq(lit("x"), var)]), ScanError::UnsupportedWordType);
}

#[test]
fn guards_are_always_decided() {
    // a guard that is not a comparison is refused, never left undecided
    let c = if_cmd(vec![(vec![cmd(&["set", "-e"])], vec![])], None);
    assert_ne!(error_of(vec![c]), ScanError::UnexpectedEvalResult);
}

#[test]
fn word_to_string_reads_literals_and_first_argument() {
    assert_eq!(word_to_string(&WordPart::Literal("abc".to_string())), Ok("abc".to_string()));
    assert_eq!(
        word_to_string(&WordPart::Param(Param::Positional(1))),
        Ok("configure".to_string())
    );
    assert_eq!(word_to_string(&WordPart::Tilde), Err(ScanError::UnsupportedWordType));
    assert_eq!(
        word_to_string(&WordPart::Escaped("a".to_string())),
        Err(ScanError::UnsupportedWordType)
    );
}

#[test]
fn scan_word_unwraps_simple_and_quoted_words() {
    assert!(matches!(scan_word(&lit("x")), Ok(WordPart::Literal(ref s)) if s == "x"));
    assert!(matches!(scan_word(&CommandItem::Redirect), Err(ScanError::RedirectInCommand)));
}

#[test]
fn command_words_effect_decides_one_command() {
    let set_e = vec![WordPart::Literal("set".to_string()), WordPart::Literal("-e".to_string())];
    assert_eq!(command_words_effect(&set_e), Ok(Effect::ChangeSettings));
    let cmp = vec![
        WordPart::SquareOpen,
        WordPart::Literal("a".to_string()),
        WordPart::Literal("=".to_string()),
        WordPart::Literal("a".to_string()),
        WordPart::SquareClose,
    ];
    assert_eq!(command_words_effect(&cmp), Ok(Effect::ComparisonResult(Computed::True)));
    let bare = vec![WordPart::SquareOpen];
    assert_eq!(command_words_effect(&bare), Err(ScanError::SquareOpenWithoutClose));
}


use pkgdeps::shell_ast::ShellCommand;
use pkgdeps::shell_parse::{parse_script, scan_script, ScriptError};
use pkgdeps::shell_scan::{Computed, Effect, Exit, ScanError};

fn scan(text: &str) -> (Vec<(u8, Vec<Effect>)>, Result<(), ScriptError>) {
    let mut out: Vec<Exit> = Vec::new();
    let r = scan_script(text, &mut out);
    (out.into_iter().map(|e| (e.code, e.effects)).collect(), r)
}

#[test]
fn parse_script_reads_commands() {
    let cmds = parse_script("set -e\nldconfig\n").unwrap();
    assert_eq!(cmds.len(), 2);
    assert!(matches!(cmds[0], ShellCommand::List(_)));
    let job = parse_script("ldconfig &\n").unwrap();
    assert!(matches!(job[0], ShellCommand::Job(_)));
    assert!(parse_script("").unwrap().is_empty());
}

#[test]
fn parse_script_reports_syntax_errors() {
    assert!(parse_script("if then fi\n").is_err());
    assert!(parse_script("( ldconfig\n").is_err());
}

#[test]
fn scan_script_postinst() {
    let text = "#!/bin/sh\nset -e\nif [ \"$1\" = \"configure\" ]; then\n    ldconfig\nfi\n";
    let (out, r) = scan(text);
    assert!(r.is_ok());
    assert_eq!(
        out,
        vec![
            (0, vec![Effect::ChangeSettings]),
            (0, vec![Effect::RunsLdConfig]),
            (0, vec![]),
        ]
    );
}

#[test]
fn scan_script_comparison() {
    let (out, r) = scan("[ $1 = remove ]\n[ a = a ]\n");
    assert!(r.is_ok());
    assert_eq!(
        out,
        vec![
            (0, vec![Effect::ComparisonResult(Computed::False)]),
            (0, vec![Effect::ComparisonResult(Computed::True)]),
        ]
    );
}

#[test]
fn scan_script_unsupported() {
    let (out, r) = scan("set -e\necho hi\n");
    assert_eq!(out, vec![(0, vec![Effect::ChangeSettings])]);
    assert!(matches!(r, Err(ScriptError::Scan(ScanError::UnsupportedCommand))));
    let (_, r) = scan("ldconfig && ldconfig\n");
    assert!(matches!(r, Err(ScriptError::Scan(ScanError::TopLevelAndOr))));
    let (_, r) = scan("ldconfig > /dev/null\n");
    assert!(matches!(r, Err(ScriptError::Scan(ScanError::RedirectInCommand))));
    let (_, r) = scan("X=1 ldconfig\n");
    assert!(matches!(r, Err(ScriptError::Scan(ScanError::RedirectsNotSupported))));
    let (_, r) = scan("while true; do ldconfig; done\n");
    assert!(matches!(r, Err(ScriptError::Scan(ScanError::UnsupportedCommandKind))));
    let (_, r) = scan("f() { ldconfig; }\n");
    assert!(matches!(r, Err(ScriptError::Scan(ScanError::UnsupportedFunctionDef))));
    let (_, r) = scan("set 'e'\n");
    assert!(matches!(r, Err(ScriptError::Scan(ScanError::SingleQuotedWord))));
}

#[test]
fn scan_script_parse_error_prints_nothing() {
    let (out, r) = scan("set -e\nif then fi\n");
    assert!(out.is_empty());
    match r {
        Err(ScriptError::Parse(msg)) => assert!(!msg.is_empty()),
        other => panic!("expected a parse error, got {:?}", other),
    }
}

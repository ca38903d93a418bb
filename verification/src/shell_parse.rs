//! Parsing a maintainer script with conch-parser and scanning what it parses
//! to.  The parser's syntax tree is copied, node for node, into the part of it
//! that the scanner reads (`shell_ast`).
use conch_parser::ast;
use conch_parser::lexer::Lexer;
use conch_parser::parse::DefaultParser;
use vstd::prelude::*;

use crate::shell_ast::{
    AndOrChain, CompoundWord, Block, BlockKind, Branch, Pipeline,
    Param, PipelineStage, CommandItem, ShellCommand, PlainCommand, WordPart, ShellWord,
};
use crate::shell_scan::{exits_view, run_top_levels, scan_top_levels, Exit, ScanError};

verus! {

#[verifier::external_type_specification]
#[verifier::external_body]
#[verifier::reject_recursive_types(T)]
pub struct ExConchTopLevelCommand<T>(ast::TopLevelCommand<T>);

#[verifier::external_type_specification]
#[verifier::external_body]
#[verifier::reject_recursive_types(T)]
pub struct ExConchTopLevelWord<T>(ast::TopLevelWord<T>);

#[verifier::external_type_specification]
#[verifier::external_body]
#[verifier::reject_recursive_types(T)]
pub struct ExConchListableCommand<T>(ast::ListableCommand<T>);

#[verifier::external_type_specification]
#[verifier::external_body]
#[verifier::reject_recursive_types(N)]
#[verifier::reject_recursive_types(S)]
#[verifier::reject_recursive_types(C)]
#[verifier::reject_recursive_types(F)]
pub struct ExConchPipeableCommand<N, S, C, F>(ast::PipeableCommand<N, S, C, F>);

#[verifier::external_type_specification]
#[verifier::external_body]
#[verifier::reject_recursive_types(V)]
#[verifier::reject_recursive_types(W)]
#[verifier::reject_recursive_types(R)]
pub struct ExConchSimpleCommand<V, W, R>(ast::SimpleCommand<V, W, R>);

#[verifier::external_type_specification]
#[verifier::external_body]
#[verifier::reject_recursive_types(T)]
#[verifier::reject_recursive_types(R)]
pub struct ExConchCompoundCommand<T, R>(ast::CompoundCommand<T, R>);

#[verifier::external_type_specification]
#[verifier::external_body]
#[verifier::reject_recursive_types(V)]
#[verifier::reject_recursive_types(W)]
#[verifier::reject_recursive_types(C)]
pub struct ExConchCompoundCommandKind<V, W, C>(ast::CompoundCommandKind<V, W, C>);

#[verifier::external_type_specification]
#[verifier::external_body]
#[verifier::reject_recursive_types(W)]
pub struct ExConchRedirect<W>(ast::Redirect<W>);

#[verifier::external_type_specification]
#[verifier::external_body]
#[verifier::reject_recursive_types(R)]
#[verifier::reject_recursive_types(W)]
pub struct ExConchRedirectOrCmdWord<R, W>(ast::RedirectOrCmdWord<R, W>);

#[verifier::external_type_specification]
#[verifier::external_body]
#[verifier::reject_recursive_types(L)]
#[verifier::reject_recursive_types(W)]
pub struct ExConchWord<L, W>(ast::Word<L, W>);

#[verifier::external_type_specification]
#[verifier::external_body]
#[verifier::reject_recursive_types(L)]
#[verifier::reject_recursive_types(P)]
#[verifier::reject_recursive_types(S)]
pub struct ExConchSimpleWord<L, P, S>(ast::SimpleWord<L, P, S>);

#[verifier::external_type_specification]
#[verifier::external_body]
#[verifier::reject_recursive_types(T)]
pub struct ExConchParameter<T>(ast::Parameter<T>);

/// What conch-parser's default parser makes of a script, copied into the
/// library's syntax tree: the commands, or the text of the parse error.
pub uninterp spec fn parsed_script(text: Seq<char>) -> Result<Seq<ShellCommand>, Seq<char>>;

/// Parses `text` with conch-parser's `DefaultParser` over its `Lexer`, and
/// copies the commands into the library's syntax tree.
///
/// The contract claims only that the result is a function of the text alone
/// (`parsed_script`), as the parser keeps no state between scripts; what the
/// parser makes of a given text is not stated.
#[verifier::external_body]
pub fn parse_script(text: &str) -> (r: Result<Vec<ShellCommand>, String>)
    ensures
        match r {
            Ok(v) => parsed_script(text@) == Ok::<Seq<ShellCommand>, Seq<char>>(v@),
            Err(e) => parsed_script(text@) == Err::<Seq<ShellCommand>, Seq<char>>(e@),
        },
{
    let parsed: Result<Vec<ast::TopLevelCommand<String>>, _> = DefaultParser::new(
        Lexer::new(text.chars()),
    ).into_iter().collect();
    match parsed {
        Ok(cmds) => Ok(top_levels(&cmds)),
        Err(e) => Err(format!("{}", e)),
    }
}

/// Copies a list of conch-parser commands into the library's syntax tree.
#[verifier::external_body]
fn top_levels(cmds: &Vec<ast::TopLevelCommand<String>>) -> Vec<ShellCommand> {
    cmds.iter().map(top_level).collect()
}

/// Copies a conch-parser command; of the `&&`/`||` parts that follow its
/// first pipeline, only whether there are any is kept.
#[verifier::external_body]
fn top_level(c: &ast::TopLevelCommand<String>) -> ShellCommand {
    match c.0 {
        ast::Command::Job(ref l) => ShellCommand::Job(
            AndOrChain { first: listable(&l.first), has_rest: !l.rest.is_empty() },
        ),
        ast::Command::List(ref l) => ShellCommand::List(
            AndOrChain { first: listable(&l.first), has_rest: !l.rest.is_empty() },
        ),
    }
}

/// Copies a conch-parser pipeline or single command.
#[verifier::external_body]
fn listable(l: &ast::DefaultListableCommand) -> Pipeline {
    match l {
        ast::ListableCommand::Pipe(negated, cmds) => Pipeline::Pipe(
            *negated,
            cmds.iter().map(pipeable).collect(),
        ),
        ast::ListableCommand::Single(cmd) => Pipeline::Single(pipeable(cmd)),
    }
}

/// Copies a conch-parser command of a pipeline; of a function definition only
/// its presence is kept.
#[verifier::external_body]
fn pipeable(c: &ast::DefaultPipeableCommand) -> PipelineStage {
    match c {
        ast::PipeableCommand::Simple(s) => PipelineStage::Simple(Box::new(simple_command(s))),
        ast::PipeableCommand::Compound(c) => PipelineStage::Compound(Box::new(compound(c))),
        ast::PipeableCommand::FunctionDef(_, _) => PipelineStage::FunctionDef,
    }
}

/// Copies a conch-parser simple command; of the redirections and assignments
/// before the command name only whether there are any is kept.  The parser
/// refuses a command with neither words nor redirections nor assignments
/// (`Parser::simple_command`), so the copy always exists.
#[verifier::external_body]
fn simple_command<R>(s: &ast::SimpleCommand<String, ast::TopLevelWord<String>, R>) -> PlainCommand {
    PlainCommand::new(
        !s.redirects_or_env_vars.is_empty(),
        s.redirects_or_cmd_words.iter().map(cmd_word).collect(),
    ).expect("the parser refuses blank commands")
}

/// Copies a conch-parser compound command: an `if` with its branches, any
/// other kind by its presence, and whether redirections apply to it.
#[verifier::external_body]
fn compound<R>(
    c: &ast::CompoundCommand<
        ast::CompoundCommandKind<String, ast::TopLevelWord<String>, ast::TopLevelCommand<String>>,
        R,
    >,
) -> Block {
    let kind = match c.kind {
        ast::CompoundCommandKind::If { ref conditionals, ref else_branch } => BlockKind::If {
            conditionals: conditionals.iter().map(
                |p| Branch { guard: top_levels(&p.guard), body: top_levels(&p.body) },
            ).collect(),
            else_branch: else_branch.as_ref().map(top_levels),
        },
        _ => BlockKind::Other,
    };
    Block { kind, has_io: !c.io.is_empty() }
}

/// Copies a conch-parser command word; of a redirection or of words glued
/// together only the presence is kept.
#[verifier::external_body]
fn cmd_word<R>(w: &ast::RedirectOrCmdWord<R, ast::TopLevelWord<String>>) -> CommandItem {
    match w {
        ast::RedirectOrCmdWord::Redirect(_) => CommandItem::Redirect,
        ast::RedirectOrCmdWord::CmdWord(tw) => CommandItem::CmdWord(
            match tw.0 {
                ast::ComplexWord::Concat(_) => CompoundWord::Concat,
                ast::ComplexWord::Single(ref w) => CompoundWord::Single(word(w)),
            },
        ),
    }
}

/// Copies a conch-parser word.
#[verifier::external_body]
fn word<S>(w: &ast::Word<String, ast::SimpleWord<String, ast::Parameter<String>, S>>) -> ShellWord {
    match w {
        ast::Word::Simple(sw) => ShellWord::Simple(simple_word(sw)),
        ast::Word::DoubleQuoted(parts) => ShellWord::DoubleQuoted(parts.iter().map(simple_word).collect()),
        ast::Word::SingleQuoted(s) => ShellWord::SingleQuoted(s.clone()),
    }
}

/// Copies a conch-parser fragment of a word; of a parameter substitution
/// only its presence is kept.
#[verifier::external_body]
fn simple_word<S>(w: &ast::SimpleWord<String, ast::Parameter<String>, S>) -> WordPart {
    match w {
        ast::SimpleWord::Literal(s) => WordPart::Literal(s.clone()),
        ast::SimpleWord::Escaped(s) => WordPart::Escaped(s.clone()),
        ast::SimpleWord::Param(p) => WordPart::Param(parameter(p)),
        ast::SimpleWord::Subst(_) => WordPart::Subst,
        ast::SimpleWord::Star => WordPart::Star,
        ast::SimpleWord::Question => WordPart::Question,
        ast::SimpleWord::SquareOpen => WordPart::SquareOpen,
        ast::SimpleWord::SquareClose => WordPart::SquareClose,
        ast::SimpleWord::Tilde => WordPart::Tilde,
        ast::SimpleWord::Colon => WordPart::Colon,
    }
}

/// Copies a conch-parser parameter.
#[verifier::external_body]
fn parameter(p: &ast::Parameter<String>) -> Param {
    match p {
        ast::Parameter::At => Param::At,
        ast::Parameter::Star => Param::Star,
        ast::Parameter::Pound => Param::Pound,
        ast::Parameter::Question => Param::Question,
        ast::Parameter::Dash => Param::Dash,
        ast::Parameter::Dollar => Param::Dollar,
        ast::Parameter::Bang => Param::Bang,
        ast::Parameter::Positional(n) => Param::Positional(*n),
        ast::Parameter::Var(v) => Param::Var(v.clone()),
    }
}

/// Why a script could not be scanned: it does not parse (with the parser's
/// message), or it falls outside the supported subset.
#[derive(Debug)]
pub enum ScriptError {
    Parse(String),
    Scan(ScanError),
}

/// Parses and scans a whole script: nothing is printed when it does not
/// parse; otherwise the exit states of its commands are printed as scanning
/// goes, and the scan fails exactly when some command falls outside the
/// supported subset.
pub fn scan_script(text: &str, out: &mut Vec<Exit>) -> (r: Result<(), ScriptError>)
    ensures
        match parsed_script(text@) {
            Err(msg) => r matches Err(ScriptError::Parse(m)) && m@ == msg && exits_view(
                final(out)@,
            ) == exits_view(old(out)@),
            Ok(items) => {
                &&& exits_view(final(out)@) == exits_view(old(out)@) + run_top_levels(items, 0).0
                &&& match run_top_levels(items, 0).1 {
                    None => r is Ok,
                    Some(e) => r == Err::<(), ScriptError>(ScriptError::Scan(e)),
                }
            },
        },
{
    match parse_script(text) {
        Err(msg) => Err(ScriptError::Parse(msg)),
        Ok(items) => match scan_top_levels(&items, out) {
            Ok(()) => Ok(()),
            Err(e) => Err(ScriptError::Scan(e)),
        },
    }
}

} // verus!

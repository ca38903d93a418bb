//! Evaluating the small subset of shell found in simple maintainer scripts:
//! `set -e`, `ldconfig`, string comparisons `[ a = b ]`, and `if` statements
//! over such comparisons.  Each top-level command yields an exit state,
//! which is reported as soon as the command has been scanned.
use vstd::prelude::*;
use vstd::string::*;

use crate::names::same_text;
use crate::shell_ast::{
    AndOrChain, BlockKind, CompoundWord, Branch, Pipeline, Param,
    PipelineStage, CommandItem, WordPart, ShellCommand, ShellWord,
};

verus! {

/// The value a guard evaluates to.
#[derive(Debug, Clone, Copy, PartialEq, Eq, Structural)]
pub enum Computed {
    True,
    False,
    Filesystem,
    Command,
}

/// What a command does.
#[derive(Debug, Clone, Copy, PartialEq, Eq, Structural)]
pub enum Effect {
    ChangeSettings,
    ComparisonResult(Computed),
    RunsLdConfig,
}

/// The state after a top-level command: its exit code and its effects.
#[derive(Debug)]
pub struct Exit {
    pub code: u8,
    pub effects: Vec<Effect>,
}

/// Why a script falls outside the supported subset.
#[derive(Debug, Clone, Copy, PartialEq, Eq, Structural)]
pub enum ScanError {
    /// A command runs in the background.
    LaunchesJob,
    /// A command is followed by `&&` or `||`.
    TopLevelAndOr,
    /// A compound command has redirections.
    CompoundDoesIo,
    /// A compound command other than `if`.
    UnsupportedCommandKind,
    /// A function definition.
    UnsupportedFunctionDef,
    /// Redirections or assignments before a command.
    RedirectsNotSupported,
    /// `set` without exactly one argument.
    SetArgumentCount,
    /// `set` with an argument other than `-e`.
    SetOnlyE,
    /// `ldconfig` with arguments.
    LdconfigArguments,
    /// A command other than `set`, `ldconfig` and `[`.
    UnsupportedCommand,
    /// `[` without a closing `]`.
    SquareOpenWithoutClose,
    /// A test without exactly three words.
    TripletComparison,
    /// A test whose operator is not `=`.
    UnsupportedComparator,
    /// A command that starts with something other than a literal or `[`.
    UnsupportedCommandType,
    /// A guard evaluated to something other than true or false.
    UnexpectedEvalResult,
    /// An `if` with an `else` branch.
    ElseUnsupported,
    /// A guard with more than one command.
    MoreThanOneGuard,
    /// A guard with other than one effect.
    OnlyOneEffect,
    /// A guard whose effect is not a comparison.
    UnexpectedEffect,
    /// A redirection among the words of a command.
    RedirectInCommand,
    /// Words glued together.
    Concat,
    /// A double-quoted string made of several parts.
    DoubleQuotedMultipleWords,
    /// A single-quoted string.
    SingleQuotedWord,
    /// A word that is neither a literal nor `$1`.
    UnsupportedWordType,
}

/// The word of a command item, or why it is not supported.
pub open spec fn word_of(item: CommandItem) -> Result<WordPart, ScanError> {
    match item {
        CommandItem::Redirect => Err(ScanError::RedirectInCommand),
        CommandItem::CmdWord(CompoundWord::Concat) => Err(ScanError::Concat),
        CommandItem::CmdWord(CompoundWord::Single(w)) => match w {
            ShellWord::Simple(sw) => Ok(sw),
            ShellWord::DoubleQuoted(parts) => if parts@.len() == 1 {
                Ok(parts@[0])
            } else {
                Err(ScanError::DoubleQuotedMultipleWords)
            },
            ShellWord::SingleQuoted(_) => Err(ScanError::SingleQuotedWord),
        },
    }
}

/// The words of the items from `i` on, or the first item's reason to fail.
pub open spec fn words_of(items: Seq<CommandItem>, i: int) -> Result<Seq<WordPart>, ScanError>
    decreases items.len() - i,
{
    if i >= items.len() || i < 0 {
        Ok(Seq::empty())
    } else {
        match word_of(items[i]) {
            Err(e) => Err(e),
            Ok(w) => match words_of(items, i + 1) {
                Err(e) => Err(e),
                Ok(rest) => Ok(seq![w] + rest),
            },
        }
    }
}

/// The text of a word: a literal's own, `configure` for `$1`.
pub open spec fn text_of_word(w: WordPart) -> Result<Seq<char>, ScanError> {
    match w {
        WordPart::Literal(s) => Ok(s@),
        WordPart::Param(Param::Positional(n)) if n == 1 => Ok("configure"@),
        _ => Err(ScanError::UnsupportedWordType),
    }
}

/// The word is the literal `text`.
pub open spec fn is_literal(w: WordPart, text: Seq<char>) -> bool {
    w matches WordPart::Literal(s) && s@ == text
}

/// The effect of a command made of the words `cmd` (not empty).
pub open spec fn command_effect(cmd: Seq<WordPart>) -> Result<Effect, ScanError> {
    match cmd[0] {
        WordPart::Literal(name) => if name@ == "set"@ {
            if cmd.len() != 2 {
                Err(ScanError::SetArgumentCount)
            } else if !is_literal(cmd[1], "-e"@) {
                Err(ScanError::SetOnlyE)
            } else {
                Ok(Effect::ChangeSettings)
            }
        } else if name@ == "ldconfig"@ {
            if cmd.len() != 1 {
                Err(ScanError::LdconfigArguments)
            } else {
                Ok(Effect::RunsLdConfig)
            }
        } else {
            Err(ScanError::UnsupportedCommand)
        },
        WordPart::SquareOpen => if !(cmd[cmd.len() - 1] is SquareClose) {
            Err(ScanError::SquareOpenWithoutClose)
        } else {
            let parts = cmd.subrange(1, cmd.len() - 1);
            if parts.len() != 3 {
                Err(ScanError::TripletComparison)
            } else if !is_literal(parts[1], "="@) {
                Err(ScanError::UnsupportedComparator)
            } else {
                match text_of_word(parts[0]) {
                    Err(e) => Err(e),
                    Ok(a) => match text_of_word(parts[2]) {
                        Err(e) => Err(e),
                        Ok(b) => Ok(
                            Effect::ComparisonResult(
                                if a == b {
                                    Computed::True
                                } else {
                                    Computed::False
                                },
                            ),
                        ),
                    },
                }
            }
        },
        _ => Err(ScanError::UnsupportedCommandType),
    }
}

/// What scanning prints, as exit codes with effects.
pub type Printed = Seq<(u8, Seq<Effect>)>;

/// An exit state as printed.
pub open spec fn exit_view(e: Exit) -> (u8, Seq<Effect>) {
    (e.code, e.effects@)
}

/// The exit states in `exits`, as printed.
pub open spec fn exits_view(exits: Seq<Exit>) -> Printed {
    exits.map_values(|e: Exit| exit_view(e))
}

/// The effects of a command that may have none.
pub open spec fn effects_of(e: Option<Effect>) -> Seq<Effect> {
    match e {
        Some(x) => seq![x],
        None => Seq::empty(),
    }
}

/// Scanning the top-level commands of `items` from `i` on: each one's exit
/// state is printed after it is scanned; the first failure stops the scan.
pub open spec fn run_top_levels(items: Seq<ShellCommand>, i: int) -> (Printed, Option<ScanError>)
    decreases items, items.len() - i,
{
    if i < 0 || i >= items.len() {
        (Seq::empty(), None)
    } else {
        let (p1, r1) = run_top_level(items[i]);
        match r1 {
            Err(e) => (p1, Some(e)),
            Ok(effects) => {
                let (p2, r2) = run_top_levels(items, i + 1);
                (p1.push((0u8, effects)) + p2, r2)
            },
        }
    }
}

/// Scanning one top-level command: what it prints inside, and its effects.
pub open spec fn run_top_level(item: ShellCommand) -> (Printed, Result<Seq<Effect>, ScanError>)
    decreases item, 0int,
{
    match item {
        ShellCommand::Job(_) => (Seq::empty(), Err(ScanError::LaunchesJob)),
        ShellCommand::List(l) => run_and_or(l),
    }
}

/// Scanning an and-or list: only a lone pipeline or command is supported.
pub open spec fn run_and_or(l: AndOrChain) -> (Printed, Result<Seq<Effect>, ScanError>)
    decreases l, 0int,
{
    if l.has_rest {
        (Seq::empty(), Err(ScanError::TopLevelAndOr))
    } else {
        match l.first {
            Pipeline::Pipe(_, cmds) => run_pipeline(cmds@, 0),
            Pipeline::Single(cmd) => {
                let (p, r) = run_command(cmd);
                (
                    p,
                    match r {
                        Err(e) => Err(e),
                        Ok(o) => Ok(effects_of(o)),
                    },
                )
            },
        }
    }
}

/// Scanning the commands of a pipeline from `i` on, gathering their effects.
pub open spec fn run_pipeline(cmds: Seq<PipelineStage>, i: int) -> (
    Printed,
    Result<Seq<Effect>, ScanError>,
)
    decreases cmds, cmds.len() - i,
{
    if i < 0 || i >= cmds.len() {
        (Seq::empty(), Ok(Seq::empty()))
    } else {
        let (p1, r1) = run_command(cmds[i]);
        match r1 {
            Err(e) => (p1, Err(e)),
            Ok(o) => {
                let (p2, r2) = run_pipeline(cmds, i + 1);
                (
                    p1 + p2,
                    match r2 {
                        Err(e) => Err(e),
                        Ok(rest) => Ok(effects_of(o) + rest),
                    },
                )
            },
        }
    }
}

/// Scanning one command: a simple command has one effect, an `if` none.
pub open spec fn run_command(cmd: PipelineStage) -> (Printed, Result<Option<Effect>, ScanError>)
    decreases cmd, 0int,
{
    match cmd {
        PipelineStage::Compound(c) => if c.has_io {
            (Seq::empty(), Err(ScanError::CompoundDoesIo))
        } else {
            match c.kind {
                BlockKind::If { conditionals, else_branch } => {
                    let (p, r) = run_if(conditionals@, 0, else_branch is Some);
                    (
                        p,
                        match r {
                            Err(e) => Err(e),
                            Ok(()) => Ok(None),
                        },
                    )
                },
                BlockKind::Other => (
                    Seq::empty(),
                    Err(ScanError::UnsupportedCommandKind),
                ),
            }
        },
        PipelineStage::FunctionDef => (Seq::empty(), Err(ScanError::UnsupportedFunctionDef)),
        PipelineStage::Simple(s) => (
            Seq::empty(),
            if s.spec_has_redirects_or_env_vars() {
                Err(ScanError::RedirectsNotSupported)
            } else {
                match words_of(s.spec_words(), 0) {
                    Err(e) => Err(e),
                    Ok(words) => match command_effect(words) {
                        Err(e) => Err(e),
                        Ok(x) => Ok(Some(x)),
                    },
                }
            },
        ),
    }
}

/// Scanning the branches of an `if` from `i` on: the first guard that holds
/// has its body scanned; a guard that fails moves on; an `else` branch is not
/// supported once every guard has failed.
pub open spec fn run_if(conds: Seq<Branch>, i: int, has_else: bool) -> (
    Printed,
    Result<(), ScanError>,
)
    decreases conds, conds.len() - i,
{
    if i < 0 || i >= conds.len() {
        (
            Seq::empty(),
            if has_else {
                Err(ScanError::ElseUnsupported)
            } else {
                Ok(())
            },
        )
    } else {
        let (p1, r1) = run_guard(conds[i].guard@);
        match r1 {
            Err(e) => (p1, Err(e)),
            Ok(Computed::True) => {
                let (p2, r2) = run_top_levels(conds[i].body@, 0);
                (
                    p1 + p2,
                    match r2 {
                        Some(e) => Err(e),
                        None => Ok(()),
                    },
                )
            },
            Ok(Computed::False) => {
                let (p2, r2) = run_if(conds, i + 1, has_else);
                (p1 + p2, r2)
            },
            Ok(_) => (p1, Err(ScanError::UnexpectedEvalResult)),
        }
    }
}

/// Evaluating a guard: one command whose one effect is a comparison.
pub open spec fn run_guard(guard: Seq<ShellCommand>) -> (Printed, Result<Computed, ScanError>)
    decreases guard, 0int,
{
    if guard.len() != 1 {
        (Seq::empty(), Err(ScanError::MoreThanOneGuard))
    } else {
        match guard[0] {
            ShellCommand::Job(_) => (Seq::empty(), Err(ScanError::LaunchesJob)),
            ShellCommand::List(l) => {
                let (p, r) = run_and_or(l);
                match r {
                    Err(e) => (p, Err(e)),
                    Ok(effects) => if effects.len() != 1 {
                        (p, Err(ScanError::OnlyOneEffect))
                    } else {
                        match effects[0] {
                            Effect::ComparisonResult(c) => (p, Ok(c)),
                            _ => (p, Err(ScanError::UnexpectedEffect)),
                        }
                    },
                }
            },
        }
    }
}

/// A copy of `p`.
fn copy_parameter(p: &Param) -> (r: Param)
    ensures
        r == *p,
{
    match p {
        Param::At => Param::At,
        Param::Star => Param::Star,
        Param::Pound => Param::Pound,
        Param::Question => Param::Question,
        Param::Dash => Param::Dash,
        Param::Dollar => Param::Dollar,
        Param::Bang => Param::Bang,
        Param::Positional(n) => Param::Positional(*n),
        Param::Var(v) => Param::Var(v.clone()),
    }
}

/// A copy of `w`.
fn copy_word(w: &WordPart) -> (r: WordPart)
    ensures
        r == *w,
{
    match w {
        WordPart::Literal(s) => WordPart::Literal(s.clone()),
        WordPart::Escaped(s) => WordPart::Escaped(s.clone()),
        WordPart::Param(p) => WordPart::Param(copy_parameter(p)),
        WordPart::Subst => WordPart::Subst,
        WordPart::Star => WordPart::Star,
        WordPart::Question => WordPart::Question,
        WordPart::SquareOpen => WordPart::SquareOpen,
        WordPart::SquareClose => WordPart::SquareClose,
        WordPart::Tilde => WordPart::Tilde,
        WordPart::Colon => WordPart::Colon,
    }
}

/// The word of a command item, or why it is not supported.
pub fn scan_word(item: &CommandItem) -> (r: Result<WordPart, ScanError>)
    ensures
        r == word_of(*item),
{
    match item {
        CommandItem::Redirect => Err(ScanError::RedirectInCommand),
        CommandItem::CmdWord(CompoundWord::Concat) => Err(ScanError::Concat),
        CommandItem::CmdWord(CompoundWord::Single(w)) => match w {
            ShellWord::Simple(sw) => Ok(copy_word(sw)),
            ShellWord::DoubleQuoted(parts) => if parts.len() == 1 {
                Ok(copy_word(&parts[0]))
            } else {
                Err(ScanError::DoubleQuotedMultipleWords)
            },
            ShellWord::SingleQuoted(_) => Err(ScanError::SingleQuotedWord),
        },
    }
}

/// `pre` followed by the words of `r`, if `r` has words.
pub open spec fn prepend(pre: Seq<WordPart>, r: Result<Seq<WordPart>, ScanError>) -> Result<
    Seq<WordPart>,
    ScanError,
> {
    match r {
        Ok(rest) => Ok(pre + rest),
        Err(e) => Err(e),
    }
}

/// The words of a command's items from `i` on are one per item.
proof fn lemma_words_len(items: Seq<CommandItem>, i: int)
    requires
        0 <= i <= items.len(),
    ensures
        words_of(items, i) matches Ok(ws) ==> ws.len() == items.len() - i,
    decreases items.len() - i,
{
    if i < items.len() {
        lemma_words_len(items, i + 1);
    }
}

/// The words of a command's items, or the first item's reason to fail.
pub fn scan_words(items: &Vec<CommandItem>) -> (r: Result<Vec<WordPart>, ScanError>)
    ensures
        match r {
            Ok(ws) => words_of(items@, 0) == Ok::<Seq<WordPart>, ScanError>(ws@),
            Err(e) => words_of(items@, 0) == Err::<Seq<WordPart>, ScanError>(e),
        },
{
    let mut words: Vec<WordPart> = Vec::new();
    let mut i: usize = 0;
    assert(prepend(words@, words_of(items@, 0)) =~= words_of(items@, 0)) by {
        match words_of(items@, 0) {
            Ok(rest) => assert(words@ + rest =~= rest),
            Err(_) => {},
        }
    }
    while i < items.len()
        invariant
            i <= items.len(),
            words_of(items@, 0) == prepend(words@, words_of(items@, i as int)),
        decreases items.len() - i,
    {
        match scan_word(&items[i]) {
            Err(e) => {
                return Err(e);
            },
            Ok(w) => {
                let ghost before = words@;
                words.push(w);
                proof {
                    match words_of(items@, i + 1) {
                        Ok(rest) => assert(before + (seq![w] + rest) =~= words@ + rest),
                        Err(_) => {},
                    }
                }
            },
        }
        i += 1;
    }
    assert(words@ + Seq::<WordPart>::empty() =~= words@);
    Ok(words)
}

/// The text of a word: a literal's own, `configure` for `$1`.
pub fn word_to_string(w: &WordPart) -> (r: Result<String, ScanError>)
    ensures
        match r {
            Ok(s) => text_of_word(*w) == Ok::<Seq<char>, ScanError>(s@),
            Err(e) => text_of_word(*w) == Err::<Seq<char>, ScanError>(e),
        },
{
    match w {
        WordPart::Literal(s) => Ok(s.clone()),
        WordPart::Param(Param::Positional(n)) => if *n == 1 {
            Ok(String::from_str("configure"))
        } else {
            Err(ScanError::UnsupportedWordType)
        },
        _ => Err(ScanError::UnsupportedWordType),
    }
}

/// Whether `w` is the literal `text`.
fn literal_is(w: &WordPart, text: &str) -> (b: bool)
    ensures
        b == is_literal(*w, text@),
{
    match w {
        WordPart::Literal(s) => same_text(s, text),
        _ => false,
    }
}

/// The effect of a command made of the words `cmd`.
pub fn command_words_effect(cmd: &Vec<WordPart>) -> (r: Result<Effect, ScanError>)
    requires
        cmd@.len() > 0,
    ensures
        r == command_effect(cmd@),
{
    let n = cmd.len();
    match &cmd[0] {
        WordPart::Literal(name) => {
            if same_text(name, "set") {
                if n != 2 {
                    Err(ScanError::SetArgumentCount)
                } else if !literal_is(&cmd[1], "-e") {
                    Err(ScanError::SetOnlyE)
                } else {
                    Ok(Effect::ChangeSettings)
                }
            } else if same_text(name, "ldconfig") {
                if n != 1 {
                    Err(ScanError::LdconfigArguments)
                } else {
                    Ok(Effect::RunsLdConfig)
                }
            } else {
                Err(ScanError::UnsupportedCommand)
            }
        },
        WordPart::SquareOpen => {
            let closed = match &cmd[n - 1] {
                WordPart::SquareClose => true,
                _ => false,
            };
            if !closed {
                return Err(ScanError::SquareOpenWithoutClose);
            }
            let ghost parts = cmd@.subrange(1, n - 1);
            if n - 2 != 3 {
                return Err(ScanError::TripletComparison);
            }
            assert(parts[1] == cmd@[2] && parts[0] == cmd@[1] && parts[2] == cmd@[3]);
            if !literal_is(&cmd[2], "=") {
                return Err(ScanError::UnsupportedComparator);
            }
            let a = word_to_string(&cmd[1])?;
            let b = word_to_string(&cmd[3])?;
            let same = a == b;
            Ok(
                Effect::ComparisonResult(
                    if same {
                        Computed::True
                    } else {
                        Computed::False
                    },
                ),
            )
        },
        _ => Err(ScanError::UnsupportedCommandType),
    }
}

/// Printing the exits `s` followed by `e`.
proof fn lemma_exits_push(s: Seq<Exit>, e: Exit)
    ensures
        exits_view(s.push(e)) == exits_view(s).push(exit_view(e)),
{
    assert(exits_view(s.push(e)) =~= exits_view(s).push(exit_view(e)));
}

/// Scans the top-level commands of a script, reporting the exit state of
/// each in `out` as soon as it has been scanned; stops at the first command
/// outside the supported subset.
pub fn scan_top_levels(items: &Vec<ShellCommand>, out: &mut Vec<Exit>) -> (r: Result<(), ScanError>)
    ensures
        exits_view(final(out)@) == exits_view(old(out)@) + run_top_levels(items@, 0).0,
        match r {
            Ok(()) => run_top_levels(items@, 0).1 is None,
            Err(e) => run_top_levels(items@, 0).1 == Some(e),
        },
    decreases items@, 1int,
{
    let ghost total = run_top_levels(items@, 0);
    let mut i: usize = 0;
    assert(exits_view(out@) + run_top_levels(items@, 0).0 =~= exits_view(old(out)@) + total.0);
    while i < items.len()
        invariant
            i <= items@.len(),
            total == run_top_levels(items@, 0),
            exits_view(out@) + run_top_levels(items@, i as int).0 == exits_view(old(out)@)
                + total.0,
            run_top_levels(items@, i as int).1 == total.1,
        decreases items@.len() - i,
    {
        let ghost here = exits_view(out@);
        match scan_top_level(&items[i], out) {
            Err(e) => {
                return Err(e);
            },
            Ok(exit) => {
                let ghost mid = out@;
                let ghost shown = exit_view(exit);
                out.push(exit);
                proof {
                    lemma_exits_push(mid, exit);
                    let (p1, _) = run_top_level(items@[i as int]);
                    let (p2, _) = run_top_levels(items@, i + 1);
                    assert(here + (p1.push(shown) + p2) =~= exits_view(out@) + p2);
                }
            },
        }
        i += 1;
    }
    assert(exits_view(out@) + Seq::<(u8, Seq<Effect>)>::empty() =~= exits_view(out@));
    Ok(())
}

/// Scans one top-level command, giving its exit state.
pub fn scan_top_level(item: &ShellCommand, out: &mut Vec<Exit>) -> (r: Result<Exit, ScanError>)
    ensures
        exits_view(final(out)@) == exits_view(old(out)@) + run_top_level(*item).0,
        match r {
            Ok(exit) => exit.code == 0 && run_top_level(*item).1 == Ok::<Seq<Effect>, ScanError>(exit.effects@),
            Err(e) => run_top_level(*item).1 == Err::<Seq<Effect>, ScanError>(e),
        },
    decreases *item, 0int,
{
    match item {
        ShellCommand::Job(_) => {
            assert(exits_view(out@) + Seq::<(u8, Seq<Effect>)>::empty() =~= exits_view(out@));
            Err(ScanError::LaunchesJob)
        },
        ShellCommand::List(l) => scan_and_or(l, out),
    }
}

/// Scans an and-or list, which has to be a lone pipeline or command.
pub fn scan_and_or(l: &AndOrChain, out: &mut Vec<Exit>) -> (r: Result<Exit, ScanError>)
    ensures
        exits_view(final(out)@) == exits_view(old(out)@) + run_and_or(*l).0,
        match r {
            Ok(exit) => exit.code == 0 && run_and_or(*l).1 == Ok::<Seq<Effect>, ScanError>(exit.effects@),
            Err(e) => run_and_or(*l).1 == Err::<Seq<Effect>, ScanError>(e),
        },
    decreases *l, 0int,
{
    if l.has_rest {
        assert(exits_view(out@) + Seq::<(u8, Seq<Effect>)>::empty() =~= exits_view(out@));
        return Err(ScanError::TopLevelAndOr);
    }
    match &l.first {
        Pipeline::Pipe(_, cmds) => {
            let effects = scan_pipeline(cmds, out)?;
            Ok(Exit { code: 0, effects })
        },
        Pipeline::Single(cmd) => {
            let mut effects: Vec<Effect> = Vec::new();
            match scan_command(cmd, out)? {
                Some(x) => {
                    effects.push(x);
                },
                None => {},
            }
            assert(effects@ =~= effects_of(run_command(*cmd).1->Ok_0));
            Ok(Exit { code: 0, effects })
        },
    }
}

/// Scans the commands of a pipeline in turn, gathering their effects.
pub fn scan_pipeline(cmds: &Vec<PipelineStage>, out: &mut Vec<Exit>) -> (r: Result<
    Vec<Effect>,
    ScanError,
>)
    ensures
        exits_view(final(out)@) == exits_view(old(out)@) + run_pipeline(cmds@, 0).0,
        match r {
            Ok(effects) => run_pipeline(cmds@, 0).1 == Ok::<Seq<Effect>, ScanError>(effects@),
            Err(e) => run_pipeline(cmds@, 0).1 == Err::<Seq<Effect>, ScanError>(e),
        },
    decreases cmds@, 1int,
{
    let mut effects: Vec<Effect> = Vec::new();
    let ghost total = run_pipeline(cmds@, 0);
    let mut i: usize = 0;
    assert(exits_view(out@) + total.0 =~= exits_view(old(out)@) + total.0);
    proof {
        match total.1 {
            Ok(rest) => assert(effects@ + rest =~= rest),
            Err(_) => {},
        }
    }
    while i < cmds.len()
        invariant
            i <= cmds@.len(),
            total == run_pipeline(cmds@, 0),
            exits_view(out@) + run_pipeline(cmds@, i as int).0 == exits_view(old(out)@)
                + total.0,
            match run_pipeline(cmds@, i as int).1 {
                Ok(rest) => total.1 == Ok::<Seq<Effect>, ScanError>(effects@ + rest),
                Err(e) => total.1 == Err::<Seq<Effect>, ScanError>(e),
            },
        decreases cmds@.len() - i,
    {
        let ghost here = exits_view(out@);
        let ghost effs = effects@;
        match scan_command(&cmds[i], out) {
            Err(e) => {
                return Err(e);
            },
            Ok(o) => {
                match o {
                    Some(x) => {
                        effects.push(x);
                    },
                    None => {},
                }
                proof {
                    let (p1, _) = run_command(cmds@[i as int]);
                    let (p2, r2) = run_pipeline(cmds@, i + 1);
                    assert(here + (p1 + p2) =~= exits_view(out@) + p2);
                    assert(effects@ =~= effs + effects_of(o));
                    match r2 {
                        Ok(rest) => {
                            assert(effs + (effects_of(o) + rest) =~= effects@ + rest);
                        },
                        Err(_) => {},
                    }
                }
            },
        }
        i += 1;
    }
    assert(exits_view(out@) + Seq::<(u8, Seq<Effect>)>::empty() =~= exits_view(out@));
    assert(effects@ + Seq::<Effect>::empty() =~= effects@);
    Ok(effects)
}

/// Scans one command of a pipeline, giving its effect if it has one.
pub fn scan_command(cmd: &PipelineStage, out: &mut Vec<Exit>) -> (r: Result<Option<Effect>, ScanError>)
    ensures
        exits_view(final(out)@) == exits_view(old(out)@) + run_command(*cmd).0,
        r == run_command(*cmd).1,
    decreases *cmd, 0int,
{
    match cmd {
        PipelineStage::Compound(c) => {
            if c.has_io {
                assert(exits_view(out@) + Seq::<(u8, Seq<Effect>)>::empty() =~= exits_view(out@));
                return Err(ScanError::CompoundDoesIo);
            }
            match &c.kind {
                BlockKind::If { conditionals, else_branch } => {
                    scan_if(conditionals, else_branch.is_some(), out)?;
                    Ok(None)
                },
                BlockKind::Other => {
                    assert(exits_view(out@) + Seq::<(u8, Seq<Effect>)>::empty() =~= exits_view(out@));
                    Err(ScanError::UnsupportedCommandKind)
                },
            }
        },
        PipelineStage::FunctionDef => {
            assert(exits_view(out@) + Seq::<(u8, Seq<Effect>)>::empty() =~= exits_view(out@));
            Err(ScanError::UnsupportedFunctionDef)
        },
        PipelineStage::Simple(s) => {
            assert(exits_view(out@) + Seq::<(u8, Seq<Effect>)>::empty() =~= exits_view(out@));
            if s.has_redirects_or_env_vars() {
                return Err(ScanError::RedirectsNotSupported);
            }
            let words = scan_words(s.words())?;
            proof {
                lemma_words_len(s.spec_words(), 0);
            }
            let effect = command_words_effect(&words)?;
            Ok(Some(effect))
        },
    }
}

/// Scans the branches of an `if`: the first guard that holds has its body
/// scanned, and an `else` branch is not supported.
pub fn scan_if(conditionals: &Vec<Branch>, has_else: bool, out: &mut Vec<Exit>) -> (r: Result<
    (),
    ScanError,
>)
    ensures
        exits_view(final(out)@) == exits_view(old(out)@) + run_if(conditionals@, 0, has_else).0,
        r == run_if(conditionals@, 0, has_else).1,
    decreases conditionals@, 1int,
{
    let ghost total = run_if(conditionals@, 0, has_else);
    let mut i: usize = 0;
    assert(exits_view(out@) + total.0 =~= exits_view(old(out)@) + total.0);
    while i < conditionals.len()
        invariant
            i <= conditionals@.len(),
            total == run_if(conditionals@, 0, has_else),
            exits_view(out@) + run_if(conditionals@, i as int, has_else).0 == exits_view(
                old(out)@,
            ) + total.0,
            run_if(conditionals@, i as int, has_else).1 == total.1,
        decreases conditionals@.len() - i,
    {
        let ghost here = exits_view(out@);
        let cond = &conditionals[i];
        match scan_guard(&cond.guard, out) {
            Err(e) => {
                return Err(e);
            },
            Ok(Computed::True) => {
                let ghost mid = exits_view(out@);
                let r = scan_top_levels(&cond.body, out);
                proof {
                    let (p1, _) = run_guard(cond.guard@);
                    let (p2, _) = run_top_levels(cond.body@, 0);
                    assert(here + (p1 + p2) =~= exits_view(out@));
                }
                return match r {
                    Ok(()) => Ok(()),
                    Err(e) => Err(e),
                };
            },
            Ok(Computed::False) => {
                proof {
                    let (p1, _) = run_guard(cond.guard@);
                    let (p2, _) = run_if(conditionals@, i + 1, has_else);
                    assert(here + (p1 + p2) =~= exits_view(out@) + p2);
                }
            },
            Ok(_) => {
                return Err(ScanError::UnexpectedEvalResult);
            },
        }
        i += 1;
    }
    assert(exits_view(out@) + Seq::<(u8, Seq<Effect>)>::empty() =~= exits_view(out@));
    if has_else {
        Err(ScanError::ElseUnsupported)
    } else {
        Ok(())
    }
}

/// Evaluates a guard: one command whose one effect is a comparison.
pub fn scan_guard(guard: &Vec<ShellCommand>, out: &mut Vec<Exit>) -> (r: Result<Computed, ScanError>)
    ensures
        exits_view(final(out)@) == exits_view(old(out)@) + run_guard(guard@).0,
        r == run_guard(guard@).1,
    decreases guard@, 0int,
{
    if guard.len() != 1 {
        assert(exits_view(out@) + Seq::<(u8, Seq<Effect>)>::empty() =~= exits_view(out@));
        return Err(ScanError::MoreThanOneGuard);
    }
    match &guard[0] {
        ShellCommand::Job(_) => {
            assert(exits_view(out@) + Seq::<(u8, Seq<Effect>)>::empty() =~= exits_view(out@));
            Err(ScanError::LaunchesJob)
        },
        ShellCommand::List(l) => {
            let exit = scan_and_or(l, out)?;
            if exit.effects.len() != 1 {
                return Err(ScanError::OnlyOneEffect);
            }
            match exit.effects[0] {
                Effect::ComparisonResult(c) => Ok(c),
                _ => Err(ScanError::UnexpectedEffect),
            }
        },
    }
}

/// Every comparison among `effects` came out true or false.
pub open spec fn decided(effects: Seq<Effect>) -> bool {
    forall|i: int|
        0 <= i < effects.len() ==> (#[trigger] effects[i] matches Effect::ComparisonResult(c) ==> c
            == Computed::True || c == Computed::False)
}

/// Every printed exit state has code 0 and only decided comparisons.
pub open spec fn printed_ok(p: Printed) -> bool {
    forall|i: int| 0 <= i < p.len() ==> (#[trigger] p[i]).0 == 0 && decided(p[i].1)
}

/// The failure is not an undecided guard.
pub open spec fn not_undecided<T>(r: Result<T, ScanError>) -> bool {
    !(r matches Err(e) && e == ScanError::UnexpectedEvalResult)
}

proof fn lemma_printed_concat(a: Printed, b: Printed)
    requires
        printed_ok(a),
        printed_ok(b),
    ensures
        printed_ok(a + b),
{
    assert forall|i: int| 0 <= i < (a + b).len() implies (#[trigger] (a + b)[i]).0 == 0 && decided(
        (a + b)[i].1,
    ) by {
        if i >= a.len() {
            assert((a + b)[i] == b[i - a.len()]);
        }
    }
}

proof fn lemma_command_effect_decided(cmd: Seq<WordPart>)
    ensures
        command_effect(cmd) matches Ok(x) ==> decided(seq![x]),
        not_undecided(command_effect(cmd)),
{
}

proof fn lemma_top_levels_ok(items: Seq<ShellCommand>, i: int)
    ensures
        printed_ok(run_top_levels(items, i).0),
        !(run_top_levels(items, i).1 == Some(ScanError::UnexpectedEvalResult)),
    decreases items, items.len() - i,
{
    if 0 <= i < items.len() {
        lemma_top_level_ok(items[i]);
        let (p1, r1) = run_top_level(items[i]);
        if let Ok(effects) = r1 {
            lemma_top_levels_ok(items, i + 1);
            let (p2, _) = run_top_levels(items, i + 1);
            assert(printed_ok(p1.push((0u8, effects)))) by {
                assert forall|k: int| 0 <= k < p1.push((0u8, effects)).len() implies (
                #[trigger] p1.push((0u8, effects))[k]).0 == 0 && decided(
                    p1.push((0u8, effects))[k].1,
                ) by {
                    if k < p1.len() {
                        assert(p1.push((0u8, effects))[k] == p1[k]);
                    }
                }
            }
            lemma_printed_concat(p1.push((0u8, effects)), p2);
        }
    }
}

proof fn lemma_top_level_ok(item: ShellCommand)
    ensures
        printed_ok(run_top_level(item).0),
        not_undecided(run_top_level(item).1),
        run_top_level(item).1 matches Ok(effects) ==> decided(effects),
    decreases item, 0int,
{
    if let ShellCommand::List(l) = item {
        lemma_and_or_ok(l);
    }
}

proof fn lemma_and_or_ok(l: AndOrChain)
    ensures
        printed_ok(run_and_or(l).0),
        not_undecided(run_and_or(l).1),
        run_and_or(l).1 matches Ok(effects) ==> decided(effects),
    decreases l, 0int,
{
    if !l.has_rest {
        match l.first {
            Pipeline::Pipe(_, cmds) => lemma_pipeline_ok(cmds@, 0),
            Pipeline::Single(cmd) => lemma_command_ok(cmd),
        }
    }
}

proof fn lemma_pipeline_ok(cmds: Seq<PipelineStage>, i: int)
    ensures
        printed_ok(run_pipeline(cmds, i).0),
        not_undecided(run_pipeline(cmds, i).1),
        run_pipeline(cmds, i).1 matches Ok(effects) ==> decided(effects),
    decreases cmds, cmds.len() - i,
{
    if 0 <= i < cmds.len() {
        lemma_command_ok(cmds[i]);
        let (p1, r1) = run_command(cmds[i]);
        if let Ok(o) = r1 {
            lemma_pipeline_ok(cmds, i + 1);
            let (p2, r2) = run_pipeline(cmds, i + 1);
            lemma_printed_concat(p1, p2);
            if let Ok(rest) = r2 {
                let all = effects_of(o) + rest;
                assert forall|k: int| 0 <= k < all.len() implies (#[trigger] all[k] matches Effect::ComparisonResult(
                    c,
                ) ==> c == Computed::True || c == Computed::False) by {
                    if k >= effects_of(o).len() {
                        assert(all[k] == rest[k - effects_of(o).len()]);
                    }
                }
            }
        }
    }
}

proof fn lemma_command_ok(cmd: PipelineStage)
    ensures
        printed_ok(run_command(cmd).0),
        not_undecided(run_command(cmd).1),
        run_command(cmd).1 matches Ok(o) ==> decided(effects_of(o)),
    decreases cmd, 0int,
{
    match cmd {
        PipelineStage::Compound(c) => {
            if !c.has_io {
                if let BlockKind::If { conditionals, else_branch } = c.kind {
                    lemma_if_ok(conditionals@, 0, else_branch is Some);
                }
            }
        },
        PipelineStage::FunctionDef => {},
        PipelineStage::Simple(s) => {
            lemma_words_not_undecided(s.spec_words(), 0);
            if let Ok(words) = words_of(s.spec_words(), 0) {
                lemma_command_effect_decided(words);
            }
        },
    }
}

proof fn lemma_words_not_undecided(items: Seq<CommandItem>, i: int)
    ensures
        not_undecided(words_of(items, i)),
    decreases items.len() - i,
{
    if 0 <= i < items.len() {
        lemma_words_not_undecided(items, i + 1);
    }
}

proof fn lemma_if_ok(conds: Seq<Branch>, i: int, has_else: bool)
    ensures
        printed_ok(run_if(conds, i, has_else).0),
        not_undecided(run_if(conds, i, has_else).1),
    decreases conds, conds.len() - i,
{
    if 0 <= i < conds.len() {
        lemma_guard_ok(conds[i].guard@);
        let (p1, r1) = run_guard(conds[i].guard@);
        match r1 {
            Ok(Computed::True) => {
                lemma_top_levels_ok(conds[i].body@, 0);
                lemma_printed_concat(p1, run_top_levels(conds[i].body@, 0).0);
            },
            Ok(Computed::False) => {
                lemma_if_ok(conds, i + 1, has_else);
                lemma_printed_concat(p1, run_if(conds, i + 1, has_else).0);
            },
            _ => {},
        }
    }
}

proof fn lemma_guard_ok(guard: Seq<ShellCommand>)
    ensures
        printed_ok(run_guard(guard).0),
        not_undecided(run_guard(guard).1),
        run_guard(guard).1 matches Ok(c) ==> c == Computed::True || c == Computed::False,
    decreases guard, 0int,
{
    if guard.len() == 1 {
        if let ShellCommand::List(l) = guard[0] {
            lemma_and_or_ok(l);
        }
    }
}

/// Scanning any script reports only exit states with code 0 whose
/// comparisons came out true or false, and never fails on a guard that is
/// neither true nor false.
pub proof fn law_scan_is_decided(items: Seq<ShellCommand>)
    ensures
        printed_ok(run_top_levels(items, 0).0),
        run_top_levels(items, 0).1 != Some(ScanError::UnexpectedEvalResult),
{
    lemma_top_levels_ok(items, 0);
}

/// The words of the test `[ x = y ]`.
pub open spec fn test_words(x: WordPart, eq: WordPart, y: WordPart) -> Seq<WordPart> {
    seq![WordPart::SquareOpen, x, eq, y, WordPart::SquareClose]
}

/// A test `[ s = t ]` of two literals holds exactly when their texts are the
/// same.
pub proof fn law_literal_test_compares_texts(s: String, eq: String, t: String)
    requires
        eq@ == "="@,
    ensures
        command_effect(test_words(WordPart::Literal(s), WordPart::Literal(eq), WordPart::Literal(t)))
            == Ok::<Effect, ScanError>(
            Effect::ComparisonResult(
                if s@ == t@ {
                    Computed::True
                } else {
                    Computed::False
                },
            ),
        ),
{
    let cmd = test_words(WordPart::Literal(s), WordPart::Literal(eq), WordPart::Literal(t));
    let parts = cmd.subrange(1, cmd.len() - 1);
    assert(parts =~= seq![WordPart::Literal(s), WordPart::Literal(eq), WordPart::Literal(t)]);
}

/// The first argument of the script, `$1`, reads as the text `configure` on
/// either side of a test.
pub proof fn law_first_argument_reads_configure(eq: String, conf: String, other: WordPart)
    requires
        eq@ == "="@,
        conf@ == "configure"@,
    ensures
        command_effect(
            test_words(WordPart::Param(Param::Positional(1)), WordPart::Literal(eq), other),
        ) == command_effect(test_words(WordPart::Literal(conf), WordPart::Literal(eq), other)),
        command_effect(
            test_words(other, WordPart::Literal(eq), WordPart::Param(Param::Positional(1))),
        ) == command_effect(test_words(other, WordPart::Literal(eq), WordPart::Literal(conf))),
{
    let p = WordPart::Param(Param::Positional(1));
    let c = WordPart::Literal(conf);
    let e = WordPart::Literal(eq);
    assert(test_words(p, e, other).subrange(1, 4) =~= seq![p, e, other]);
    assert(test_words(c, e, other).subrange(1, 4) =~= seq![c, e, other]);
    assert(test_words(other, e, p).subrange(1, 4) =~= seq![other, e, p]);
    assert(test_words(other, e, c).subrange(1, 4) =~= seq![other, e, c]);
}

/// The two operands of a test are read alike: `[ x = y ]` and `[ y = x ]`
/// have the same effect, or fail alike.
pub proof fn law_test_is_symmetric(x: WordPart, eq: String, y: WordPart)
    requires
        eq@ == "="@,
    ensures
        command_effect(test_words(x, WordPart::Literal(eq), y)) == command_effect(
            test_words(y, WordPart::Literal(eq), x),
        ),
{
    let e = WordPart::Literal(eq);
    assert(test_words(x, e, y).subrange(1, 4) =~= seq![x, e, y]);
    assert(test_words(y, e, x).subrange(1, 4) =~= seq![y, e, x]);
}

/// `set -e` changes the settings and `ldconfig` alone runs ldconfig; a
/// command named by any other literal is refused.
pub proof fn law_known_commands(set: String, e: String, ldconfig: String, other: String, args: Seq<WordPart>)
    requires
        set@ == "set"@,
        e@ == "-e"@,
        ldconfig@ == "ldconfig"@,
        other@ != "set"@,
        other@ != "ldconfig"@,
    ensures
        command_effect(seq![WordPart::Literal(set), WordPart::Literal(e)]) == Ok::<Effect, ScanError>(
            Effect::ChangeSettings,
        ),
        command_effect(seq![WordPart::Literal(ldconfig)]) == Ok::<Effect, ScanError>(
            Effect::RunsLdConfig,
        ),
        command_effect(seq![WordPart::Literal(other)] + args) == Err::<Effect, ScanError>(
            ScanError::UnsupportedCommand,
        ),
{
    reveal_strlit("set");
    reveal_strlit("ldconfig");
    assert("ldconfig"@[0] != "set"@[0]);
    assert((seq![WordPart::Literal(other)] + args)[0] == WordPart::Literal(other));
}

/// Whether an `if` has an `else` branch never changes what its guards and
/// bodies print, nor a failure inside them; it only turns the case where no
/// guard holds into a refusal.
pub proof fn law_else_only_refuses(conds: Seq<Branch>, i: int)
    requires
        0 <= i,
    ensures
        run_if(conds, i, true).0 == run_if(conds, i, false).0,
        run_if(conds, i, false).1 is Err ==> run_if(conds, i, true).1 == run_if(conds, i, false).1,
        run_if(conds, i, false).1 is Ok ==> run_if(conds, i, true).1 is Ok || run_if(conds, i, true).1
            == Err::<(), ScanError>(ScanError::ElseUnsupported),
    decreases conds.len() - i,
{
    if i < conds.len() {
        law_else_only_refuses(conds, i + 1);
    }
}

} // verus!

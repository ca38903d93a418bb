//! The part of a parsed shell script that the scanner reads.
use vstd::prelude::*;

verus! {

/// A parameter, such as `$1` or `$foo`.
#[derive(Debug)]
pub enum Param {
    At,
    Star,
    Pound,
    Question,
    Dash,
    Dollar,
    Bang,
    Positional(u32),
    Var(String),
}

/// The smallest fragment of a word.
#[derive(Debug)]
pub enum WordPart {
    Literal(String),
    Escaped(String),
    Param(Param),
    /// A parameter substitution, such as `${foo:-bar}`.
    Subst,
    Star,
    Question,
    SquareOpen,
    SquareClose,
    Tilde,
    Colon,
}

/// A quoted or unquoted word.
#[derive(Debug)]
pub enum ShellWord {
    Simple(WordPart),
    DoubleQuoted(Vec<WordPart>),
    SingleQuoted(String),
}

/// A whitespace-delimited word: one word, or several glued together.
#[derive(Debug)]
pub enum CompoundWord {
    Concat,
    Single(ShellWord),
}

/// An item after the command name: a redirection or a word.
#[derive(Debug)]
pub enum CommandItem {
    Redirect,
    CmdWord(CompoundWord),
}

/// A command with its arguments.  It always has a word, a redirection or an
/// environment assignment.
#[derive(Debug)]
pub struct PlainCommand {
    has_redirects_or_env_vars: bool,
    redirects_or_cmd_words: Vec<CommandItem>,
}

impl PlainCommand {
    #[verifier::type_invariant]
    closed spec fn inhabited(&self) -> bool {
        self.has_redirects_or_env_vars || self.redirects_or_cmd_words@.len() > 0
    }

    /// Redirections or environment assignments come before the command name.
    pub closed spec fn spec_has_redirects_or_env_vars(&self) -> bool {
        self.has_redirects_or_env_vars
    }

    /// The command name, arguments and later redirections.
    pub closed spec fn spec_words(&self) -> Seq<CommandItem> {
        self.redirects_or_cmd_words@
    }

    /// A simple command; `None` when it would hold nothing at all.
    pub fn new(has_redirects_or_env_vars: bool, redirects_or_cmd_words: Vec<CommandItem>) -> (r:
        Option<PlainCommand>)
        ensures
            r is Some <==> has_redirects_or_env_vars || redirects_or_cmd_words@.len() > 0,
            r matches Some(c) ==> c.spec_has_redirects_or_env_vars() == has_redirects_or_env_vars
                && c.spec_words() == redirects_or_cmd_words@,
    {
        if has_redirects_or_env_vars || redirects_or_cmd_words.len() > 0 {
            Some(PlainCommand { has_redirects_or_env_vars, redirects_or_cmd_words })
        } else {
            None
        }
    }

    /// Redirections or environment assignments come before the command name.
    pub fn has_redirects_or_env_vars(&self) -> (b: bool)
        ensures
            b == self.spec_has_redirects_or_env_vars(),
            !b ==> self.spec_words().len() > 0,
    {
        proof {
            use_type_invariant(self);
        }
        self.has_redirects_or_env_vars
    }

    /// The command name, arguments and later redirections.
    pub fn words(&self) -> (w: &Vec<CommandItem>)
        ensures
            w@ == self.spec_words(),
    {
        &self.redirects_or_cmd_words
    }
}

/// A guard and the commands that run when it holds.
#[derive(Debug)]
pub struct Branch {
    pub guard: Vec<ShellCommand>,
    pub body: Vec<ShellCommand>,
}

/// The kind of a compound command.
#[derive(Debug)]
pub enum BlockKind {
    If { conditionals: Vec<Branch>, else_branch: Option<Vec<ShellCommand>> },
    /// A brace group, subshell, loop or case statement.
    Other,
}

/// A compound command and whether redirections apply to it.
#[derive(Debug)]
pub struct Block {
    pub kind: BlockKind,
    pub has_io: bool,
}

/// A command that can stand in a pipeline.
#[derive(Debug)]
pub enum PipelineStage {
    Simple(Box<PlainCommand>),
    Compound(Box<Block>),
    FunctionDef,
}

/// A pipeline, or a single command.
#[derive(Debug)]
pub enum Pipeline {
    Pipe(bool, Vec<PipelineStage>),
    Single(PipelineStage),
}

/// A command followed by `&&` and `||` parts, of which only their presence is
/// kept.
#[derive(Debug)]
pub struct AndOrChain {
    pub first: Pipeline,
    pub has_rest: bool,
}

/// A complete command of the script: run in the background, or not.
#[derive(Debug)]
pub enum ShellCommand {
    Job(AndOrChain),
    List(AndOrChain),
}

} // verus!

//! Problems of command construction, and the errors that native commands return.

use vstd::prelude::*;
use vstd::string::StringExecFns;

use crate::text::{join_texts, joined, texts};

verus! {

/// One reason a CLI could not be constructed.
#[derive(Debug)]
pub enum CliBuildProblem {
    /// A protocol name contains unsupported characters or has no command-line spelling.
    InvalidName {
        /// Kind of protocol name.
        kind: &'static str,
        /// Original protocol name or property path.
        name: String,
    },
    /// Multiple protocol names have the same normalized spelling.
    NameCollision {
        /// Conflicting command-line spelling.
        cli_name: String,
        /// Original protocol names or property paths.
        originals: Vec<String>,
    },
    /// A protocol name collides with Clap's help interface.
    ReservedName {
        /// Kind of protocol name.
        kind: &'static str,
        /// Original protocol name or property path.
        name: String,
    },
    /// The generated subtree collides with an application command.
    ApplicationCommandCollision {
        /// Conflicting command name.
        name: String,
    },
}

/// A construction problem as mathematics.
pub enum ProblemView {
    InvalidName { kind: Seq<char>, name: Seq<char> },
    NameCollision { cli_name: Seq<char>, originals: Seq<Seq<char>> },
    ReservedName { kind: Seq<char>, name: Seq<char> },
    ApplicationCommandCollision { name: Seq<char> },
}

impl View for CliBuildProblem {
    type V = ProblemView;

    open spec fn view(&self) -> ProblemView {
        match self {
            CliBuildProblem::InvalidName { kind, name } => ProblemView::InvalidName {
                kind: kind@,
                name: name@,
            },
            CliBuildProblem::NameCollision { cli_name, originals } => ProblemView::NameCollision {
                cli_name: cli_name@,
                originals: texts(originals@),
            },
            CliBuildProblem::ReservedName { kind, name } => ProblemView::ReservedName {
                kind: kind@,
                name: name@,
            },
            CliBuildProblem::ApplicationCommandCollision { name } =>
                ProblemView::ApplicationCommandCollision { name: name@ },
        }
    }
}

/// The problems of a list.
pub open spec fn problem_views(problems: Seq<CliBuildProblem>) -> Seq<ProblemView> {
    Seq::new(problems.len(), |i: int| problems[i]@)
}

/// A text between backquotes.
pub open spec fn quoted(text: Seq<char>) -> Seq<char> {
    "`"@ + text + "`"@
}

/// Each text between backquotes.
pub open spec fn all_quoted(items: Seq<Seq<char>>) -> Seq<Seq<char>> {
    Seq::new(items.len(), |i: int| quoted(items[i]))
}

/// The sentence that states a problem.
pub open spec fn problem_text(problem: ProblemView) -> Seq<char> {
    match problem {
        ProblemView::InvalidName { kind, name } => "unsupported "@ + kind + " name "@ + quoted(name),
        ProblemView::NameCollision { cli_name, originals } => quoted(cli_name) + " is shared by "@
            + joined(all_quoted(originals), ", "@),
        ProblemView::ReservedName { kind, name } => kind + " name "@ + quoted(name)
            + " is reserved for help"@,
        ProblemView::ApplicationCommandCollision { name } => "application already has a "@ + quoted(
            name,
        ) + " subcommand"@,
    }
}

/// The sentences that state problems.
pub open spec fn problem_texts(problems: Seq<ProblemView>) -> Seq<Seq<char>> {
    Seq::new(problems.len(), |i: int| problem_text(problems[i]))
}

/// Puts a text between backquotes.
pub(crate) fn quote(text: &str) -> (r: String)
    ensures
        r@ == quoted(text@),
{
    let mut out = "`".to_owned();
    out.append(text);
    out.append("`");
    out
}

impl CliBuildProblem {
    /// States the problem in one sentence.
    pub fn to_string(&self) -> (r: String)
        ensures
            r@ == problem_text(self@),
    {
        match self {
            CliBuildProblem::InvalidName { kind, name } => {
                let mut out = "unsupported ".to_owned();
                out.append(kind);
                out.append(" name ");
                out.append(quote(name.as_str()).as_str());
                out
            },
            CliBuildProblem::NameCollision { cli_name, originals } => {
                let mut names: Vec<String> = Vec::new();
                let mut i: usize = 0;
                while i < originals.len()
                    invariant
                        i <= originals.len(),
                        names.len() == i,
                        forall|k: int|
                            0 <= k < i ==> (#[trigger] names@[k])@ == quoted(originals@[k]@),
                    decreases originals.len() - i,
                {
                    names.push(quote(originals[i].as_str()));
                    i += 1;
                }
                assert(texts(names@) =~= all_quoted(texts(originals@)));
                let mut out = quote(cli_name.as_str());
                out.append(" is shared by ");
                out.append(join_texts(&names, ", ").as_str());
                out
            },
            CliBuildProblem::ReservedName { kind, name } => {
                let mut out: String = (*kind).to_owned();
                out.append(" name ");
                out.append(quote(name.as_str()).as_str());
                out.append(" is reserved for help");
                out
            },
            CliBuildProblem::ApplicationCommandCollision { name } => {
                let mut out = "application already has a ".to_owned();
                out.append(quote(name.as_str()).as_str());
                out.append(" subcommand");
                out
            },
        }
    }
}

/// Error returned while constructing a generated command tree.
#[derive(Debug)]
pub struct CliBuildError {
    /// Human-readable aggregate message.
    message: String,
    /// Every detected construction problem.
    problems: Vec<CliBuildProblem>,
}

impl CliBuildError {
    /// The problems that the error reports.
    pub closed spec fn reported(&self) -> Seq<ProblemView> {
        problem_views(self.problems@)
    }

    /// The message states each problem, in order.
    #[verifier::type_invariant]
    spec fn states_problems(&self) -> bool {
        self.message@ == joined(problem_texts(problem_views(self.problems@)), "; "@)
    }

    /// Creates an aggregate construction error.
    pub fn new(problems: Vec<CliBuildProblem>) -> (r: CliBuildError)
        ensures
            r.reported() == problem_views(problems@),
    {
        let mut sentences: Vec<String> = Vec::new();
        let mut i: usize = 0;
        while i < problems.len()
            invariant
                i <= problems.len(),
                sentences.len() == i,
                forall|k: int|
                    0 <= k < i ==> (#[trigger] sentences@[k])@ == problem_text(problems@[k]@),
            decreases problems.len() - i,
        {
            sentences.push(problems[i].to_string());
            i += 1;
        }
        assert(texts(sentences@) =~= problem_texts(problem_views(problems@)));
        let message = join_texts(&sentences, "; ");
        CliBuildError { message, problems }
    }

    /// Returns every detected construction problem.
    pub fn problems(&self) -> (r: &[CliBuildProblem])
        ensures
            problem_views(r@) == self.reported(),
    {
        self.problems.as_slice()
    }

    /// States the error and each problem behind it.
    pub fn to_string(&self) -> (r: String)
        ensures
            r@ == "cannot construct CLI: "@ + joined(problem_texts(self.reported()), "; "@),
    {
        proof {
            use_type_invariant(self);
        }
        let mut out = "cannot construct CLI: ".to_owned();
        out.append(self.message.as_str());
        out
    }
}

/// Category of a native CLI error.
#[derive(Clone, Copy, Debug, PartialEq, Eq, Structural)]
pub enum CliErrorKind {
    /// Help or version output requested by the caller.
    Display,
    /// Invalid command-line or tool input.
    Usage,
    /// Handler, rendering, filesystem, or stream failure.
    Runtime,
}

/// Error or non-exiting display request returned by native CLI operations.
#[derive(Debug)]
pub struct CliError {
    /// Error category.
    kind: CliErrorKind,
    /// Fully rendered message.
    message: String,
}

/// A command error as mathematics: its category and its message.
pub struct CliErrorView {
    pub kind: CliErrorKind,
    pub message: Seq<char>,
}

impl View for CliError {
    type V = CliErrorView;

    closed spec fn view(&self) -> CliErrorView {
        CliErrorView { kind: self.kind, message: self.message@ }
    }
}

/// The exit status of an error category.
pub open spec fn exit_status(kind: CliErrorKind) -> u8 {
    match kind {
        CliErrorKind::Display => 0,
        CliErrorKind::Usage => 2,
        CliErrorKind::Runtime => 1,
    }
}

/// The failure that a message about a stream or the run states.
pub open spec fn runtime_failure(message: Seq<char>) -> CliErrorView {
    CliErrorView { kind: CliErrorKind::Runtime, message: "error: "@ + message + "\n"@ }
}

impl CliError {
    /// Creates an error from its category and its rendered message.
    pub fn new(kind: CliErrorKind, message: String) -> (r: CliError)
        ensures
            r@ == (CliErrorView { kind, message: message@ }),
    {
        CliError { kind, message }
    }

    /// Creates a stream or runtime failure.
    pub fn runtime(message: &str) -> (r: CliError)
        ensures
            r@ == runtime_failure(message@),
    {
        let mut out = "error: ".to_owned();
        out.append(message);
        out.append("\n");
        CliError { kind: CliErrorKind::Runtime, message: out }
    }

    /// Returns the error category.
    pub fn kind(&self) -> (r: CliErrorKind)
        ensures
            r == self@.kind,
    {
        self.kind
    }

    /// Returns the fully rendered message.
    pub fn to_string(&self) -> (r: String)
        ensures
            r@ == self@.message,
    {
        self.message.clone()
    }

    /// Returns the process exit status associated with this value.
    pub fn exit_code(&self) -> (r: u8)
        ensures
            r == exit_status(self@.kind),
    {
        match self.kind {
            CliErrorKind::Display => 0,
            CliErrorKind::Usage => 2,
            CliErrorKind::Runtime => 1,
        }
    }

    /// Returns whether this value should be written to stderr.
    pub fn targets_stderr(&self) -> (r: bool)
        ensures
            r == !(self@.kind is Display),
    {
        !matches!(self.kind, CliErrorKind::Display)
    }

    /// Appends the rendered value to its selected stream and leaves the other as it is.
    pub fn write_to(&self, stdout: &mut String, stderr: &mut String)
        ensures
            final(stdout)@ == (if self@.kind is Display {
                old(stdout)@ + self@.message
            } else {
                old(stdout)@
            }),
            final(stderr)@ == (if self@.kind is Display {
                old(stderr)@
            } else {
                old(stderr)@ + self@.message
            }),
    {
        if self.targets_stderr() {
            stderr.append(self.message.as_str());
        } else {
            stdout.append(self.message.as_str());
        }
    }
}

/// Success is only ever reported for a display request, which goes to standard output; every
/// failure goes to standard error.
pub proof fn exit_status_separates(kind: CliErrorKind)
    ensures
        exit_status(kind) == 0 <==> kind is Display,
{
}

/// Appends every normalization collision to construction problems, in order of the spelling.
pub(crate) fn append_collisions(
    problems: &mut Vec<CliBuildProblem>,
    names: Vec<(String, Vec<String>)>,
)
    ensures
        problem_views(final(problems)@) == problem_views(old(problems)@) + collisions(
            name_views(names@),
        ),
{
    let ghost before = problem_views(problems@);
    let ghost all = names@;
    let mut names = names;
    let mut done: Ghost<int> = Ghost(0);
    assert(problem_views(problems@) =~= before + collisions(name_views(all.take(0))));
    while names.len() > 0
        invariant
            0 <= done@ <= all.len(),
            names@ == all.skip(done@),
            problem_views(problems@) == before + collisions(name_views(all.take(done@))),
        decreases names.len(),
    {
        let ghost n = done@;
        let (cli_name, originals) = names.remove(0);
        proof {
            assert((cli_name, originals) == all[n]);
            let next = name_views(all.take(n + 1));
            assert(next.drop_last() =~= name_views(all.take(n)));
            assert(next.last() == (cli_name@, texts(originals@)));
            assert(names@ =~= all.skip(n + 1));
            done@ = n + 1;
        }
        if originals.len() > 1 {
            let ghost were = problem_views(problems@);
            problems.push(CliBuildProblem::NameCollision { cli_name, originals });
            assert(problem_views(problems@) =~= were.push(
                (ProblemView::NameCollision { cli_name: cli_name@, originals: texts(originals@) }),
            ));
            assert(problem_views(problems@) =~= before + collisions(name_views(all.take(n + 1))));
        }
    }
    assert(all.take(all.len() as int) =~= all);
}

/// A name table as mathematics: each spelling with the protocol names that share it.
pub open spec fn name_views(names: Seq<(String, Vec<String>)>) -> Seq<
    (Seq<char>, Seq<Seq<char>>),
> {
    Seq::new(names.len(), |i: int| (names[i].0@, texts(names[i].1@)))
}

/// The spellings that more than one protocol name has.
pub open spec fn collisions(names: Seq<(Seq<char>, Seq<Seq<char>>)>) -> Seq<ProblemView>
    decreases names.len(),
{
    if names.len() == 0 {
        Seq::empty()
    } else if names.last().1.len() > 1 {
        collisions(names.drop_last()).push(
            ProblemView::NameCollision { cli_name: names.last().0, originals: names.last().1 },
        )
    } else {
        collisions(names.drop_last())
    }
}

} // verus!

//! Commands, options and matches of `clap`, and what the library relies on of them.

use vstd::prelude::*;

use crate::text::texts;

verus! {

// ---------------------------------------------------------------------------------------------
// The model

/// How occurrences of an option combine.
#[derive(Clone, Copy, PartialEq, Eq, Structural)]
pub enum Action {
    /// The option occurs once.
    Once,
    /// Each occurrence adds its values.
    Append,
}

/// An option as mathematics.
pub struct ArgView {
    pub id: Seq<char>,
    pub long: Option<Seq<char>>,
    pub value_name: Option<Seq<char>>,
    pub help: Option<Seq<char>>,
    pub long_help: Option<Seq<char>>,
    pub action: Option<Action>,
    /// Least and greatest number of values of one occurrence.
    pub num_args: Option<(nat, nat)>,
    /// The value of an occurrence without one.
    pub missing: Option<Seq<char>>,
    /// The value of an option that does not occur.
    pub default: Option<Seq<char>>,
    /// The only values that are accepted.
    pub choices: Option<Seq<Seq<char>>>,
    pub negative_numbers: bool,
    pub required: bool,
    /// Whether nothing else was set.
    pub plain: bool,
}

/// A command as mathematics.
pub struct CommandView {
    pub name: Seq<char>,
    pub about: Option<Seq<char>>,
    pub long_about: Option<Seq<char>>,
    pub version: Option<Seq<char>>,
    /// Whether there is a `help` subcommand.
    pub help_subcommand: bool,
    pub args: Seq<ArgView>,
    pub subcommands: Seq<CommandView>,
    /// Whether nothing else was set.
    pub plain: bool,
}

/// What parsing a command line found, as mathematics.
pub struct MatchView {
    /// The options that may be asked for.
    pub known: Set<Seq<char>>,
    /// The values of the options that occurred or have a default.
    pub values: Map<Seq<char>, Seq<Seq<char>>>,
    /// The options that occurred on the command line.
    pub typed: Set<Seq<char>>,
    /// The chosen subcommand and what was found for it.
    pub subcommand: Option<(Seq<char>, Box<MatchView>)>,
}

/// Why a command line was refused.
#[derive(Clone, Copy, PartialEq, Eq, Structural)]
pub enum RefusalKind {
    /// It asks for help.
    Help,
    /// It asks for the version.
    Version,
    /// It is in error.
    Other,
}

/// A refused command line: why, and the rendered message.
pub struct Refusal {
    pub kind: RefusalKind,
    pub text: String,
}

/// A refusal as mathematics.
pub struct RefusalView {
    pub kind: RefusalKind,
    pub text: Seq<char>,
}

impl View for Refusal {
    type V = RefusalView;

    open spec fn view(&self) -> RefusalView {
        RefusalView { kind: self.kind, text: self.text@ }
    }
}

/// A new option.
pub open spec fn new_arg_view(id: Seq<char>) -> ArgView {
    ArgView {
        id,
        long: None,
        value_name: None,
        help: None,
        long_help: None,
        action: None,
        num_args: None,
        missing: None,
        default: None,
        choices: None,
        negative_numbers: false,
        required: false,
        plain: true,
    }
}

/// A new command.
pub open spec fn new_command_view(name: Seq<char>) -> CommandView {
    CommandView {
        name,
        about: None,
        long_about: None,
        version: None,
        help_subcommand: true,
        args: Seq::empty(),
        subcommands: Seq::empty(),
        plain: true,
    }
}

/// Whether an option can be part of a command: it is a named option that takes a value wherever
/// it occurs, and its names are not taken by the generated ones.
pub open spec fn arg_sound(arg: ArgView, versioned: bool) -> bool {
    &&& arg.plain
    &&& arg.long matches Some(long) && long.len() > 0 && long[0] != '-' && long != "help"@
    &&& arg.id != "help"@
    &&& versioned ==> arg.id != "version"@ && arg.long != Some("version"@)
    &&& arg.num_args is None || (arg.num_args == Some((0nat, 1nat)) && arg.missing is Some)
    &&& !(arg.required && arg.default is Some)
}

/// Whether a command can be parsed: its options and subcommands do not share names.
pub open spec fn command_sound(command: CommandView) -> bool
    decreases command,
{
    &&& command.plain
    &&& !command.help_subcommand
    &&& forall|i: int|
        0 <= i < command.args.len() ==> arg_sound(
            #[trigger] command.args[i],
            command.version is Some,
        )
    &&& forall|i: int, j: int|
        0 <= i < j < command.args.len() ==> (#[trigger] command.args[i]).id != (
        #[trigger] command.args[j]).id && command.args[i].long != command.args[j].long
    &&& forall|i: int, j: int|
        0 <= i < j < command.subcommands.len() ==> (#[trigger] command.subcommands[i]).name != (
        #[trigger] command.subcommands[j]).name
    &&& forall|i: int|
        0 <= i < command.subcommands.len() ==> command_sound(#[trigger] command.subcommands[i])
}

/// Whether matches hold for an option what parsing gives it: it may be asked for; if it is there
/// it has a value, and only values among its choices; and it is there if it has a default.
pub open spec fn arg_fits(arg: ArgView, found: MatchView) -> bool {
    &&& found.known.contains(arg.id)
    &&& found.values.dom().contains(arg.id) ==> found.values[arg.id].len() > 0
    &&& found.values.dom().contains(arg.id) && arg.choices is Some ==> forall|i: int|
        0 <= i < found.values[arg.id].len() ==> arg.choices->0.contains(
            #[trigger] found.values[arg.id][i],
        )
    &&& arg.default is Some ==> found.values.dom().contains(arg.id)
}

/// Whether matches come from parsing with a command: they fit its options, and the chosen
/// subcommand is one of its own.
pub open spec fn fits(command: CommandView, found: MatchView) -> bool
    decreases command,
{
    &&& forall|i: int| 0 <= i < command.args.len() ==> arg_fits(#[trigger] command.args[i], found)
    &&& found.subcommand matches Some((name, inner)) ==> exists|i: int|
        0 <= i < command.subcommands.len() && (#[trigger] command.subcommands[i]).name == name
            && fits(command.subcommands[i], *inner)
}

// ---------------------------------------------------------------------------------------------
// `clap`

/// `clap`'s option.
#[verifier::external_type_specification]
#[verifier::external_body]
pub struct ExArg(clap::Arg);

/// `clap`'s command.
#[verifier::external_type_specification]
#[verifier::external_body]
pub struct ExCommand(clap::Command);

/// `clap`'s matches.
#[verifier::external_type_specification]
#[verifier::external_body]
pub struct ExArgMatches(clap::ArgMatches);

/// What a `clap` option holds.
pub uninterp spec fn arg_view(arg: clap::Arg) -> ArgView;

/// What a `clap` command holds.
pub uninterp spec fn command_view(command: clap::Command) -> CommandView;

/// What `clap` matches hold.
pub uninterp spec fn match_view(matches: clap::ArgMatches) -> MatchView;

/// What parsing arguments with a command gives: matches, or a refusal.
pub uninterp spec fn matched(command: clap::Command, args: Seq<Seq<char>>) -> Result<
    MatchView,
    RefusalView,
>;

/// The text that a command renders for an invalid value.
pub uninterp spec fn rejection(command: clap::Command, message: Seq<char>) -> Seq<char>;

/// `clap::Arg::new`: an option with an identifier and nothing else.
#[verifier::external_body]
pub(crate) fn new_arg(id: &str) -> (r: clap::Arg)
    ensures
        arg_view(r) == new_arg_view(id@),
{
    clap::Arg::new(id.to_string())
}

/// `clap::Arg::long`: sets the name after the two hyphens.
#[verifier::external_body]
pub(crate) fn with_long(arg: clap::Arg, long: &str) -> (r: clap::Arg)
    ensures
        arg_view(r) == (ArgView { long: Some(long@), ..arg_view(arg) }),
{
    arg.long(long.to_string())
}

/// `clap::Arg::value_name`: sets the placeholder of the value in help.
#[verifier::external_body]
pub(crate) fn with_value_name(arg: clap::Arg, name: &str) -> (r: clap::Arg)
    ensures
        arg_view(r) == (ArgView { value_name: Some(name@), ..arg_view(arg) }),
{
    arg.value_name(name.to_string())
}

/// `clap::Arg::help`: sets the short help.
#[verifier::external_body]
pub(crate) fn with_help(arg: clap::Arg, help: &str) -> (r: clap::Arg)
    ensures
        arg_view(r) == (ArgView { help: Some(help@), ..arg_view(arg) }),
{
    arg.help(help.to_string())
}

/// `clap::Arg::long_help`: sets the long help.
#[verifier::external_body]
pub(crate) fn with_long_help(arg: clap::Arg, help: &str) -> (r: clap::Arg)
    ensures
        arg_view(r) == (ArgView { long_help: Some(help@), ..arg_view(arg) }),
{
    arg.long_help(help.to_string())
}

/// `clap::Arg::action`: sets how occurrences combine.
#[verifier::external_body]
pub(crate) fn with_action(arg: clap::Arg, action: Action) -> (r: clap::Arg)
    ensures
        arg_view(r) == (ArgView { action: Some(action), ..arg_view(arg) }),
{
    arg.action(match action {
        Action::Once => clap::ArgAction::Set,
        Action::Append => clap::ArgAction::Append,
    })
}

/// `clap::Arg::num_args`: sets how many values an occurrence has.
#[verifier::external_body]
pub(crate) fn with_num_args(arg: clap::Arg, least: usize, most: usize) -> (r: clap::Arg)
    requires
        least <= most,
    ensures
        arg_view(r) == (ArgView { num_args: Some((least as nat, most as nat)), ..arg_view(arg) }),
{
    arg.num_args(least..=most)
}

/// `clap::Arg::default_missing_value`: sets the value of an occurrence without one.
#[verifier::external_body]
pub(crate) fn with_missing_value(arg: clap::Arg, value: &'static str) -> (r: clap::Arg)
    ensures
        arg_view(r) == (ArgView { missing: Some(value@), ..arg_view(arg) }),
{
    arg.default_missing_value(value)
}

/// `clap::Arg::default_value`: sets the value of an option that does not occur.
#[verifier::external_body]
pub(crate) fn with_default(arg: clap::Arg, value: &'static str) -> (r: clap::Arg)
    ensures
        arg_view(r) == (ArgView { default: Some(value@), ..arg_view(arg) }),
{
    arg.default_value(value)
}

/// `clap::Arg::value_parser` with `PossibleValuesParser`: only the given values are accepted, as
/// strings.
#[verifier::external_body]
pub(crate) fn with_choices(arg: clap::Arg, choices: Vec<String>) -> (r: clap::Arg)
    ensures
        arg_view(r) == (ArgView { choices: Some(texts(choices@)), ..arg_view(arg) }),
{
    arg.value_parser(clap::builder::PossibleValuesParser::new(choices))
}

/// `clap::Arg::value_parser` with `ValueParser::string`: every string is accepted.
#[verifier::external_body]
pub(crate) fn with_any_text(arg: clap::Arg) -> (r: clap::Arg)
    ensures
        arg_view(r) == (ArgView { choices: None, ..arg_view(arg) }),
{
    arg.value_parser(clap::builder::ValueParser::string())
}

/// `clap::Arg::allow_negative_numbers`: a negative number is a value.
#[verifier::external_body]
pub(crate) fn with_negative_numbers(arg: clap::Arg) -> (r: clap::Arg)
    ensures
        arg_view(r) == (ArgView { negative_numbers: true, ..arg_view(arg) }),
{
    arg.allow_negative_numbers(true)
}

/// `clap::Arg::required`: the option must occur.
#[verifier::external_body]
pub(crate) fn with_required(arg: clap::Arg) -> (r: clap::Arg)
    ensures
        arg_view(r) == (ArgView { required: true, ..arg_view(arg) }),
{
    arg.required(true)
}

/// `clap::Command::new`: a command with a name and nothing else.
#[verifier::external_body]
pub(crate) fn new_command(name: &str) -> (r: clap::Command)
    ensures
        command_view(r) == new_command_view(name@),
{
    clap::Command::new(name.to_string())
}

/// `clap::Command::about`: sets the description.
#[verifier::external_body]
pub(crate) fn with_about(command: clap::Command, about: &str) -> (r: clap::Command)
    ensures
        command_view(r) == (CommandView { about: Some(about@), ..command_view(command) }),
{
    command.about(about.to_string())
}

/// `clap::Command::long_about`: sets the long description.
#[verifier::external_body]
pub(crate) fn with_long_about(command: clap::Command, about: &str) -> (r: clap::Command)
    ensures
        command_view(r) == (CommandView { long_about: Some(about@), ..command_view(command) }),
{
    command.long_about(about.to_string())
}

/// `clap::Command::version`: sets the version.
#[verifier::external_body]
pub(crate) fn with_version(command: clap::Command, version: &str) -> (r: clap::Command)
    ensures
        command_view(r) == (CommandView { version: Some(version@), ..command_view(command) }),
{
    command.version(version.to_string())
}

/// `clap::Command::disable_help_subcommand`: takes the `help` subcommand away.
#[verifier::external_body]
pub(crate) fn without_help_subcommand(command: clap::Command) -> (r: clap::Command)
    ensures
        command_view(r) == (CommandView { help_subcommand: false, ..command_view(command) }),
{
    command.disable_help_subcommand(true)
}

/// `clap::Command::arg`: adds an option behind the others.
#[verifier::external_body]
pub(crate) fn with_arg(command: clap::Command, arg: clap::Arg) -> (r: clap::Command)
    ensures
        command_view(r) == (CommandView {
            args: command_view(command).args.push(arg_view(arg)),
            ..command_view(command)
        }),
{
    command.arg(arg)
}

/// `clap::Command::subcommand`: adds a subcommand behind the others.
#[verifier::external_body]
pub(crate) fn with_subcommand(command: clap::Command, child: clap::Command) -> (r: clap::Command)
    ensures
        command_view(r) == (CommandView {
            subcommands: command_view(command).subcommands.push(command_view(child)),
            ..command_view(command)
        }),
{
    command.subcommand(child)
}

/// `clap::Command::clone`: the clone is the same command.
#[verifier::external_body]
pub(crate) fn copy_command(command: &clap::Command) -> (r: clap::Command)
    ensures
        r == *command,
{
    command.clone()
}

/// `clap::Command::get_name`: the name of a command.
#[verifier::external_body]
pub(crate) fn name_of_command(command: &clap::Command) -> (r: String)
    ensures
        r@ == command_view(*command).name,
{
    command.get_name().to_string()
}

/// `clap::Command::get_subcommands`: the names of the subcommands, in order.
#[verifier::external_body]
pub(crate) fn subcommand_names(command: &clap::Command) -> (r: Vec<String>)
    ensures
        r@.len() == command_view(*command).subcommands.len(),
        forall|i: int|
            0 <= i < r@.len() ==> (#[trigger] r@[i])@ == command_view(*command).subcommands[i].name,
{
    command.get_subcommands().map(|child| child.get_name().to_string()).collect()
}

/// `clap::Command::try_get_matches_from`: parses arguments, of which the first names the program.
/// Matches fit the command. A command whose names clash may panic instead.
#[verifier::external_body]
pub(crate) fn match_args(command: clap::Command, args: Vec<String>) -> (r: Result<
    clap::ArgMatches,
    Refusal,
>)
    requires
        command_sound(command_view(command)),
    ensures
        match r {
            Ok(matches) => matched(command, texts(args@)) == Ok::<MatchView, RefusalView>(
                match_view(matches),
            ) && fits(command_view(command), match_view(matches)),
            Err(refusal) => matched(command, texts(args@)) == Err::<MatchView, RefusalView>(
                refusal@,
            ),
        },
{
    command.try_get_matches_from(args).map_err(|error| Refusal {
        kind: match error.kind() {
            clap::error::ErrorKind::DisplayHelp => RefusalKind::Help,
            clap::error::ErrorKind::DisplayVersion => RefusalKind::Version,
            _ => RefusalKind::Other,
        },
        text: error.to_string(),
    })
}

/// `clap::Command::error` with `ErrorKind::ValueValidation`: renders a message about an invalid
/// value. A command whose names clash may panic instead.
#[verifier::external_body]
pub(crate) fn reject_value(command: &clap::Command, message: &str) -> (r: Refusal)
    requires
        command_sound(command_view(*command)),
    ensures
        r@ == (RefusalView { kind: RefusalKind::Other, text: rejection(*command, message@) }),
{
    let mut command = command.clone();
    let error = command.error(clap::error::ErrorKind::ValueValidation, message);
    Refusal { kind: RefusalKind::Other, text: error.to_string() }
}

/// `clap::ArgMatches::get_many`: the values of an option that occurred or has a default. It panics
/// on an option that the command does not have.
#[verifier::external_body]
pub(crate) fn option_values(matches: &clap::ArgMatches, id: &str) -> (r: Option<Vec<String>>)
    requires
        match_view(*matches).known.contains(id@),
    ensures
        match r {
            Some(values) => match_view(*matches).values.dom().contains(id@) && texts(values@)
                == match_view(*matches).values[id@],
            None => !match_view(*matches).values.dom().contains(id@),
        },
{
    matches.get_many::<String>(id).map(|values| values.cloned().collect())
}

/// `clap::ArgMatches::value_source`: whether the option occurred on the command line. It panics on
/// an option that the command does not have.
#[verifier::external_body]
pub(crate) fn option_typed(matches: &clap::ArgMatches, id: &str) -> (r: bool)
    requires
        match_view(*matches).known.contains(id@),
    ensures
        r == match_view(*matches).typed.contains(id@),
{
    matches.value_source(id) == Some(clap::parser::ValueSource::CommandLine)
}

/// `clap::ArgMatches::subcommand`: the chosen subcommand and what was found for it.
#[verifier::external_body]
pub(crate) fn chosen_subcommand<'a>(matches: &'a clap::ArgMatches) -> (r: Option<
    (String, &'a clap::ArgMatches),
>)
    ensures
        match r {
            Some((name, inner)) => match_view(*matches).subcommand == Some(
                (name@, Box::new(match_view(*inner))),
            ),
            None => match_view(*matches).subcommand is None,
        },
{
    matches.subcommand().map(|(name, inner)| (name.to_string(), inner))
}

} // verus!

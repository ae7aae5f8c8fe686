//! Generated command-line adapters.

use std::marker::PhantomData;

use vstd::prelude::*;

use crate::cli::clap_model::{
    arg_fits, chosen_subcommand, command_sound, command_view, copy_command, fits, match_args,
    match_view, matched, name_of_command, option_typed, option_values, reject_value, rejection,
    subcommand_names, with_subcommand, CommandView, MatchView, Refusal, RefusalKind, RefusalView,
};
use crate::cli::distinct::{
    generated_command_is_sound, names_are_distinct, subcommand_tool, tool_distinct,
};
use crate::cli::generate::{
    all_values, collect_values, directory_arg_view, generate, image_arg_view, output_arg_view,
    planned_args, planned_root, planned_tool, route_arg_view, survey, survey_problems, tool_names,
    tool_views, value_views, ToolSpec, ToolView,
};
use crate::cli::names::{normalize_name, normalized};
use crate::cli::options::{
    parse_output_options, read_json, read_json_input, selected_options, whole_input,
    InputData, OptionsView, OutputOptions, ReadView,
};
use crate::cli::problem::{
    problem_views, CliBuildError, CliBuildProblem, CliError, CliErrorKind, CliErrorView,
    ProblemView,
};
use crate::cli::rebuild::{outcome, rebuilt_object, Matches};
use crate::cli::render::{outcome_view, present, presented, Rendering, RenderingView};
use crate::cli::schema::{ObjectSpec, ValueSpec, ValueView};
use crate::error::{error_text, JsonRpcError};
use crate::json::{Json, JsonView};
use crate::registry::{ToolDefinitions, ToolRegistry};
use crate::table::lookup;
use crate::text::{holds_text, opt_text, same_text, texts};
use crate::io::session_id::McpSessionId;
use crate::tools::{IntoText, IntoToolOutput};

verus! {

// ---------------------------------------------------------------------------------------------
// Invocations

/// One parsed native tool invocation.
pub struct Invocation<R: ToolRegistry> {
    /// Parsed registry value.
    tool: R,
    /// Selected output settings.
    output: OutputOptions,
}

impl<R: ToolRegistry> Invocation<R> {
    /// The parsed tool.
    pub closed spec fn chosen_tool(&self) -> R {
        self.tool
    }

    /// The output settings.
    pub closed spec fn chosen_output(&self) -> OptionsView {
        self.output@
    }

    /// Consumes the invocation and returns its parsed tool.
    pub fn into_tool(self) -> (r: R)
        ensures
            r == self.chosen_tool(),
    {
        self.tool
    }

    /// Consumes the invocation and returns its tool and output settings.
    pub fn into_parts(self) -> (r: (R, OutputOptions))
        ensures
            r.0 == self.chosen_tool(),
            r.1@ == self.chosen_output(),
    {
        (self.tool, self.output)
    }

    /// Returns the selected output settings.
    pub fn output_options(&self) -> (r: &OutputOptions)
        ensures
            r@ == self.chosen_output(),
    {
        &self.output
    }
}

/// The error that a refused command line is: a display request, or a usage error.
pub open spec fn refused(refusal: RefusalView) -> CliErrorView {
    CliErrorView {
        kind: match refusal.kind {
            RefusalKind::Help => CliErrorKind::Display,
            RefusalKind::Version => CliErrorKind::Display,
            RefusalKind::Other => CliErrorKind::Usage,
        },
        message: refusal.text,
    }
}

impl CliError {
    /// Converts a non-exiting Clap error.
    pub fn from_clap(refusal: Refusal) -> (r: CliError)
        ensures
            r@ == refused(refusal@),
    {
        let kind: CliErrorKind = match refusal.kind {
            RefusalKind::Help => CliErrorKind::Display,
            RefusalKind::Version => CliErrorKind::Display,
            RefusalKind::Other => CliErrorKind::Usage,
        };
        CliError::new(kind, refusal.text)
    }
}

// ---------------------------------------------------------------------------------------------
// Reading matches

/// The options among matches that stand for values, each with its values.
pub open spec fn option_table(found: MatchView, values: Seq<ValueView>) -> Seq<
    (Seq<char>, Seq<Seq<char>>),
>
    decreases values.len(),
{
    if values.len() == 0 {
        Seq::empty()
    } else {
        let rest = option_table(found, values.drop_last());
        let name = values.last().cli_name;
        if found.values.dom().contains(name) {
            rest.push((name, found.values[name]))
        } else {
            rest
        }
    }
}

/// A table entry comes from a value and from the matches.
proof fn option_table_entry(found: MatchView, values: Seq<ValueView>, k: int)
    requires
        0 <= k < option_table(found, values).len(),
    ensures
        found.values.dom().contains(option_table(found, values)[k].0),
        option_table(found, values)[k].1 == found.values[option_table(found, values)[k].0],
    decreases values.len(),
{
    let rest = option_table(found, values.drop_last());
    if k < rest.len() {
        option_table_entry(found, values.drop_last(), k);
    }
}

/// A value's option in the matches is in the table.
proof fn option_table_has(found: MatchView, values: Seq<ValueView>, i: int) -> (k: int)
    requires
        0 <= i < values.len(),
        found.values.dom().contains(values[i].cli_name),
    ensures
        0 <= k < option_table(found, values).len(),
        option_table(found, values)[k].0 == values[i].cli_name,
    decreases values.len(),
{
    let rest = option_table(found, values.drop_last());
    if i == values.len() - 1 {
        rest.len() as int
    } else {
        assert(values.drop_last()[i] == values[i]);
        let k = option_table_has(found, values.drop_last(), i);
        assert(option_table(found, values)[k] == rest[k]);
        k
    }
}

/// The table of options says of every value's option what the matches say of it.
pub proof fn option_table_reflects(found: MatchView, values: Seq<ValueView>, i: int)
    requires
        0 <= i < values.len(),
    ensures
        lookup(option_table(found, values), values[i].cli_name) == (if found.values.dom().contains(
            values[i].cli_name,
        ) {
            Some(found.values[values[i].cli_name])
        } else {
            None
        }),
{
    let table = option_table(found, values);
    let name = values[i].cli_name;
    crate::table::lookup_absent(table, name);
    if found.values.dom().contains(name) {
        let k = option_table_has(found, values, i);
        assert(table[k].0 == name);
        let hit = choose|hit: int|
            0 <= hit < table.len() && (#[trigger] table[hit]).0 == name && Some(table[hit].1)
                == lookup(table, name);
        option_table_entry(found, values, hit);
    } else {
        assert forall|k: int| 0 <= k < table.len() implies (#[trigger] table[k]).0 != name by {
            option_table_entry(found, values, k);
        }
    }
}

/// Reads the options of an object out of matches.
fn read_matches(matches: &clap::ArgMatches, root: &ObjectSpec) -> (r: Matches)
    requires
        forall|i: int|
            0 <= i < all_values(root@.children).len() ==> arg_fits(
                #[trigger] planned_args(all_values(root@.children))[i],
                match_view(*matches),
            ),
    ensures
        r@ == option_table(match_view(*matches), all_values(root@.children)),
{
    let ghost found = match_view(*matches);
    let mut values: Vec<&ValueSpec> = Vec::new();
    collect_values(root, &mut values);
    let ghost all = all_values(root@.children);
    assert(value_views(values@) =~= all);
    let mut out = Matches::new();
    let mut i: usize = 0;
    assert(all.take(0) =~= Seq::<ValueView>::empty());
    while i < values.len()
        invariant
            i <= values.len(),
            value_views(values@) == all,
            found == match_view(*matches),
            forall|k: int| 0 <= k < all.len() ==> arg_fits(#[trigger] planned_args(all)[k], found),
            out@ == option_table(found, all.take(i as int)),
        decreases values.len() - i,
    {
        let value: &ValueSpec = values[i];
        proof {
            assert(all[i as int] == value@);
            assert(arg_fits(planned_args(all)[i as int], found));
            assert(planned_args(all)[i as int].id == value@.cli_name);
            assert(all.take(i + 1).drop_last() =~= all.take(i as int));
            assert(all.take(i + 1).last() == value@);
        }
        if let Some(texts_given) = option_values(matches, value.cli_name.as_str()) {
            assert(texts(texts_given@).len() == texts_given.len());
            out = out.with(value.cli_name.clone(), texts_given);
        }
        i += 1;
    }
    assert(all.take(all.len() as int) =~= all);
    out
}

// ---------------------------------------------------------------------------------------------
// The adapter

/// Builder for a generated native CLI.
pub struct CliBuilder<R: ToolRegistry> {
    /// Root command name.
    name: String,
    /// Optional root version.
    version: Option<String>,
    /// Registry marker.
    marker: PhantomData<R>,
}

impl<R: ToolRegistry> CliBuilder<R> {
    /// The root command name.
    pub closed spec fn root_name(&self) -> Seq<char> {
        self.name@
    }

    /// The root version.
    pub closed spec fn root_version(&self) -> Option<Seq<char>> {
        opt_text(self.version)
    }

    /// Sets the root command version.
    pub fn version<S: IntoText>(self, version: S) -> (r: CliBuilder<R>)
        ensures
            r.root_name() == self.root_name(),
            r.root_version() == Some(version.as_text()),
    {
        CliBuilder { name: self.name, version: Some(version.into_text()), marker: PhantomData }
    }

    /// Builds the generated command and schema reconstruction data. It fails with every problem if
    /// the name has no spelling, or if names of tools or of their properties have none, are
    /// reserved, or collide.
    pub fn build(self) -> (r: Result<Cli<R>, CliBuildError>)
        ensures
            match normalized(self.root_name()) {
                None => r matches Err(error) && error.reported() == seq![
                    ProblemView::InvalidName { kind: "command"@, name: self.root_name() },
                ],
                Some(root) => exists|definitions: ToolDefinitions| #[trigger]
                    call_ensures(R::definitions, (), definitions) && (match r {
                        Ok(cli) => {
                            &&& survey_problems(definitions@).len() == 0
                            &&& cli.known_tools() == survey(definitions@).tools
                            &&& command_view(cli.generated()) == planned_root(
                                root,
                                self.root_version(),
                                survey(definitions@).tools,
                            )
                        },
                        Err(error) => survey_problems(definitions@).len() > 0 && error.reported()
                            == survey_problems(definitions@),
                    }),
            },
    {
        Cli::from_builder(self)
    }
}

/// Generated native command-line adapter for a [`ToolRegistry`].
pub struct Cli<R: ToolRegistry> {
    /// Generated root command.
    command: clap::Command,
    /// Analyzed tool definitions.
    tools: Vec<ToolSpec>,
    /// Registry marker.
    marker: PhantomData<R>,
}

/// Whether a command is the one generated for tools with distinct names.
pub open spec fn generated_for(command: CommandView, tools: Seq<ToolView>) -> bool {
    &&& command_sound(command)
    &&& exists|name: Seq<char>, version: Option<Seq<char>>|
        command == #[trigger] planned_root(name, version, tools)
    &&& forall|i: int, j: int|
        0 <= i < j < tools.len() ==> (#[trigger] tools[i]).cli_name != (#[trigger] tools[j]).cli_name
    &&& forall|i: int| 0 <= i < tools.len() ==> tool_distinct(#[trigger] tools[i])
}

/// What the command line selects: a tool by its protocol name, its arguments, and the output
/// settings.
pub struct SelectionView {
    pub tool: Seq<char>,
    pub arguments: JsonView,
    pub output: OptionsView,
}

/// The usage error that a command renders for a message.
pub open spec fn usage_error_view(command: clap::Command, message: Seq<char>) -> CliErrorView {
    CliErrorView { kind: CliErrorKind::Usage, message: rejection(command, message) }
}

/// The first tool with a command name.
pub open spec fn tool_named(tools: Seq<ToolView>, name: Seq<char>) -> Option<ToolView>
    decreases tools.len(),
{
    if tools.len() == 0 {
        None
    } else if tools[0].cli_name == name {
        Some(tools[0])
    } else {
        tool_named(tools.drop_first(), name)
    }
}

/// The tool that whole input is routed to, where the command line selects one.
pub open spec fn json_route(tools: Seq<ToolView>, found: MatchView) -> Option<Seq<char>> {
    if tools.len() > 0 && found.values.dom().contains("input-json-route"@) {
        Some(found.values["input-json-route"@][0])
    } else {
        None
    }
}

/// The output settings that the command line selects.
pub open spec fn root_options(found: MatchView) -> Result<OptionsView, Seq<char>> {
    selected_options(
        found.values["output-mode"@][0],
        found.values["image-mode"@][0],
        found.typed.contains("image-mode"@),
        if found.values.dom().contains("artifact-dir"@) {
            Some(found.values["artifact-dir"@][0])
        } else {
            None
        },
    )
}

/// What the command line selects, or the error.
pub open spec fn selection(
    command: clap::Command,
    tools: Seq<ToolView>,
    found: MatchView,
    input: InputData,
) -> Result<SelectionView, CliErrorView> {
    match root_options(found) {
        Err(message) => Err(usage_error_view(command, message)),
        Ok(output) => match (json_route(tools, found), found.subcommand) {
            (Some(_), Some(_)) => Err(
                usage_error_view(
                    command,
                    "--input-json cannot be combined with a tool subcommand"@,
                ),
            ),
            (Some(selector), None) => match whole_input(
                read_json(input.bytes@),
                opt_text(input.failure),
            ) {
                Ok(arguments) => Ok(
                    SelectionView {
                        tool: tool_named(tools, selector)->0.original_name,
                        arguments,
                        output,
                    },
                ),
                Err(error) => Err(error),
            },
            (None, Some((name, inner))) => {
                let tool = tool_named(tools, name)->0;
                let root = tool.root->0;
                match rebuilt_object(root, option_table(*inner, all_values(root.children)), true) {
                    Ok(arguments) => Ok(
                        SelectionView { tool: tool.original_name, arguments: arguments->0, output },
                    ),
                    Err(message) => Err(usage_error_view(command, message)),
                }
            },
            (None, None) => Err(usage_error_view(command, "no tool selected"@)),
        },
    }
}

/// Whether an invocation is what a selection leads to: the registry parses the tool with the
/// arguments, and what it refuses is a usage error.
pub open spec fn invokes<R: ToolRegistry>(
    command: clap::Command,
    selected: Result<SelectionView, CliErrorView>,
    r: Result<Invocation<R>, CliError>,
) -> bool {
    match selected {
        Err(error) => r matches Err(reported) && reported@ == error,
        Ok(wanted) => exists|name: &str, arguments: Json, parsed: Result<R, JsonRpcError>|
            name@ == wanted.tool && arguments@ == wanted.arguments && #[trigger] call_ensures(
                R::parse,
                (name, arguments),
                parsed,
            ) && (match parsed {
                Ok(tool) => r matches Ok(invocation) && invocation.chosen_tool() == tool
                    && invocation.chosen_output() == wanted.output,
                Err(error) => r matches Err(reported) && reported@ == usage_error_view(
                    command,
                    error_text(error@),
                ),
            }),
    }
}

/// Whether an invocation is what explicit arguments and whole input lead to.
pub open spec fn parses<R: ToolRegistry>(
    command: clap::Command,
    tools: Seq<ToolView>,
    args: Seq<Seq<char>>,
    input: InputData,
    r: Result<Invocation<R>, CliError>,
) -> bool {
    match matched(command, args) {
        Err(refusal) => r matches Err(error) && error@ == refused(refusal),
        Ok(found) => invokes(command, selection(command, tools, found, input), r),
    }
}

/// Whether a result is what running an invocation leads to: what was refused is returned as it is;
/// else the handler gets the tool and no session, and its outcome is presented.
pub open spec fn runs<R: ToolRegistry, T: IntoToolOutput, E: IntoText, H: FnOnce(
    Option<McpSessionId>,
    R,
) -> Result<T, E>>(
    parsed: Result<Invocation<R>, CliError>,
    handler: H,
    terminal: bool,
    directory: Seq<char>,
    r: Result<Rendering, CliError>,
) -> bool {
    match parsed {
        Err(error) => r matches Err(reported) && reported@ == error@,
        Ok(invocation) => exists|session: Option<McpSessionId>, outcome: Result<T, E>|
            session is None && #[trigger] call_ensures(
                handler,
                (session, invocation.chosen_tool()),
                outcome,
            ) && (match r {
                Ok(rendering) => presented(
                    outcome_view(outcome),
                    invocation.chosen_output(),
                    terminal,
                    directory,
                ) == Ok::<RenderingView, CliErrorView>(rendering@),
                Err(error) => presented(
                    outcome_view(outcome),
                    invocation.chosen_output(),
                    terminal,
                    directory,
                ) == Err::<RenderingView, CliErrorView>(error@),
            }),
    }
}

/// The first of tools with different names that has a name is the one that has it.
pub(crate) proof fn tool_named_at(tools: Seq<ToolView>, k: int)
    requires
        0 <= k < tools.len(),
        forall|i: int, j: int|
            0 <= i < j < tools.len() ==> (#[trigger] tools[i]).cli_name != (
            #[trigger] tools[j]).cli_name,
    ensures
        tool_named(tools, tools[k].cli_name) == Some(tools[k]),
    decreases tools.len(),
{
    if k > 0 {
        let rest = tools.drop_first();
        assert forall|i: int, j: int| 0 <= i < j < rest.len() implies (
        #[trigger] rest[i]).cli_name != (#[trigger] rest[j]).cli_name by {
            assert(rest[i] == tools[i + 1] && rest[j] == tools[j + 1]);
        }
        assert(tools[0].cli_name != tools[k].cli_name);
        assert(rest[k - 1] == tools[k]);
        tool_named_at(rest, k - 1);
    }
}

impl<R: ToolRegistry> Cli<R> {
    /// The generated command.
    pub closed spec fn generated(&self) -> clap::Command {
        self.command
    }

    /// The analyzed tools.
    pub closed spec fn known_tools(&self) -> Seq<ToolView> {
        tool_views(self.tools@)
    }

    /// The command is the one generated for the tools.
    #[verifier::type_invariant]
    spec fn generated_well(&self) -> bool {
        generated_for(command_view(self.command), tool_views(self.tools@))
    }

    /// Creates a builder for a standalone or nested generated command.
    pub fn builder<S: IntoText>(name: S) -> (r: CliBuilder<R>)
        ensures
            r.root_name() == name.as_text(),
            r.root_version() is None,
    {
        CliBuilder { name: name.into_text(), version: None, marker: PhantomData }
    }

    /// Builds a CLI from its public builder.
    fn from_builder(builder: CliBuilder<R>) -> (r: Result<Cli<R>, CliBuildError>)
        ensures
            match normalized(builder.root_name()) {
                None => r matches Err(error) && error.reported() == seq![
                    ProblemView::InvalidName { kind: "command"@, name: builder.root_name() },
                ],
                Some(root) => exists|definitions: ToolDefinitions| #[trigger]
                    call_ensures(R::definitions, (), definitions) && (match r {
                        Ok(cli) => {
                            &&& survey_problems(definitions@).len() == 0
                            &&& cli.known_tools() == survey(definitions@).tools
                            &&& command_view(cli.generated()) == planned_root(
                                root,
                                builder.root_version(),
                                survey(definitions@).tools,
                            )
                        },
                        Err(error) => survey_problems(definitions@).len() > 0 && error.reported()
                            == survey_problems(definitions@),
                    }),
            },
    {
        if normalize_name(builder.name.as_str()).is_err() {
            return match generate(builder.name.as_str(), &builder.version, Vec::new()) {
                Ok((command, tools)) => {
                    proof {
                        assert(false);
                    }
                    Ok(Cli { command, tools, marker: PhantomData })
                },
                Err(error) => Err(error),
            };
        }
        let definitions = R::definitions();
        let ghost views = definitions@;
        assert(call_ensures(R::definitions, (), definitions));
        match generate(builder.name.as_str(), &builder.version, definitions.into_vec()) {
            Ok((command, tools)) => {
                proof {
                    let root = normalized(builder.name@)->0;
                    generated_command_is_sound(root, opt_text(builder.version), views);
                    names_are_distinct(views);
                }
                Ok(Cli { command, tools, marker: PhantomData })
            },
            Err(error) => Err(error),
        }
    }

    /// Returns a clone of the generated Clap command.
    pub fn command(&self) -> (r: clap::Command)
        ensures
            r == self.generated(),
    {
        copy_command(&self.command)
    }

    /// Attaches the complete generated tree below an application-owned command, unless that has a
    /// subcommand of the same name.
    pub fn attach_to(&self, command: clap::Command) -> (r: Result<clap::Command, CliBuildError>)
        ensures
            ({
                let own = command_view(self.generated());
                let given = command_view(command);
                let taken = exists|i: int|
                    0 <= i < given.subcommands.len() && (#[trigger] given.subcommands[i]).name
                        == own.name;
                match r {
                    Ok(attached) => !taken && command_view(attached) == (CommandView {
                        subcommands: given.subcommands.push(own),
                        ..given
                    }),
                    Err(error) => taken && error.reported() == seq![
                        ProblemView::ApplicationCommandCollision { name: own.name },
                    ],
                }
            }),
    {
        let name = name_of_command(&self.command);
        let children = subcommand_names(&command);
        if holds_text(&children, name.as_str()) {
            proof {
                let i = choose|i: int|
                    0 <= i < texts(children@).len() && texts(children@)[i] == name@;
                assert(children@[i]@ == command_view(command).subcommands[i].name);
            }
            let mut problems: Vec<CliBuildProblem> = Vec::new();
            problems.push(CliBuildProblem::ApplicationCommandCollision { name });
            assert(problem_views(problems@) =~= seq![
                ProblemView::ApplicationCommandCollision { name: name@ },
            ]);
            return Err(CliBuildError::new(problems));
        }
        proof {
            assert forall|i: int| 0 <= i < command_view(command).subcommands.len() implies (
            #[trigger] command_view(command).subcommands[i]).name != name@ by {
                assert(children@[i]@ == command_view(command).subcommands[i].name);
                assert(texts(children@)[i] == children@[i]@);
            }
        }
        Ok(with_subcommand(command, copy_command(&self.command)))
    }

    /// Creates a consistently rendered usage error.
    fn usage_error(&self, message: &str) -> (r: CliError)
        ensures
            r@ == usage_error_view(self.generated(), message@),
    {
        proof {
            use_type_invariant(self);
        }
        CliError::from_clap(reject_value(&self.command, message))
    }

    /// Parses explicit arguments and injected whole input.
    pub fn try_parse_from(&self, args: Vec<String>, input: InputData) -> (r: Result<
        Invocation<R>,
        CliError,
    >)
        ensures
            parses(self.generated(), self.known_tools(), texts(args@), input, r),
    {
        match self.match_arguments(args) {
            Ok(matches) => self.try_parse_matches(&matches, input),
            Err(error) => Err(error),
        }
    }

    /// Matches explicit arguments with the generated command.
    pub fn match_arguments(&self, args: Vec<String>) -> (r: Result<clap::ArgMatches, CliError>)
        ensures
            match r {
                Ok(matches) => matched(self.generated(), texts(args@)) == Ok::<
                    MatchView,
                    RefusalView,
                >(match_view(matches)) && fits(
                    command_view(self.generated()),
                    match_view(matches),
                ),
                Err(error) => matched(self.generated(), texts(args@)) matches Err(refusal)
                    && error@ == refused(refusal),
            },
    {
        proof {
            use_type_invariant(self);
        }
        match match_args(copy_command(&self.command), args) {
            Ok(matches) => Ok(matches),
            Err(refusal) => Err(CliError::from_clap(refusal)),
        }
    }

    /// Returns whether matches select a tool by whole input, so that the input has to be read.
    pub fn wants_input(&self, matches: &clap::ArgMatches) -> (r: bool)
        requires
            fits(command_view(self.generated()), match_view(*matches)),
        ensures
            r == (json_route(self.known_tools(), match_view(*matches)) is Some && match_view(
                *matches,
            ).subcommand is None),
    {
        self.read_route(matches).is_some() && chosen_subcommand(matches).is_none()
    }

    /// Finds the tool with a command name.
    fn find_tool(&self, name: &str) -> (r: Option<&ToolSpec>)
        ensures
            match r {
                Some(tool) => tool_named(self.known_tools(), name@) == Some(tool@),
                None => tool_named(self.known_tools(), name@) is None,
            },
    {
        let ghost views = tool_views(self.tools@);
        let mut i: usize = 0;
        assert(views.skip(0) =~= views);
        while i < self.tools.len()
            invariant
                i <= self.tools.len(),
                views == tool_views(self.tools@),
                tool_named(views, name@) == tool_named(views.skip(i as int), name@),
            decreases self.tools.len() - i,
        {
            proof {
                assert(views.skip(i as int)[0] == self.tools@[i as int]@);
                assert(views.skip(i as int).drop_first() =~= views.skip(i + 1));
            }
            if same_text(self.tools[i].cli_name.as_str(), name) {
                return Some(&self.tools[i]);
            }
            i += 1;
        }
        None
    }

    /// Reads the output settings out of root matches.
    fn read_options(&self, matches: &clap::ArgMatches) -> (r: Result<OutputOptions, String>)
        requires
            fits(command_view(self.generated()), match_view(*matches)),
        ensures
            match r {
                Ok(options) => root_options(match_view(*matches)) == Ok::<OptionsView, Seq<char>>(
                    options@,
                ),
                Err(message) => root_options(match_view(*matches)) == Err::<OptionsView, Seq<char>>(
                    message@,
                ),
            },
    {
        let ghost found = match_view(*matches);
        proof {
            use_type_invariant(self);
            let command = command_view(self.command);
            let (name, version): (Seq<char>, Option<Seq<char>>) = choose|
                name: Seq<char>,
                version: Option<Seq<char>>,
            | command == #[trigger] planned_root(name, version, tool_views(self.tools@));
            assert(command.args[0] == output_arg_view());
            assert(command.args[1] == image_arg_view());
            assert(command.args[2] == directory_arg_view());
            assert(arg_fits(command.args[0], found));
            assert(arg_fits(command.args[1], found));
            assert(arg_fits(command.args[2], found));
        }
        let modes = option_values(matches, "output-mode").unwrap();
        let images = option_values(matches, "image-mode").unwrap();
        proof {
            assert(texts(modes@)[0] == modes@[0]@);
            assert(texts(images@)[0] == images@[0]@);
            assert(output_arg_view().choices->0.contains(found.values["output-mode"@][0]));
            assert(image_arg_view().choices->0.contains(found.values["image-mode"@][0]));
        }
        let typed: bool = option_typed(matches, "image-mode");
        let artifact_dir: Option<String> = match option_values(matches, "artifact-dir") {
            Some(values) => {
                assert(texts(values@)[0] == values@[0]@);
                Some(values[0].clone())
            },
            None => None,
        };
        parse_output_options(modes[0].as_str(), images[0].as_str(), typed, artifact_dir)
    }

    /// Reads the tool that whole input is routed to.
    fn read_route(&self, matches: &clap::ArgMatches) -> (r: Option<String>)
        requires
            fits(command_view(self.generated()), match_view(*matches)),
        ensures
            match r {
                Some(name) => json_route(self.known_tools(), match_view(*matches)) == Some(name@)
                    && tool_named(self.known_tools(), name@) is Some,
                None => json_route(self.known_tools(), match_view(*matches)) is None,
            },
    {
        if self.tools.len() == 0 {
            return None;
        }
        let ghost found = match_view(*matches);
        let ghost tools = tool_views(self.tools@);
        proof {
            use_type_invariant(self);
            let command = command_view(self.command);
            let (name, version): (Seq<char>, Option<Seq<char>>) = choose|
                name: Seq<char>,
                version: Option<Seq<char>>,
            | command == #[trigger] planned_root(name, version, tools);
            assert(command.args[3] == route_arg_view(tool_names(tools)));
            assert(arg_fits(command.args[3], found));
        }
        match option_values(matches, "input-json-route") {
            Some(values) => {
                proof {
                    assert(texts(values@)[0] == values@[0]@);
                    let selector = found.values["input-json-route"@][0];
                    assert(tool_names(tools).contains(selector));
                    let k = choose|k: int|
                        0 <= k < tool_names(tools).len() && tool_names(tools)[k] == selector;
                    assert(tools[k].cli_name == selector);
                    tool_named_at(tools, k);
                }
                Some(values[0].clone())
            },
            None => None,
        }
    }

    /// Selects a tool and its arguments.
    fn select(&self, matches: &clap::ArgMatches, input: &InputData) -> (r: Result<
        (String, Json, OutputOptions),
        CliError,
    >)
        requires
            fits(command_view(self.generated()), match_view(*matches)),
        ensures
            match r {
                Ok((tool, arguments, output)) => selection(
                    self.generated(),
                    self.known_tools(),
                    match_view(*matches),
                    *input,
                ) == Ok::<SelectionView, CliErrorView>(
                    SelectionView { tool: tool@, arguments: arguments@, output: output@ },
                ),
                Err(error) => selection(
                    self.generated(),
                    self.known_tools(),
                    match_view(*matches),
                    *input,
                ) == Err::<SelectionView, CliErrorView>(error@),
            },
    {
        let ghost found = match_view(*matches);
        let ghost tools = tool_views(self.tools@);
        let output = match self.read_options(matches) {
            Ok(output) => output,
            Err(message) => {
                return Err(self.usage_error(message.as_str()));
            },
        };
        let route = self.read_route(matches);
        let subcommand = chosen_subcommand(matches);
        match (route, subcommand) {
            (Some(_), Some(_)) => Err(
                self.usage_error("--input-json cannot be combined with a tool subcommand"),
            ),
            (Some(selector), None) => {
                let tool = self.find_tool(selector.as_str()).unwrap();
                match read_json_input(input) {
                    Ok(arguments) => Ok((tool.original_name.clone(), arguments, output)),
                    Err(error) => Err(error),
                }
            },
            (None, Some((name, inner))) => {
                proof {
                    use_type_invariant(self);
                    let command = command_view(self.command);
                    let (root_name, version): (Seq<char>, Option<Seq<char>>) = choose|
                        root_name: Seq<char>,
                        version: Option<Seq<char>>,
                    | command == #[trigger] planned_root(root_name, version, tools);
                    let i = choose|i: int|
                        0 <= i < command.subcommands.len() && (
                        #[trigger] command.subcommands[i]).name == name@ && fits(
                            command.subcommands[i],
                            match_view(*inner),
                        );
                    let k = subcommand_tool(tools, i);
                    tool_named_at(tools, k);
                    assert(tool_distinct(tools[k]));
                    let values = all_values(tools[k].root->0.children);
                    assert(fits(planned_tool(tools[k], tools[k].root->0), match_view(*inner)));
                    assert forall|j: int| 0 <= j < values.len() implies arg_fits(
                        #[trigger] planned_args(values)[j],
                        match_view(*inner),
                    ) by {
                        assert(planned_tool(tools[k], tools[k].root->0).args[j] == planned_args(
                            values,
                        )[j]);
                    }
                }
                let tool = self.find_tool(name.as_str()).unwrap();
                let root: &ObjectSpec = match &tool.root {
                    Some(root) => root,
                    None => {
                        proof {
                            assert(false);
                        }
                        return Err(self.usage_error("no tool selected"));
                    },
                };
                let given = read_matches(inner, root);
                match root.reconstruct(&given, true) {
                    Ok(Some(arguments)) => Ok((tool.original_name.clone(), arguments, output)),
                    Ok(None) => {
                        proof {
                            assert(false);
                        }
                        Err(self.usage_error("no tool selected"))
                    },
                    Err(message) => Err(self.usage_error(message.as_str())),
                }
            },
            (None, None) => Err(self.usage_error("no tool selected")),
        }
    }

    /// Reconstructs an invocation from matches rooted at the generated command.
    pub fn try_parse_matches(&self, matches: &clap::ArgMatches, input: InputData) -> (r: Result<
        Invocation<R>,
        CliError,
    >)
        requires
            fits(command_view(self.generated()), match_view(*matches)),
        ensures
            invokes(
                self.generated(),
                selection(self.generated(), self.known_tools(), match_view(*matches), input),
                r,
            ),
    {
        let (name, arguments, output) = match self.select(matches, &input) {
            Ok(selected) => selected,
            Err(error) => {
                return Err(error);
            },
        };
        let ghost asked = arguments;
        let tool_name: &str = name.as_str();
        let parsed = R::parse(tool_name, arguments);
        assert(call_ensures(R::parse, (tool_name, asked), parsed));
        match parsed {
            Ok(tool) => Ok(Invocation { tool, output }),
            Err(error) => Err(self.usage_error(error.to_string().as_str())),
        }
    }

    /// Parses explicit arguments and injected whole input, invokes the handler, and returns what is
    /// to be written.
    ///
    /// The directory is the path that artifacts are shown under. Terminal says whether the process
    /// writes to a terminal that shows images.
    pub fn run_on<T: IntoToolOutput, E: IntoText, H: FnOnce(Option<McpSessionId>, R) -> Result<T, E>>(
        &self,
        args: Vec<String>,
        input: InputData,
        terminal: bool,
        directory: &str,
        handler: H,
    ) -> (r: Result<Rendering, CliError>)
        requires
            forall|session: Option<McpSessionId>, tool: R|
                session is None ==> #[trigger] call_requires(handler, (session, tool)),
        ensures
            exists|parsed: Result<Invocation<R>, CliError>| #[trigger]
                parses(self.generated(), self.known_tools(), texts(args@), input, parsed) && runs(
                    parsed,
                    handler,
                    terminal,
                    directory@,
                    r,
                ),
    {
        let parsed = self.try_parse_from(args, input);
        let invocation = match parsed {
            Ok(invocation) => invocation,
            Err(error) => {
                return Err(error);
            },
        };
        let output = invocation.output;
        let tool = invocation.tool;
        let session: Option<McpSessionId> = None;
        let outcome = handler(session, tool);
        present(outcome, &output, terminal, directory)
    }
}

/// Adds registry-oriented CLI construction shorthand.
pub trait ToolRegistryExt: ToolRegistry {
    /// Creates a native CLI builder for this registry type.
    fn cli<S: IntoText>(name: S) -> (r: CliBuilder<Self>)
        ensures
            r.root_name() == name.as_text(),
            r.root_version() is None,
    {
        Cli::builder(name)
    }
}

impl<R: ToolRegistry> ToolRegistryExt for R {

}

// ---------------------------------------------------------------------------------------------
// Laws

/// Whatever selects a tool, its arguments are an object.
pub proof fn selected_arguments_are_objects(
    command: clap::Command,
    tools: Seq<ToolView>,
    found: MatchView,
    input: InputData,
)
    requires
        generated_for(command_view(command), tools),
        fits(command_view(command), found),
    ensures
        selection(command, tools, found, input) matches Ok(selected) ==> selected.arguments is Object,
{
    if let (None, Some((name, inner))) = (json_route(tools, found), found.subcommand) {
        let planned = command_view(command);
        let (root_name, version): (Seq<char>, Option<Seq<char>>) = choose|
            root_name: Seq<char>,
            version: Option<Seq<char>>,
        | planned == #[trigger] planned_root(root_name, version, tools);
        let i = choose|i: int|
            0 <= i < planned.subcommands.len() && (#[trigger] planned.subcommands[i]).name == name
                && fits(planned.subcommands[i], *inner);
        let k = subcommand_tool(tools, i);
        tool_named_at(tools, k);
        assert(tool_distinct(tools[k]));
    }
}

/// Whole input and a tool's own options are never used together, and without either nothing is
/// selected.
pub proof fn routes_do_not_mix(
    command: clap::Command,
    tools: Seq<ToolView>,
    found: MatchView,
    input: InputData,
)
    ensures
        selection(command, tools, found, input) is Ok ==> (json_route(tools, found) is Some) != (
        found.subcommand is Some),
{
}

/// Input that is not wanted has no part in what is selected.
pub proof fn unwanted_input_is_ignored(
    command: clap::Command,
    tools: Seq<ToolView>,
    found: MatchView,
    input: InputData,
    other: InputData,
)
    requires
        !(json_route(tools, found) is Some && found.subcommand is None),
    ensures
        selection(command, tools, found, input) == selection(command, tools, found, other),
{
}

/// Whole input reaches the selected tool as it is, under the tool's protocol name.
pub proof fn whole_input_reaches_the_tool(
    command: clap::Command,
    tools: Seq<ToolView>,
    found: MatchView,
    input: InputData,
    value: JsonView,
)
    requires
        root_options(found) is Ok,
        json_route(tools, found) is Some,
        found.subcommand is None,
        input.failure is None,
        read_json(input.bytes@) == (ReadView::Value { value, trailing: None }),
        value is Object,
    ensures
        selection(command, tools, found, input) == Ok::<SelectionView, CliErrorView>(
            SelectionView {
                tool: tool_named(tools, json_route(tools, found)->0)->0.original_name,
                arguments: value,
                output: root_options(found)->Ok_0,
            },
        ),
{
}

/// A request for help or for the version is shown and is no error; every other refusal is a usage
/// error. The text stays as it is.
pub proof fn refusals_are_shown_as_they_are(refusal: RefusalView)
    ensures
        refused(refusal).message == refusal.text,
        refused(refusal).kind == CliErrorKind::Display <==> refusal.kind == RefusalKind::Help
            || refusal.kind == RefusalKind::Version,
        refused(refusal).kind == CliErrorKind::Usage <==> refusal.kind == RefusalKind::Other,
{
}

} // verus!

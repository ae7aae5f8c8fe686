//! Presentation options and whole input.

use vstd::prelude::*;
use vstd::string::StringExecFns;

use crate::cli::problem::{runtime_failure, CliError, CliErrorKind, CliErrorView};
use crate::json::{json_of, Json, JsonView};
use crate::text::{copy_opt, opt_text, same_text};

verus! {

/// Controls the successful result representation written by a runner.
#[derive(Clone, Copy, Debug, Default, PartialEq, Eq, Structural)]
pub enum OutputMode {
    /// Renders text and materializes binary content as files.
    #[default]
    Artifacts,
    /// Writes only `structuredContent` as JSON.
    Structured,
    /// Writes the complete MCP tool result as JSON.
    Raw,
    /// Writes the single binary content block as bytes.
    Binary,
}

/// Controls inline image presentation in artifact output.
#[derive(Clone, Copy, Debug, Default, PartialEq, Eq, Structural)]
pub enum ImageMode {
    /// Uses Kitty graphics only for a compatible process terminal.
    #[default]
    Auto,
    /// Forces Kitty graphics output for PNG images.
    Kitty,
    /// Disables inline image output.
    Off,
}

/// Presentation settings selected by root command options.
#[derive(Debug)]
pub struct OutputOptions {
    /// Selected output representation.
    pub mode: OutputMode,
    /// Selected inline image policy.
    pub images: ImageMode,
    /// Optional parent directory for filesystem artifacts.
    pub artifact_dir: Option<String>,
}

/// Presentation settings as mathematics.
pub struct OptionsView {
    pub mode: OutputMode,
    pub images: ImageMode,
    pub artifact_dir: Option<Seq<char>>,
}

impl View for OutputOptions {
    type V = OptionsView;

    open spec fn view(&self) -> OptionsView {
        OptionsView {
            mode: self.mode,
            images: self.images,
            artifact_dir: opt_text(self.artifact_dir),
        }
    }
}

impl Clone for OutputOptions {
    fn clone(&self) -> (r: OutputOptions)
        ensures
            r@ == self@,
    {
        OutputOptions {
            mode: self.mode,
            images: self.images,
            artifact_dir: copy_opt(&self.artifact_dir),
        }
    }
}

impl Default for OutputOptions {
    fn default() -> (r: OutputOptions)
        ensures
            r@ == (OptionsView {
                mode: OutputMode::Artifacts,
                images: ImageMode::Auto,
                artifact_dir: None,
            }),
    {
        OutputOptions {
            mode: OutputMode::Artifacts,
            images: ImageMode::Auto,
            artifact_dir: None,
        }
    }
}

/// The output mode that a spelling selects.
pub open spec fn mode_of(text: Seq<char>) -> Option<OutputMode> {
    if text == "artifacts"@ {
        Some(OutputMode::Artifacts)
    } else if text == "structured"@ {
        Some(OutputMode::Structured)
    } else if text == "raw"@ {
        Some(OutputMode::Raw)
    } else if text == "binary"@ {
        Some(OutputMode::Binary)
    } else {
        None
    }
}

/// The image policy that a spelling selects.
pub open spec fn images_of(text: Seq<char>) -> Option<ImageMode> {
    if text == "auto"@ {
        Some(ImageMode::Auto)
    } else if text == "kitty"@ {
        Some(ImageMode::Kitty)
    } else if text == "off"@ {
        Some(ImageMode::Off)
    } else {
        None
    }
}

/// What is said of artifact settings for other output.
pub open spec fn artifacts_only() -> Seq<char> {
    "--artifact-dir and --images require --output artifacts"@
}

/// Presentation settings from root options. Artifact settings that the command line gives go with
/// artifact output only.
pub open spec fn selected_options(
    mode: Seq<char>,
    images: Seq<char>,
    images_typed: bool,
    artifact_dir: Option<Seq<char>>,
) -> Result<OptionsView, Seq<char>> {
    let options = OptionsView {
        mode: mode_of(mode)->0,
        images: images_of(images)->0,
        artifact_dir,
    };
    if options.mode != OutputMode::Artifacts && (artifact_dir is Some || images_typed) {
        Err(artifacts_only())
    } else {
        Ok(options)
    }
}

/// Parses an output mode.
pub fn parse_mode(text: &str) -> (r: Option<OutputMode>)
    ensures
        r == mode_of(text@),
{
    if same_text(text, "artifacts") {
        Some(OutputMode::Artifacts)
    } else if same_text(text, "structured") {
        Some(OutputMode::Structured)
    } else if same_text(text, "raw") {
        Some(OutputMode::Raw)
    } else if same_text(text, "binary") {
        Some(OutputMode::Binary)
    } else {
        None
    }
}

/// Parses an image policy.
pub fn parse_images(text: &str) -> (r: Option<ImageMode>)
    ensures
        r == images_of(text@),
{
    if same_text(text, "auto") {
        Some(ImageMode::Auto)
    } else if same_text(text, "kitty") {
        Some(ImageMode::Kitty)
    } else if same_text(text, "off") {
        Some(ImageMode::Off)
    } else {
        None
    }
}

/// Parses and validates root output options.
pub fn parse_output_options(
    mode: &str,
    images: &str,
    images_typed: bool,
    artifact_dir: Option<String>,
) -> (r: Result<OutputOptions, String>)
    requires
        mode_of(mode@) is Some,
        images_of(images@) is Some,
    ensures
        match r {
            Ok(options) => selected_options(
                mode@,
                images@,
                images_typed,
                opt_text(artifact_dir),
            ) == Ok::<OptionsView, Seq<char>>(options@),
            Err(message) => selected_options(
                mode@,
                images@,
                images_typed,
                opt_text(artifact_dir),
            ) == Err::<OptionsView, Seq<char>>(message@),
        },
{
    let mode: OutputMode = parse_mode(mode).unwrap();
    let images: ImageMode = parse_images(images).unwrap();
    if mode != OutputMode::Artifacts && (artifact_dir.is_some() || images_typed) {
        return Err("--artifact-dir and --images require --output artifacts".to_owned());
    }
    Ok(OutputOptions { mode, images, artifact_dir })
}

// ---------------------------------------------------------------------------------------------
// Whole input

/// What was read from a stream: its bytes, and why reading stopped before the end.
#[derive(Debug)]
pub struct InputData {
    pub bytes: Vec<u8>,
    pub failure: Option<String>,
}

impl InputData {
    /// Input that was read to its end.
    pub fn new(bytes: Vec<u8>) -> (r: InputData)
        ensures
            r.bytes@ == bytes@,
            r.failure is None,
    {
        InputData { bytes, failure: None }
    }
}

/// What a reader of one JSON value finds: the value and what is wrong with the rest, or whether the
/// input ended too early and what is wrong.
pub enum ReadView {
    Value { value: JsonView, trailing: Option<Seq<char>> },
    Broken { ended: bool, error: Seq<char> },
}

/// What a reader of one JSON value finds.
pub enum ReadOutcome {
    Value { value: Json, trailing: Option<String> },
    Broken { ended: bool, error: String },
}

impl View for ReadOutcome {
    type V = ReadView;

    open spec fn view(&self) -> ReadView {
        match self {
            ReadOutcome::Value { value, trailing } => ReadView::Value {
                value: value@,
                trailing: opt_text(*trailing),
            },
            ReadOutcome::Broken { ended, error } => ReadView::Broken {
                ended: *ended,
                error: error@,
            },
        }
    }
}

/// What `serde_json::Deserializer` finds in bytes.
pub uninterp spec fn read_json(bytes: Seq<u8>) -> ReadView;

/// `serde_json::Deserializer::from_reader`: reads one value, then asks `Deserializer::end` for what
/// is wrong with the rest. Errors come as their texts, with whether `Error::is_eof` holds.
#[verifier::external_body]
fn read_value(bytes: &Vec<u8>) -> (r: Result<(serde_json::Value, Option<String>), (bool, String)>)
    ensures
        match r {
            Ok((value, trailing)) => read_json(bytes@) == (ReadView::Value {
                value: json_of(value),
                trailing: opt_text(trailing),
            }),
            Err((ended, error)) => read_json(bytes@) == (ReadView::Broken { ended, error: error@ }),
        },
{
    let mut deserializer = serde_json::Deserializer::from_reader(bytes.as_slice());
    match <serde_json::Value as serde::Deserialize>::deserialize(&mut deserializer) {
        Ok(value) => Ok((value, deserializer.end().err().map(|error| error.to_string()))),
        Err(error) => Err((error.is_eof(), error.to_string())),
    }
}

/// A usage error with a message.
pub open spec fn input_error(what: Seq<char>, error: Seq<char>) -> CliErrorView {
    CliErrorView {
        kind: CliErrorKind::Usage,
        message: "error: "@ + what + ": "@ + error + "\n"@,
    }
}

/// The object that whole input holds, or the error. Input that ends in a failure is only judged by
/// what came before it where that is already wrong; else the failure is what is reported.
pub open spec fn whole_input(found: ReadView, failure: Option<Seq<char>>) -> Result<
    JsonView,
    CliErrorView,
> {
    match found {
        ReadView::Broken { ended, error } => match failure {
            Some(reason) => if ended {
                Err(runtime_failure("failed to read JSON input: "@ + reason))
            } else {
                Err(input_error("invalid JSON input"@, error))
            },
            None => Err(input_error("invalid JSON input"@, error)),
        },
        ReadView::Value { value, trailing } => match (trailing, failure) {
            (Some(error), _) => Err(input_error("trailing JSON input"@, error)),
            (None, Some(reason)) => Err(
                runtime_failure("failed to read JSON input: "@ + reason),
            ),
            (None, None) => if value is Object {
                Ok(value)
            } else {
                Err(
                    CliErrorView {
                        kind: CliErrorKind::Usage,
                        message: "error: whole-input JSON must be an object\n"@,
                    },
                )
            },
        },
    }
}

/// Creates a usage error about whole input.
fn input_failure(what: &str, error: &str) -> (r: CliError)
    ensures
        r@ == input_error(what@, error@),
{
    let mut out = "error: ".to_owned();
    out.append(what);
    out.append(": ");
    out.append(error);
    out.append("\n");
    CliError::new(CliErrorKind::Usage, out)
}

/// Creates a failure to read whole input.
fn read_failure(reason: &str) -> (r: CliError)
    ensures
        r@ == runtime_failure("failed to read JSON input: "@ + reason@),
{
    let mut out = "failed to read JSON input: ".to_owned();
    out.append(reason);
    CliError::runtime(out.as_str())
}

/// Judges what a reader found in whole input.
pub fn judge_input(found: ReadOutcome, failure: &Option<String>) -> (r: Result<Json, CliError>)
    ensures
        match r {
            Ok(value) => whole_input(found@, opt_text(*failure)) == Ok::<
                JsonView,
                CliErrorView,
            >(value@),
            Err(error) => whole_input(found@, opt_text(*failure)) == Err::<
                JsonView,
                CliErrorView,
            >(error@),
        },
{
    match found {
        ReadOutcome::Broken { ended, error } => {
            if ended {
                if let Some(reason) = failure {
                    return Err(read_failure(reason.as_str()));
                }
            }
            Err(input_failure("invalid JSON input", error.as_str()))
        },
        ReadOutcome::Value { value, trailing } => {
            if let Some(error) = trailing {
                return Err(input_failure("trailing JSON input", error.as_str()));
            }
            if let Some(reason) = failure {
                return Err(read_failure(reason.as_str()));
            }
            if !matches!(value, Json::Object(_)) {
                return Err(
                    CliError::new(
                        CliErrorKind::Usage,
                        "error: whole-input JSON must be an object\n".to_owned(),
                    ),
                );
            }
            Ok(value)
        },
    }
}

/// Reads exactly one whole-input JSON object.
pub fn read_json_input(input: &InputData) -> (r: Result<Json, CliError>)
    ensures
        match r {
            Ok(value) => whole_input(read_json(input.bytes@), opt_text(input.failure)) == Ok::<JsonView, CliErrorView>(value@),
            Err(error) => whole_input(read_json(input.bytes@), opt_text(input.failure)) == Err::<JsonView, CliErrorView>(error@),
        },
{
    let found = match read_value(&input.bytes) {
        Ok((value, trailing)) => ReadOutcome::Value { value: Json::from_value(value), trailing },
        Err((ended, error)) => ReadOutcome::Broken { ended, error },
    };
    judge_input(found, &input.failure)
}

/// Input whose stream failed selects nothing, and unless what came before the failure is wrong by
/// itself, the failure is a runtime failure wherever in the input it happened.
pub proof fn stream_failures_are_runtime_failures(found: ReadView, reason: Seq<char>)
    ensures
        whole_input(found, Some(reason)) is Err,
        (found matches ReadView::Value { trailing, .. } && trailing is None) || (
        found matches ReadView::Broken { ended, .. } && ended) ==> whole_input(found, Some(reason))
            == Err::<JsonView, CliErrorView>(
            runtime_failure("failed to read JSON input: "@ + reason),
        ),
{
}

/// Whole input is exactly one object, read to the end without a failure. What is wrong with the
/// text is a usage error; a failure to read it is a failure of the run.
pub proof fn whole_input_is_one_object(found: ReadView, failure: Option<Seq<char>>, value: JsonView)
    ensures
        whole_input(found, failure) == Ok::<JsonView, CliErrorView>(value) <==> found
            == (ReadView::Value { value, trailing: None }) && failure is None && value is Object,
        whole_input(found, failure) matches Err(error) ==> {
            &&& failure is None ==> error.kind == CliErrorKind::Usage
            &&& error.kind == CliErrorKind::Usage || error.kind == CliErrorKind::Runtime
            &&& found == (ReadView::Value { value, trailing: None }) && failure is Some
                ==> error.kind == CliErrorKind::Runtime
            &&& (found matches ReadView::Value { trailing: Some(_), .. }) ==> error.kind
                == CliErrorKind::Usage
        },
{
}

} // verus!

//! The command line of the external tools, and what their outcome means.

use vstd::prelude::*;
use vstd::string::*;
use vstd::utf8::{decode_utf8, valid_utf8};
use crate::format::OutputFormat;

verus! {

/// How a run of an external tool ended.
#[derive(Debug)]
pub enum ToolOutcome {
    /// The tool could not be started.
    LaunchFailed,
    /// The tool ran and exited.
    Exited {
        /// Whether the exit status reports success.
        success: bool,
        /// What the tool wrote to its standard output.
        stdout: Vec<u8>,
    },
}

/// Why a conversion gave no document.
#[derive(Clone, Copy, Debug, PartialEq, Eq, Structural)]
pub enum ConversionError {
    /// The converter could not be started.
    ToolLaunch,
    /// The converter ran and reported a failure.
    ToolExit,
}

/// The text that lossy UTF-8 decoding makes of `bytes`: every malformed
/// sequence gives a replacement character.
pub uninterp spec fn lossy_text(bytes: Seq<u8>) -> Seq<char>;

/// Decodes bytes as UTF-8, replacing malformed sequences.
///
/// Trusted: calls `String::from_utf8_lossy`. The contract names its result,
/// which depends on the bytes alone, and claims what the documentation says of
/// well-formed input: it is decoded as it stands.
#[verifier::external_body]
fn decode_lossy(bytes: &Vec<u8>) -> (text: String)
    ensures
        text@ == lossy_text(bytes@),
        valid_utf8(bytes@) ==> text@ == decode_utf8(bytes@),
{
    String::from_utf8_lossy(bytes).into_owned()
}

/// The arguments of a conversion, in their fixed order: the output format,
/// the target reference system `EPSG:4326`, the name of the output layer,
/// the standard output as the target, and last the file to read.
pub open spec fn converter_arguments(
    source_name: Seq<char>,
    layer_name: Seq<char>,
    format: OutputFormat,
) -> Seq<Seq<char>> {
    seq![
        "-f"@,
        format.spec_driver_name(),
        "-t_srs"@,
        "EPSG:4326"@,
        "-nln"@,
        layer_name,
        "/dev/stdout"@,
        source_name,
    ]
}

/// The name of the converter's executable.
pub fn converter_program() -> (program: &'static str)
    ensures
        program@ == "ogr2ogr"@,
{
    "ogr2ogr"
}

/// Builds the argument list of a conversion. Each value is an argument of
/// its own: no command line is ever put together as one text.
pub fn converter_args(source_name: &str, layer_name: &str, format: OutputFormat) -> (args: Vec<
    String,
>)
    ensures
        args.deep_view() == converter_arguments(source_name@, layer_name@, format),
{
    let mut args: Vec<String> = Vec::new();
    args.push(String::from_str("-f"));
    args.push(String::from_str(format.driver_name()));
    args.push(String::from_str("-t_srs"));
    args.push(String::from_str("EPSG:4326"));
    args.push(String::from_str("-nln"));
    args.push(String::from_str(layer_name));
    args.push(String::from_str("/dev/stdout"));
    args.push(String::from_str(source_name));
    assert(args.deep_view() =~= converter_arguments(source_name@, layer_name@, format));
    args
}

/// What a run of the converter gives: the document, or the reason why
/// there is none.
pub open spec fn conversion_result(outcome: ToolOutcome) -> Result<Seq<char>, ConversionError> {
    match outcome {
        ToolOutcome::LaunchFailed => Err(ConversionError::ToolLaunch),
        ToolOutcome::Exited { success, stdout } => if success {
            Ok(lossy_text(stdout@))
        } else {
            Err(ConversionError::ToolExit)
        },
    }
}

/// Turns the outcome of a run of the converter into the converted document.
///
/// A successful run gives its standard output, decoded lossily, so that
/// malformed bytes never make it fail. A run that reported a failure, or
/// that never started, gives an error.
pub fn convert_to_gml(outcome: &ToolOutcome) -> (result: Result<String, ConversionError>)
    ensures
        match result {
            Ok(text) => conversion_result(*outcome) == Ok::<Seq<char>, ConversionError>(text@),
            Err(error) => conversion_result(*outcome) == Err::<Seq<char>, ConversionError>(error),
        },
{
    match outcome {
        ToolOutcome::LaunchFailed => Err(ConversionError::ToolLaunch),
        ToolOutcome::Exited { success, stdout } => {
            if *success {
                Ok(decode_lossy(stdout))
            } else {
                Err(ConversionError::ToolExit)
            }
        },
    }
}

/// The name of the executable that reports the version of the tools.
pub fn version_program() -> (program: &'static str)
    ensures
        program@ == "gdalinfo"@,
{
    "gdalinfo"
}

/// The arguments of the version query: `--version` alone.
pub fn version_args() -> (args: Vec<String>)
    ensures
        args.deep_view() == seq!["--version"@],
{
    let mut args: Vec<String> = Vec::new();
    args.push(String::from_str("--version"));
    assert(args.deep_view() =~= seq!["--version"@]);
    args
}

/// What the version query gives: the tool's output where it succeeded, the
/// empty text where it reported a failure, an error where it never started.
pub open spec fn version_result(outcome: ToolOutcome) -> Result<Seq<char>, ConversionError> {
    match outcome {
        ToolOutcome::LaunchFailed => Err(ConversionError::ToolLaunch),
        ToolOutcome::Exited { success, stdout } => if success {
            Ok(lossy_text(stdout@))
        } else {
            Ok(Seq::empty())
        },
    }
}

/// Reads the version text of the tools from the outcome of the version
/// query, which is run once before any request is served.
pub fn get_gdal_version(outcome: &ToolOutcome) -> (result: Result<String, ConversionError>)
    ensures
        match result {
            Ok(text) => version_result(*outcome) == Ok::<Seq<char>, ConversionError>(text@),
            Err(error) => version_result(*outcome) == Err::<Seq<char>, ConversionError>(error),
        },
{
    match outcome {
        ToolOutcome::LaunchFailed => Err(ConversionError::ToolLaunch),
        ToolOutcome::Exited { success, stdout } => {
            if *success {
                Ok(decode_lossy(stdout))
            } else {
                Ok(String::new())
            }
        },
    }
}

} // verus!

//! The decisions of one conversion request, from the uploaded value to the
//! response.
//!
//! The caller does the work between the decisions: it moves the files that
//! `begin` asks to stage, runs the converter on the arguments of a
//! `Conversion`, sends the response of `finish` and removes the files that
//! `next_removal` names.

use vstd::prelude::*;
use vstd::string::*;
use crate::converter::{
    conversion_result, convert_to_gml, converter_args, converter_arguments, ToolOutcome,
};
use crate::format::OutputFormat;
use crate::names::base_name;
use crate::staging::staged_path;
use crate::upload::{
    bundle_input, classify, handle_multiple_files, is_index_file, lemma_bundle_input_from_index,
    lemma_bundle_without_index, moves_view, plan_of, ParamValue, StagedInput, StagedInputView,
    StagingMove, StagingMoveView, Upload, UploadView, UploadedFile,
};

verus! {

/// A response to send.
#[derive(Debug)]
pub struct Response {
    /// The status code.
    pub status: u16,
    /// The content type, where one is set.
    pub content_type: Option<String>,
    /// The body.
    pub body: String,
}

/// What a `Response` holds.
pub struct ResponseView {
    pub status: u16,
    pub content_type: Option<Seq<char>>,
    pub body: Seq<char>,
}

impl View for Response {
    type V = ResponseView;

    open spec fn view(&self) -> ResponseView {
        ResponseView {
            status: self.status,
            content_type: match self.content_type {
                Some(content_type) => Some(content_type@),
                None => None,
            },
            body: self.body@,
        }
    }
}

/// The one page that reports a failed conversion, whatever its cause. It
/// is sent with status 200.
pub open spec fn failure_page() -> ResponseView {
    ResponseView {
        status: 200,
        content_type: Some("text/html"@),
        body: "<html><body><div><h1>Conversion failed</h1></div></body></html>"@,
    }
}

/// The page for a request that matches no route, sent with status 404 and
/// no content type.
pub open spec fn not_found_page() -> ResponseView {
    ResponseView {
        status: 404,
        content_type: None,
        body: "<html>\n    <body>\n    <h1>Error 404</h1>\n    <p>Ressource not found</p>\n    </body>\n</html>"@,
    }
}

/// The response that carries a converted document: status 200 and the
/// content type of the format.
pub open spec fn document_page(format: OutputFormat, document: Seq<char>) -> ResponseView {
    ResponseView { status: 200, content_type: Some(format.spec_mime_type()), body: document }
}

/// Builds the failure page.
pub fn failure_response() -> (response: Response)
    ensures
        response@ == failure_page(),
{
    Response {
        status: 200,
        content_type: Some(String::from_str("text/html")),
        body: String::from_str("<html><body><div><h1>Conversion failed</h1></div></body></html>"),
    }
}

/// Builds the page for a request that matches no route.
pub fn not_found_response() -> (response: Response)
    ensures
        response@ == not_found_page(),
{
    Response {
        status: 404,
        content_type: None,
        body: String::from_str(
            "<html>\n    <body>\n    <h1>Error 404</h1>\n    <p>Ressource not found</p>\n    </body>\n</html>",
        ),
    }
}

/// Decides what becomes of an error of the routing layer: a request that
/// matched no route is answered with the 404 page, any other error is
/// passed on (`None`).
pub fn catch(no_route: bool) -> (response: Option<Response>)
    ensures
        match response {
            Some(page) => no_route && page@ == not_found_page(),
            None => !no_route,
        },
{
    if no_route {
        Some(not_found_response())
    } else {
        None
    }
}

/// A conversion to run.
#[derive(Debug)]
pub struct Conversion {
    /// The input that the converter reads.
    pub input: StagedInput,
    /// The format asked for.
    pub format: OutputFormat,
    /// The arguments of the converter.
    pub args: Vec<String>,
}

/// What a `Conversion` holds.
pub struct ConversionView {
    pub input: StagedInputView,
    pub format: OutputFormat,
    pub args: Seq<Seq<char>>,
}

impl View for Conversion {
    type V = ConversionView;

    open spec fn view(&self) -> ConversionView {
        ConversionView { input: self.input@, format: self.format, args: self.args.deep_view() }
    }
}

/// The conversion of `input` to `format`: the converter reads the staged
/// path and names the output layer after the uploaded file.
pub open spec fn conversion_of(input: StagedInputView, format: OutputFormat) -> ConversionView {
    ConversionView {
        input,
        format,
        args: converter_arguments(input.staged_path, input.original_base_name, format),
    }
}

/// What to do next for a request.
#[derive(Debug)]
pub enum Next {
    /// Send this response: the request is over.
    Respond(Response),
    /// Run the converter, then call `finish`.
    Convert(Conversion),
    /// Move these files, then call `after_staging` with the report.
    Stage {
        moves: Vec<StagingMove>,
        format: OutputFormat,
    },
}

/// What a `Next` holds.
pub enum NextView {
    Respond(ResponseView),
    Convert(ConversionView),
    Stage { moves: Seq<StagingMoveView>, format: OutputFormat },
}

impl View for Next {
    type V = NextView;

    open spec fn view(&self) -> NextView {
        match self {
            Next::Respond(response) => NextView::Respond(response@),
            Next::Convert(conversion) => NextView::Convert(conversion@),
            Next::Stage { moves, format } => NextView::Stage {
                moves: moves_view(moves@),
                format: *format,
            },
        }
    }
}

/// The first decision: no upload is answered with the failure page, a
/// single file is converted where it lies, a bundle is staged first.
pub open spec fn first_step(upload: UploadView, format: OutputFormat) -> NextView {
    match upload {
        UploadView::Absent => NextView::Respond(failure_page()),
        UploadView::Single(input) => NextView::Convert(conversion_of(input, format)),
        UploadView::Bundle(moves) => NextView::Stage { moves, format },
    }
}

/// The decision after staging: a bundle whose geometry component was
/// staged is converted, any other is answered with the failure page.
pub open spec fn step_after_staging(
    moves: Seq<StagingMoveView>,
    staged: Seq<bool>,
    format: OutputFormat,
) -> NextView {
    match bundle_input(moves, staged) {
        Some(input) => NextView::Convert(conversion_of(input, format)),
        None => NextView::Respond(failure_page()),
    }
}

/// Prepares the conversion of `input` to `format`.
pub fn prepare(input: StagedInput, format: OutputFormat) -> (conversion: Conversion)
    ensures
        conversion@ == conversion_of(input@, format),
{
    let args = converter_args(input.staged_path.as_str(), input.original_base_name.as_str(), format);
    Conversion { input, format, args }
}

/// Decides the first step of a request from the classified upload and the
/// selected format.
pub fn begin(upload: Upload, format: OutputFormat) -> (next: Next)
    ensures
        next@ == first_step(upload@, format),
{
    match upload {
        Upload::Absent => Next::Respond(failure_response()),
        Upload::Single(input) => Next::Convert(prepare(input, format)),
        Upload::Bundle(moves) => Next::Stage { moves, format },
    }
}

/// Decides the step after the components of a bundle were moved:
/// `staged[i]` tells whether the `i`-th move succeeded.
pub fn after_staging(moves: &Vec<StagingMove>, staged: &Vec<bool>, format: OutputFormat) -> (next:
    Next)
    ensures
        next@ == step_after_staging(moves_view(moves@), staged@, format),
{
    match handle_multiple_files(moves, staged) {
        Some(input) => Next::Convert(prepare(input, format)),
        None => Next::Respond(failure_response()),
    }
}

/// The end of a request: the response, and the staged geometry file whose
/// bundle is to be removed after it, if any.
#[derive(Debug)]
pub struct Finished {
    /// The response to send.
    pub response: Response,
    /// The staged geometry file of a converted bundle; `None` where nothing
    /// is to be removed.
    pub cleanup: Option<String>,
}

/// What a `Finished` holds.
pub struct FinishedView {
    pub response: ResponseView,
    pub cleanup: Option<Seq<char>>,
}

impl View for Finished {
    type V = FinishedView;

    open spec fn view(&self) -> FinishedView {
        FinishedView {
            response: self.response@,
            cleanup: match self.cleanup {
                Some(path) => Some(path@),
                None => None,
            },
        }
    }
}

/// The end of a request whose converter run ended with `outcome`.
///
/// A document is sent with the content type of its format, and the staged
/// files of a bundle are then removed. Any failure is answered with the
/// failure page, and nothing is removed.
pub open spec fn last_step(conversion: ConversionView, outcome: ToolOutcome) -> FinishedView {
    match conversion_result(outcome) {
        Ok(document) => FinishedView {
            response: document_page(conversion.format, document),
            cleanup: if conversion.input.is_multi_component {
                Some(conversion.input.staged_path)
            } else {
                None
            },
        },
        Err(_) => FinishedView { response: failure_page(), cleanup: None },
    }
}

/// Decides the response from the outcome of the converter run.
pub fn finish(conversion: &Conversion, outcome: &ToolOutcome) -> (finished: Finished)
    ensures
        finished@ == last_step(conversion@, *outcome),
{
    match convert_to_gml(outcome) {
        Ok(document) => {
            let cleanup = if conversion.input.is_multi_component {
                Some(conversion.input.staged_path.clone())
            } else {
                None
            };
            Finished {
                response: Response {
                    status: 200,
                    content_type: Some(String::from_str(conversion.format.mime_type())),
                    body: document,
                },
                cleanup,
            }
        },
        Err(_) => Finished { response: failure_response(), cleanup: None },
    }
}

/// A request without a value in the upload field, or with a value that is
/// neither a file nor a collection, is answered with the failure page.
pub proof fn lemma_missing_file_fails(value: Option<&ParamValue>, base: Seq<char>, format: OutputFormat)
    requires
        match value {
            Some(ParamValue::File(_)) => false,
            Some(ParamValue::Array(_)) => false,
            _ => true,
        },
    ensures
        first_step(classify(value, base), format) == NextView::Respond(failure_page()),
        failure_page().status == 200,
{
}

/// A single uploaded file is converted where the upload layer stored it,
/// into a layer named after the file name without its last extension
/// segment; nothing is staged and nothing is removed afterwards.
pub proof fn lemma_single_file_conversion(file: UploadedFile, base: Seq<char>, format: OutputFormat)
    ensures
        first_step(classify(Some(&ParamValue::File(file)), base), format) == NextView::Convert(
            conversion_of(
                StagedInputView {
                    original_base_name: base_name(file.filename@),
                    staged_path: file.path@,
                    is_multi_component: false,
                },
                format,
            ),
        ),
        first_step(classify(Some(&ParamValue::File(file)), base), format)
            ->Convert_0.args == converter_arguments(file.path@, base_name(file.filename@), format),
{
}

/// A bundle with no file of extension `shp` is answered with the failure
/// page, whichever of its components were staged.
pub proof fn lemma_bundle_without_index_fails(
    values: Seq<ParamValue>,
    base: Seq<char>,
    staged: Seq<bool>,
    format: OutputFormat,
)
    requires
        forall|i: int|
            0 <= i < values.len() && #[trigger] values[i] is File ==> !is_index_file(
                values[i]->File_0,
            ),
    ensures
        step_after_staging(plan_of(values, base), staged, format) == NextView::Respond(
            failure_page(),
        ),
{
    lemma_bundle_without_index(values, base, staged);
}

/// A bundle that is converted is read at `/tmp/<base>.shp`, into a layer
/// named after one of its files of extension `shp`.
pub proof fn lemma_bundle_conversion(
    values: Seq<ParamValue>,
    base: Seq<char>,
    staged: Seq<bool>,
    format: OutputFormat,
) -> (i: int)
    requires
        step_after_staging(plan_of(values, base), staged, format) is Convert,
    ensures
        0 <= i < values.len(),
        values[i] is File,
        is_index_file(values[i]->File_0),
        step_after_staging(plan_of(values, base), staged, format)->Convert_0.args
            == converter_arguments(
            staged_path(base, "shp"@),
            base_name((values[i]->File_0).filename@),
            format,
        ),
        step_after_staging(plan_of(values, base), staged, format)
            ->Convert_0.input.is_multi_component,
{
    lemma_bundle_input_from_index(values, base, staged)
}

/// A converter that reports a failure, or that cannot be started, is
/// answered with the failure page at status 200, and no staged file is
/// removed.
pub proof fn lemma_failed_conversion_fails(conversion: ConversionView, outcome: ToolOutcome)
    requires
        outcome matches ToolOutcome::Exited { success, .. } ==> !success,
    ensures
        last_step(conversion, outcome) == (FinishedView { response: failure_page(), cleanup: None }),
        last_step(conversion, outcome).response.status == 200,
{
}

/// A converter that reports success is answered with status 200 and the
/// content type of the format; the staged geometry file is handed to the
/// removal exactly where the input was a bundle.
pub proof fn lemma_successful_conversion(conversion: ConversionView, stdout: Vec<u8>)
    ensures
        ({
            let finished = last_step(conversion, ToolOutcome::Exited { success: true, stdout });
            &&& finished.response.status == 200
            &&& finished.response.content_type == Some(conversion.format.spec_mime_type())
            &&& conversion.input.is_multi_component ==> finished.cleanup == Some(
                conversion.input.staged_path,
            )
            &&& !conversion.input.is_multi_component ==> finished.cleanup is None
        }),
{
}

} // verus!

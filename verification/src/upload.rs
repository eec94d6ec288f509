//! Classification of the uploaded value of a form field.

use vstd::prelude::*;
use vstd::string::*;
use crate::names::{base_name, extension, same_text, split_file_name};
use crate::staging::{generate_unique_base, is_unique_base, stage_destination, staged_path};

verus! {

/// One uploaded file as the upload layer hands it over.
#[derive(Debug)]
pub struct UploadedFile {
    /// The file name that the client gave.
    pub filename: String,
    /// Where the upload layer stored the content.
    pub path: String,
}

/// The parsed value of a form field.
#[derive(Debug)]
pub enum ParamValue {
    /// A text value.
    Text(String),
    /// An uploaded file.
    File(UploadedFile),
    /// Several values under one field name.
    Array(Vec<ParamValue>),
    /// Any other kind of value: none of them is read here.
    Other,
}

/// One input that is ready for the converter.
#[derive(Debug)]
pub struct StagedInput {
    /// The uploaded file name without its last extension segment; it names
    /// the output layer.
    pub original_base_name: String,
    /// The file that the converter reads.
    pub staged_path: String,
    /// Whether the input came from a bundle whose staged files are to be
    /// removed after the conversion.
    pub is_multi_component: bool,
}

/// What a `StagedInput` holds.
pub struct StagedInputView {
    pub original_base_name: Seq<char>,
    pub staged_path: Seq<char>,
    pub is_multi_component: bool,
}

impl View for StagedInput {
    type V = StagedInputView;

    open spec fn view(&self) -> StagedInputView {
        StagedInputView {
            original_base_name: self.original_base_name@,
            staged_path: self.staged_path@,
            is_multi_component: self.is_multi_component,
        }
    }
}

/// One file to move into the staging area.
#[derive(Debug)]
pub struct StagingMove {
    /// Where the upload layer stored the component.
    pub source: String,
    /// Where the component is staged.
    pub destination: String,
    /// For the geometry component (extension `shp`), the layer name that it
    /// gives; `None` for any other component.
    pub index_name: Option<String>,
}

/// What a `StagingMove` holds.
pub struct StagingMoveView {
    pub source: Seq<char>,
    pub destination: Seq<char>,
    pub index_name: Option<Seq<char>>,
}

impl View for StagingMove {
    type V = StagingMoveView;

    open spec fn view(&self) -> StagingMoveView {
        StagingMoveView {
            source: self.source@,
            destination: self.destination@,
            index_name: match self.index_name {
                Some(name) => Some(name@),
                None => None,
            },
        }
    }
}

/// The input that a single uploaded file gives: the layer is named after
/// the file name without its last extension segment, and the converter reads
/// the file where the upload layer stored it.
pub open spec fn single_input(file: UploadedFile) -> StagedInputView {
    StagedInputView {
        original_base_name: base_name(file.filename@),
        staged_path: file.path@,
        is_multi_component: false,
    }
}

/// Whether `file` is the geometry component of a bundle: its extension is
/// exactly `shp`.
pub open spec fn is_index_file(file: UploadedFile) -> bool {
    extension(file.filename@) == "shp"@
}

/// The move that stages one bundle component under the stem `base`.
pub open spec fn move_for(file: UploadedFile, base: Seq<char>) -> StagingMoveView {
    StagingMoveView {
        source: file.path@,
        destination: staged_path(base, extension(file.filename@)),
        index_name: if is_index_file(file) {
            Some(base_name(file.filename@))
        } else {
            None
        },
    }
}

/// The moves that stage a bundle: one for each file among `values`, in
/// their order; values that are no files are passed over.
pub open spec fn plan_of(values: Seq<ParamValue>, base: Seq<char>) -> Seq<StagingMoveView>
    decreases values.len(),
{
    if values.len() == 0 {
        Seq::empty()
    } else {
        match values.last() {
            ParamValue::File(file) => plan_of(values.drop_last(), base).push(move_for(file, base)),
            _ => plan_of(values.drop_last(), base),
        }
    }
}

/// What a list of moves holds.
pub open spec fn moves_view(moves: Seq<StagingMove>) -> Seq<StagingMoveView> {
    Seq::new(moves.len(), |i: int| moves[i]@)
}

/// Turns a single uploaded file into a converter input.
pub fn handle_single_file(file: &UploadedFile) -> (input: StagedInput)
    ensures
        input@ == single_input(*file),
{
    let (name, _) = split_file_name(file.filename.as_str());
    StagedInput {
        original_base_name: name,
        staged_path: file.path.clone(),
        is_multi_component: false,
    }
}

/// Plans the staging of one bundle component under the stem `base`.
pub fn plan_move(file: &UploadedFile, base: &str) -> (planned: StagingMove)
    ensures
        planned@ == move_for(*file, base@),
{
    let (name, ext) = split_file_name(file.filename.as_str());
    let destination = stage_destination(base, ext.as_str());
    let index_name = if same_text(ext.as_str(), "shp") {
        Some(name)
    } else {
        None
    };
    StagingMove { source: file.path.clone(), destination, index_name }
}

/// Plans the staging of a bundle: every file among `values` is moved to
/// `/tmp/<base>.<its own extension>`.
pub fn plan_staging(values: &Vec<ParamValue>, base: &str) -> (moves: Vec<StagingMove>)
    ensures
        moves_view(moves@) == plan_of(values@, base@),
{
    let mut moves: Vec<StagingMove> = Vec::new();
    let mut i: usize = 0;
    while i < values.len()
        invariant
            i <= values@.len(),
            moves_view(moves@) == plan_of(values@.subrange(0, i as int), base@),
        decreases values@.len() - i,
    {
        proof {
            assert(values@.subrange(0, i + 1).drop_last() =~= values@.subrange(0, i as int));
            assert(values@.subrange(0, i + 1).last() == values@[i as int]);
        }
        let ghost before = moves@;
        match &values[i] {
            ParamValue::File(file) => {
                moves.push(plan_move(file, base));
                assert(moves_view(moves@) =~= moves_view(before).push(move_for(*file, base@)));
            },
            _ => {},
        }
        i = i + 1;
    }
    assert(values@.subrange(0, i as int) =~= values@);
    moves
}

/// Whether the `i`-th move of `plan` staged a geometry component: the move
/// is one of a file with extension `shp`, and it was reported as done.
pub open spec fn is_staged_index(plan: Seq<StagingMoveView>, staged: Seq<bool>, i: int) -> bool {
    &&& 0 <= i < plan.len()
    &&& plan[i].index_name is Some
    &&& i < staged.len()
    &&& staged[i]
}

/// Position of the last move of `plan` that staged a geometry component, or
/// `-1` where there is none.
pub open spec fn index_position(plan: Seq<StagingMoveView>, staged: Seq<bool>) -> int
    decreases plan.len(),
{
    if plan.len() == 0 {
        -1
    } else if is_staged_index(plan, staged, plan.len() - 1) {
        plan.len() - 1
    } else {
        index_position(plan.drop_last(), staged)
    }
}

/// The converter input that a staged bundle gives: layer name and path come
/// from the last geometry component that was staged; a bundle without one
/// gives no input.
pub open spec fn bundle_input(plan: Seq<StagingMoveView>, staged: Seq<bool>) -> Option<
    StagedInputView,
> {
    let i = index_position(plan, staged);
    if i < 0 {
        None
    } else {
        Some(
            StagedInputView {
                original_base_name: plan[i].index_name->0,
                staged_path: plan[i].destination,
                is_multi_component: true,
            },
        )
    }
}

/// `index_position` is `-1` or the position of a staged geometry component
/// with none after it.
pub proof fn lemma_index_position_is_last(plan: Seq<StagingMoveView>, staged: Seq<bool>)
    ensures
        -1 <= index_position(plan, staged) < plan.len(),
        index_position(plan, staged) >= 0 ==> is_staged_index(
            plan,
            staged,
            index_position(plan, staged),
        ),
        forall|j: int|
            index_position(plan, staged) < j < plan.len() ==> !is_staged_index(plan, staged, j),
    decreases plan.len(),
{
    if plan.len() > 0 && !is_staged_index(plan, staged, plan.len() - 1) {
        let front = plan.drop_last();
        lemma_index_position_is_last(front, staged);
        assert forall|j: int| index_position(plan, staged) < j < plan.len() implies !is_staged_index(
            plan,
            staged,
            j,
        ) by {
            if j < front.len() {
                assert(front[j] == plan[j]);
                assert(!is_staged_index(front, staged, j));
            }
        }
        if index_position(plan, staged) >= 0 {
            assert(front[index_position(plan, staged)] == plan[index_position(plan, staged)]);
        }
    }
}

/// Moves at the end that staged no geometry component do not change the
/// position.
proof fn lemma_index_position_skips_tail(plan: Seq<StagingMoveView>, staged: Seq<bool>, i: int)
    requires
        0 <= i <= plan.len(),
        forall|j: int| i <= j < plan.len() ==> !is_staged_index(plan, staged, j),
    ensures
        index_position(plan, staged) == index_position(plan.subrange(0, i), staged),
    decreases plan.len() - i,
{
    if i < plan.len() {
        let front = plan.drop_last();
        assert(front.subrange(0, i) =~= plan.subrange(0, i));
        assert forall|j: int| i <= j < front.len() implies !is_staged_index(front, staged, j) by {
            assert(front[j] == plan[j]);
            assert(!is_staged_index(plan, staged, j));
        }
        lemma_index_position_skips_tail(front, staged, i);
    } else {
        assert(plan.subrange(0, i) =~= plan);
    }
}

/// Picks the converter input of a bundle once its components were moved:
/// `staged[i]` tells whether the `i`-th move of `plan` succeeded; a move
/// with no report counts as failed.
pub fn handle_multiple_files(plan: &Vec<StagingMove>, staged: &Vec<bool>) -> (input: Option<
    StagedInput,
>)
    ensures
        match input {
            Some(found) => bundle_input(moves_view(plan@), staged@) == Some(found@),
            None => bundle_input(moves_view(plan@), staged@) is None,
        },
{
    let ghost all = moves_view(plan@);
    let mut i: usize = plan.len();
    while i > 0
        invariant
            i <= plan@.len(),
            all == moves_view(plan@),
            forall|j: int| i <= j < plan@.len() ==> !is_staged_index(all, staged@, j),
        decreases i,
    {
        let k = i - 1;
        if k < staged.len() && staged[k] {
            match &plan[k].index_name {
                Some(name) => {
                    proof {
                        lemma_index_position_skips_tail(all, staged@, i as int);
                        assert(is_staged_index(all.subrange(0, i as int), staged@, k as int));
                    }
                    return Some(
                        StagedInput {
                            original_base_name: name.clone(),
                            staged_path: plan[k].destination.clone(),
                            is_multi_component: true,
                        },
                    );
                },
                None => {},
            }
        }
        i = k;
    }
    proof {
        lemma_index_position_skips_tail(all, staged@, 0);
        assert(all.subrange(0, 0).len() == 0);
    }
    None
}

/// How an uploaded field value is to be treated.
#[derive(Debug)]
pub enum Upload {
    /// No usable file: the field is missing or holds no file.
    Absent,
    /// One file, ready for the converter where the upload layer stored it.
    Single(StagedInput),
    /// A bundle: these moves stage its components; `handle_multiple_files`
    /// then picks the input.
    Bundle(Vec<StagingMove>),
}

/// What an `Upload` holds.
pub enum UploadView {
    Absent,
    Single(StagedInputView),
    Bundle(Seq<StagingMoveView>),
}

impl View for Upload {
    type V = UploadView;

    open spec fn view(&self) -> UploadView {
        match self {
            Upload::Absent => UploadView::Absent,
            Upload::Single(input) => UploadView::Single(input@),
            Upload::Bundle(moves) => UploadView::Bundle(moves_view(moves@)),
        }
    }
}

/// Whether the field value is treated as a bundle: a collection that does
/// not hold exactly one value.
pub open spec fn is_bundle(value: Option<&ParamValue>) -> bool {
    match value {
        Some(ParamValue::Array(values)) => values@.len() != 1,
        _ => false,
    }
}

/// The treatment of a field value, with `base` as the stem of a bundle.
///
/// A file is a single input, and so is a collection of exactly one file. Any
/// other collection is a bundle. Everything else, a missing field included,
/// is no upload.
pub open spec fn classify(value: Option<&ParamValue>, base: Seq<char>) -> UploadView {
    match value {
        Some(ParamValue::File(file)) => UploadView::Single(single_input(*file)),
        Some(ParamValue::Array(values)) => if values@.len() == 1 {
            match values@[0] {
                ParamValue::File(file) => UploadView::Single(single_input(file)),
                _ => UploadView::Absent,
            }
        } else {
            UploadView::Bundle(plan_of(values@, base))
        },
        _ => UploadView::Absent,
    }
}

/// Classifies the value of the upload field; `base` is the stem under which
/// the components of a bundle are staged.
pub fn classify_upload(value: Option<&ParamValue>, base: &str) -> (upload: Upload)
    ensures
        upload@ == classify(value, base@),
{
    match value {
        Some(ParamValue::File(file)) => Upload::Single(handle_single_file(file)),
        Some(ParamValue::Array(values)) => {
            if values.len() == 1 {
                match &values[0] {
                    ParamValue::File(file) => Upload::Single(handle_single_file(file)),
                    _ => Upload::Absent,
                }
            } else {
                Upload::Bundle(plan_staging(values, base))
            }
        },
        _ => Upload::Absent,
    }
}

/// Tells whether the field value is treated as a bundle.
pub fn needs_staging(value: Option<&ParamValue>) -> (bundle: bool)
    ensures
        bundle == is_bundle(value),
{
    match value {
        Some(ParamValue::Array(values)) => values.len() != 1,
        _ => false,
    }
}

/// Classifies the value of the upload field, drawing a fresh random stem
/// where the value is a bundle.
///
/// The stem is random, so the contract names no particular one: the result
/// is the classification under some stem of 32 hexadecimal digits.
pub fn get_uploaded_filename(value: Option<&ParamValue>) -> (upload: Upload)
    ensures
        exists|base: Seq<char>| #[trigger] is_unique_base(base) && upload@ == classify(value, base),
        !is_bundle(value) ==> forall|base: Seq<char>| upload@ == #[trigger] classify(value, base),
{
    if needs_staging(value) {
        let base = generate_unique_base();
        let upload = classify_upload(value, base.as_str());
        assert(is_unique_base(base@));
        upload
    } else {
        let upload = classify_upload(value, "");
        proof {
            let zeros = Seq::new(32, |i: int| '0');
            assert(is_unique_base(zeros));
            assert(upload@ == classify(value, zeros));
        }
        upload
    }
}

/// Every move of a plan stages one of the files among the values.
pub proof fn lemma_plan_entry(values: Seq<ParamValue>, base: Seq<char>, j: int) -> (i: int)
    requires
        0 <= j < plan_of(values, base).len(),
    ensures
        0 <= i < values.len(),
        values[i] is File,
        plan_of(values, base)[j] == move_for(values[i]->File_0, base),
    decreases values.len(),
{
    let front = values.drop_last();
    if values.last() is File && j == plan_of(front, base).len() {
        values.len() - 1
    } else {
        lemma_plan_entry(front, base, j)
    }
}

/// A bundle without a file of extension `shp` gives no input, whichever of
/// its components were staged.
pub proof fn lemma_bundle_without_index(values: Seq<ParamValue>, base: Seq<char>, staged: Seq<bool>)
    requires
        forall|i: int|
            0 <= i < values.len() && #[trigger] values[i] is File ==> !is_index_file(
                values[i]->File_0,
            ),
    ensures
        bundle_input(plan_of(values, base), staged) is None,
{
    let plan = plan_of(values, base);
    lemma_index_position_is_last(plan, staged);
    let at = index_position(plan, staged);
    if at >= 0 {
        let i = lemma_plan_entry(values, base, at);
        assert(values[i] is File);
    }
}

/// The input of a bundle is named after one of its files of extension
/// `shp`, and is staged at `/tmp/<base>.shp`.
pub proof fn lemma_bundle_input_from_index(
    values: Seq<ParamValue>,
    base: Seq<char>,
    staged: Seq<bool>,
) -> (i: int)
    requires
        bundle_input(plan_of(values, base), staged) is Some,
    ensures
        0 <= i < values.len(),
        values[i] is File,
        is_index_file(values[i]->File_0),
        bundle_input(plan_of(values, base), staged) == Some(
            StagedInputView {
                original_base_name: base_name((values[i]->File_0).filename@),
                staged_path: staged_path(base, "shp"@),
                is_multi_component: true,
            },
        ),
{
    let plan = plan_of(values, base);
    lemma_index_position_is_last(plan, staged);
    lemma_plan_entry(values, base, index_position(plan, staged))
}

/// Where every component was staged, a bundle with a file of extension
/// `shp` gives an input.
pub proof fn lemma_bundle_with_index(values: Seq<ParamValue>, base: Seq<char>, staged: Seq<bool>, i: int)
    requires
        0 <= i < values.len(),
        values[i] is File,
        is_index_file(values[i]->File_0),
        staged.len() == plan_of(values, base).len(),
        forall|j: int| 0 <= j < staged.len() ==> staged[j],
    ensures
        bundle_input(plan_of(values, base), staged) is Some,
    decreases values.len(),
{
    let plan = plan_of(values, base);
    let front = values.drop_last();
    if i == values.len() - 1 {
        assert(is_staged_index(plan, staged, plan.len() - 1));
    } else if values.last() is File {
        if !is_staged_index(plan, staged, plan.len() - 1) {
            let shorter = staged.drop_last();
            assert(plan.drop_last() =~= plan_of(front, base));
            lemma_bundle_with_index(front, base, shorter, i);
            lemma_index_position_same(plan_of(front, base), shorter, staged);
        }
    } else {
        lemma_bundle_with_index(front, base, staged, i);
    }
}

/// Reports beyond the end of the plan, or equal ones, give the same position.
proof fn lemma_index_position_same(plan: Seq<StagingMoveView>, a: Seq<bool>, b: Seq<bool>)
    requires
        a.len() >= plan.len(),
        b.len() >= plan.len(),
        forall|j: int| 0 <= j < plan.len() ==> a[j] == b[j],
    ensures
        index_position(plan, a) == index_position(plan, b),
    decreases plan.len(),
{
    if plan.len() > 0 {
        lemma_index_position_same(plan.drop_last(), a, b);
    }
}

} // verus!

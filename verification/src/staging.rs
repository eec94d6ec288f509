//! Placement of uploaded bundle components under collision-free names.

use vstd::prelude::*;
use vstd::string::*;
use crate::names::{base_name, dot_index, extension, lemma_dot_index_is_last, split_file_name};

verus! {

/// A lower-case hexadecimal digit.
pub open spec fn is_lower_hex(c: char) -> bool {
    ('0' <= c && c <= '9') || ('a' <= c && c <= 'f')
}

/// The hyphenated text form of a UUID: 36 characters, `-` at positions
/// 8, 13, 18 and 23, lower-case hexadecimal digits everywhere else.
pub open spec fn is_hyphenated_uuid(s: Seq<char>) -> bool {
    &&& s.len() == 36
    &&& forall|i: int|
        0 <= i < 36 ==> if i == 8 || i == 13 || i == 18 || i == 23 {
            s[i] == '-'
        } else {
            is_lower_hex(#[trigger] s[i])
        }
}

/// A shared file-name stem: 32 lower-case hexadecimal digits.
pub open spec fn is_unique_base(s: Seq<char>) -> bool {
    &&& s.len() == 32
    &&& forall|i: int| 0 <= i < 32 ==> is_lower_hex(#[trigger] s[i])
}

/// `s` with every `-` taken out.
pub open spec fn without_hyphens(s: Seq<char>) -> Seq<char>
    decreases s.len(),
{
    if s.len() == 0 {
        Seq::empty()
    } else if s.last() == '-' {
        without_hyphens(s.drop_last())
    } else {
        without_hyphens(s.drop_last()).push(s.last())
    }
}

/// Taking hyphens out of a concatenation is done part by part.
proof fn lemma_without_hyphens_concat(a: Seq<char>, b: Seq<char>)
    ensures
        without_hyphens(a + b) == without_hyphens(a) + without_hyphens(b),
    decreases b.len(),
{
    if b.len() == 0 {
        assert(a + b =~= a);
        assert(without_hyphens(a) + without_hyphens(b) =~= without_hyphens(a));
    } else {
        assert((a + b).drop_last() =~= a + b.drop_last());
        assert((a + b).last() == b.last());
        lemma_without_hyphens_concat(a, b.drop_last());
        assert(without_hyphens(a + b) =~= without_hyphens(a) + without_hyphens(b));
    }
}

/// A text without hyphens is left as it is.
proof fn lemma_without_hyphens_keeps(a: Seq<char>)
    requires
        forall|i: int| 0 <= i < a.len() ==> a[i] != '-',
    ensures
        without_hyphens(a) == a,
    decreases a.len(),
{
    if a.len() > 0 {
        lemma_without_hyphens_keeps(a.drop_last());
        assert(without_hyphens(a) =~= a);
    }
}

/// Stripping the hyphens of a hyphenated UUID leaves its 32 digits, in order.
pub proof fn lemma_uuid_without_hyphens(s: Seq<char>)
    requires
        is_hyphenated_uuid(s),
    ensures
        without_hyphens(s) == s.subrange(0, 8) + s.subrange(9, 13) + s.subrange(14, 18)
            + s.subrange(19, 23) + s.subrange(24, 36),
        is_unique_base(without_hyphens(s)),
{
    let dash = seq!['-'];
    let (first, second, third, fourth, fifth) = (
        s.subrange(0, 8),
        s.subrange(9, 13),
        s.subrange(14, 18),
        s.subrange(19, 23),
        s.subrange(24, 36),
    );
    assert(s =~= first + dash + second + dash + third + dash + fourth + dash + fifth);
    assert(without_hyphens(dash) =~= Seq::<char>::empty()) by {
        assert(dash.last() == '-');
        assert(dash.drop_last().len() == 0);
        assert(without_hyphens(dash.drop_last()) =~= Seq::<char>::empty());
    }
    assert forall|i: int| 0 <= i < 36 && s[i] != '-' implies is_lower_hex(s[i]) by {}
    lemma_without_hyphens_keeps(first);
    lemma_without_hyphens_keeps(second);
    lemma_without_hyphens_keeps(third);
    lemma_without_hyphens_keeps(fourth);
    lemma_without_hyphens_keeps(fifth);
    lemma_without_hyphens_concat(first, dash);
    lemma_without_hyphens_concat(first + dash, second);
    lemma_without_hyphens_concat(first + dash + second, dash);
    lemma_without_hyphens_concat(first + dash + second + dash, third);
    lemma_without_hyphens_concat(first + dash + second + dash + third, dash);
    lemma_without_hyphens_concat(first + dash + second + dash + third + dash, fourth);
    lemma_without_hyphens_concat(first + dash + second + dash + third + dash + fourth, dash);
    lemma_without_hyphens_concat(first + dash + second + dash + third + dash + fourth + dash, fifth);
    let joined = first + second + third + fourth + fifth;
    assert(without_hyphens(s) =~= joined);
    assert forall|i: int| 0 <= i < 32 implies is_lower_hex(#[trigger] joined[i]) by {
        if i < 8 {
            assert(joined[i] == s[i]);
        } else if i < 12 {
            assert(joined[i] == s[i + 1]);
        } else if i < 16 {
            assert(joined[i] == s[i + 2]);
        } else if i < 20 {
            assert(joined[i] == s[i + 3]);
        } else {
            assert(joined[i] == s[i + 4]);
        }
    }
}

/// Takes every `-` out of `text`.
pub fn remove_hyphens(text: &str) -> (stripped: String)
    ensures
        stripped@ == without_hyphens(text@),
{
    let n = text.unicode_len();
    let mut stripped = String::new();
    let mut i: usize = 0;
    while i < n
        invariant
            i <= n,
            n == text@.len(),
            stripped@ == without_hyphens(text@.subrange(0, i as int)),
        decreases n - i,
    {
        proof {
            assert(text@.subrange(0, i + 1).drop_last() =~= text@.subrange(0, i as int));
            assert(text@.subrange(0, i + 1).last() == text@[i as int]);
        }
        if text.get_char(i) != '-' {
            stripped.append(text.substring_char(i, i + 1));
            assert(text@.subrange(i as int, i + 1) =~= seq![text@[i as int]]);
            assert(stripped@ =~= without_hyphens(text@.subrange(0, i + 1)));
        }
        i = i + 1;
    }
    assert(text@.subrange(0, n as int) =~= text@);
    stripped
}

/// A freshly drawn random (version 4) UUID in its default text form.
///
/// Trusted: calls `uuid::Uuid::new_v4` and formats the value with its
/// `Display` impl, which writes the hyphenated lower-case form. The contract
/// claims only that shape; which digits come out is left open, since they
/// are random.
#[verifier::external_body]
fn random_uuid_text() -> (text: String)
    ensures
        is_hyphenated_uuid(text@),
{
    format!("{}", uuid::Uuid::new_v4())
}

/// Draws the random stem shared by all components of one bundle: a random
/// UUID with its separators stripped.
pub fn generate_unique_base() -> (base: String)
    ensures
        is_unique_base(base@),
{
    let text = random_uuid_text();
    proof {
        lemma_uuid_without_hyphens(text@);
    }
    remove_hyphens(text.as_str())
}

/// Where a bundle component with extension `ext` is staged under the stem
/// `base`: `/tmp/<base>.<ext>`.
pub open spec fn staged_path(base: Seq<char>, ext: Seq<char>) -> Seq<char> {
    "/tmp/"@ + base + seq!['.'] + ext
}

/// `path` with its last extension segment replaced by `ext`.
pub open spec fn with_extension(path: Seq<char>, ext: Seq<char>) -> Seq<char> {
    base_name(path) + seq!['.'] + ext
}

/// The five files removed after a bundle was converted, in the order of
/// their removal: the staged geometry file itself, then its siblings with
/// the extensions `dbf`, `prj`, `shx` and `cpg`.
pub open spec fn sibling_paths(shape_path: Seq<char>) -> Seq<Seq<char>> {
    seq![
        shape_path,
        with_extension(shape_path, "dbf"@),
        with_extension(shape_path, "prj"@),
        with_extension(shape_path, "shx"@),
        with_extension(shape_path, "cpg"@),
    ]
}

/// Builds the staging path of a component from the shared stem and the
/// component's own extension.
pub fn stage_destination(base: &str, ext: &str) -> (path: String)
    ensures
        path@ == staged_path(base@, ext@),
{
    let mut path = String::from_str("/tmp/");
    path.append(base);
    path.append(".");
    path.append(ext);
    proof {
        reveal_strlit(".");
        assert("."@ =~= seq!['.']);
    }
    path
}

/// Replaces the last extension segment of `path` by `ext`.
pub fn replace_extension(path: &str, ext: &str) -> (sibling: String)
    ensures
        sibling@ == with_extension(path@, ext@),
{
    let (stem, _) = split_file_name(path);
    let mut sibling = stem;
    sibling.append(".");
    sibling.append(ext);
    proof {
        reveal_strlit(".");
        assert("."@ =~= seq!['.']);
    }
    sibling
}

/// The `k`-th file to remove once a bundle staged at `shape_path` was
/// converted.
pub fn sibling_path(shape_path: &str, k: usize) -> (path: String)
    requires
        k < 5,
    ensures
        path@ == sibling_paths(shape_path@)[k as int],
{
    if k == 0 {
        String::from_str(shape_path)
    } else if k == 1 {
        replace_extension(shape_path, "dbf")
    } else if k == 2 {
        replace_extension(shape_path, "prj")
    } else if k == 3 {
        replace_extension(shape_path, "shx")
    } else {
        replace_extension(shape_path, "cpg")
    }
}

/// Lists the files to remove once a bundle staged at `shape_path` was
/// converted, in the order in which they are removed.
pub fn cleanup_paths(shape_path: &str) -> (paths: Vec<String>)
    ensures
        paths.deep_view() == sibling_paths(shape_path@),
{
    let mut paths: Vec<String> = Vec::new();
    let mut k: usize = 0;
    while k < 5
        invariant
            k <= 5,
            paths@.len() == k,
            forall|j: int| 0 <= j < k ==> paths@[j]@ == sibling_paths(shape_path@)[j],
        decreases 5 - k,
    {
        paths.push(sibling_path(shape_path, k));
        k = k + 1;
    }
    assert(paths.deep_view() =~= sibling_paths(shape_path@));
    paths
}

/// The last `.` of a staged path is the one in front of the extension,
/// provided that the extension itself holds none.
pub proof fn lemma_staged_path_splits(base: Seq<char>, ext: Seq<char>)
    requires
        forall|i: int| 0 <= i < ext.len() ==> ext[i] != '.',
    ensures
        base_name(staged_path(base, ext)) == "/tmp/"@ + base,
        extension(staged_path(base, ext)) == ext,
{
    let path = staged_path(base, ext);
    let dot = ("/tmp/"@ + base).len() as int;
    lemma_dot_index_is_last(path);
    assert(path[dot] == '.');
    assert forall|j: int| dot < j < path.len() implies path[j] != '.' by {
        assert(path[j] == ext[j - dot - 1]);
    }
    assert(dot_index(path) == dot);
    assert(base_name(path) =~= "/tmp/"@ + base);
    assert(extension(path) =~= ext);
}

/// The files removed after a conversion are the staged geometry file and
/// the places where sibling components with the extensions `dbf`, `prj`,
/// `shx` and `cpg` were staged under the same stem.
pub proof fn lemma_cleanup_covers_staged_siblings(base: Seq<char>)
    ensures
        sibling_paths(staged_path(base, "shp"@)) == seq![
            staged_path(base, "shp"@),
            staged_path(base, "dbf"@),
            staged_path(base, "prj"@),
            staged_path(base, "shx"@),
            staged_path(base, "cpg"@),
        ],
{
    reveal_strlit("shp");
    lemma_staged_path_splits(base, "shp"@);
    assert(sibling_paths(staged_path(base, "shp"@)) =~= seq![
        staged_path(base, "shp"@),
        staged_path(base, "dbf"@),
        staged_path(base, "prj"@),
        staged_path(base, "shx"@),
        staged_path(base, "cpg"@),
    ]);
}

/// Two stems of the shape that `generate_unique_base` draws never share a
/// staging path unless they are the same stem, whatever the extensions.
pub proof fn lemma_staged_paths_differ(a: Seq<char>, b: Seq<char>, ext_a: Seq<char>, ext_b: Seq<char>)
    requires
        is_unique_base(a),
        is_unique_base(b),
        a != b,
    ensures
        staged_path(a, ext_a) != staged_path(b, ext_b),
{
    let prefix = "/tmp/"@;
    let pa = staged_path(a, ext_a);
    let pb = staged_path(b, ext_b);
    if pa == pb {
        assert forall|i: int| 0 <= i < 32 implies a[i] == b[i] by {
            assert(pa[prefix.len() + i] == a[i]);
            assert(pb[prefix.len() + i] == b[i]);
        }
        assert(a =~= b);
    }
}

/// A staged file that could not be removed.
#[derive(Debug)]
pub struct CleanupError {
    /// The file at which the removal stopped.
    pub path: String,
}

/// What to do next while the staged files of a bundle are removed.
#[derive(Debug)]
pub enum CleanupStep {
    /// Remove this file and report whether that succeeded.
    Remove(String),
    /// All five files were removed.
    Finished,
    /// A removal failed; the files after it are left in place.
    Failed(CleanupError),
}

/// `k` is the first removal that failed.
pub open spec fn is_first_failure(removed: Seq<bool>, k: int) -> bool {
    &&& 0 <= k < removed.len()
    &&& !removed[k]
    &&& forall|j: int| 0 <= j < k ==> removed[j]
}

/// Decides the next step of the removal from the outcomes reported so far:
/// `removed[i]` tells whether the `i`-th file of `sibling_paths` was removed.
///
/// The files are removed one after the other, and the first failure ends
/// the removal: no later file is asked for.
pub fn next_removal(shape_path: &str, removed: &Vec<bool>) -> (step: CleanupStep)
    ensures
        match step {
            CleanupStep::Remove(path) => {
                &&& removed@.len() < 5
                &&& forall|j: int| 0 <= j < removed@.len() ==> removed@[j]
                &&& path@ == sibling_paths(shape_path@)[removed@.len() as int]
            },
            CleanupStep::Finished => {
                &&& removed@.len() >= 5
                &&& forall|j: int| 0 <= j < 5 ==> removed@[j]
            },
            CleanupStep::Failed(error) => {
                exists|k: int|
                    0 <= k < 5 && #[trigger] is_first_failure(removed@, k) && error.path@
                        == sibling_paths(shape_path@)[k]
            },
        },
{
    let mut k: usize = 0;
    while k < 5 && k < removed.len()
        invariant
            k <= 5,
            k <= removed@.len(),
            forall|j: int| 0 <= j < k ==> removed@[j],
        decreases 5 - k,
    {
        if !removed[k] {
            assert(is_first_failure(removed@, k as int));
            return CleanupStep::Failed(CleanupError { path: sibling_path(shape_path, k) });
        }
        k = k + 1;
    }
    if k < 5 {
        CleanupStep::Remove(sibling_path(shape_path, k))
    } else {
        CleanupStep::Finished
    }
}

} // verus!

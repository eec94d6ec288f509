//! Splitting a file name into its base name and its extension.

use vstd::prelude::*;
use vstd::string::*;

verus! {

/// Position of the last `.` in `s`, or `-1` where `s` holds none.
pub open spec fn dot_index(s: Seq<char>) -> int
    decreases s.len(),
{
    if s.len() == 0 {
        -1
    } else if s.last() == '.' {
        s.len() - 1
    } else {
        dot_index(s.drop_last())
    }
}

/// The file name without its last extension segment: everything before the
/// last `.`, or the whole name where it holds no `.`.
pub open spec fn base_name(s: Seq<char>) -> Seq<char> {
    if dot_index(s) < 0 {
        s
    } else {
        s.subrange(0, dot_index(s))
    }
}

/// The last extension segment: everything after the last `.`, or the empty
/// text where the name holds no `.`.
pub open spec fn extension(s: Seq<char>) -> Seq<char> {
    if dot_index(s) < 0 {
        Seq::empty()
    } else {
        s.subrange(dot_index(s) + 1, s.len() as int)
    }
}

/// `dot_index` is `-1` or a position of `s` that holds a `.` with no `.` after it.
pub proof fn lemma_dot_index_is_last(s: Seq<char>)
    ensures
        -1 <= dot_index(s) < s.len(),
        dot_index(s) >= 0 ==> s[dot_index(s)] == '.',
        forall|j: int| dot_index(s) < j < s.len() ==> s[j] != '.',
    decreases s.len(),
{
    if s.len() > 0 && s.last() != '.' {
        let front = s.drop_last();
        lemma_dot_index_is_last(front);
        assert forall|j: int| dot_index(s) < j < s.len() implies s[j] != '.' by {
            if j < front.len() {
                assert(front[j] == s[j]);
            }
        }
    }
}

/// A tail without `.` does not move the last `.`.
proof fn lemma_dot_index_skips_tail(s: Seq<char>, i: int)
    requires
        0 <= i <= s.len(),
        forall|j: int| i <= j < s.len() ==> s[j] != '.',
    ensures
        dot_index(s) == dot_index(s.subrange(0, i)),
    decreases s.len() - i,
{
    if i < s.len() {
        assert(s.drop_last().subrange(0, i) =~= s.subrange(0, i));
        lemma_dot_index_skips_tail(s.drop_last(), i);
    } else {
        assert(s.subrange(0, i) =~= s);
    }
}

/// A name with a `.` is its base name, a `.`, and its extension; the
/// extension holds no `.`.
pub proof fn lemma_split_rejoins(s: Seq<char>)
    ensures
        dot_index(s) >= 0 ==> s == base_name(s) + seq!['.'] + extension(s),
        dot_index(s) < 0 ==> s == base_name(s) && extension(s).len() == 0,
        forall|j: int| 0 <= j < extension(s).len() ==> extension(s)[j] != '.',
{
    lemma_dot_index_is_last(s);
    if dot_index(s) >= 0 {
        assert(s =~= base_name(s) + seq!['.'] + extension(s));
    }
}

/// Whether two texts hold the same characters.
pub fn same_text(a: &str, b: &str) -> (same: bool)
    ensures
        same == (a@ == b@),
{
    let n = a.unicode_len();
    if n != b.unicode_len() {
        return false;
    }
    let mut i: usize = 0;
    while i < n
        invariant
            i <= n,
            n == a@.len(),
            n == b@.len(),
            forall|j: int| 0 <= j < i ==> a@[j] == b@[j],
        decreases n - i,
    {
        if a.get_char(i) != b.get_char(i) {
            return false;
        }
        i = i + 1;
    }
    assert(a@ =~= b@);
    true
}

/// Splits a file name at its last `.` into base name and extension.
pub fn split_file_name(name: &str) -> (parts: (String, String))
    ensures
        parts.0@ == base_name(name@),
        parts.1@ == extension(name@),
{
    let n = name.unicode_len();
    let mut i: usize = n;
    while i > 0
        invariant
            i <= n,
            n == name@.len(),
            forall|j: int| i <= j < n ==> name@[j] != '.',
        decreases i,
    {
        if name.get_char(i - 1) == '.' {
            proof {
                lemma_dot_index_skips_tail(name@, i as int);
                assert(name@.subrange(0, i as int).last() == '.');
            }
            let base = String::from_str(name.substring_char(0, i - 1));
            let ext = String::from_str(name.substring_char(i, n));
            return (base, ext);
        }
        i = i - 1;
    }
    proof {
        lemma_dot_index_skips_tail(name@, 0);
        assert(name@.subrange(0, 0).len() == 0);
    }
    (String::from_str(name), String::new())
}

} // verus!

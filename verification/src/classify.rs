//! File eligibility and traversal pruning, as pure predicates on names. A path
//! is an eligible source file when the text after the final dot of its file
//! name is exactly one of the four source extensions; a directory entry is
//! pruned from traversal when its name starts with a dot, when it is a
//! directory named `node_modules`, or when it is a file that is not eligible.
//! Whether a path names a regular file or a directory on disk is the caller's
//! to find out; these functions only judge the name.

use vstd::prelude::*;
use vstd::string::StrSliceExecFns;
use crate::text::str_eq;

verus! {

/// Whether `name` ends in `.` followed by exactly `ext`, with a non-empty
/// stem before the dot (so a leading-dot file name has no extension).
pub open spec fn has_ext(name: Seq<char>, ext: Seq<char>) -> bool {
    &&& name.len() >= ext.len() + 2
    &&& name[name.len() - ext.len() - 1] == '.'
    &&& name[name.len() - ext.len() - 2] != '/'
    &&& name.subrange(name.len() - ext.len(), name.len() as int) == ext
}

/// Whether a path names an eligible source file: its extension is exactly one
/// of `js`, `jsx`, `ts`, `tsx`, case-sensitively.
pub open spec fn eligible_name(name: Seq<char>) -> bool {
    ||| has_ext(name, "js"@)
    ||| has_ext(name, "jsx"@)
    ||| has_ext(name, "ts"@)
    ||| has_ext(name, "tsx"@)
}

/// Whether a name starts with a dot.
pub open spec fn is_dot_name(name: Seq<char>) -> bool {
    name.len() > 0 && name[0] == '.'
}

/// Whether a directory entry is pruned from traversal: a dot-named entry, a
/// directory named exactly `node_modules`, or a file that is not an eligible
/// source file.
pub open spec fn ignored_entry(name: Seq<char>, is_dir: bool, is_file: bool) -> bool {
    ||| is_dot_name(name)
    ||| (is_dir && name == "node_modules"@)
    ||| (is_file && !eligible_name(name))
}

fn name_has_ext(name: &str, ext: &str) -> (r: bool)
    ensures
        r == has_ext(name@, ext@),
{
    let n = name.unicode_len();
    let m = ext.unicode_len();
    if n < m || n - m < 2 {
        return false;
    }
    if name.get_char(n - m - 1) != '.' {
        return false;
    }
    if name.get_char(n - m - 2) == '/' {
        return false;
    }
    let mut i: usize = 0;
    while i < m
        invariant
            n == name@.len(),
            m == ext@.len(),
            m + 2 <= n,
            i <= m,
            forall|j: int| 0 <= j < i ==> name@[n - m + j] == ext@[j],
        decreases m - i,
    {
        if name.get_char(n - m + i) != ext.get_char(i) {
            return false;
        }
        i = i + 1;
    }
    proof {
        assert(name@.subrange(n - m, n as int) =~= ext@);
    }
    true
}

/// Whether the path names an eligible source file, judged by its extension
/// alone. Callers that also need the path to be a regular file on disk check
/// that themselves.
pub fn should_process_file(path: &str) -> (r: bool)
    ensures
        r == eligible_name(path@),
{
    name_has_ext(path, "js") || name_has_ext(path, "jsx") || name_has_ext(path, "ts")
        || name_has_ext(path, "tsx")
}

/// Whether a directory entry with the given file name is pruned from
/// traversal, given whether it is a directory and whether it is a file.
pub fn is_ignored_entry(file_name: &str, is_dir: bool, is_file: bool) -> (r: bool)
    ensures
        r == ignored_entry(file_name@, is_dir, is_file),
{
    let is_dot = file_name.unicode_len() > 0 && file_name.get_char(0) == '.';
    let is_ignored_dir = is_dir && str_eq(file_name, "node_modules");
    let is_ignored_file = is_file && !should_process_file(file_name);
    is_dot || is_ignored_dir || is_ignored_file
}

} // verus!

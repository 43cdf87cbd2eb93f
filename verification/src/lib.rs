//! Orchestration core of a launcher for directory-backed game instances.
//!
//! The crate holds the decisions of the launcher's backend: the instance
//! registry with its generation-stamped identifiers, the bookkeeping of
//! watched paths, the lazy-load state machine, the planning of metadata
//! fetches, the expansion of launch arguments and the reconstruction of
//! structured log records from an XML event stream. Everything that touches
//! the outside world is expressed as an [`backend::Action`] for the caller
//! to carry out.

use vstd::prelude::*;

pub mod text;
pub mod loader;
pub mod game_output;
pub mod metadata;
pub mod message;
pub mod instance;
pub mod slab_store;
pub mod path_table;
pub mod backend;
pub mod backend_handler;
pub mod coherence;
pub mod log_reader;
pub mod launch;

verus! {

/// Whether `c` separates the components of a path on some platform.
pub open spec fn is_path_separator(c: char) -> bool {
    c == '/' || c == '\\'
}

/// Whether `name` is a single path component that names a file or a
/// directory: it is not empty, it is neither `.` nor `..`, and it holds no
/// path separator.
pub open spec fn single_component(name: Seq<char>) -> bool {
    &&& name.len() > 0
    &&& !(name.len() == 1 && name[0] == '.')
    &&& !(name.len() == 2 && name[0] == '.' && name[1] == '.')
    &&& forall|i: int| 0 <= i < name.len() ==> !is_path_separator(#[trigger] name[i])
}

/// Whether `name` is a single path component that names a file or a
/// directory.
pub fn is_single_component_path(name: &str) -> (res: bool)
    ensures
        res == single_component(name@),
{
    let chars = text::to_chars(name);
    let n = chars.len();
    if n == 0 {
        return false;
    }
    if n == 1 && chars[0] == '.' {
        return false;
    }
    if n == 2 && chars[0] == '.' && chars[1] == '.' {
        return false;
    }
    let mut i: usize = 0;
    while i < n
        invariant
            i <= n == chars.len(),
            chars@ == name@,
            forall|j: int| 0 <= j < i ==> !is_path_separator(#[trigger] chars@[j]),
        decreases n - i,
    {
        if chars[i] == '/' || chars[i] == '\\' {
            assert(is_path_separator(chars@[i as int]));
            return false;
        }
        i += 1;
    }
    true
}

} // verus!

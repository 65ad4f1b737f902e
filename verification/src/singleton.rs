//! Where the lock that keeps the overlay to a single running instance lives.

use crate::util::{join_path, path_join};
use vstd::prelude::*;

verus! {

/// The directory for the lock file: `$XDG_RUNTIME_DIR`, else `$TMPDIR`, else `/tmp`.
pub open spec fn lock_dir(xdg_runtime_dir: Option<Seq<char>>, tmpdir: Option<Seq<char>>) -> Seq<char> {
    match xdg_runtime_dir {
        Some(d) => d,
        None => match tmpdir {
            Some(d) => d,
            None => "/tmp"@,
        },
    }
}

/// The path of the lock file, given the values of `XDG_RUNTIME_DIR` and
/// `TMPDIR` (each `None` when unset).
pub fn get_lock_path(xdg_runtime_dir: Option<&str>, tmpdir: Option<&str>) -> (p: String)
    ensures
        p@ == path_join(
            lock_dir(
                match xdg_runtime_dir {
                    Some(d) => Some(d@),
                    None => None,
                },
                match tmpdir {
                    Some(d) => Some(d@),
                    None => None,
                },
            ),
            "wl-shortcuts-overlay.lock"@,
        ),
{
    let dir = match xdg_runtime_dir {
        Some(d) => d,
        None => match tmpdir {
            Some(d) => d,
            None => "/tmp",
        },
    };
    join_path(dir, "wl-shortcuts-overlay.lock")
}

} // verus!

//! The run-mode decision: which mode a run proceeds in, or why it is
//! rejected before any discovery or compilation starts.
//!
//! The caller probes the file system and hands in plain facts about the two
//! root paths; the decision itself is pure and fully specified.

use vstd::prelude::*;

use crate::error::Error;

verus! {

/// How a run proceeds once its roots pass the precondition checks.
pub enum RunMode {
    /// The input root is a single source file; the output path names the
    /// one output file, to be created first when it does not exist yet.
    SingleFile { create_output: bool },
    /// The input root is a directory tree; the output root is an existing
    /// directory that the tree is mirrored under.
    Tree,
}

/// The message rejecting a root path that does not exist.
pub open spec fn missing_path_message(path: Seq<char>) -> Seq<char> {
    "Error: File or directory <"@ + path + "> does not exist"@
}

/// The message rejecting a directory input whose output root is no
/// directory.
pub open spec fn dir_mismatch_message() -> Seq<char> {
    "If the input path is a directory, the output path must also be a directory"@
}

/// The message rejecting a root combination the driver does not handle.
pub open spec fn unsupported_message() -> Seq<char> {
    "Unsupported input / output type combination"@
}

/// The error naming a root path that does not exist.
fn missing_path_error(path: &str) -> (r: Error)
    ensures
        r@ == missing_path_message(path@),
{
    let msg = String::from_str("Error: File or directory <");
    let msg = msg.concat(path);
    let msg = msg.concat("> does not exist");
    Error::new(msg)
}

/// The error rejecting a root combination the driver does not handle.
fn unsupported_error() -> (r: Error)
    ensures
        r@ == unsupported_message(),
{
    Error::new(String::from_str("Unsupported input / output type combination"))
}

/// Decides the run mode from plain facts about the two root paths, checked
/// before any discovery: a missing input root, or a directory input whose
/// output root is missing or no directory, rejects the run immediately.
pub fn plan_run(
    in_path: &str,
    out_path: &str,
    in_exists: bool,
    in_is_file: bool,
    in_is_dir: bool,
    out_exists: bool,
    out_is_file: bool,
    out_is_dir: bool,
) -> (r: Result<RunMode, Error>)
    requires
        in_is_file ==> in_exists,
        in_is_dir ==> in_exists,
        !(in_is_file && in_is_dir),
        out_is_file ==> out_exists,
        out_is_dir ==> out_exists,
        !(out_is_file && out_is_dir),
    ensures
        !in_exists ==> (r matches Err(e) && e@ == missing_path_message(in_path@)),
        in_exists && !in_is_file && !out_exists ==> (r matches Err(e) && e@
            == missing_path_message(out_path@)),
        in_is_file && !out_exists ==> (r matches Ok(m) && m == (RunMode::SingleFile {
            create_output: true,
        })),
        in_is_file && out_is_file ==> (r matches Ok(m) && m == (RunMode::SingleFile {
            create_output: false,
        })),
        in_is_file && out_exists && !out_is_file ==> (r matches Err(e) && e@
            == unsupported_message()),
        in_is_dir && out_exists && !out_is_dir ==> (r matches Err(e) && e@
            == dir_mismatch_message()),
        in_is_dir && out_is_dir ==> (r matches Ok(m) && m == RunMode::Tree),
        in_exists && !in_is_file && !in_is_dir && out_exists ==> (r matches Err(e) && e@
            == unsupported_message()),
{
    if !in_exists {
        Err(missing_path_error(in_path))
    } else if !in_is_file && !out_exists {
        Err(missing_path_error(out_path))
    } else if in_is_file {
        if !out_exists {
            Ok(RunMode::SingleFile { create_output: true })
        } else if out_is_file {
            Ok(RunMode::SingleFile { create_output: false })
        } else {
            Err(unsupported_error())
        }
    } else if in_is_dir {
        if !out_is_dir {
            Err(
                Error::new(
                    String::from_str(
                        "If the input path is a directory, the output path must also be a directory",
                    ),
                ),
            )
        } else {
            Ok(RunMode::Tree)
        }
    } else {
        Err(unsupported_error())
    }
}

} // verus!

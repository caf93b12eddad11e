use vstd::prelude::*;

verus! {

/// The failure taxonomy of the tool.  Values carry the structured facts of a
/// failure (operation, path, exit status); rendering a human-readable message
/// is left to the outermost command-line boundary.
#[derive(Debug)]
pub enum SwitchError {
    /// An explicitly supplied source directory is malformed: `missing` names
    /// the subdirectory that was not found under `path`.
    SourceInvalid { path: String, missing: String },
    /// No usable source was left after the whole fallback chain.
    SourceUnavailable,
    /// The requested theme is absent from the catalog; carries the script
    /// path (or script file name, for an in-memory bundle) that was tried.
    ThemeNotFound { script_path: String },
    /// The freshly materialized theme script exited non-zero (`Some(code)`)
    /// or could not be started at all (`None`).
    ScriptExecutionFailed { path: String, code: Option<i32> },
    /// A hook script exited non-zero or could not be started; `path` names
    /// the failing hook.
    HookFailed { path: String, code: Option<i32> },
    /// A file system read or write failed; carries the operation attempted
    /// and the path it was attempted on.
    IoFailure { op: String, path: String },
}

/// The mathematical shape of a `SwitchError`, with every path as a sequence
/// of characters.
pub enum ErrorModel {
    SourceInvalid { path: Seq<char>, missing: Seq<char> },
    SourceUnavailable,
    ThemeNotFound { script_path: Seq<char> },
    ScriptExecutionFailed { path: Seq<char>, code: Option<i32> },
    HookFailed { path: Seq<char>, code: Option<i32> },
    IoFailure { op: Seq<char>, path: Seq<char> },
}

impl View for SwitchError {
    type V = ErrorModel;

    open spec fn view(&self) -> ErrorModel {
        match self {
            SwitchError::SourceInvalid { path, missing } => ErrorModel::SourceInvalid {
                path: path@,
                missing: missing@,
            },
            SwitchError::SourceUnavailable => ErrorModel::SourceUnavailable,
            SwitchError::ThemeNotFound { script_path } => ErrorModel::ThemeNotFound {
                script_path: script_path@,
            },
            SwitchError::ScriptExecutionFailed { path, code } => ErrorModel::ScriptExecutionFailed {
                path: path@,
                code: *code,
            },
            SwitchError::HookFailed { path, code } => ErrorModel::HookFailed {
                path: path@,
                code: *code,
            },
            SwitchError::IoFailure { op, path } => ErrorModel::IoFailure {
                op: op@,
                path: path@,
            },
        }
    }
}

/// Maps a script's exit status to the switch outcome it dictates: exit
/// status zero is success; any other status, or a script that could not be
/// started (`None`), is a `ScriptExecutionFailed` carrying the status and
/// the script's path.
pub fn script_exit_result(path: &str, code: Option<i32>) -> (r: Result<(), SwitchError>)
    ensures
        r is Ok <==> code == Some(0i32),
        r matches Err(e) ==> e@ == (ErrorModel::ScriptExecutionFailed { path: path@, code }),
{
    match code {
        Some(c) => {
            if c == 0 {
                Ok(())
            } else {
                Err(SwitchError::ScriptExecutionFailed { path: path.to_owned(), code: Some(c) })
            }
        },
        None => Err(SwitchError::ScriptExecutionFailed { path: path.to_owned(), code: None }),
    }
}

} // verus!

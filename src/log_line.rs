use vstd::prelude::*;

verus! {

/// What the diagnostic logger does with one record.
#[derive(Clone, Copy, Debug, PartialEq, Eq, Structural)]
pub enum LogAction {
    /// The filter rejects the record: nothing is written.
    Skip,
    /// Write the line to the log file, and flush it at once where `flush`.
    WriteFile { flush: bool },
    /// Write the line to standard error.
    WriteStderr,
}

/// `[{level} {module path}] {message}`.
pub open spec fn spec_log_line(level: Seq<char>, module: Seq<char>, message: Seq<char>) -> Seq<
    char,
> {
    "["@ + level + " "@ + module + "] "@ + message
}

/// The line written for one record; a record without a module path shows an
/// empty one.
pub fn format_log_line(level: &str, module: Option<&str>, message: &str) -> (r: String)
    ensures
        r@ == spec_log_line(
            level@,
            match module {
                Some(m) => m@,
                None => ""@,
            },
            message@,
        ),
{
    let mut r = String::from_str("[");
    r.append(level);
    r.append(" ");
    match module {
        Some(m) => r.append(m),
        None => r.append(""),
    }
    r.append("] ");
    r.append(message);
    r
}

/// Decides what happens to a record: dropped where the filter does not match
/// it, else written to the file where there is one (flushed at once in
/// unbuffered mode), else to standard error.
pub fn log_action(filter_matches: bool, has_file: bool, no_buffering: bool) -> (r: LogAction)
    ensures
        !filter_matches ==> r == LogAction::Skip,
        filter_matches && has_file ==> r == (LogAction::WriteFile { flush: no_buffering }),
        filter_matches && !has_file ==> r == LogAction::WriteStderr,
{
    if !filter_matches {
        LogAction::Skip
    } else if has_file {
        LogAction::WriteFile { flush: no_buffering }
    } else {
        LogAction::WriteStderr
    }
}

} // verus!

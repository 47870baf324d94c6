//! How a service writes its logs: JSON lines for journald unless readable
//! output is asked for; an unknown request falls back to JSON, with a
//! warning.
use crate::text::str_equal;
use vstd::prelude::*;

verus! {

/// The log format a service process uses.
#[derive(Clone, Copy, Debug, PartialEq, Eq, Structural)]
pub enum LogFormat {
    /// Compact, coloured lines for local development.
    Pretty,
    /// JSON lines.
    Json,
    /// JSON lines, the requested format being unknown: a warning says so.
    UnknownFallsBackToJson,
}

/// The format for `requested`, the value of the format setting when it is
/// set: `pretty` or `json` as named, JSON when unset, and JSON with a
/// warning for anything else.
pub fn log_format(requested: Option<&str>) -> (r: LogFormat)
    ensures
        r == match requested {
            None => LogFormat::Json,
            Some(v) => if v@ == "pretty"@ {
                LogFormat::Pretty
            } else if v@ == "json"@ {
                LogFormat::Json
            } else {
                LogFormat::UnknownFallsBackToJson
            },
        },
{
    match requested {
        None => LogFormat::Json,
        Some(v) => if str_equal(v, "pretty") {
            LogFormat::Pretty
        } else if str_equal(v, "json") {
            LogFormat::Json
        } else {
            LogFormat::UnknownFallsBackToJson
        },
    }
}

} // verus!

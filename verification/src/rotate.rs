use vstd::prelude::*;
use vstd::string::StringExecFns;

use crate::timeutil::{compact_utc_of, format_compact_utc};

verus! {

/// Whether the active log file is due for rotation: its age has reached
/// the rotation period. A modification instant in the future counts as
/// age zero, so clock skew never rotates early.
pub open spec fn rotation_due_spec(now_ms: i64, modified_ms: i64, rotation_ms: i64) -> bool {
    (if now_ms >= modified_ms {
        now_ms - modified_ms
    } else {
        0
    }) >= rotation_ms
}

/// Decides whether a file last modified at `modified_ms` is due for
/// rotation at `now_ms`, for a rotation period of `rotation_ms`.
pub fn rotation_due(now_ms: i64, modified_ms: i64, rotation_ms: i64) -> (r: bool)
    ensures
        r == rotation_due_spec(now_ms, modified_ms, rotation_ms),
{
    let diff: i128 = now_ms as i128 - modified_ms as i128;
    let age: i128 = if diff < 0 {
        0
    } else {
        diff
    };
    age >= rotation_ms as i128
}

/// The name the active log file is renamed to when it rotates: the
/// path with the compact UTC timestamp of the rotation appended.
pub fn rotated_file_name(path: &str, now_ms: i64) -> (r: String)
    ensures
        r@ == path@ + "."@ + compact_utc_of(now_ms),
{
    let mut s = path.to_owned();
    s.append(".");
    s.append(format_compact_utc(now_ms).as_str());
    s
}

} // verus!

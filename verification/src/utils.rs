//! Environment-derived decisions: where the monitor token comes from, and
//! whether the wrapper was started by cron. The process and environment
//! lookups themselves happen outside the library and hand in plain values.

use vstd::prelude::*;

verus! {

/// Resolve the monitor token: an explicit argument wins; otherwise a
/// non-empty environment value is used; otherwise there is none.
pub fn resolve_monitor_token(arg: Option<String>, env_value: Option<String>) -> (r: Option<
    String,
>)
    ensures
        r == (match arg {
            Some(a) => Some(a),
            None => match env_value {
                Some(v) => if v@.len() > 0 {
                    Some(v)
                } else {
                    None
                },
                None => None,
            },
        }),
{
    match arg {
        Some(a) => Some(a),
        None => match env_value {
            Some(v) => {
                if v.as_str().is_empty() {
                    None
                } else {
                    Some(v)
                }
            },
            None => None,
        },
    }
}

/// Whether the wrapper runs from cron: the parent process id is valid and the
/// parent executable's name is exactly "cron".
pub fn run_from_cron_decision(parent_pid: i32, parent_exe: &Option<String>) -> (r: bool)
    ensures
        r == (parent_pid >= 0 && match parent_exe {
            Some(exe) => exe@ == "cron"@,
            None => false,
        }),
{
    if parent_pid < 0 {
        false
    } else {
        match parent_exe {
            Some(exe) => *exe == "cron".to_owned(),
            None => false,
        }
    }
}

} // verus!

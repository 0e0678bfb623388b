//! The tunnel agent's diagnostic call: its command line and how its
//! outcome reads.
use vstd::prelude::*;
use vstd::string::*;
use crate::text::{first_line, first_line_of, trim_text, trimmed};

verus! {

/// The tunnel agent's executable.
pub const AGENT_PROGRAM: &'static str = "cloudflared";

/// The version the agent reports on standard output `stdout`: its first
/// line, trimmed, or `"unknown"` when the output is empty.
pub open spec fn version_text(stdout: Seq<char>) -> Seq<char> {
    if stdout.len() == 0 {
        "unknown"@
    } else {
        trimmed(first_line(stdout))
    }
}

/// The error reported when the version call exits unsuccessfully.
pub open spec fn version_failure(status: Seq<char>) -> Seq<char> {
    "cloudflared --version failed: status "@ + status
}

/// The agent's arguments for the version call.
pub fn version_args() -> (r: Vec<String>)
    ensures
        r@.len() == 1,
        r@[0]@ == "--version"@,
{
    let mut r: Vec<String> = Vec::new();
    r.push(String::from_str("--version"));
    r
}

/// Reads the version from the agent's standard output.
pub fn version_from_output(stdout: &str) -> (r: String)
    ensures
        r@ == version_text(stdout@),
{
    if stdout.unicode_len() == 0 {
        String::from_str("unknown")
    } else {
        trim_text(first_line_of(stdout))
    }
}

/// The outcome of the version call: the version when the agent exited
/// successfully, else an error naming its exit status `status`.
pub fn version_outcome(exited_ok: bool, status: &str, stdout: &str) -> (r: Result<String, String>)
    ensures
        exited_ok ==> (r matches Ok(v) && v@ == version_text(stdout@)),
        !exited_ok ==> (r matches Err(e) && e@ == version_failure(status@)),
{
    if exited_ok {
        Ok(version_from_output(stdout))
    } else {
        let mut e = String::from_str("cloudflared --version failed: status ");
        e.append(status);
        Err(e)
    }
}

} // verus!

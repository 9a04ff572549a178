//! Process resolution against a process-table snapshot.
//!
//! Every enumeration call takes one snapshot up front and resolves every
//! pid against it; a process that exits mid-call still resolves from the
//! snapshot. Resolution misses are answered with `None`, never with an
//! error, and the caller applies the `App ID <pid>` fallback.

use vstd::prelude::*;
use crate::naming::display_name;
use crate::naming::spec_display_name;
use crate::naming::opt_chars;

verus! {

#[verifier::external_type_specification]
#[verifier::external_body]
pub struct ExSystem(sysinfo::System);

#[verifier::external_type_specification]
#[verifier::external_body]
pub struct ExProcess(sysinfo::Process);

/// Relies on sysinfo::System::process: a pure lookup of the pid in the
/// caller-supplied snapshot; nothing is refreshed, and what it returns
/// depends on the machine's process table when the snapshot was taken.
#[verifier::external_body]
fn find_process<'a>(sys: &'a sysinfo::System, pid: u32) -> Option<&'a sysinfo::Process> {
    sys.process(sysinfo::Pid::from_u32(pid))
}

/// Relies on sysinfo::Process::name: the raw image name recorded in the
/// snapshot, handed on only where it is valid UTF-8.
#[verifier::external_body]
fn process_raw_name(p: &sysinfo::Process) -> Option<String> {
    p.name().to_str().map(|s| s.to_owned())
}

/// Relies on sysinfo::Process::exe: the executable path recorded in the
/// snapshot, where one is known and valid UTF-8.
#[verifier::external_body]
fn process_exe(p: &sysinfo::Process) -> Option<String> {
    p.exe().and_then(|e| e.to_str()).map(|s| s.to_owned())
}

/// The raw image name of `pid` in the snapshot, or `None` where the
/// process is unknown there. A miss is an answer, not an error.
pub fn resolve_name(sys: &sysinfo::System, pid: u32) -> Option<String> {
    match find_process(sys, pid) {
        Some(p) => process_raw_name(p),
        None => None,
    }
}

/// The executable path of `pid` in the snapshot, or `None` where the
/// process or its path is unknown there.
pub fn resolve_path(sys: &sysinfo::System, pid: u32) -> Option<String> {
    match find_process(sys, pid) {
        Some(p) => process_exe(p),
        None => None,
    }
}

/// The display name of the session owned by `pid`: whatever raw name the
/// snapshot answers, pushed through the one sanitization rule, with the
/// `App ID <pid>` fallback on a miss.
pub fn session_display_name(sys: &sysinfo::System, pid: u32) -> (out: String)
    ensures
        exists|raw: Option<Seq<char>>| out@ == spec_display_name(pid, raw),
{
    let raw = resolve_name(sys, pid);
    let out = display_name(pid, raw);
    proof {
        assert(out@ == spec_display_name(pid, opt_chars(raw)));
    }
    out
}

} // verus!

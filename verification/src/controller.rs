//! Process controller: turns a resolved id and a fresh snapshot into the one
//! action the binary is to take, and renders a record's attributes.
//!
//! Each operation re-resolves against the snapshot it is handed; a row built
//! earlier is never trusted to still name a live process.

use vstd::prelude::*;
use vstd::string::*;

use crate::resolve::spec_resolve;
use crate::snapshot::{has_pid, ProcessRecord, Snapshot};

verus! {

/// What the binary is to do for one confirmed selection.
#[derive(Debug, PartialEq, Eq, Structural)]
pub enum StopAction {
    /// Send the standard termination signal to this process.
    Terminate { pid: i32 },
    /// The id resolved, but no such process exists any more: report, no crash.
    NotFound { pid: i32 },
    /// The selection text held no usable id: report, no crash.
    Unresolvable,
}

/// The stop policy over a selection text and a fresh snapshot.
pub open spec fn spec_stop_action(text: Seq<char>, procs: Seq<ProcessRecord>) -> StopAction {
    match spec_resolve(text) {
        Option::None => StopAction::Unresolvable,
        Option::Some(pid) => if has_pid(procs, pid) {
            StopAction::Terminate { pid }
        } else {
            StopAction::NotFound { pid }
        },
    }
}

/// Decides what to do for one selection: resolve the text, then look the id
/// up in the snapshot taken at action time.
pub fn stop_decision(selection: &str, snap: &Snapshot) -> (a: StopAction)
    ensures
        a == spec_stop_action(selection@, snap.procs@),
{
    match crate::resolve::get_pid(selection) {
        None => StopAction::Unresolvable,
        Some(pid) => match snap.lookup(pid) {
            Some(_) => StopAction::Terminate { pid },
            None => StopAction::NotFound { pid },
        },
    }
}

/// The text chrono renders for a UTC date-time built from this many seconds
/// since the epoch.
pub uninterp spec fn utc_datetime_text(secs: int) -> Seq<char>;

/// The least timestamp whose date fits chrono's calendar: midnight on its
/// earliest day, January the first of year -262143.
pub const CHRONO_MIN_TS: i64 = -8_334_601_228_800;

/// The greatest timestamp whose date fits chrono's calendar: the last second
/// of its latest day, December the thirty-first of year 262142.
pub const CHRONO_MAX_TS: i64 = 8_210_266_876_799;

/// Relies on chrono's `DateTime::<Utc>::from_timestamp`, which returns `None`
/// exactly on an out-of-range number of seconds (one whose day falls outside
/// chrono's calendar), and on its `Display` rendering; both depend on the
/// seconds alone.
#[verifier::external_body]
fn utc_text_of_timestamp(secs: i64) -> (r: Option<String>)
    ensures
        r is Some <==> CHRONO_MIN_TS <= secs <= CHRONO_MAX_TS,
        r matches Some(s) ==> s@ == utc_datetime_text(secs as int),
{
    chrono::DateTime::<chrono::Utc>::from_timestamp(secs, 0).map(|d| d.to_string())
}

/// Renders a start time as a human-readable UTC date-time: some text for
/// every representable second, `None` exactly beyond `CHRONO_MAX_TS`.
pub fn format_start_time(secs: u64) -> (r: Option<String>)
    ensures
        r is Some <==> secs <= CHRONO_MAX_TS,
        r matches Some(s) ==> s@ == utc_datetime_text(secs as int),
{
    if secs > CHRONO_MAX_TS as u64 {
        None
    } else {
        utc_text_of_timestamp(secs as i64)
    }
}

/// A record's attributes, rendered for the operator.
pub struct ProcessDetails {
    pub name: String,
    pub pid: i32,
    pub exe: String,
    pub status: String,
    pub cmd: Vec<String>,
    /// UTC date-time text of the start, `None` exactly when the timestamp
    /// lies beyond chrono's calendar.
    pub started: Option<String>,
}

/// `d` carries exactly the attributes of `rec`.
pub open spec fn details_match(d: ProcessDetails, rec: ProcessRecord) -> bool {
    &&& d.pid == rec.pid
    &&& d.name@ == rec.name@
    &&& d.exe@ == rec.exe@
    &&& d.status@ == rec.status@
    &&& crate::resolve::views_of(d.cmd@) == crate::resolve::views_of(rec.cmd@)
    &&& (d.started is Some <==> rec.start_time <= CHRONO_MAX_TS)
    &&& (d.started matches Some(s) ==> s@ == utc_datetime_text(rec.start_time as int))
}

/// Renders the attributes of one record, start time included.
pub fn details_of(rec: &ProcessRecord) -> (d: ProcessDetails)
    ensures
        details_match(d, *rec),
{
    ProcessDetails {
        name: rec.name.clone(),
        pid: rec.pid,
        exe: rec.exe.clone(),
        status: rec.status.clone(),
        cmd: clone_texts(&rec.cmd),
        started: format_start_time(rec.start_time),
    }
}

/// A copy of a list of texts, text for text.
fn clone_texts(v: &Vec<String>) -> (r: Vec<String>)
    ensures
        crate::resolve::views_of(r@) == crate::resolve::views_of(v@),
{
    let mut r: Vec<String> = Vec::new();
    let n = v.len();
    let mut i: usize = 0;
    while i < n
        invariant
            i <= n,
            n == v@.len(),
            r@.len() == i,
            forall|k: int| 0 <= k < i ==> (#[trigger] r@[k])@ == v@[k]@,
        decreases n - i,
    {
        r.push(v[i].clone());
        i += 1;
    }
    proof {
        assert(crate::resolve::views_of(r@) =~= crate::resolve::views_of(v@));
    }
    r
}

/// Looks the id up in the snapshot and renders the first matching record.
/// `None` exactly when no record carries the id.
pub fn describe(snap: &Snapshot, pid: i32) -> (r: Option<ProcessDetails>)
    ensures
        match r {
            Some(d) => exists|i: int|
                0 <= i < snap.procs@.len() && (#[trigger] snap.procs@[i]).pid == pid
                    && (forall|j: int| 0 <= j < i ==> (#[trigger] snap.procs@[j]).pid != pid)
                    && details_match(d, snap.procs@[i]),
            None => !has_pid(snap.procs@, pid),
        },
{
    match snap.lookup(pid) {
        Some(i) => {
            let d = details_of(&snap.procs[i]);
            Some(d)
        },
        None => None,
    }
}

} // verus!

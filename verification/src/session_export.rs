//! The lines that report a session snapshot export: what is exported when
//! it starts, and which exports failed when it ends. The exports themselves
//! write files and are run by the caller.

use vstd::prelude::*;
use crate::text::{decimal, join, string_seqs, push_str, push_decimal, string_from_chars};
use crate::display::push_joined;

verus! {

/// `ap=<n> clients=<n> bt=<n>`.
pub open spec fn counts_text(aps: nat, clients: nat, devices: nat) -> Seq<char> {
    "ap="@ + decimal(aps) + " clients="@ + decimal(clients) + " bt="@ + decimal(devices)
}

/// The session log line and the status line when a snapshot export starts.
pub fn snapshot_start_lines(aps: usize, clients: usize, devices: usize) -> (r: (String, String))
    ensures
        r.0@ == "snapshot export start "@ + counts_text(aps as nat, clients as nat, devices as nat),
        r.1@ == "exporting session snapshots: "@ + counts_text(aps as nat, clients as nat, devices as nat),
{
    let mut counts: Vec<char> = Vec::new();
    push_str(&mut counts, "ap=");
    push_decimal(&mut counts, aps as u64);
    push_str(&mut counts, " clients=");
    push_decimal(&mut counts, clients as u64);
    push_str(&mut counts, " bt=");
    push_decimal(&mut counts, devices as u64);
    assert(counts@ =~= counts_text(aps as nat, clients as nat, devices as nat));
    let mut log: Vec<char> = Vec::new();
    push_str(&mut log, "snapshot export start ");
    push_str(&mut log, string_from_chars(counts.as_slice()).as_str());
    let mut status: Vec<char> = Vec::new();
    push_str(&mut status, "exporting session snapshots: ");
    push_str(&mut status, string_from_chars(counts.as_slice()).as_str());
    (string_from_chars(log.as_slice()), string_from_chars(status.as_slice()))
}

/// The error of each export of a snapshot, if it failed.
pub struct SnapshotErrors {
    pub ap_csv: Option<String>,
    pub client_csv: Option<String>,
    pub location_csv: Option<String>,
    pub location_kml: Option<String>,
    pub location_kmz: Option<String>,
    pub summary_json: Option<String>,
}

pub open spec fn failure(label: Seq<char>, e: Option<String>) -> Seq<Seq<char>> {
    match e {
        Some(m) => seq![label + ": "@ + m@],
        None => Seq::empty(),
    }
}

/// The failed exports, in order, each as `<export>: <error>`.
pub open spec fn failures(e: SnapshotErrors) -> Seq<Seq<char>> {
    failure("ap csv"@, e.ap_csv) + failure("client csv"@, e.client_csv) + failure(
        "location csv"@,
        e.location_csv,
    ) + failure("location kml"@, e.location_kml) + failure("location kmz"@, e.location_kmz)
        + failure("summary json"@, e.summary_json)
}

fn push_failure(parts: &mut Vec<String>, label: &str, e: &Option<String>)
    ensures
        string_seqs(final(parts)@) == string_seqs(old(parts)@) + failure(label@, *e),
{
    match e {
        Some(m) => {
            let mut line: Vec<char> = Vec::new();
            push_str(&mut line, label);
            push_str(&mut line, ": ");
            push_str(&mut line, m.as_str());
            let ghost prev = parts@;
            parts.push(string_from_chars(line.as_slice()));
            assert(string_seqs(parts@) =~= string_seqs(prev) + failure(label@, *e));
        },
        None => {
            assert(string_seqs(parts@) =~= string_seqs(parts@) + failure(label@, *e));
        },
    }
}

/// The session log line and the status line when a snapshot export ends.
pub fn snapshot_end_lines(errors: &SnapshotErrors) -> (r: (String, String))
    ensures
        failures(*errors).len() == 0 ==> r.0@ == "snapshot export complete"@ && r.1@
            == "session artifacts refreshed (CSV/KML/KMZ/summary)"@,
        failures(*errors).len() > 0 ==> r.0@ == "snapshot export incomplete: "@ + join(
            failures(*errors),
            " | "@,
        ) && r.1@ == "session artifact refresh incomplete: "@ + join(failures(*errors), " | "@),
{
    let mut parts: Vec<String> = Vec::new();
    push_failure(&mut parts, "ap csv", &errors.ap_csv);
    push_failure(&mut parts, "client csv", &errors.client_csv);
    push_failure(&mut parts, "location csv", &errors.location_csv);
    push_failure(&mut parts, "location kml", &errors.location_kml);
    push_failure(&mut parts, "location kmz", &errors.location_kmz);
    push_failure(&mut parts, "summary json", &errors.summary_json);
    assert(string_seqs(parts@) =~= failures(*errors));
    if parts.len() == 0 {
        return (
            String::from_str("snapshot export complete"),
            String::from_str("session artifacts refreshed (CSV/KML/KMZ/summary)"),
        );
    }
    let mut joined: Vec<char> = Vec::new();
    push_joined(&mut joined, &parts, " | ");
    let text = string_from_chars(joined.as_slice());
    let mut log: Vec<char> = Vec::new();
    push_str(&mut log, "snapshot export incomplete: ");
    push_str(&mut log, text.as_str());
    let mut status: Vec<char> = Vec::new();
    push_str(&mut status, "session artifact refresh incomplete: ");
    push_str(&mut status, text.as_str());
    (string_from_chars(log.as_slice()), string_from_chars(status.as_slice()))
}

} // verus!

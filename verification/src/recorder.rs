//! The append-only recorder's line format: one timestamped,
//! semicolon-delimited line per snapshot, holding each record's value only.
//!
//! An empty snapshot is written as the literal token "n/a" after the
//! timestamp; a non-empty one as ";v1;v2;...;vn". Either way the line ends
//! in a single newline. Opening and appending to the file is the caller's
//! work; building the line is proved here.

use vstd::prelude::*;

use crate::parse::{na_bytes, NL, SEMI};
use crate::scan::subvec;
use crate::types::Record;

verus! {

/// The values of a sequence of records, in order.
pub open spec fn values_of(rs: Seq<Record>) -> Seq<Seq<u8>> {
    rs.map_values(|r: Record| r.value@)
}

/// ";v1;v2;...;vn" for the given values.
pub open spec fn joined_values(vals: Seq<Seq<u8>>) -> Seq<u8>
    decreases vals.len(),
{
    if vals.len() == 0 {
        seq![]
    } else {
        seq![SEMI] + vals[0] + joined_values(vals.drop_first())
    }
}

/// One output line: the timestamp, then the value list or "n/a", then a
/// newline.
pub open spec fn rendered_line(ts: Seq<u8>, vals: Seq<Seq<u8>>) -> Seq<u8> {
    if vals.len() == 0 {
        ts + na_bytes() + seq![NL]
    } else {
        ts + joined_values(vals) + seq![NL]
    }
}

/// The current local time as an ISO-8601 timestamp with second precision
/// and a numeric offset.
/// Relies on chrono::Local::now and chrono::DateTime::to_rfc3339_opts,
/// whose result always starts with a full date and so is never empty.
#[verifier::external_body]
fn local_timestamp() -> (r: Vec<u8>)
    ensures
        r@.len() > 0,
{
    chrono::Local::now()
        .to_rfc3339_opts(chrono::SecondsFormat::Secs, false)
        .into_bytes()
}

/// Build one output line from a given timestamp and a snapshot's records.
pub fn format_snapshot_line(timestamp: &Vec<u8>, records: &Vec<Record>) -> (r: Vec<u8>)
    ensures
        r@ == rendered_line(timestamp@, values_of(records@)),
{
    let ghost vals = values_of(records@);
    let mut out = subvec(timestamp, 0, timestamp.len());
    proof {
        assert(out@ =~= timestamp@);
    }
    if records.len() == 0 {
        out.push(110);
        out.push(47);
        out.push(97);
        out.push(NL);
        proof {
            assert(out@ =~= timestamp@ + na_bytes() + seq![NL]);
        }
        return out;
    }
    let mut i: usize = 0;
    proof {
        assert(vals.skip(0) =~= vals);
    }
    #[verifier::loop_isolation(false)]
    while i < records.len()
        invariant
            i <= records.len(),
            out@ + joined_values(vals.skip(i as int)) == timestamp@ + joined_values(vals),
        decreases records.len() - i,
    {
        let ghost suffix = vals.skip(i as int);
        out.push(SEMI);
        let mut value = subvec(&records[i].value, 0, records[i].value.len());
        proof {
            assert(value@ =~= records@[i as int].value@);
            assert(suffix[0] == records@[i as int].value@);
        }
        out.append(&mut value);
        proof {
            assert(suffix.drop_first() =~= vals.skip(i + 1));
            assert(out@ + joined_values(vals.skip(i + 1)) =~= timestamp@ + joined_values(vals));
        }
        i = i + 1;
    }
    proof {
        assert(vals.skip(records@.len() as int) =~= Seq::<Seq<u8>>::empty());
        assert(out@ =~= timestamp@ + joined_values(vals));
    }
    out.push(NL);
    proof {
        assert(out@ =~= timestamp@ + joined_values(vals) + seq![NL]);
    }
    out
}

/// Build one output line for the snapshot at the current local time.
pub fn snapshot_line(records: &Vec<Record>) -> (r: Vec<u8>)
    ensures
        exists|ts: Seq<u8>|
            ts.len() > 0 && r@ == rendered_line(ts, values_of(records@)),
{
    let ts = local_timestamp();
    let r = format_snapshot_line(&ts, records);
    proof {
        assert(ts@.len() > 0 && r@ == rendered_line(ts@, values_of(records@)));
    }
    r
}

} // verus!

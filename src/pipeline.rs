use vstd::prelude::*;

use crate::config::RunType;
use crate::document::{document_of, encode_line, json_text_of, pairs_view, stamp_of, transform};

verus! {

/// How many records a worker reads before it ends and is replaced, which
/// gives back what the log reader leaks.
pub const WORKER_RECORD_LIMIT: u64 = 999_999;

/// How a record read in the foreground is echoed.
#[derive(Debug, Clone, Copy, PartialEq, Eq, Structural)]
pub enum Echo {
    Quiet,
    Compact,
    Pretty,
}

/// The echo for a verbosity: in the foreground, compact at 4 to 6 and
/// pretty at 7 to 9; nothing otherwise.
pub fn echo_style(run_type: RunType, verbose: i64) -> (r: Echo)
    ensures
        r == if run_type == RunType::Foreground && 4 <= verbose <= 6 {
            Echo::Compact
        } else if run_type == RunType::Foreground && 7 <= verbose <= 9 {
            Echo::Pretty
        } else {
            Echo::Quiet
        },
{
    if run_type == RunType::Foreground && 4 <= verbose && verbose <= 6 {
        Echo::Compact
    } else if run_type == RunType::Foreground && 7 <= verbose && verbose <= 9 {
        Echo::Pretty
    } else {
        Echo::Quiet
    }
}

/// Whether a worker that has read `records` records should end now.
pub fn recycle_due(records: u64) -> (r: bool)
    ensures
        r == (records >= WORKER_RECORD_LIMIT),
{
    records >= WORKER_RECORD_LIMIT
}

/// The queue item for a record that was read: its wire line and its cursor.
/// A record without a cursor cannot be checkpointed and is passed over.
pub fn produce(
    fields: &Vec<(String, String)>,
    cursor: &str,
    source_micros: Option<i64>,
    now_micros: i64,
) -> (r: Option<(String, String)>)
    ensures
        cursor@.len() == 0 ==> r is None,
        cursor@.len() > 0 ==> (r matches Some(item) && item.0@ == json_text_of(
            document_of(pairs_view(fields@), cursor@, stamp_of(source_micros, now_micros)),
        ).push('\n') && item.1@ == cursor@ && !json_text_of(
            document_of(pairs_view(fields@), cursor@, stamp_of(source_micros, now_micros)),
        ).contains('\n')),
{
    if cursor.unicode_len() == 0 {
        return None;
    }
    let doc = transform(fields, cursor, source_micros, now_micros);
    let line = encode_line(&doc);
    Some((line, String::from_str(cursor)))
}

} // verus!

//! The visit store as the scheduler sees it: one table of last visits, keyed
//! by url, and the statements that a run needs on it. Running them is the
//! caller's part; what a lookup found is decided here.

use vstd::prelude::*;

verus! {

/// Creates the visit table: one row per url, with the time of the last
/// visit in epoch seconds, or null where none is known.
pub const CREATE_TABLE: &'static str =
    "CREATE TABLE websites (url TEXT NOT NULL UNIQUE, last_access INTEGER);";

/// Finds the rows of the url bound to `:url`. The last visit is the second
/// column.
pub const LOOKUP: &'static str = "SELECT * FROM websites WHERE url = :url";

/// Records the visit of the url `?1` at the time `?2`: a new row, or the
/// row of that url with its time replaced. The table never holds two rows
/// for one url.
pub const UPSERT: &'static str =
    "INSERT INTO websites(url, last_access) VALUES (?1, ?2) ON CONFLICT(url) DO UPDATE SET last_access=?2;";

/// The last visit that the rows of one url stand for: that of the last row,
/// and none where there is no row or the last row holds no time.
pub open spec fn last_visit_of(rows: Seq<Option<u64>>) -> Option<u64> {
    if rows.len() == 0 {
        None
    } else {
        rows.last()
    }
}

/// Reads the last visit out of the rows that a lookup found, each row given
/// by its time column.
pub fn last_visit_from_rows(rows: &Vec<Option<u64>>) -> (last_visit: Option<u64>)
    ensures
        last_visit == last_visit_of(rows@),
{
    if rows.len() == 0 {
        None
    } else {
        rows[rows.len() - 1]
    }
}

} // verus!

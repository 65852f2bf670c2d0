//! The plain data carried by the replication machinery: actor identities,
//! timestamps, SQL values, and change records.

use vstd::prelude::*;

verus! {

/// The immutable 128-bit identity of a node, fixed at startup.
#[derive(Clone, Copy, Debug, PartialEq, Eq, Structural)]
pub struct ActorId(pub u128);

/// A hybrid logical timestamp drawn from the process-wide clock,
/// held as its 64-bit encoding.
#[derive(Clone, Copy, Debug, PartialEq, Eq, Structural)]
pub struct Timestamp(pub u64);

/// A SQL value: null, integer, real, text, or blob. A real is held as the
/// bit pattern of its 64-bit IEEE encoding; the host converts at the edge.
#[derive(Clone, Debug, PartialEq, Eq)]
pub enum SqliteValue {
    Null,
    Integer(i64),
    Real(u64),
    Text(String),
    Blob(Vec<u8>),
}

/// One row-level change record as materialized for broadcast:
/// *(table, primary key, column id, value, column version, db_version, seq,
/// site id)*. `seq` is unique within a `db_version`, dense from 0 upward.
#[derive(Clone, Debug, PartialEq, Eq)]
pub struct Change {
    pub table: String,
    pub pk: String,
    pub cid: String,
    pub val: SqliteValue,
    pub col_version: i64,
    pub db_version: i64,
    pub seq: i64,
    pub site_id: ActorId,
}

impl Default for Change {
    fn default() -> (r: Self)
        ensures
            r.table@ == Seq::<char>::empty(),
            r.pk@ == Seq::<char>::empty(),
            r.cid@ == Seq::<char>::empty(),
            r.val == SqliteValue::Null,
            r.col_version == 0,
            r.db_version == 0,
            r.seq == 0,
            r.site_id == ActorId(0),
    {
        Change {
            table: String::new(),
            pk: String::new(),
            cid: String::new(),
            val: SqliteValue::Null,
            col_version: 0,
            db_version: 0,
            seq: 0,
            site_id: ActorId(0),
        }
    }
}

} // verus!

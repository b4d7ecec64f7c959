//! The bridge's own glue: resolving the configured bind address and the
//! write path from a decoded reading to the store.
//!
//! The host owns the listening socket, the accept loop and the spawned
//! per-connection tasks; it calls in here for every decision that is a
//! function of plain values.

use vstd::prelude::*;

use vstd::string::StrSliceExecFns;
use vstd::string::StringExecFns;

use crate::store::add_sensor_data;
use crate::store::MeasurementStore;
use crate::store::SinkError;
use crate::timestamp::now_timestamp;

verus! {

/// Resolves the configured bind address: a bare `:PORT` form has no
/// host, so the wildcard address is used and any interface will do;
/// anything else is taken as it stands.
pub fn resolve_bind_url(configured: &str) -> (resolved: String)
    ensures
        configured@.len() > 0 && configured@[0] == ':' ==> resolved@ == "0.0.0.0"@ + configured@,
        !(configured@.len() > 0 && configured@[0] == ':') ==> resolved@ == configured@,
{
    if !configured.is_empty() && configured.get_char(0) == ':' {
        let host = String::from_str("0.0.0.0");
        host.concat(configured)
    } else {
        configured.to_owned()
    }
}

/// Records one decoded reading: stamps it with the receipt time the
/// clock reports now and appends it to the store.
///
/// `value_bits` is the reading already widened to its 64 IEEE-754 bits.
/// The clock decides the timestamp, so the contract promises everything
/// but its value: on success — owed whenever an identifier remains —
/// exactly one full row is appended, carrying the given bits, the
/// assigned identifier and a well-formed receipt time.
pub fn add_sensor_value(store: &mut MeasurementStore, value_bits: u64) -> (appended: Result<
    i64,
    SinkError,
>)
    requires
        old(store).wf(),
    ensures
        final(store).wf(),
        old(store).next_id < i64::MAX ==> {
            &&& appended == Ok::<i64, SinkError>(old(store).next_id)
            &&& final(store).rows@.len() == old(store).rows@.len() + 1
            &&& final(store).rows@.drop_last() == old(store).rows@
            &&& final(store).rows@.last().id == old(store).next_id
            &&& final(store).rows@.last().value_bits == value_bits
            &&& final(store).rows@.last().timestamp.wf()
            &&& final(store).next_id == old(store).next_id + 1
        },
        old(store).next_id == i64::MAX ==> appended == Err::<i64, SinkError>(
            SinkError::IdsExhausted,
        ) && *final(store) == *old(store),
{
    let received_at = now_timestamp();
    let appended = add_sensor_data(store, received_at, value_bits);
    proof {
        if old(store).next_id < i64::MAX {
            assert(store.rows@.drop_last() =~= old(store).rows@);
        }
    }
    appended
}

} // verus!

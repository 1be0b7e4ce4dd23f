//! Request dispatch: the decisions a connection handler makes.
//!
//! The wire codec — framing bytes into requests and responses back into
//! bytes — is an outside collaborator.  What the handler itself decides is
//! here: which store operation a request maps to and which response is owed
//! for it, one response per request, in request order.

use vstd::prelude::*;
use crate::store::KvMap;
use crate::store::ShardedDatabase;

verus! {

/// One decoded request: the only two kinds the store serves.  A frame of
/// any other kind never becomes a `Request`; the handler treats it as fatal
/// for its connection.
pub enum Request {
    /// Read the value under `key`.
    Get { key: String },
    /// Store `value` under `key` (the wire protocol's `SET` command).
    Put { key: String, value: Vec<u8> },
}

/// One response, owed for exactly one request.
pub enum Response {
    /// The value read by a `Get` whose key was present.
    Bulk(Vec<u8>),
    /// The answer to a `Get` whose key was absent.
    Null,
    /// The fixed acknowledgement of a `Set`.
    Acked,
}

/// Applies one request to one shard mapping and returns the response owed
/// for it: `Set` stores the value and is acknowledged; `Get` leaves the
/// mapping unchanged and reads the value under the key, `Null` exactly when
/// the key is absent.
pub fn apply_request(m: &mut KvMap, req: Request) -> (resp: Response)
    requires
        old(m).wf(),
    ensures
        final(m).wf(),
        match req {
            Request::Put { key, value } => final(m)@ == old(m)@.insert(key@, value@) && resp == (
            Response::Acked),
            Request::Get { key } => {
                &&& final(m)@ == old(m)@
                &&& (resp is Bulk <==> old(m)@.dom().contains(key@))
                &&& (resp is Null <==> !old(m)@.dom().contains(key@))
                &&& (resp matches Response::Bulk(v) ==> v@ == old(m)@[key@])
            },
        },
{
    match req {
        Request::Put { key, value } => {
            m.insert(key.as_str(), value);
            Response::Acked
        },
        Request::Get { key } => {
            match m.get(key.as_str()) {
                Some(v) => Response::Bulk(crate::store::copy_bytes(v)),
                None => Response::Null,
            }
        },
    }
}

/// Applies one request to the shared store, taking the shard lock that the
/// request's key resolves to.  A `Set` is always acknowledged; a `Get` is
/// answered with the value found under the lock, or `Null`.  Which of the
/// two a `Get` yields depends on the store's contents at the moment the
/// lock is held, so only the kind of the response is promised here; what
/// each kind means is stated by [`apply_request`] over one mapping.
pub fn dispatch(db: &ShardedDatabase, req: Request) -> (resp: Response)
    requires
        db.wf(),
    ensures
        match req {
            Request::Put { .. } => resp == (Response::Acked),
            Request::Get { .. } => resp is Bulk || resp is Null,
        },
{
    match req {
        Request::Put { key, value } => {
            db.insert(key.as_str(), value);
            Response::Acked
        },
        Request::Get { key } => {
            match db.get(key.as_str()) {
                Some(v) => Response::Bulk(v),
                None => Response::Null,
            }
        },
    }
}

} // verus!

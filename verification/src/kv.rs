//! What a key-value store's JSON accessors make of the bytes they read and write.
//!
//! The store itself is asynchronous and reached through a trait object; it fetches or
//! stores raw bytes. Decoding and encoding JSON go through `serde_json`. The functions here
//! decide, from those results, what each accessor returns.
use vstd::prelude::*;
use serde_json::Error as JsonError;

verus! {

#[verifier::external_type_specification]
#[verifier::external_body]
pub struct ExJsonError(JsonError);

/// The errors of the store's accessors.
pub enum KvError {
    /// The store itself failed.
    Kv(String),
    /// A value could not be encoded to or decoded from JSON.
    Serialization(JsonError),
}

impl From<JsonError> for KvError {
    fn from(e: JsonError) -> (r: KvError)
        ensures
            r == KvError::Serialization(e),
    {
        KvError::Serialization(e)
    }
}

impl vstd::std_specs::convert::FromSpecImpl<JsonError> for KvError {
    open spec fn obeys_from_spec() -> bool {
        true
    }

    open spec fn from_spec(e: JsonError) -> KvError {
        KvError::Serialization(e)
    }
}

pub type KvResult<T> = Result<T, KvError>;

/// What `get_json_or_null` returns for a fetched value, given what decoding it gave
/// (`None` when the key held nothing): a value that does not decode reads as absent.
pub open spec fn get_json_or_null_result<T>(decoded: Option<Result<T, JsonError>>) -> KvResult<Option<T>> {
    match decoded {
        None => Ok(None),
        Some(Ok(v)) => Ok(Some(v)),
        Some(Err(_)) => Ok(None),
    }
}

/// What `get_json` returns for a fetched value, given what decoding it gave: a value that
/// does not decode is a serialization error.
pub open spec fn get_json_result<T>(decoded: Option<Result<T, JsonError>>) -> KvResult<Option<T>> {
    match decoded {
        None => Ok(None),
        Some(Ok(v)) => Ok(Some(v)),
        Some(Err(e)) => Err(KvError::Serialization(e)),
    }
}

/// The result of `get_json_or_null` once the bytes under the key were fetched and, if there
/// were any, decoded.
pub fn finish_get_json_or_null<T>(decoded: Option<Result<T, JsonError>>) -> (r: KvResult<Option<T>>)
    ensures
        r == get_json_or_null_result(decoded),
{
    match decoded {
        None => Ok(None),
        Some(result) => Ok(result.ok()),
    }
}

/// The result of `get_json` once the bytes under the key were fetched and, if there were
/// any, decoded.
pub fn finish_get_json<T>(decoded: Option<Result<T, JsonError>>) -> (r: KvResult<Option<T>>)
    ensures
        r == get_json_result(decoded),
{
    match decoded {
        None => Ok(None),
        Some(Ok(v)) => Ok(Some(v)),
        Some(Err(e)) => Err(KvError::from(e)),
    }
}

/// The bytes that `put_json` stores, given what encoding the value gave; an encoding
/// failure is returned before anything is stored.
pub fn prepare_put_json(encoded: Result<Vec<u8>, JsonError>) -> (r: KvResult<Vec<u8>>)
    ensures
        match encoded {
            Ok(bytes) => r == Ok::<Vec<u8>, KvError>(bytes),
            Err(e) => r == Err::<Vec<u8>, KvError>(KvError::Serialization(e)),
        },
{
    match encoded {
        Ok(bytes) => Ok(bytes),
        Err(e) => Err(KvError::from(e)),
    }
}

/// The two readers agree on every value that is absent or decodes; they differ only on a
/// value that does not decode, which `get_json_or_null` reads as absent and `get_json`
/// reports as a serialization error.
pub proof fn lemma_readers_agree_unless_undecodable<T>(decoded: Option<Result<T, JsonError>>)
    ensures
        !(decoded matches Some(Err(_))) ==> get_json_or_null_result(decoded) == get_json_result(decoded),
        decoded matches Some(Err(e)) ==> get_json_or_null_result(decoded) == Ok::<Option<T>, KvError>(None)
            && get_json_result(decoded) == Err::<Option<T>, KvError>(KvError::Serialization(e)),
        get_json_or_null_result(decoded) is Ok,
{
}

} // verus!

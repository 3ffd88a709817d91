//! The errors of the client and the reading of a JSON-RPC error object.

use vstd::prelude::*;
use vstd::string::*;
use crate::json::{Json, JsonNumber, has_no_member, is_first_member, lemma_lookup_absent, lemma_lookup_first, lookup};

verus! {

/// Structured detail that accompanies a JSON-RPC error response.
#[derive(Debug, Clone, PartialEq)]
pub enum ErrorData {
    Empty,
    NodeUnhealthy { num_slots_behind: Option<u64> },
}

/// An error of a request: it could not be made or answered (`RequestError`),
/// the server answered with a JSON-RPC error (`ResponseError`), or the answer
/// could not be read (`ParseError`, which holds what was expected).
#[derive(Debug, Clone, PartialEq)]
pub enum ClientError {
    RequestError(String),
    ResponseError { code: i64, message: String, data: ErrorData },
    ParseError(String),
}

/// The members of a JSON-RPC error object: `code`, `message`, optional `data`.
#[derive(Debug, PartialEq)]
pub struct JsonRpcError {
    pub code: i64,
    pub message: String,
    pub data: Option<Json>,
}

/// The detail that an error's `data` member carries: a node that reports how
/// many slots it is behind is unhealthy; anything else carries no detail.
pub open spec fn error_data_of(data: Option<Json>) -> ErrorData {
    match data {
        Some(Json::Object(entries)) => match lookup(entries@, "numSlotsBehind"@) {
            Some(n) => match n.spec_as_u64() {
                Some(behind) => ErrorData::NodeUnhealthy { num_slots_behind: Some(behind) },
                None => ErrorData::Empty,
            },
            None => ErrorData::Empty,
        },
        _ => ErrorData::Empty,
    }
}

impl JsonRpcError {
    /// The detail carried by this error's `data` member.
    pub fn rpc_response_error_data(&self) -> (d: ErrorData)
        ensures
            d == error_data_of(self.data),
    {
        match &self.data {
            Some(data) => match data {
                Json::Object(_) => match data.get("numSlotsBehind") {
                    Some(n) => match n.as_u64() {
                        Some(behind) => ErrorData::NodeUnhealthy { num_slots_behind: Some(behind) },
                        None => ErrorData::Empty,
                    },
                    None => ErrorData::Empty,
                },
                _ => ErrorData::Empty,
            },
            None => ErrorData::Empty,
        }
    }

    /// The client error that this error object stands for.
    pub fn into_rpc_error(self) -> (e: ClientError)
        ensures
            e == (ClientError::ResponseError {
                code: self.code,
                message: self.message,
                data: error_data_of(self.data),
            }),
    {
        let data = self.rpc_response_error_data();
        ClientError::ResponseError { code: self.code, message: self.message, data }
    }
}

/// The error with which requests fail once the WebSocket has closed.
pub fn connection_closed() -> (e: ClientError)
    ensures
        e matches ClientError::RequestError(m) && m@ == "websocket connection closed"@,
{
    ClientError::RequestError(String::from_str("websocket connection closed"))
}

} // verus!

verus! {

/// An error's data is `NodeUnhealthy` with `n` slots behind when its first
/// member named `numSlotsBehind` is the non-negative integer `n`; a data
/// object with no member of that name, and any data that is not an object,
/// carry no detail.
pub proof fn law_node_unhealthy_only_from_slots_behind(members: Vec<(String, Json)>, other: Json)
    ensures
        forall|i: int, n: u64| is_first_member(members@, "numSlotsBehind"@, i)
            && members@[i].1 == Json::Number(JsonNumber::PosInt(n))
            ==> error_data_of(Some(Json::Object(members)))
                == (ErrorData::NodeUnhealthy { num_slots_behind: Some(n) }),
        has_no_member(members@, "numSlotsBehind"@)
            ==> error_data_of(Some(Json::Object(members))) == ErrorData::Empty,
        !(other is Object) ==> error_data_of(Some(other)) == ErrorData::Empty,
        error_data_of(None) == ErrorData::Empty,
{
    assert forall|i: int, n: u64| is_first_member(members@, "numSlotsBehind"@, i)
        && members@[i].1 == Json::Number(JsonNumber::PosInt(n))
        implies error_data_of(Some(Json::Object(members)))
            == (ErrorData::NodeUnhealthy { num_slots_behind: Some(n) }) by {
        lemma_lookup_first(members@, "numSlotsBehind"@, i);
    }
    if has_no_member(members@, "numSlotsBehind"@) {
        lemma_lookup_absent(members@, "numSlotsBehind"@);
    }
}

} // verus!

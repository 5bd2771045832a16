//! What the rest of the library reads of agent messages.

use vstd::prelude::*;
use vstd::string::*;
use crate::json::Json;
use crate::text;

verus! {

/// The metadata of a prompt's final response.
#[derive(Clone, Debug, PartialEq, Eq)]
pub struct TurnResult {
    pub stop_reason: Option<String>,
    pub input_tokens: Option<u64>,
    pub output_tokens: Option<u64>,
    pub total_tokens: Option<u64>,
}

impl Default for TurnResult {
    fn default() -> (r: Self)
        ensures
            r.stop_reason is None,
            r.input_tokens is None,
            r.output_tokens is None,
            r.total_tokens is None,
    {
        TurnResult {
            stop_reason: None,
            input_tokens: None,
            output_tokens: None,
            total_tokens: None,
        }
    }
}

impl TurnResult {
    /// Whether the turn stopped for the given reason.
    pub open spec fn stopped_for(self, reason: Seq<char>) -> bool {
        self.stop_reason matches Some(s) && s@ == reason
    }

    /// An agent that ends its turn normally without generating a token has failed silently.
    pub open spec fn silent_failure(self) -> bool {
        self.stopped_for("end_turn"@) && self.output_tokens == Some(0u64)
    }

    /// Whether the turn stopped for the given reason.
    pub fn stop_reason_is(&self, reason: &str) -> (r: bool)
        ensures
            r == self.stopped_for(reason@),
    {
        match &self.stop_reason {
            Some(s) => text::str_eq(s.as_str(), reason),
            None => false,
        }
    }

    /// Whether the agent ended its turn normally without generating a token.
    pub fn is_silent_failure(&self) -> (r: bool)
        ensures
            r == self.silent_failure(),
    {
        let nothing_generated = match self.output_tokens {
            Some(n) => n == 0,
            None => false,
        };
        nothing_generated && self.stop_reason_is("end_turn")
    }

    /// A copy with the same content.
    pub fn copy(&self) -> (r: TurnResult)
        ensures
            r == *self,
    {
        TurnResult {
            stop_reason: self.stop_reason.clone(),
            input_tokens: self.input_tokens,
            output_tokens: self.output_tokens,
            total_tokens: self.total_tokens,
        }
    }
}

/// The error of a JSON-RPC response.
#[derive(Debug, PartialEq, Eq)]
pub struct JsonRpcError {
    pub code: i64,
    pub message: String,
    pub data: Option<Json>,
}

/// A JSON-RPC message from the agent: a response has an id, a notification a method, a request
/// both.
#[derive(Debug, PartialEq, Eq)]
pub struct JsonRpcMessage {
    pub id: Option<u64>,
    pub method: Option<String>,
    pub result: Option<Json>,
    pub error: Option<JsonRpcError>,
    pub params: Option<Json>,
}

/// A JSON-RPC request to the agent.
#[derive(Debug, PartialEq, Eq)]
pub struct JsonRpcRequest {
    pub id: u64,
    pub method: String,
    pub params: Json,
}

/// A setting that the agent lets its client choose.
#[derive(Clone, Debug, PartialEq, Eq)]
pub struct ConfigOption {
    pub id: String,
    pub current_value: String,
}

} // verus!

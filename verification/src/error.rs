//! Plugin-local error type.
use vstd::prelude::*;

verus! {

/// The JSON-RPC 2.0 error codes that the plugin answers with.
#[derive(Debug, Clone, Copy, PartialEq, Eq, Structural)]
pub enum ErrorCode {
    ParseError,
    InvalidRequest,
    MethodNotFound,
    InvalidParams,
    InternalError,
}

/// The numeric code that JSON-RPC 2.0 assigns to each error.
pub open spec fn code_value(code: ErrorCode) -> int {
    match code {
        ErrorCode::ParseError => -32700,
        ErrorCode::InvalidRequest => -32600,
        ErrorCode::MethodNotFound => -32601,
        ErrorCode::InvalidParams => -32602,
        ErrorCode::InternalError => -32603,
    }
}

/// The name of each code, as `{:?}` prints it.
pub open spec fn code_name(code: ErrorCode) -> Seq<char> {
    match code {
        ErrorCode::ParseError => "ParseError"@,
        ErrorCode::InvalidRequest => "InvalidRequest"@,
        ErrorCode::MethodNotFound => "MethodNotFound"@,
        ErrorCode::InvalidParams => "InvalidParams"@,
        ErrorCode::InternalError => "InternalError"@,
    }
}

impl ErrorCode {
    /// The JSON-RPC numeric code.
    pub fn value(&self) -> (r: i64)
        ensures
            r == code_value(*self),
    {
        match self {
            ErrorCode::ParseError => -32700,
            ErrorCode::InvalidRequest => -32600,
            ErrorCode::MethodNotFound => -32601,
            ErrorCode::InvalidParams => -32602,
            ErrorCode::InternalError => -32603,
        }
    }

    /// The variant's name.
    pub fn name(&self) -> (r: &'static str)
        ensures
            r@ == code_name(*self),
    {
        match self {
            ErrorCode::ParseError => "ParseError",
            ErrorCode::InvalidRequest => "InvalidRequest",
            ErrorCode::MethodNotFound => "MethodNotFound",
            ErrorCode::InvalidParams => "InvalidParams",
            ErrorCode::InternalError => "InternalError",
        }
    }
}

/// Distinct codes have distinct numeric values, and every value is negative.
pub proof fn lemma_code_values_distinct(a: ErrorCode, b: ErrorCode)
    ensures
        code_value(a) < 0,
        code_value(a) == code_value(b) <==> a == b,
{
}

/// An error with its JSON-RPC code and a message.
#[derive(Debug)]
pub struct PluginError {
    pub code: ErrorCode,
    pub message: String,
}

/// The text of a [`PluginError`]: `"[<code name>] <message>"`.
pub open spec fn error_text(code: ErrorCode, message: Seq<char>) -> Seq<char> {
    "["@ + code_name(code) + "] "@ + message
}

impl PluginError {
    /// An internal error with the given message.
    pub fn internal(msg: &str) -> (r: Self)
        ensures
            r.code == ErrorCode::InternalError,
            r.message@ == msg@,
    {
        PluginError { code: ErrorCode::InternalError, message: msg.to_owned() }
    }

    /// An invalid-params error with the given message.
    pub fn invalid_params(msg: &str) -> (r: Self)
        ensures
            r.code == ErrorCode::InvalidParams,
            r.message@ == msg@,
    {
        PluginError { code: ErrorCode::InvalidParams, message: msg.to_owned() }
    }

    /// A method-not-found error with the given message.
    pub fn method_not_found(msg: &str) -> (r: Self)
        ensures
            r.code == ErrorCode::MethodNotFound,
            r.message@ == msg@,
    {
        PluginError { code: ErrorCode::MethodNotFound, message: msg.to_owned() }
    }

    /// The error as text: `"[<code name>] <message>"`.
    pub fn display_string(&self) -> (r: String)
        ensures
            r@ == error_text(self.code, self.message@),
    {
        let mut s = String::from_str("[");
        s.append(self.code.name());
        s.append("] ");
        s.append(self.message.as_str());
        s
    }
}

}

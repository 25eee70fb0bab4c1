//! Parameter extraction helpers.
use vstd::prelude::*;

use crate::dynamodb::pool::{ConnectionParams, ConnectionView};
use crate::json::{json_get_path_str, json_get_str, Json, JsonV};
use crate::text::{opt_view, own_opt};

verus! {

/// The connection setting `name` under `params`.
pub open spec fn setting(params: JsonV, name: Seq<char>) -> Option<Seq<char>> {
    json_get_path_str(params, "params"@, name)
}

/// The connection settings that a request's parameters carry under `params`.
pub open spec fn connection_from(params: JsonV) -> ConnectionView {
    ConnectionView {
        region: setting(params, "region"@),
        access_key_id: setting(params, "access_key_id"@),
        secret_access_key: setting(params, "secret_access_key"@),
        session_token: setting(params, "session_token"@),
        profile: setting(params, "profile"@),
        endpoint: setting(params, "endpoint"@),
    }
}

fn owned_setting(params: &Json, name: &str) -> (r: Option<String>)
    ensures
        opt_view(r) == setting(params@, name@),
{
    own_opt(params.get_path_str("params", name))
}

/// The connection settings of a request (see `connection_from`).
pub fn extract_connection(params: &Json) -> (r: ConnectionParams)
    ensures
        r@ == connection_from(params@),
{
    ConnectionParams {
        region: owned_setting(params, "region"),
        access_key_id: owned_setting(params, "access_key_id"),
        secret_access_key: owned_setting(params, "secret_access_key"),
        session_token: owned_setting(params, "session_token"),
        profile: owned_setting(params, "profile"),
        endpoint: owned_setting(params, "endpoint"),
    }
}

/// The string parameter `table`, if there is one.
pub fn extract_table(params: &Json) -> (r: Option<String>)
    ensures
        opt_view(r) == json_get_str(params@, "table"@),
{
    own_opt(params.get_str("table"))
}

/// The string parameter `query`, if there is one.
pub fn extract_query(params: &Json) -> (r: Option<String>)
    ensures
        opt_view(r) == json_get_str(params@, "query"@),
{
    own_opt(params.get_str("query"))
}


/// Each connection setting is read from the member of the same name under `params`: the
/// region from `region`, the access key id from `access_key_id`, the secret access key from
/// `secret_access_key`, the session token from `session_token`, the profile from `profile`
/// and the endpoint from `endpoint`.
pub proof fn lemma_settings_read_by_name(params: JsonV)
    ensures
        connection_from(params).region == json_get_path_str(params, "params"@, "region"@),
        connection_from(params).access_key_id == json_get_path_str(params, "params"@, "access_key_id"@),
        connection_from(params).secret_access_key == json_get_path_str(params, "params"@, "secret_access_key"@),
        connection_from(params).session_token == json_get_path_str(params, "params"@, "session_token"@),
        connection_from(params).profile == json_get_path_str(params, "params"@, "profile"@),
        connection_from(params).endpoint == json_get_path_str(params, "params"@, "endpoint"@),
{
}

}

use vstd::prelude::*;

verus! {

/// Metadata key carrying the client's password in an Auth frame.
pub fn auth_password_key() -> (r: &'static str)
    ensures
        r@ == "auth_password"@,
{
    "auth_password"
}

/// Metadata key carrying the local target host of a proxy.
pub fn proxy_host_key() -> (r: &'static str)
    ensures
        r@ == "proxy_host"@,
{
    "proxy_host"
}

/// Metadata key carrying the local target port of a proxy.
pub fn proxy_port_key() -> (r: &'static str)
    ensures
        r@ == "proxy_port"@,
{
    "proxy_port"
}

/// Metadata key carrying the protocol of a proxy.
pub fn proxy_protocol_key() -> (r: &'static str)
    ensures
        r@ == "proxy_protocol"@,
{
    "proxy_protocol"
}

/// Metadata key carrying the requested public port of a proxy.
pub fn open_port_key() -> (r: &'static str)
    ensures
        r@ == "open_port"@,
{
    "open_port"
}

/// Metadata key carrying the license key issued by the server.
pub fn license_key_key() -> (r: &'static str)
    ensures
        r@ == "license_key"@,
{
    "license_key"
}

/// Metadata key carrying the visitor identifier of a session.
pub fn visitor_id_key() -> (r: &'static str)
    ensures
        r@ == "visitor_id"@,
{
    "visitor_id"
}

/// Metadata key carrying a free-form message from the server.
pub fn message_key() -> (r: &'static str)
    ensures
        r@ == "message"@,
{
    "message"
}

} // verus!

use vstd::prelude::*;

verus! {

use crate::keys;
use crate::message::CmdType;
use crate::message::TransferDataMessage;
use crate::message::TransferMessageMetaData;
use crate::proxy::ProxyConfig;

/// Build the Auth frame that opens the handshake.
pub fn build_auth_message(password: &str) -> (r: TransferDataMessage)
    ensures
        r.cmd_type == CmdType::Auth,
        r@.meta.timestamp == 0,
        r@.meta.fields == seq![("auth_password"@, password@)],
        r@.data.len() == 0,
{
    let mut meta_map: Vec<(String, String)> = Vec::new();
    meta_map.push((keys::auth_password_key().to_owned(), password.to_owned()));
    let r = TransferDataMessage {
        cmd_type: CmdType::Auth,
        meta_data: TransferMessageMetaData { timestamp: 0, meta_data: meta_map },
        data: Vec::new(),
    };
    proof {
        assert(r@.meta.fields =~= seq![("auth_password"@, password@)]);
    }
    r
}

/// Build the OpenServer frame advertising a local service, echoing the
/// license key issued by the server.
pub fn build_open_server_message(proxy_config: &ProxyConfig, license_key: String) -> (r:
    TransferDataMessage)
    ensures
        r.cmd_type == CmdType::OpenServer,
        r@.meta.timestamp == 0,
        r@.meta.fields == proxy_config.spec_map().push(("license_key"@, license_key@)),
        r@.data.len() == 0,
{
    let mut meta_map = proxy_config.to_map();
    meta_map.push((keys::license_key_key().to_owned(), license_key));
    let r = TransferDataMessage {
        cmd_type: CmdType::OpenServer,
        meta_data: TransferMessageMetaData { timestamp: 0, meta_data: meta_map },
        data: Vec::new(),
    };
    proof {
        assert(r@.meta.fields =~= proxy_config.spec_map().push(("license_key"@, license_key@)));
    }
    r
}

/// Build the Connect acknowledgment a session worker sends once its tunnel
/// leg is live.
pub fn build_connect_message(proxy_config: ProxyConfig, license_key: String, visitor_id: String) -> (r: TransferDataMessage)
    ensures
        r.cmd_type == CmdType::Connect,
        r@.meta.timestamp == 0,
        r@.meta.fields == proxy_config.spec_map().push(("license_key"@, license_key@)).push(
            ("visitor_id"@, visitor_id@),
        ),
        r@.data.len() == 0,
{
    let mut meta_map = proxy_config.to_map();
    meta_map.push((keys::license_key_key().to_owned(), license_key));
    meta_map.push((keys::visitor_id_key().to_owned(), visitor_id));
    let r = TransferDataMessage {
        cmd_type: CmdType::Connect,
        meta_data: TransferMessageMetaData { timestamp: 0, meta_data: meta_map },
        data: Vec::new(),
    };
    proof {
        assert(r@.meta.fields =~= proxy_config.spec_map().push(
            ("license_key"@, license_key@),
        ).push(("visitor_id"@, visitor_id@)));
    }
    r
}

/// Build the Disconnect frame that tears a visitor session down.
pub fn build_disconnect_message(license_key: String, visitor_id: String) -> (r:
    TransferDataMessage)
    ensures
        r.cmd_type == CmdType::Disconnect,
        r@.meta.timestamp == 0,
        r@.meta.fields == seq![("license_key"@, license_key@), ("visitor_id"@, visitor_id@)],
        r@.data.len() == 0,
{
    let mut meta_map: Vec<(String, String)> = Vec::new();
    meta_map.push((keys::license_key_key().to_owned(), license_key));
    meta_map.push((keys::visitor_id_key().to_owned(), visitor_id));
    let r = TransferDataMessage {
        cmd_type: CmdType::Disconnect,
        meta_data: TransferMessageMetaData { timestamp: 0, meta_data: meta_map },
        data: Vec::new(),
    };
    proof {
        assert(r@.meta.fields =~= seq![
            ("license_key"@, license_key@),
            ("visitor_id"@, visitor_id@),
        ]);
    }
    r
}

/// Build a Transfer frame relaying one chunk of bytes for a visitor.
pub fn build_transfer_message(data: Vec<u8>, visitor_id: String, license_key: String) -> (r:
    TransferDataMessage)
    ensures
        r.cmd_type == CmdType::Transfer,
        r@.meta.timestamp == 0,
        r@.meta.fields == seq![("visitor_id"@, visitor_id@), ("license_key"@, license_key@)],
        r@.data == data@,
{
    let mut meta_map: Vec<(String, String)> = Vec::new();
    meta_map.push((keys::visitor_id_key().to_owned(), visitor_id));
    meta_map.push((keys::license_key_key().to_owned(), license_key));
    let r = TransferDataMessage {
        cmd_type: CmdType::Transfer,
        meta_data: TransferMessageMetaData { timestamp: 0, meta_data: meta_map },
        data,
    };
    proof {
        assert(r@.meta.fields =~= seq![
            ("visitor_id"@, visitor_id@),
            ("license_key"@, license_key@),
        ]);
    }
    r
}

} // verus!

use vstd::prelude::*;

verus! {

use crate::builder::build_auth_message;
use crate::builder::build_connect_message;
use crate::builder::build_disconnect_message;
use crate::builder::build_open_server_message;
use crate::builder::build_transfer_message;
use crate::keys;
use crate::message::CmdType;
use crate::message::TransferDataMessage;
use crate::message::spec_lookup;
use crate::proxy::ProxyConfig;
use crate::registry::LocalManager;

/// Where the client stands in the protocol handshake.
pub enum ClientState {
    /// Auth sent, answer outstanding.
    Authenticating,
    /// AuthOk received; every later frame echoes this license key.
    Serving { license_key: String },
    /// A fatal event ended the client.
    Terminated,
}

/// What the surrounding tasks must do after a frame was interpreted.
pub enum Action {
    /// Enqueue this frame on the shared outbound queue.
    Send(TransferDataMessage),
    /// Spawn a session worker for this visitor against this target.
    StartSession { visitor_id: String, proxy: ProxyConfig },
    /// Hand this payload to the visitor's registered session channel.
    Forward { visitor_id: String, data: Vec<u8> },
    /// Tear the whole client down.
    Stop,
}

/// The command dispatcher: interprets inbound frames, drives the handshake,
/// and keeps the session registry. `T` is the per-visitor channel handle the
/// surrounding runtime registers.
pub struct Client<T> {
    pub state: ClientState,
    pub registry: LocalManager<T>,
    pub password: String,
    pub proxy: ProxyConfig,
}

/// The value of one metadata field of a frame, if present.
pub open spec fn spec_field(m: TransferDataMessage, key: Seq<char>) -> Option<Seq<char>> {
    spec_lookup(m@.meta.fields, key)
}

impl<T> Client<T> {
    pub open spec fn wf(&self) -> bool {
        self.registry.wf()
    }

    /// A fresh client about to authenticate.
    pub fn new(password: String, proxy: ProxyConfig) -> (r: Self)
        ensures
            r.wf(),
            r.state is Authenticating,
            forall|id: Seq<char>| #[trigger] r.registry.spec_get(id) is None,
            r.password@ == password@,
            r.proxy == proxy,
    {
        Client {
            state: ClientState::Authenticating,
            registry: LocalManager::new(),
            password,
            proxy,
        }
    }

    /// The Auth frame that opens the handshake.
    pub fn auth_frame(&self) -> (r: TransferDataMessage)
        ensures
            r.cmd_type == CmdType::Auth,
            r@.meta.fields == seq![("auth_password"@, self.password@)],
            r@.data.len() == 0,
    {
        build_auth_message(self.password.as_str())
    }

    /// Interpret one inbound frame.
    ///
    /// In `Authenticating`: AuthOk with a license key advertises the
    /// configured proxy through exactly one OpenServer frame and moves to
    /// `Serving`; AuthOk without one, AuthErr, and everything else are fatal.
    /// In `Serving`: Connect starts a session, Disconnect removes one,
    /// Transfer forwards a payload to a registered session; a frame naming
    /// an unknown visitor is a recoverable no-op; any other command ends the
    /// serving loop. A terminated client ignores everything.
    pub fn handle_frame(&mut self, msg: &TransferDataMessage) -> (r: Vec<Action>)
        requires
            old(self).wf(),
        ensures
            final(self).wf(),
            final(self).password == old(self).password,
            final(self).proxy == old(self).proxy,
            // authentication accepted: exactly one OpenServer echoing the license key
            old(self).state is Authenticating && msg.cmd_type == CmdType::AuthOk ==> (spec_field(
                *msg,
                "license_key"@,
            ) matches Some(lk) ==> {
                &&& (final(self).state matches ClientState::Serving { license_key } && license_key@
                    == lk)
                &&& final(self).registry == old(self).registry
                &&& r@.len() == 1
                &&& (r@[0] matches Action::Send(os) && os.cmd_type == CmdType::OpenServer
                    && os@.meta.fields == old(self).proxy.spec_map().push(("license_key"@, lk))
                    && os@.data.len() == 0)
            }),
            // authentication answer without a license key, or rejection: fatal
            old(self).state is Authenticating && msg.cmd_type == CmdType::AuthOk && spec_field(*msg, "license_key"@) is None ==> final(self).state is Terminated && r@ =~= seq![Action::Stop],
            old(self).state is Authenticating && msg.cmd_type != CmdType::AuthOk ==> final(self).state is Terminated && r@ =~= seq![Action::Stop],
            // serving: Connect with a visitor id and a readable proxy starts a session
            old(self).state is Serving && msg.cmd_type == CmdType::Connect ==> {
                &&& final(self).state == old(self).state
                &&& final(self).registry == old(self).registry
                &&& (match spec_field(*msg, "visitor_id"@) {
                    Some(v) => {
                        &&& (ProxyConfig::spec_from_map_ok(msg@.meta.fields) ==> {
                            &&& r@.len() == 1
                            &&& (r@[0] matches Action::StartSession { visitor_id, proxy }
                                && visitor_id@ == v
                                && spec_lookup(msg@.meta.fields, "proxy_host"@) == Some(
                                proxy.host@,
                            )
                                && (spec_lookup(msg@.meta.fields, "proxy_port"@) matches Some(ps)
                                    && crate::strutil::spec_parse_i32(ps) == Some(proxy.port))
                                && (spec_lookup(msg@.meta.fields, "open_port"@) matches Some(os)
                                    && crate::strutil::spec_parse_i32(os) == Some(
                                    proxy.open_port,
                                )))
                        })
                        &&& (!ProxyConfig::spec_from_map_ok(msg@.meta.fields) ==> r@.len() == 0)
                    },
                    None => r@.len() == 0,
                })
            },
            // serving: Disconnect removes the session; a second Disconnect for
            // the same id changes nothing
            old(self).state is Serving && msg.cmd_type == CmdType::Disconnect ==> {
                &&& final(self).state == old(self).state
                &&& r@.len() == 0
                &&& (spec_field(*msg, "visitor_id"@) matches Some(v) ==> {
                    &&& final(self).registry.spec_get(v) is None
                    &&& (forall|k: Seq<char>|
                        k != v ==> #[trigger] final(self).registry.spec_get(k) == old(self).registry.spec_get(k))
                    &&& (old(self).registry.spec_get(v) is None ==> final(self).registry == old(self).registry)
                })
                &&& (spec_field(*msg, "visitor_id"@) is None ==> final(self).registry == old(self).registry)
            },
            // serving: Transfer forwards to a registered visitor and is a
            // logged no-op for an unknown one
            old(self).state is Serving && msg.cmd_type == CmdType::Transfer ==> {
                &&& final(self).state == old(self).state
                &&& final(self).registry == old(self).registry
                &&& (match spec_field(*msg, "visitor_id"@) {
                    Some(v) => {
                        &&& (old(self).registry.spec_get(v) is Some ==> {
                            &&& r@.len() == 1
                            &&& (r@[0] matches Action::Forward { visitor_id, data } && visitor_id@
                                == v && data@ == msg@.data)
                        })
                        &&& (old(self).registry.spec_get(v) is None ==> r@.len() == 0)
                    },
                    None => r@.len() == 0,
                })
            },
            // serving: anything else ends the serving loop
            old(self).state is Serving && !(msg.cmd_type == CmdType::Connect || msg.cmd_type
                == CmdType::Disconnect || msg.cmd_type == CmdType::Transfer) ==> final(self).state is Terminated && r@ =~= seq![Action::Stop],
            // a terminated client ignores everything
            old(self).state is Terminated ==> *final(self) == *old(self) && r@.len() == 0,
    {
        let authenticating = matches!(self.state, ClientState::Authenticating);
        let serving = matches!(self.state, ClientState::Serving { .. });
        if authenticating {
            match msg.cmd_type {
                CmdType::AuthOk => {
                    match msg.get_meta(keys::license_key_key()) {
                        Some(l) => {
                            let license = l.clone();
                            let os = build_open_server_message(&self.proxy, license.clone());
                            self.state = ClientState::Serving { license_key: license };
                            let mut acts: Vec<Action> = Vec::new();
                            acts.push(Action::Send(os));
                            acts
                        },
                        None => {
                            self.state = ClientState::Terminated;
                            let mut acts: Vec<Action> = Vec::new();
                            acts.push(Action::Stop);
                            acts
                        },
                    }
                },
                _ => {
                    self.state = ClientState::Terminated;
                    let mut acts: Vec<Action> = Vec::new();
                    acts.push(Action::Stop);
                    acts
                },
            }
        } else if serving {
            match msg.cmd_type {
                CmdType::Connect => {
                    let vid = match msg.get_meta(keys::visitor_id_key()) {
                        Some(v) => v.clone(),
                        None => {
                            return Vec::new();
                        },
                    };
                    match ProxyConfig::from_map(&msg.meta_data.meta_data) {
                        Some(pc) => {
                            let mut acts: Vec<Action> = Vec::new();
                            acts.push(Action::StartSession { visitor_id: vid, proxy: pc });
                            acts
                        },
                        None => Vec::new(),
                    }
                },
                CmdType::Disconnect => {
                    match msg.get_meta(keys::visitor_id_key()) {
                        Some(v) => {
                            let vid = v.clone();
                            self.registry.remove_sender(vid.as_str());
                            Vec::new()
                        },
                        None => Vec::new(),
                    }
                },
                CmdType::Transfer => {
                    let vid = match msg.get_meta(keys::visitor_id_key()) {
                        Some(v) => v.clone(),
                        None => {
                            return Vec::new();
                        },
                    };
                    match self.registry.get_sender(vid.as_str()) {
                        Some(_) => {
                            let mut data: Vec<u8> = Vec::new();
                            data.extend_from_slice(msg.data.as_slice());
                            proof {
                                assert(data@ =~= msg@.data);
                            }
                            let mut acts: Vec<Action> = Vec::new();
                            acts.push(Action::Forward { visitor_id: vid, data });
                            acts
                        },
                        None => Vec::new(),
                    }
                },
                _ => {
                    self.state = ClientState::Terminated;
                    let mut acts: Vec<Action> = Vec::new();
                    acts.push(Action::Stop);
                    acts
                },
            }
        } else {
            Vec::new()
        }
    }

    /// The license key issued by the server, once serving.
    pub fn license_key(&self) -> (r: Option<&String>)
        ensures
            match r {
                Some(l) => self.state matches ClientState::Serving { license_key } && license_key@
                    == l@,
                None => !(self.state is Serving),
            },
    {
        match &self.state {
            ClientState::Serving { license_key } => Some(license_key),
            _ => None,
        }
    }

    /// Register the freshly created channel handle for a visitor whose
    /// session is starting.
    pub fn register(&mut self, visitor_id: String, sender: T)
        requires
            old(self).wf(),
        ensures
            final(self).wf(),
            final(self).state == old(self).state,
            final(self).registry.spec_get(visitor_id@) == Some(sender),
            forall|k: Seq<char>|
                k != visitor_id@ ==> #[trigger] final(self).registry.spec_get(k) == old(self).registry.spec_get(k),
    {
        self.registry.put_sender(visitor_id, sender);
    }
}

/// The frames a session worker sends when it starts: one Connect
/// acknowledgment when the target connection succeeded; exactly one
/// Disconnect, and no acknowledgment, when it failed.
pub fn worker_start_frames(connected: bool, proxy: ProxyConfig, license_key: String, visitor_id: String) -> (r: Vec<TransferDataMessage>)
    ensures
        r@.len() == 1,
        connected ==> r@[0].cmd_type == CmdType::Connect && r@[0]@.meta.fields
            == proxy.spec_map().push(("license_key"@, license_key@)).push(
            ("visitor_id"@, visitor_id@),
        ) && r@[0]@.data.len() == 0,
        !connected ==> r@[0].cmd_type == CmdType::Disconnect && r@[0]@.meta.fields == seq![
            ("license_key"@, license_key@),
            ("visitor_id"@, visitor_id@),
        ] && r@[0]@.data.len() == 0,
{
    let mut frames: Vec<TransferDataMessage> = Vec::new();
    if connected {
        frames.push(build_connect_message(proxy, license_key, visitor_id));
    } else {
        frames.push(build_disconnect_message(license_key, visitor_id));
    }
    frames
}

/// The Transfer frame a session worker emits for one chunk read from its
/// target; end of stream (an empty read) emits nothing.
pub fn worker_relay_frame(data: Vec<u8>, visitor_id: String, license_key: String) -> (r: Option<
    TransferDataMessage,
>)
    ensures
        data@.len() == 0 ==> r is None,
        data@.len() > 0 ==> (r matches Some(t) && t.cmd_type == CmdType::Transfer && t@.data
            == data@ && t@.meta.fields == seq![
            ("visitor_id"@, visitor_id@),
            ("license_key"@, license_key@),
        ]),
{
    if data.len() == 0 {
        None
    } else {
        Some(build_transfer_message(data, visitor_id, license_key))
    }
}

} // verus!

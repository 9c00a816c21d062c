use vstd::prelude::*;

verus! {

use crate::keys;
use crate::message::get_field;
use crate::message::spec_lookup;
use crate::protocol::ProtocolEnum;
use crate::strutil::fmt_i32;
use crate::strutil::parse_i32;
use crate::strutil::spec_i32_str;
use crate::strutil::spec_parse_i32;
use vstd::string::StringExecFns;

/// Description of one local service to expose: where to reach it locally,
/// which public port to request, and over which protocol.
pub struct ProxyConfig {
    pub host: String,
    pub port: i32,
    pub open_port: i32,
    pub protocol: ProtocolEnum,
}

impl Clone for ProxyConfig {
    fn clone(&self) -> (r: Self)
        ensures
            r.host@ == self.host@,
            r.port == self.port,
            r.open_port == self.open_port,
            r.protocol.spec_str() == self.protocol.spec_str(),
    {
        ProxyConfig {
            host: self.host.clone(),
            port: self.port,
            open_port: self.open_port,
            protocol: match &self.protocol {
                ProtocolEnum::TCP => ProtocolEnum::TCP,
                ProtocolEnum::UDP => ProtocolEnum::UDP,
                ProtocolEnum::Unknown(o) => ProtocolEnum::Unknown(o.clone()),
            },
        }
    }
}

impl ProxyConfig {
    pub fn new(host: String, port: i32, open_port: i32, protocol: ProtocolEnum) -> (r: Self)
        ensures
            r.host@ == host@,
            r.port == port,
            r.open_port == open_port,
            r.protocol == protocol,
    {
        Self { host, port, open_port, protocol }
    }

    pub fn host(&self) -> (r: &str)
        ensures
            r@ == self.host@,
    {
        self.host.as_str()
    }

    pub fn port(&self) -> (r: i32)
        ensures
            r == self.port,
    {
        self.port
    }

    pub fn open_port(&self) -> (r: i32)
        ensures
            r == self.open_port,
    {
        self.open_port
    }

    pub fn protocol(&self) -> (r: ProtocolEnum)
        ensures
            r.spec_str() == self.protocol.spec_str(),
    {
        match &self.protocol {
            ProtocolEnum::TCP => ProtocolEnum::TCP,
            ProtocolEnum::UDP => ProtocolEnum::UDP,
            ProtocolEnum::Unknown(o) => ProtocolEnum::Unknown(o.clone()),
        }
    }

    /// The flat string map this proxy contributes to frame metadata.
    pub open spec fn spec_map(&self) -> Seq<(Seq<char>, Seq<char>)> {
        seq![
            ("proxy_host"@, self.host@),
            ("proxy_port"@, spec_i32_str(self.port as int)),
            ("proxy_protocol"@, self.protocol.spec_str()),
            ("open_port"@, spec_i32_str(self.open_port as int)),
        ]
    }

    /// Render this proxy as metadata fields.
    pub fn to_map(&self) -> (r: Vec<(String, String)>)
        ensures
            r@.map_values(|p: (String, String)| (p.0@, p.1@)) == self.spec_map(),
    {
        let mut data: Vec<(String, String)> = Vec::new();
        data.push((keys::proxy_host_key().to_owned(), self.host.clone()));
        data.push((keys::proxy_port_key().to_owned(), fmt_i32(self.port)));
        data.push((keys::proxy_protocol_key().to_owned(), self.protocol.as_str().to_owned()));
        data.push((keys::open_port_key().to_owned(), fmt_i32(self.open_port)));
        proof {
            assert(data@.map_values(|p: (String, String)| (p.0@, p.1@)) =~= self.spec_map());
        }
        data
    }

    /// Whether metadata fields carry everything a proxy needs: the four
    /// fields present, the ports decimal numbers, the protocol known.
    pub open spec fn spec_from_map_ok(fv: Seq<(Seq<char>, Seq<char>)>) -> bool {
        &&& spec_lookup(fv, "proxy_host"@) is Some
        &&& (spec_lookup(fv, "proxy_port"@) matches Some(ps) && spec_parse_i32(ps) is Some)
        &&& (spec_lookup(fv, "proxy_protocol"@) matches Some(pr) && ProtocolEnum::spec_of(pr) is Some)
        &&& (spec_lookup(fv, "open_port"@) matches Some(os) && spec_parse_i32(os) is Some)
    }

    /// Read a proxy back out of metadata fields; `None` exactly when a field
    /// is absent or malformed.
    pub fn from_map(data: &Vec<(String, String)>) -> (r: Option<Self>)
        ensures
            ({
                let fv = data@.map_values(|p: (String, String)| (p.0@, p.1@));
                &&& (r is Some <==> Self::spec_from_map_ok(fv))
                &&& (r matches Some(p) ==> {
                    &&& spec_lookup(fv, "proxy_host"@) == Some(p.host@)
                    &&& (spec_lookup(fv, "proxy_port"@) matches Some(ps) && spec_parse_i32(ps)
                        == Some(p.port))
                    &&& (spec_lookup(fv, "proxy_protocol"@) matches Some(pr)
                        && ProtocolEnum::spec_of(pr) == Some(p.protocol))
                    &&& (spec_lookup(fv, "open_port"@) matches Some(os) && spec_parse_i32(os)
                        == Some(p.open_port))
                })
            }),
    {
        let host = match get_field(data, keys::proxy_host_key()) {
            Some(h) => h.clone(),
            None => {
                return None;
            },
        };
        let port = match get_field(data, keys::proxy_port_key()) {
            Some(p) => match parse_i32(p.as_str()) {
                Some(n) => n,
                None => {
                    return None;
                },
            },
            None => {
                return None;
            },
        };
        let protocol = match get_field(data, keys::proxy_protocol_key()) {
            Some(p) => match ProtocolEnum::of(p.as_str()) {
                Some(pr) => pr,
                None => {
                    return None;
                },
            },
            None => {
                return None;
            },
        };
        let open_port = match get_field(data, keys::open_port_key()) {
            Some(p) => match parse_i32(p.as_str()) {
                Some(n) => n,
                None => {
                    return None;
                },
            },
            None => {
                return None;
            },
        };
        Some(Self { host, port, open_port, protocol })
    }
}

/// Writing a proxy to metadata fields and reading it back loses nothing,
/// for the protocols with a known spelling.
pub proof fn lemma_proxy_map_round_trip(p: ProxyConfig)
    requires
        p.protocol is TCP || p.protocol is UDP,
    ensures
        ProxyConfig::spec_from_map_ok(p.spec_map()),
        spec_lookup(p.spec_map(), "proxy_host"@) == Some(p.host@),
        (spec_lookup(p.spec_map(), "proxy_port"@) matches Some(ps) && spec_parse_i32(ps) == Some(
            p.port,
        )),
        (spec_lookup(p.spec_map(), "proxy_protocol"@) matches Some(pr) && ProtocolEnum::spec_of(pr)
            == Some(p.protocol)),
        (spec_lookup(p.spec_map(), "open_port"@) matches Some(os) && spec_parse_i32(os) == Some(
            p.open_port,
        )),
{
    let m = p.spec_map();
    reveal_with_fuel(spec_lookup, 6);
    reveal_strlit("proxy_host");
    reveal_strlit("proxy_port");
    reveal_strlit("proxy_protocol");
    reveal_strlit("open_port");
    assert(("proxy_host"@)[6] == 'h');
    assert(("proxy_port"@)[6] == 'p');
    assert("proxy_host"@ != "proxy_port"@);
    assert(("proxy_host"@).len() != ("proxy_protocol"@).len());
    assert(("proxy_host"@).len() != ("open_port"@).len());
    assert(("proxy_port"@).len() != ("proxy_protocol"@).len());
    assert(("proxy_port"@).len() != ("open_port"@).len());
    assert(("proxy_protocol"@).len() != ("open_port"@).len());
    let e1 = ("proxy_port"@, spec_i32_str(p.port as int));
    let e2 = ("proxy_protocol"@, p.protocol.spec_str());
    let e3 = ("open_port"@, spec_i32_str(p.open_port as int));
    assert(m.drop_first() =~= seq![e1, e2, e3]);
    assert(seq![e1, e2, e3].drop_first() =~= seq![e2, e3]);
    assert(seq![e2, e3].drop_first() =~= seq![e3]);
    assert(spec_lookup(m, "proxy_host"@) == Some(p.host@));
    assert(spec_lookup(m, "proxy_port"@) == Some(spec_i32_str(p.port as int)));
    assert(spec_lookup(m, "proxy_protocol"@) == Some(p.protocol.spec_str()));
    assert(spec_lookup(m, "open_port"@) == Some(spec_i32_str(p.open_port as int)));
    crate::strutil::lemma_i32_str_round_trip(p.port);
    crate::strutil::lemma_i32_str_round_trip(p.open_port);
    crate::protocol::lemma_protocol_round_trip(p.protocol);
}

} // verus!

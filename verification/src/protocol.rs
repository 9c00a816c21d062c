use vstd::prelude::*;

verus! {

use crate::strutil::str_eq;

/// The transport protocol a proxy exposes. Unknown strings are carried
/// through unchanged rather than rejected.
#[derive(Clone, Debug)]
pub enum ProtocolEnum {
    TCP,
    UDP,
    Unknown(String),
}

impl ProtocolEnum {
    /// The wire spelling of this protocol.
    pub open spec fn spec_str(&self) -> Seq<char> {
        match self {
            ProtocolEnum::TCP => "tcp"@,
            ProtocolEnum::UDP => "udp"@,
            ProtocolEnum::Unknown(other) => other@,
        }
    }

    /// Which protocols a spelling names: only the two known ones.
    pub open spec fn spec_of(v: Seq<char>) -> Option<ProtocolEnum> {
        if v == "tcp"@ {
            Some(ProtocolEnum::TCP)
        } else if v == "udp"@ {
            Some(ProtocolEnum::UDP)
        } else {
            None
        }
    }

    /// Look a spelling up among the known protocols.
    pub fn of(value: &str) -> (r: Option<ProtocolEnum>)
        ensures
            r == ProtocolEnum::spec_of(value@),
    {
        if str_eq(value, "tcp") {
            Some(ProtocolEnum::TCP)
        } else if str_eq(value, "udp") {
            Some(ProtocolEnum::UDP)
        } else {
            None
        }
    }

    /// The spelling of this protocol.
    pub fn as_str(&self) -> (r: &str)
        ensures
            r@ == self.spec_str(),
    {
        match self {
            ProtocolEnum::TCP => "tcp",
            ProtocolEnum::UDP => "udp",
            ProtocolEnum::Unknown(other) => other.as_str(),
        }
    }
}

/// The two known spellings name distinct protocols, and looking up the
/// spelling of a known protocol returns that protocol.
pub proof fn lemma_protocol_round_trip(p: ProtocolEnum)
    requires
        p is TCP || p is UDP,
    ensures
        ProtocolEnum::spec_of(p.spec_str()) == Some(p),
{
    reveal_strlit("tcp");
    reveal_strlit("udp");
    match p {
        ProtocolEnum::TCP => {
            assert(p.spec_str() == "tcp"@);
        },
        ProtocolEnum::UDP => {
            assert(("tcp"@)[0] == 't');
            assert(("udp"@)[0] == 'u');
            assert("tcp"@ != "udp"@);
        },
        ProtocolEnum::Unknown(_) => {},
    }
}

} // verus!

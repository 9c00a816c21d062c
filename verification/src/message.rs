use vstd::prelude::*;

verus! {

use crate::strutil::str_eq;

/// The command a frame carries. Codes not assigned to a known command are
/// kept in `Unrecognized` for forward compatibility.
#[derive(Clone, Copy, Debug, PartialEq, Eq, Structural)]
pub enum CmdType {
    Auth,
    AuthOk,
    AuthErr,
    OpenServer,
    Connect,
    Disconnect,
    Transfer,
    Unrecognized(u8),
}

/// Frame metadata: an epoch timestamp and a flat string-keyed dictionary.
pub struct TransferMessageMetaData {
    pub timestamp: u64,
    pub meta_data: Vec<(String, String)>,
}

/// Mathematical model of frame metadata.
pub struct MetaDataView {
    pub timestamp: u64,
    pub fields: Seq<(Seq<char>, Seq<char>)>,
}

impl View for TransferMessageMetaData {
    type V = MetaDataView;

    open spec fn view(&self) -> MetaDataView {
        MetaDataView {
            timestamp: self.timestamp,
            fields: self.meta_data@.map_values(|p: (String, String)| (p.0@, p.1@)),
        }
    }
}

/// One protocol frame: a command, metadata, and (for Transfer) a payload.
pub struct TransferDataMessage {
    pub cmd_type: CmdType,
    pub meta_data: TransferMessageMetaData,
    pub data: Vec<u8>,
}

/// Mathematical model of a frame.
pub struct MessageView {
    pub cmd_type: CmdType,
    pub meta: MetaDataView,
    pub data: Seq<u8>,
}

impl View for TransferDataMessage {
    type V = MessageView;

    open spec fn view(&self) -> MessageView {
        MessageView { cmd_type: self.cmd_type, meta: self.meta_data@, data: self.data@ }
    }
}

/// The value under the first occurrence of a key in a field list, if any.
pub open spec fn spec_lookup(fields: Seq<(Seq<char>, Seq<char>)>, key: Seq<char>) -> Option<
    Seq<char>,
>
    decreases fields.len(),
{
    if fields.len() == 0 {
        None
    } else if fields[0].0 == key {
        Some(fields[0].1)
    } else {
        spec_lookup(fields.drop_first(), key)
    }
}

/// Look a key up in a field list; absence of a field on a received frame is
/// reported as `None`, never a failure.
pub fn get_field<'a>(fields: &'a Vec<(String, String)>, key: &str) -> (r: Option<&'a String>)
    ensures
        match r {
            Some(v) => spec_lookup(
                fields@.map_values(|p: (String, String)| (p.0@, p.1@)),
                key@,
            ) == Some(v@),
            None => spec_lookup(
                fields@.map_values(|p: (String, String)| (p.0@, p.1@)),
                key@,
            ) is None,
        },
{
    let ghost fv = fields@.map_values(|p: (String, String)| (p.0@, p.1@));
    proof {
        assert(fv.skip(0) =~= fv);
    }
    let mut i: usize = 0;
    while i < fields.len()
        invariant
            0 <= i <= fields.len(),
            fv == fields@.map_values(|p: (String, String)| (p.0@, p.1@)),
            spec_lookup(fv, key@) == spec_lookup(fv.skip(i as int), key@),
        decreases fields.len() - i,
    {
        proof {
            assert(fv.skip(i as int)[0] == fv[i as int]);
            assert(fv.skip(i as int).drop_first() =~= fv.skip(i + 1));
        }
        if str_eq(fields[i].0.as_str(), key) {
            return Some(&fields[i].1);
        }
        i += 1;
    }
    proof {
        assert(fv.skip(fields@.len() as int) =~= Seq::<(Seq<char>, Seq<char>)>::empty());
    }
    None
}

impl TransferDataMessage {
    /// The value of a metadata field of this frame, if present.
    pub fn get_meta<'a>(&'a self, key: &str) -> (r: Option<&'a String>)
        ensures
            match r {
                Some(v) => spec_lookup(self@.meta.fields, key@) == Some(v@),
                None => spec_lookup(self@.meta.fields, key@) is None,
            },
    {
        get_field(&self.meta_data.meta_data, key)
    }
}

} // verus!

use vstd::prelude::*;

verus! {

use crate::message::CmdType;
use crate::message::MessageView;
use crate::message::MetaDataView;
use crate::message::TransferDataMessage;
use crate::message::TransferMessageMetaData;
use vstd::bytes::lemma_auto_spec_u64_to_from_le_bytes;
use vstd::bytes::spec_u64_from_le_bytes;
use vstd::bytes::spec_u64_to_le_bytes;
use vstd::bytes::u64_from_le_bytes;
use vstd::bytes::u64_to_le_bytes;
use vstd::slice::slice_to_vec;
use vstd::string::StringSliceAdditionalSpecFns;
use vstd::utf8::decode_utf8;
use vstd::utf8::encode_utf8;
use vstd::utf8::valid_utf8;

/// Wire code of a command.
pub open spec fn spec_cmd_code(c: CmdType) -> u8 {
    match c {
        CmdType::Auth => 1,
        CmdType::AuthOk => 2,
        CmdType::AuthErr => 3,
        CmdType::OpenServer => 4,
        CmdType::Connect => 5,
        CmdType::Disconnect => 6,
        CmdType::Transfer => 7,
        CmdType::Unrecognized(x) => x,
    }
}

/// The command a wire code names.
pub open spec fn spec_cmd_of(x: u8) -> CmdType {
    if x == 1 {
        CmdType::Auth
    } else if x == 2 {
        CmdType::AuthOk
    } else if x == 3 {
        CmdType::AuthErr
    } else if x == 4 {
        CmdType::OpenServer
    } else if x == 5 {
        CmdType::Connect
    } else if x == 6 {
        CmdType::Disconnect
    } else if x == 7 {
        CmdType::Transfer
    } else {
        CmdType::Unrecognized(x)
    }
}

/// A command is wire-faithful when an unrecognized code does not shadow a
/// known command's code.
pub open spec fn wf_cmd(c: CmdType) -> bool {
    c matches CmdType::Unrecognized(x) ==> (x == 0 || x > 7)
}

fn cmd_code(c: CmdType) -> (r: u8)
    ensures
        r == spec_cmd_code(c),
{
    match c {
        CmdType::Auth => 1,
        CmdType::AuthOk => 2,
        CmdType::AuthErr => 3,
        CmdType::OpenServer => 4,
        CmdType::Connect => 5,
        CmdType::Disconnect => 6,
        CmdType::Transfer => 7,
        CmdType::Unrecognized(x) => x,
    }
}

fn cmd_of(x: u8) -> (r: CmdType)
    ensures
        r == spec_cmd_of(x),
        wf_cmd(r),
{
    if x == 1 {
        CmdType::Auth
    } else if x == 2 {
        CmdType::AuthOk
    } else if x == 3 {
        CmdType::AuthErr
    } else if x == 4 {
        CmdType::OpenServer
    } else if x == 5 {
        CmdType::Connect
    } else if x == 6 {
        CmdType::Disconnect
    } else if x == 7 {
        CmdType::Transfer
    } else {
        CmdType::Unrecognized(x)
    }
}

/// A string on the wire: its UTF-8 byte length, then its UTF-8 bytes.
pub open spec fn spec_enc_str(s: Seq<char>) -> Seq<u8> {
    spec_u64_to_le_bytes(encode_utf8(s).len() as u64) + encode_utf8(s)
}

/// Metadata fields on the wire, in order, key before value.
pub open spec fn spec_enc_fields(fs: Seq<(Seq<char>, Seq<char>)>) -> Seq<u8>
    decreases fs.len(),
{
    if fs.len() == 0 {
        Seq::empty()
    } else {
        spec_enc_str(fs[0].0) + spec_enc_str(fs[0].1) + spec_enc_fields(fs.drop_first())
    }
}

/// The body of a frame on the wire: command code, timestamp, field count,
/// the fields, payload length, payload.
pub open spec fn spec_enc_body(m: MessageView) -> Seq<u8> {
    seq![spec_cmd_code(m.cmd_type)] + spec_u64_to_le_bytes(m.meta.timestamp)
        + spec_u64_to_le_bytes(m.meta.fields.len() as u64) + spec_enc_fields(m.meta.fields)
        + spec_u64_to_le_bytes(m.data.len() as u64) + m.data
}

/// What a frame must satisfy for its encoding to be faithful: a
/// wire-faithful command, and every length below the wire's limit. Every
/// frame held in memory satisfies the length bounds.
pub open spec fn wf_view(m: MessageView) -> bool {
    &&& wf_cmd(m.cmd_type)
    &&& m.meta.fields.len() < 0x1_0000_0000_0000_0000
    &&& m.data.len() < 0x1_0000_0000_0000_0000
    &&& forall|i: int|
        0 <= i < m.meta.fields.len() ==> encode_utf8(#[trigger] m.meta.fields[i].0).len()
            < 0x1_0000_0000_0000_0000 && encode_utf8(m.meta.fields[i].1).len()
            < 0x1_0000_0000_0000_0000
}

/// Read one wire string off the front of a byte sequence.
pub open spec fn spec_dec_str(b: Seq<u8>) -> Option<(Seq<char>, Seq<u8>)> {
    if b.len() < 8 {
        None
    } else {
        let l = spec_u64_from_le_bytes(b.subrange(0, 8)) as int;
        if b.len() - 8 < l {
            None
        } else {
            let sb = b.subrange(8, 8 + l);
            if valid_utf8(sb) {
                Some((decode_utf8(sb), b.skip(8 + l)))
            } else {
                None
            }
        }
    }
}

/// Read a given number of metadata fields off the front of a byte sequence.
pub open spec fn spec_dec_fields(b: Seq<u8>, n: nat) -> Option<
    (Seq<(Seq<char>, Seq<char>)>, Seq<u8>),
>
    decreases n,
{
    if n == 0 {
        Some((Seq::empty(), b))
    } else {
        match spec_dec_str(b) {
            None => None,
            Some((k, b1)) => match spec_dec_str(b1) {
                None => None,
                Some((v, b2)) => match spec_dec_fields(b2, (n - 1) as nat) {
                    None => None,
                    Some((fs, rest)) => Some((seq![(k, v)] + fs, rest)),
                },
            },
        }
    }
}

/// Decode one frame body; `None` exactly when the bytes are not a
/// well-formed body consumed in full.
pub open spec fn spec_dec_body(b: Seq<u8>) -> Option<MessageView> {
    if b.len() < 17 {
        None
    } else {
        let code = b[0];
        let ts = spec_u64_from_le_bytes(b.subrange(1, 9));
        let n = spec_u64_from_le_bytes(b.subrange(9, 17));
        match spec_dec_fields(b.skip(17), n as nat) {
            None => None,
            Some((fs, rest)) => {
                if rest.len() < 8 {
                    None
                } else {
                    let dl = spec_u64_from_le_bytes(rest.subrange(0, 8)) as int;
                    if rest.len() - 8 != dl {
                        None
                    } else {
                        Some(
                            MessageView {
                                cmd_type: spec_cmd_of(code),
                                meta: MetaDataView { timestamp: ts, fields: fs },
                                data: rest.skip(8),
                            },
                        )
                    }
                }
            },
        }
    }
}

proof fn lemma_dec_enc_str(s: Seq<char>, rest: Seq<u8>)
    requires
        encode_utf8(s).len() < 0x1_0000_0000_0000_0000,
    ensures
        spec_dec_str(spec_enc_str(s) + rest) == Some((s, rest)),
{
    broadcast use vstd::utf8::encode_utf8_valid_utf8;
    broadcast use vstd::utf8::encode_utf8_decode_utf8;

    lemma_auto_spec_u64_to_from_le_bytes();
    let eb = encode_utf8(s);
    let b = spec_enc_str(s) + rest;
    assert(spec_u64_to_le_bytes(eb.len() as u64).len() == 8);
    assert(b.subrange(0, 8) =~= spec_u64_to_le_bytes(eb.len() as u64));
    assert(spec_u64_from_le_bytes(b.subrange(0, 8)) == eb.len() as u64);
    assert(b.subrange(8, 8 + eb.len() as int) =~= eb);
    assert(b.skip(8 + eb.len() as int) =~= rest);
    assert(decode_utf8(eb) == s);
}

proof fn lemma_dec_enc_fields(fs: Seq<(Seq<char>, Seq<char>)>, rest: Seq<u8>)
    requires
        forall|i: int|
            0 <= i < fs.len() ==> encode_utf8(#[trigger] fs[i].0).len() < 0x1_0000_0000_0000_0000
                && encode_utf8(fs[i].1).len() < 0x1_0000_0000_0000_0000,
    ensures
        spec_dec_fields(spec_enc_fields(fs) + rest, fs.len() as nat) == Some((fs, rest)),
    decreases fs.len(),
{
    if fs.len() == 0 {
        assert(spec_enc_fields(fs) + rest =~= rest);
    } else {
        let k = fs[0].0;
        let v = fs[0].1;
        let tail = fs.drop_first();
        assert(spec_enc_fields(fs) + rest =~= spec_enc_str(k) + (spec_enc_str(v) + (spec_enc_fields(
            tail,
        ) + rest)));
        lemma_dec_enc_str(k, spec_enc_str(v) + (spec_enc_fields(tail) + rest));
        lemma_dec_enc_str(v, spec_enc_fields(tail) + rest);
        assert(forall|i: int|
            0 <= i < tail.len() ==> encode_utf8(#[trigger] tail[i].0).len()
                < 0x1_0000_0000_0000_0000 && encode_utf8(tail[i].1).len()
                < 0x1_0000_0000_0000_0000) by {
            assert(forall|i: int| 0 <= i < tail.len() ==> tail[i] == fs[i + 1]);
        }
        lemma_dec_enc_fields(tail, rest);
        assert(seq![(k, v)] + tail =~= fs);
    }
}

/// Round trip: decoding the encoding of any well-formed frame yields an
/// equal frame, whatever its command and metadata map.
pub proof fn lemma_codec_round_trip(m: MessageView)
    requires
        wf_view(m),
    ensures
        spec_dec_body(spec_enc_body(m)) == Some(m),
{
    lemma_auto_spec_u64_to_from_le_bytes();
    let b = spec_enc_body(m);
    let fsb = spec_enc_fields(m.meta.fields);
    let tail = spec_u64_to_le_bytes(m.data.len() as u64) + m.data;
    assert(b.len() >= 17);
    assert(b[0] == spec_cmd_code(m.cmd_type));
    assert(b.subrange(1, 9) =~= spec_u64_to_le_bytes(m.meta.timestamp));
    assert(b.subrange(9, 17) =~= spec_u64_to_le_bytes(m.meta.fields.len() as u64));
    assert(b.skip(17) =~= fsb + tail);
    lemma_dec_enc_fields(m.meta.fields, tail);
    assert(tail.subrange(0, 8) =~= spec_u64_to_le_bytes(m.data.len() as u64));
    assert(tail.skip(8) =~= m.data);
    assert(spec_cmd_of(spec_cmd_code(m.cmd_type)) == m.cmd_type);
    assert(spec_dec_body(b) == Some(m));
}

/// Round trip at the stream layer: one encoded frame at the head of a
/// buffer is recognized whole; the length prefix delimits exactly the
/// encoded body, which decodes back to the frame, and the bytes after it
/// are untouched.
pub proof fn lemma_frame_round_trip(m: MessageView, tail: Seq<u8>)
    requires
        wf_view(m),
        spec_enc_body(m).len() < 0x1_0000_0000_0000_0000,
    ensures
        ({
            let framed = spec_u64_to_le_bytes(spec_enc_body(m).len() as u64) + spec_enc_body(m)
                + tail;
            &&& FrameAccumulator::spec_has_frame(framed)
            &&& FrameAccumulator::spec_first_body(framed) == spec_enc_body(m)
            &&& framed.skip(8 + spec_enc_body(m).len() as int) == tail
            &&& spec_dec_body(FrameAccumulator::spec_first_body(framed)) == Some(m)
        }),
{
    lemma_auto_spec_u64_to_from_le_bytes();
    let body = spec_enc_body(m);
    let framed = spec_u64_to_le_bytes(body.len() as u64) + body + tail;
    assert(framed.subrange(0, 8) =~= spec_u64_to_le_bytes(body.len() as u64));
    assert(framed.subrange(8, 8 + body.len() as int) =~= body);
    assert(framed.skip(8 + body.len() as int) =~= tail);
    lemma_codec_round_trip(m);
}

/// Relies on `String::from_utf8`: it succeeds exactly on valid UTF-8 input
/// and returns the string whose characters the bytes decode to.
#[verifier::external_body]
fn string_from_utf8(v: Vec<u8>) -> (r: Option<String>)
    ensures
        r is Some <==> valid_utf8(v@),
        r matches Some(s) ==> s@ == decode_utf8(v@),
{
    match String::from_utf8(v) {
        Ok(s) => Some(s),
        Err(_) => None,
    }
}

fn encode_str_into(out: &mut Vec<u8>, s: &str)
    ensures
        final(out)@ == old(out)@ + spec_enc_str(s@),
        encode_utf8(s@).len() < 0x1_0000_0000_0000_0000,
{
    let bs = s.as_bytes();
    let len_bytes = u64_to_le_bytes(bs.len() as u64);
    proof {
        assert(bs@ == encode_utf8(s@));
    }
    out.extend_from_slice(len_bytes.as_slice());
    out.extend_from_slice(bs);
    proof {
        assert(out@ =~= old(out)@ + spec_enc_str(s@));
    }
}

proof fn lemma_enc_fields_snoc(fs: Seq<(Seq<char>, Seq<char>)>, p: (Seq<char>, Seq<char>))
    ensures
        spec_enc_fields(fs.push(p)) == spec_enc_fields(fs) + spec_enc_str(p.0) + spec_enc_str(p.1),
    decreases fs.len(),
{
    if fs.len() == 0 {
        assert(fs.push(p)[0] == p);
        assert(fs.push(p).drop_first() =~= fs);
        assert(spec_enc_fields(fs.push(p)) =~= spec_enc_fields(fs) + spec_enc_str(p.0)
            + spec_enc_str(p.1));
    } else {
        assert(fs.push(p)[0] == fs[0]);
        assert(fs.push(p).drop_first() =~= fs.drop_first().push(p));
        lemma_enc_fields_snoc(fs.drop_first(), p);
        assert(spec_enc_fields(fs.push(p)) =~= spec_enc_fields(fs) + spec_enc_str(p.0)
            + spec_enc_str(p.1));
    }
}

/// Serialize one frame body.
pub fn encode_body(m: &TransferDataMessage) -> (r: Vec<u8>)
    ensures
        r@ == spec_enc_body(m@),
        wf_cmd(m.cmd_type) ==> wf_view(m@),
{
    let mut out: Vec<u8> = Vec::new();
    out.push(cmd_code(m.cmd_type));
    let ts_bytes = u64_to_le_bytes(m.meta_data.timestamp);
    out.extend_from_slice(ts_bytes.as_slice());
    let nf_bytes = u64_to_le_bytes(m.meta_data.meta_data.len() as u64);
    out.extend_from_slice(nf_bytes.as_slice());
    let ghost fv = m@.meta.fields;
    let ghost head = seq![spec_cmd_code(m.cmd_type)] + spec_u64_to_le_bytes(m.meta_data.timestamp)
        + spec_u64_to_le_bytes(fv.len() as u64);
    proof {
        assert(out@ =~= head + spec_enc_fields(fv.take(0)));
    }
    let mut i: usize = 0;
    while i < m.meta_data.meta_data.len()
        invariant
            0 <= i <= m.meta_data.meta_data.len(),
            fv == m@.meta.fields,
            fv.len() == m.meta_data.meta_data@.len(),
            out@ == head + spec_enc_fields(fv.take(i as int)),
            forall|j: int|
                0 <= j < i ==> encode_utf8(#[trigger] fv[j].0).len() < 0x1_0000_0000_0000_0000
                    && encode_utf8(fv[j].1).len() < 0x1_0000_0000_0000_0000,
        decreases m.meta_data.meta_data@.len() - i,
    {
        let pair = &m.meta_data.meta_data[i];
        encode_str_into(&mut out, pair.0.as_str());
        encode_str_into(&mut out, pair.1.as_str());
        proof {
            assert(fv.take(i + 1) =~= fv.take(i as int).push(fv[i as int]));
            lemma_enc_fields_snoc(fv.take(i as int), fv[i as int]);
            assert(fv[i as int] == (m.meta_data.meta_data@[i as int].0@,
            m.meta_data.meta_data@[i as int].1@));
            assert forall|j: int|
                0 <= j < i + 1 implies encode_utf8(#[trigger] fv[j].0).len()
                < 0x1_0000_0000_0000_0000 && encode_utf8(fv[j].1).len()
                < 0x1_0000_0000_0000_0000 by {
                if j == i {
                    assert(fv[j].0 == m.meta_data.meta_data@[j].0@);
                    assert(fv[j].1 == m.meta_data.meta_data@[j].1@);
                }
            }
        }
        i += 1;
    }
    proof {
        assert(fv.take(fv.len() as int) =~= fv);
    }
    let dl_bytes = u64_to_le_bytes(m.data.len() as u64);
    out.extend_from_slice(dl_bytes.as_slice());
    out.extend_from_slice(m.data.as_slice());
    proof {
        assert(out@ =~= spec_enc_body(m@));
    }
    out
}

fn read_str(bytes: &[u8], pos: usize) -> (r: Option<(String, usize)>)
    requires
        pos <= bytes@.len(),
    ensures
        match r {
            Some(p) => pos <= p.1 <= bytes@.len() && spec_dec_str(bytes@.skip(pos as int)) == Some(
                (p.0@, bytes@.skip(p.1 as int)),
            ),
            None => spec_dec_str(bytes@.skip(pos as int)) is None,
        },
{
    let ghost b = bytes@.skip(pos as int);
    if bytes.len() - pos < 8 {
        return None;
    }
    let l64 = u64_from_le_bytes(&bytes[pos..pos + 8]);
    proof {
        assert(bytes@.subrange(pos as int, pos + 8) =~= b.subrange(0, 8));
    }
    if l64 > (bytes.len() - pos - 8) as u64 {
        return None;
    }
    let l = l64 as usize;
    let sb = &bytes[pos + 8..pos + 8 + l];
    proof {
        assert(sb@ =~= b.subrange(8, 8 + l64 as int));
    }
    let v = slice_to_vec(sb);
    match string_from_utf8(v) {
        Some(s) => {
            proof {
                assert(bytes@.skip(pos + 8 + l) =~= b.skip(8 + l64 as int));
            }
            Some((s, pos + 8 + l))
        },
        None => None,
    }
}

/// Decode one frame body; mirrors `spec_dec_body` exactly.
pub fn decode_body(bytes: &[u8]) -> (r: Option<TransferDataMessage>)
    ensures
        match r {
            Some(msg) => spec_dec_body(bytes@) == Some(msg@) && wf_cmd(msg.cmd_type),
            None => spec_dec_body(bytes@) is None,
        },
{
    if bytes.len() < 17 {
        return None;
    }
    let code = bytes[0];
    let ts = u64_from_le_bytes(&bytes[1..9]);
    let nf = u64_from_le_bytes(&bytes[9..17]);
    let ghost b0 = bytes@.skip(17);
    let mut fields: Vec<(String, String)> = Vec::new();
    let mut pos: usize = 17;
    let mut count: u64 = 0;
    proof {
        assert(bytes@.skip(17) =~= b0);
    }
    while count < nf
        invariant
            17 <= pos <= bytes@.len(),
            0 <= count <= nf,
            bytes@.len() >= 17,
            code == bytes@[0],
            ts == spec_u64_from_le_bytes(bytes@.subrange(1, 9)),
            nf == spec_u64_from_le_bytes(bytes@.subrange(9, 17)),
            b0 == bytes@.skip(17),
            fields@.len() == count,
            ({
                let fsv = fields@.map_values(|p: (String, String)| (p.0@, p.1@));
                match spec_dec_fields(bytes@.skip(pos as int), (nf - count) as nat) {
                    None => spec_dec_fields(b0, nf as nat) is None,
                    Some(pr) => spec_dec_fields(b0, nf as nat) == Some((fsv + pr.0, pr.1)),
                }
            }),
        decreases nf - count,
    {
        let ghost fsv = fields@.map_values(|p: (String, String)| (p.0@, p.1@));
        let (k, p1) = match read_str(bytes, pos) {
            Some(kp) => kp,
            None => {
                proof {
                    assert(spec_dec_fields(bytes@.skip(pos as int), (nf - count) as nat) is None);
                    assert(spec_dec_fields(b0, nf as nat) is None);
                    assert(spec_dec_body(bytes@) is None);
                }
                return None;
            },
        };
        let (v, p2) = match read_str(bytes, p1) {
            Some(vp) => vp,
            None => {
                proof {
                    assert(spec_dec_fields(bytes@.skip(pos as int), (nf - count) as nat) is None);
                    assert(spec_dec_fields(b0, nf as nat) is None);
                    assert(spec_dec_body(bytes@) is None);
                }
                return None;
            },
        };
        fields.push((k, v));
        proof {
            let fsv2 = fields@.map_values(|p: (String, String)| (p.0@, p.1@));
            assert(fsv2 =~= fsv.push((fields@.last().0@, fields@.last().1@)));
            assert forall|fs: Seq<(Seq<char>, Seq<char>)>, rest: Seq<u8>|
                spec_dec_fields(bytes@.skip(p2 as int), (nf - count - 1) as nat) == Some(
                    (fs, rest),
                ) implies fsv2 + fs =~= fsv + (seq![(fields@.last().0@, fields@.last().1@)]
                + fs) by {}
        }
        pos = p2;
        count = count + 1;
    }
    let ghost fsv = fields@.map_values(|p: (String, String)| (p.0@, p.1@));
    proof {
        assert(spec_dec_fields(bytes@.skip(pos as int), 0) == Some(
            (Seq::<(Seq<char>, Seq<char>)>::empty(), bytes@.skip(pos as int)),
        ));
        assert(fsv + Seq::<(Seq<char>, Seq<char>)>::empty() =~= fsv);
    }
    if bytes.len() - pos < 8 {
        return None;
    }
    let dl = u64_from_le_bytes(&bytes[pos..pos + 8]);
    proof {
        assert(bytes@.subrange(pos as int, pos + 8) =~= bytes@.skip(pos as int).subrange(0, 8));
    }
    if dl != (bytes.len() - pos - 8) as u64 {
        return None;
    }
    let data = slice_to_vec(&bytes[pos + 8..bytes.len()]);
    proof {
        assert(data@ =~= bytes@.skip(pos as int).skip(8));
    }
    let msg = TransferDataMessage {
        cmd_type: cmd_of(code),
        meta_data: TransferMessageMetaData { timestamp: ts, meta_data: fields },
        data,
    };
    proof {
        assert(bytes@.subrange(1, 9) =~= bytes@.subrange(1, 9));
        assert(spec_dec_body(bytes@) == Some(msg@));
    }
    Some(msg)
}

/// Serialize one frame for the wire: the body's length, then the body.
pub fn encode_frame(m: &TransferDataMessage) -> (r: Vec<u8>)
    ensures
        r@ == spec_u64_to_le_bytes(spec_enc_body(m@).len() as u64) + spec_enc_body(m@),
{
    let body = encode_body(m);
    let mut out = u64_to_le_bytes(body.len() as u64);
    out.extend_from_slice(body.as_slice());
    out
}

/// What the accumulator hands back for one extraction attempt.
pub enum NextFrame {
    /// No complete frame buffered yet; feed more bytes.
    Pending,
    /// One complete, well-formed frame, removed from the buffer.
    Frame(TransferDataMessage),
    /// A complete frame whose body does not decode: fatal for the link.
    Corrupt,
}

/// Reassembles length-delimited frames from a TCP stream: one read may
/// carry zero, one, or several frames and a trailing partial frame, which
/// stays buffered until more bytes arrive.
pub struct FrameAccumulator {
    pub buf: Vec<u8>,
}

impl FrameAccumulator {
    pub fn new() -> (r: Self)
        ensures
            r.buf@.len() == 0,
    {
        FrameAccumulator { buf: Vec::new() }
    }

    /// Append the bytes one socket read returned.
    pub fn feed(&mut self, chunk: &[u8])
        ensures
            final(self).buf@ == old(self).buf@ + chunk@,
    {
        self.buf.extend_from_slice(chunk);
    }

    /// Whether a complete frame is buffered.
    pub open spec fn spec_has_frame(b: Seq<u8>) -> bool {
        b.len() >= 8 && b.len() - 8 >= spec_u64_from_le_bytes(b.subrange(0, 8)) as int
    }

    /// The body bytes of the first buffered frame.
    pub open spec fn spec_first_body(b: Seq<u8>) -> Seq<u8> {
        b.subrange(8, 8 + spec_u64_from_le_bytes(b.subrange(0, 8)) as int)
    }

    /// Extract the next complete frame, if one is buffered.
    pub fn next_frame(&mut self) -> (r: NextFrame)
        ensures
            !Self::spec_has_frame(old(self).buf@) ==> r is Pending && *final(self) == *old(self),
            Self::spec_has_frame(old(self).buf@) ==> {
                &&& final(self).buf@ == old(self).buf@.skip(
                    8 + spec_u64_from_le_bytes(old(self).buf@.subrange(0, 8)) as int,
                )
                &&& (match spec_dec_body(Self::spec_first_body(old(self).buf@)) {
                    Some(mv) => r matches NextFrame::Frame(msg) && msg@ == mv,
                    None => r is Corrupt,
                })
            },
    {
        if self.buf.len() < 8 {
            return NextFrame::Pending;
        }
        let l64 = u64_from_le_bytes(&self.buf.as_slice()[0..8]);
        proof {
            assert(self.buf@.subrange(0, 8) =~= self.buf@.subrange(0, 8));
        }
        if l64 > (self.buf.len() - 8) as u64 {
            return NextFrame::Pending;
        }
        let l = l64 as usize;
        let r = match decode_body(&self.buf.as_slice()[8..8 + l]) {
            Some(msg) => NextFrame::Frame(msg),
            None => NextFrame::Corrupt,
        };
        proof {
            assert(self.buf@.subrange(8, 8 + l64 as int) =~= Self::spec_first_body(self.buf@));
        }
        let rest = slice_to_vec(&self.buf.as_slice()[8 + l..self.buf.len()]);
        proof {
            assert(rest@ =~= self.buf@.skip(8 + l64 as int));
        }
        self.buf = rest;
        r
    }
}

} // verus!

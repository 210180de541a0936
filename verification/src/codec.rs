//! The binary wire protocol between client and server.
//!
//! A request is one tagged variant: a `Command` (tag byte `'0'`, then two
//! length-prefixed UTF-8 strings: command line and working directory) or a
//! `Control` (tag byte `'X'`, then one length-prefixed signal name, and for
//! `AddNode` a further length-prefixed node name).  A plain response is a
//! single length-prefixed string with no tag.  Every length prefix is a
//! 4-byte big-endian byte count.

use crate::error::Error;
use vstd::prelude::*;
use vstd::slice::{slice_subrange, slice_to_vec};
use vstd::string::StrSliceExecFns;
use vstd::utf8::{decode_utf8, encode_utf8, valid_utf8};

verus! {

/// Tag byte of a `Command` request (the character `'0'`).
pub const TAG_COMMAND: u8 = 48;

/// Tag byte of a `Control` request (the character `'X'`).
pub const TAG_CONTROL: u8 = 88;

// ---------------------------------------------------------------------------
// Big-endian length prefixes
// ---------------------------------------------------------------------------

/// The four big-endian bytes of a 32-bit length.
pub open spec fn spec_u32_be(n: u32) -> Seq<u8> {
    seq![(n >> 24) as u8, (n >> 16) as u8, (n >> 8) as u8, n as u8]
}

/// The 32-bit value read from the first four bytes, big-endian.
pub open spec fn spec_read_u32_be(bytes: Seq<u8>) -> u32
    recommends
        bytes.len() >= 4,
{
    ((bytes[0] as u32) << 24) | ((bytes[1] as u32) << 16) | ((bytes[2] as u32) << 8) | (
    bytes[3] as u32)
}

/// Writing four big-endian bytes and reading them back gives the value again.
pub proof fn lemma_u32_be_roundtrip(n: u32)
    ensures
        spec_read_u32_be(spec_u32_be(n)) == n,
{
    assert((((n >> 24) as u8 as u32) << 24) | (((n >> 16) as u8 as u32) << 16) | (((n
        >> 8) as u8 as u32) << 8) | (n as u8 as u32) == n) by (bit_vector);
}

/// Append the four big-endian bytes of `n` to `buf`.
pub fn push_u32_be(buf: &mut Vec<u8>, n: u32)
    ensures
        final(buf)@ == old(buf)@ + spec_u32_be(n),
{
    buf.push((n >> 24) as u8);
    buf.push((n >> 16) as u8);
    buf.push((n >> 8) as u8);
    buf.push(n as u8);
    assert(buf@ =~= old(buf)@ + spec_u32_be(n));
}

/// Read the four big-endian bytes at `pos`.
pub fn read_u32_be(data: &[u8], pos: usize) -> (n: u32)
    requires
        pos + 4 <= data@.len(),
    ensures
        n == spec_read_u32_be(data@.subrange(pos as int, pos + 4)),
{
    let b0 = data[pos];
    let b1 = data[pos + 1];
    let b2 = data[pos + 2];
    let b3 = data[pos + 3];
    ((b0 as u32) << 24) | ((b1 as u32) << 16) | ((b2 as u32) << 8) | (b3 as u32)
}

// ---------------------------------------------------------------------------
// Length-prefixed byte strings
// ---------------------------------------------------------------------------

/// A payload framed by its 4-byte big-endian byte count.
pub open spec fn spec_lp(payload: Seq<u8>) -> Seq<u8> {
    spec_u32_be(payload.len() as u32) + payload
}

/// A string framed as its length-prefixed UTF-8 bytes.
pub open spec fn spec_encode_str(s: Seq<char>) -> Seq<u8> {
    spec_lp(encode_utf8(s))
}

/// Whether a string's UTF-8 byte count fits the 4-byte length prefix.
pub open spec fn encodable_str(s: Seq<char>) -> bool {
    encode_utf8(s).len() <= u32::MAX
}

/// The length-prefixed payload starting at `pos`, and the position just after
/// it; `None` when the data ends before the prefix or the payload does.
pub open spec fn spec_decode_lp(data: Seq<u8>, pos: int) -> Option<(Seq<u8>, int)> {
    if 0 <= pos && pos + 4 <= data.len() {
        let n = spec_read_u32_be(data.subrange(pos, pos + 4)) as int;
        if pos + 4 + n <= data.len() {
            Some((data.subrange(pos + 4, pos + 4 + n), pos + 4 + n))
        } else {
            None
        }
    } else {
        None
    }
}

/// Append one length-prefixed string to `buf`.
///
/// This is the framing shared by both request fields and plain responses.
pub fn encode(buf: &mut Vec<u8>, msg: &str)
    ensures
        final(buf)@ == old(buf)@ + spec_encode_str(msg@),
{
    let mut bytes = msg.as_bytes_vec();
    let n = #[verifier::truncate] (bytes.len() as u32);
    push_u32_be(buf, n);
    buf.append(&mut bytes);
    assert(buf@ =~= old(buf)@ + spec_encode_str(msg@));
}

/// True when two byte slices hold the same bytes.
fn bytes_eq(a: &[u8], b: &[u8]) -> (r: bool)
    ensures
        r == (a@ == b@),
{
    if a.len() != b.len() {
        assert(a@ != b@) by {
            assert(a@.len() != b@.len());
        }
        return false;
    }
    let n = a.len();
    for i in 0..n
        invariant
            n == a@.len() == b@.len(),
            forall|j: int| 0 <= j < i ==> a@[j] == b@[j],
    {
        if a[i] != b[i] {
            return false;
        }
    }
    assert(a@ =~= b@);
    true
}

/// Relies on `String::from_utf8`: it succeeds exactly on valid UTF-8 input,
/// and then returns the string those bytes encode.
#[verifier::external_body]
fn bytes_to_string(bytes: Vec<u8>) -> (r: Option<String>)
    ensures
        r is Some <==> valid_utf8(bytes@),
        r matches Some(s) ==> s@ == decode_utf8(bytes@),
{
    String::from_utf8(bytes).ok()
}

/// Read one length-prefixed payload at `pos`, returning the payload bytes and
/// the position just after them.  Fails exactly when the data is truncated.
pub fn decode(data: &[u8], pos: usize) -> (r: Result<(Vec<u8>, usize), Error>)
    ensures
        r is Ok <==> spec_decode_lp(data@, pos as int) is Some,
        r matches Ok((payload, end)) ==> spec_decode_lp(data@, pos as int) == Some(
            (payload@, end as int),
        ),
{
    if data.len() < 4 || pos > data.len() - 4 {
        return Err(Error::Framing);
    }
    let n = read_u32_be(data, pos) as usize;
    if n > data.len() - (pos + 4) {
        return Err(Error::Framing);
    }
    let payload = slice_to_vec(slice_subrange(data, pos + 4, pos + 4 + n));
    Ok((payload, pos + 4 + n))
}

// ---------------------------------------------------------------------------
// Requests
// ---------------------------------------------------------------------------

/// A control signal for the server process.
#[derive(Debug, PartialEq, Eq, Clone)]
pub enum Signal {
    Quit,
    Resume,
    Pause,
    /// Admit a new remote node, by name, into the pool.
    AddNode(String),
}

/// The request from client side.
#[derive(Debug, PartialEq, Eq)]
pub enum ServerOp {
    /// Control server process: pause/resume/quit/add-node.
    Control(Signal),
    /// Request to run command using `cmd_line` in `working_dir`.
    Command((String, String)),
}

/// The mathematical value of a [`Signal`].
pub enum SignalV {
    Quit,
    Resume,
    Pause,
    AddNode(Seq<char>),
}

/// The mathematical value of a [`ServerOp`].
pub enum OpV {
    Control(SignalV),
    Command(Seq<char>, Seq<char>),
}

impl View for Signal {
    type V = SignalV;

    open spec fn view(&self) -> SignalV {
        match self {
            Signal::Quit => SignalV::Quit,
            Signal::Resume => SignalV::Resume,
            Signal::Pause => SignalV::Pause,
            Signal::AddNode(name) => SignalV::AddNode(name@),
        }
    }
}

impl View for ServerOp {
    type V = OpV;

    open spec fn view(&self) -> OpV {
        match self {
            ServerOp::Control(sig) => OpV::Control(sig@),
            ServerOp::Command(pair) => OpV::Command(pair.0@, pair.1@),
        }
    }
}

/// The wire name of a control signal.
pub open spec fn spec_signal_name(sig: SignalV) -> Seq<char> {
    match sig {
        SignalV::Quit => "SIGTERM"@,
        SignalV::Resume => "SIGCONT"@,
        SignalV::Pause => "SIGSTOP"@,
        SignalV::AddNode(_) => "SIGADD"@,
    }
}

/// The encoded bytes of one request.
pub open spec fn spec_encode(op: OpV) -> Seq<u8> {
    match op {
        OpV::Control(sig) => {
            let head = seq![TAG_CONTROL] + spec_encode_str(spec_signal_name(sig));
            match sig {
                SignalV::AddNode(name) => head + spec_encode_str(name),
                _ => head,
            }
        },
        OpV::Command(cmd, dir) => seq![TAG_COMMAND] + spec_encode_str(cmd) + spec_encode_str(dir),
    }
}

/// Whether every string field of a request fits its 4-byte length prefix.
pub open spec fn spec_encodable(op: OpV) -> bool {
    match op {
        OpV::Control(SignalV::AddNode(name)) => encodable_str(name),
        OpV::Control(_) => true,
        OpV::Command(cmd, dir) => encodable_str(cmd) && encodable_str(dir),
    }
}

/// The request decoded from the head of `data`, with the number of bytes it
/// occupies; `None` when the data is truncated, carries an unrecognized tag
/// or signal name, or holds a string that is not valid UTF-8.
pub open spec fn spec_decode(data: Seq<u8>) -> Option<(OpV, int)> {
    if data.len() < 1 {
        None
    } else if data[0] == TAG_COMMAND {
        match spec_decode_lp(data, 1) {
            Some((p1, pos1)) => match spec_decode_lp(data, pos1) {
                Some((p2, pos2)) => if valid_utf8(p1) && valid_utf8(p2) {
                    Some((OpV::Command(decode_utf8(p1), decode_utf8(p2)), pos2))
                } else {
                    None
                },
                None => None,
            },
            None => None,
        }
    } else if data[0] == TAG_CONTROL {
        match spec_decode_lp(data, 1) {
            Some((p1, pos1)) => if p1 == encode_utf8("SIGTERM"@) {
                Some((OpV::Control(SignalV::Quit), pos1))
            } else if p1 == encode_utf8("SIGCONT"@) {
                Some((OpV::Control(SignalV::Resume), pos1))
            } else if p1 == encode_utf8("SIGSTOP"@) {
                Some((OpV::Control(SignalV::Pause), pos1))
            } else if p1 == encode_utf8("SIGADD"@) {
                match spec_decode_lp(data, pos1) {
                    Some((p2, pos2)) => if valid_utf8(p2) {
                        Some((OpV::Control(SignalV::AddNode(decode_utf8(p2))), pos2))
                    } else {
                        None
                    },
                    None => None,
                }
            } else {
                None
            },
            None => None,
        }
    } else {
        None
    }
}

impl ServerOp {
    /// Encode message ready to be sent over the socket.
    pub fn encode(&self) -> (buf: Vec<u8>)
        ensures
            buf@ == spec_encode(self@),
    {
        let mut buf: Vec<u8> = Vec::new();
        match self {
            ServerOp::Control(sig) => {
                buf.push(TAG_CONTROL);
                match sig {
                    Signal::Quit => {
                        encode(&mut buf, "SIGTERM");
                    },
                    Signal::Resume => {
                        encode(&mut buf, "SIGCONT");
                    },
                    Signal::Pause => {
                        encode(&mut buf, "SIGSTOP");
                    },
                    Signal::AddNode(name) => {
                        encode(&mut buf, "SIGADD");
                        encode(&mut buf, name.as_str());
                    },
                }
            },
            ServerOp::Command(pair) => {
                buf.push(TAG_COMMAND);
                encode(&mut buf, pair.0.as_str());
                encode(&mut buf, pair.1.as_str());
            },
        }
        assert(buf@ =~= spec_encode(self@));
        buf
    }

    /// Decode the request at the head of `data`, returning it together with
    /// the number of bytes it occupies.
    pub fn decode(data: &[u8]) -> (r: Result<(ServerOp, usize), Error>)
        ensures
            r is Ok <==> spec_decode(data@) is Some,
            r matches Ok((op, used)) ==> spec_decode(data@) == Some((op@, used as int)),
    {
        if data.len() < 1 {
            return Err(Error::Framing);
        }
        let tag = data[0];
        if tag == TAG_COMMAND {
            let (p1, pos1) = decode(data, 1)?;
            let (p2, pos2) = decode(data, pos1)?;
            let cmd = match bytes_to_string(p1) {
                Some(s) => s,
                None => {
                    return Err(Error::Framing);
                },
            };
            let dir = match bytes_to_string(p2) {
                Some(s) => s,
                None => {
                    return Err(Error::Framing);
                },
            };
            Ok((ServerOp::Command((cmd, dir)), pos2))
        } else if tag == TAG_CONTROL {
            let (p1, pos1) = decode(data, 1)?;
            if bytes_eq(p1.as_slice(), "SIGTERM".as_bytes_vec().as_slice()) {
                Ok((ServerOp::Control(Signal::Quit), pos1))
            } else if bytes_eq(p1.as_slice(), "SIGCONT".as_bytes_vec().as_slice()) {
                Ok((ServerOp::Control(Signal::Resume), pos1))
            } else if bytes_eq(p1.as_slice(), "SIGSTOP".as_bytes_vec().as_slice()) {
                Ok((ServerOp::Control(Signal::Pause), pos1))
            } else if bytes_eq(p1.as_slice(), "SIGADD".as_bytes_vec().as_slice()) {
                let (p2, pos2) = decode(data, pos1)?;
                match bytes_to_string(p2) {
                    Some(name) => Ok((ServerOp::Control(Signal::AddNode(name)), pos2)),
                    None => Err(Error::Framing),
                }
            } else {
                Err(Error::Framing)
            }
        } else {
            Err(Error::Framing)
        }
    }
}

// ---------------------------------------------------------------------------
// Plain responses
// ---------------------------------------------------------------------------

/// Encode a plain response: one length-prefixed string with no tag.
pub fn encode_message(msg: &str) -> (buf: Vec<u8>)
    ensures
        buf@ == spec_encode_str(msg@),
{
    let mut buf: Vec<u8> = Vec::new();
    encode(&mut buf, msg);
    assert(buf@ =~= spec_encode_str(msg@));
    buf
}

/// The response decoded from the head of `data`, with the number of bytes it
/// occupies; `None` when the data is truncated or not valid UTF-8.
pub open spec fn spec_decode_message(data: Seq<u8>) -> Option<(Seq<char>, int)> {
    match spec_decode_lp(data, 0) {
        Some((p, pos)) => if valid_utf8(p) {
            Some((decode_utf8(p), pos))
        } else {
            None
        },
        None => None,
    }
}

/// Decode a plain response at the head of `data`, returning it together with
/// the number of bytes it occupies.
pub fn decode_message(data: &[u8]) -> (r: Result<(String, usize), Error>)
    ensures
        r is Ok <==> spec_decode_message(data@) is Some,
        r matches Ok((msg, used)) ==> spec_decode_message(data@) == Some((msg@, used as int)),
{
    let (p, pos) = decode(data, 0)?;
    match bytes_to_string(p) {
        Some(s) => Ok((s, pos)),
        None => Err(Error::Framing),
    }
}

// ---------------------------------------------------------------------------
// Round trip
// ---------------------------------------------------------------------------

/// A UTF-8 encoding takes at most four bytes per character.
pub proof fn lemma_encode_utf8_len(chars: Seq<char>)
    ensures
        encode_utf8(chars).len() <= 4 * chars.len(),
    decreases chars.len(),
{
    if chars.len() == 0 {
    } else {
        lemma_encode_utf8_len(chars.drop_first());
    }
}

/// Within a larger buffer, a length-prefixed payload reads back exactly.
proof fn lemma_decode_lp_at(data: Seq<u8>, pos: int, payload: Seq<u8>)
    requires
        payload.len() <= u32::MAX,
        0 <= pos,
        pos + 4 + payload.len() <= data.len(),
        data.subrange(pos, pos + 4) == spec_u32_be(payload.len() as u32),
        data.subrange(pos + 4, pos + 4 + payload.len()) == payload,
    ensures
        spec_decode_lp(data, pos) == Some((payload, pos + 4 + payload.len())),
{
    lemma_u32_be_roundtrip(payload.len() as u32);
}

/// The four wire signal names are pairwise distinct, as byte strings.
proof fn lemma_signal_names_distinct()
    ensures
        encode_utf8("SIGCONT"@) != encode_utf8("SIGTERM"@),
        encode_utf8("SIGSTOP"@) != encode_utf8("SIGTERM"@),
        encode_utf8("SIGSTOP"@) != encode_utf8("SIGCONT"@),
        encode_utf8("SIGADD"@) != encode_utf8("SIGTERM"@),
        encode_utf8("SIGADD"@) != encode_utf8("SIGCONT"@),
        encode_utf8("SIGADD"@) != encode_utf8("SIGSTOP"@),
{
    reveal_strlit("SIGTERM");
    reveal_strlit("SIGCONT");
    reveal_strlit("SIGSTOP");
    reveal_strlit("SIGADD");
    vstd::utf8::encode_utf8_decode_utf8("SIGTERM"@);
    vstd::utf8::encode_utf8_decode_utf8("SIGCONT"@);
    vstd::utf8::encode_utf8_decode_utf8("SIGSTOP"@);
    vstd::utf8::encode_utf8_decode_utf8("SIGADD"@);
    assert("SIGTERM"@[3] == 'T' && "SIGCONT"@[3] == 'C' && "SIGSTOP"@[3] == 'S');
    assert("SIGADD"@.len() == 6);
    assert("SIGTERM"@.len() == 7 && "SIGCONT"@.len() == 7 && "SIGSTOP"@.len() == 7);
}

/// The encoded byte count of each wire signal name fits its length prefix.
proof fn lemma_signal_names_encodable()
    ensures
        encodable_str("SIGTERM"@),
        encodable_str("SIGCONT"@),
        encodable_str("SIGSTOP"@),
        encodable_str("SIGADD"@),
{
    reveal_strlit("SIGTERM");
    reveal_strlit("SIGCONT");
    reveal_strlit("SIGSTOP");
    reveal_strlit("SIGADD");
    lemma_encode_utf8_len("SIGTERM"@);
    lemma_encode_utf8_len("SIGCONT"@);
    lemma_encode_utf8_len("SIGSTOP"@);
    lemma_encode_utf8_len("SIGADD"@);
}

/// Round trip: decoding a stream that starts with the encoding of any
/// constructible request yields exactly that request back, and consumes
/// exactly its encoding, whatever bytes follow it.
pub proof fn lemma_decode_encode(op: OpV, rest: Seq<u8>)
    requires
        spec_encodable(op),
    ensures
        spec_decode(spec_encode(op) + rest) == Some((op, spec_encode(op).len() as int)),
{
    let data = spec_encode(op) + rest;
    match op {
        OpV::Command(cmd, dir) => {
            let ec = encode_utf8(cmd);
            let ew = encode_utf8(dir);
            let pos1: int = 5 + ec.len() as int;
            let pos2: int = pos1 + 4 + ew.len();
            assert(data[0] == TAG_COMMAND);
            assert(data.subrange(1, 5) =~= spec_u32_be(ec.len() as u32));
            assert(data.subrange(5, 5 + ec.len() as int) =~= ec);
            lemma_decode_lp_at(data, 1, ec);
            assert(data.subrange(pos1, pos1 + 4) =~= spec_u32_be(ew.len() as u32));
            assert(data.subrange(pos1 + 4, pos1 + 4 + ew.len()) =~= ew);
            lemma_decode_lp_at(data, pos1, ew);
            vstd::utf8::encode_utf8_valid_utf8(cmd);
            vstd::utf8::encode_utf8_valid_utf8(dir);
            vstd::utf8::encode_utf8_decode_utf8(cmd);
            vstd::utf8::encode_utf8_decode_utf8(dir);
            assert(pos2 == spec_encode(op).len());
        },
        OpV::Control(sig) => {
            let name = spec_signal_name(sig);
            let en = encode_utf8(name);
            let pos1: int = 5 + en.len() as int;
            lemma_signal_names_encodable();
            lemma_signal_names_distinct();
            assert(data[0] == TAG_CONTROL);
            assert(data.subrange(1, 5) =~= spec_u32_be(en.len() as u32));
            assert(data.subrange(5, 5 + en.len() as int) =~= en);
            lemma_decode_lp_at(data, 1, en);
            match sig {
                SignalV::AddNode(node) => {
                    let eb = encode_utf8(node);
                    let pos2: int = pos1 + 4 + eb.len();
                    assert(data.subrange(pos1, pos1 + 4) =~= spec_u32_be(eb.len() as u32));
                    assert(data.subrange(pos1 + 4, pos1 + 4 + eb.len()) =~= eb);
                    lemma_decode_lp_at(data, pos1, eb);
                    vstd::utf8::encode_utf8_valid_utf8(node);
                    vstd::utf8::encode_utf8_decode_utf8(node);
                    assert(pos2 == spec_encode(op).len());
                },
                _ => {
                    assert(pos1 == spec_encode(op).len());
                },
            }
        },
    }
}

/// Round trip: for every constructible request whose strings fit their length
/// prefixes, decoding its encoding gives the request back in full.
pub proof fn lemma_round_trip(op: OpV)
    requires
        spec_encodable(op),
    ensures
        spec_decode(spec_encode(op)) == Some((op, spec_encode(op).len() as int)),
{
    lemma_decode_encode(op, seq![]);
    assert(spec_encode(op) + seq![] =~= spec_encode(op));
}

} // verus!

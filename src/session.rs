//! The session: handshake, server information, and dispatch of messages.

use vstd::prelude::*;
use crate::geometry::Pair;
use crate::setup::{Config, Setup, buildable, setup_of};
use crate::wire::{
    be_u16_bytes, be_u16_value, be_u32_at, be_u32_bytes, decode_headers, encode_header,
    entries_view, header_bytes, parse_headers, pixels_from_bits, whole_pixels,
};

verus! {

broadcast use vstd::array::group_array_axioms;

/// The major version of the protocol spoken here; a device must speak the same.
pub const ABSM_VERSION_MAJOR: u16 = 1;

/// The minor version of the protocol spoken here; a difference is tolerated.
pub const ABSM_VERSION_MINOR: u16 = 0;

/// `absM`: the handshake that opens a session.
pub open spec fn handshake_tag() -> Seq<u8> {
    seq![0x61u8, 0x62u8, 0x73u8, 0x4du8]
}

/// `sInf`: server information.
pub open spec fn server_info_tag() -> Seq<u8> {
    seq![0x73u8, 0x49u8, 0x6eu8, 0x66u8]
}

/// `setp`: the acknowledgement that the setup is built.
pub open spec fn setup_tag() -> Seq<u8> {
    seq![0x73u8, 0x65u8, 0x74u8, 0x70u8]
}

/// `tuch`: a touch sample.
pub open spec fn touch_tag() -> Seq<u8> {
    seq![0x74u8, 0x75u8, 0x63u8, 0x68u8]
}

/// `keyp`: a key event.
pub open spec fn key_tag() -> Seq<u8> {
    seq![0x6bu8, 0x65u8, 0x79u8, 0x70u8]
}

/// `ping`: a request to echo the message back.
pub open spec fn ping_tag() -> Seq<u8> {
    seq![0x70u8, 0x69u8, 0x6eu8, 0x67u8]
}

/// `repl`: the echo of a `ping`.
pub open spec fn reply_tag() -> Seq<u8> {
    seq![0x72u8, 0x65u8, 0x70u8, 0x6cu8]
}

/// The header key `client_name`.
pub open spec fn client_name_key() -> Seq<u8> {
    seq![0x63u8, 0x6cu8, 0x69u8, 0x65u8, 0x6eu8, 0x74u8, 0x5fu8, 0x6eu8, 0x61u8, 0x6du8, 0x65u8]
}

/// The header key `frame_delay`.
pub open spec fn frame_delay_key() -> Seq<u8> {
    seq![0x66u8, 0x72u8, 0x61u8, 0x6du8, 0x65u8, 0x5fu8, 0x64u8, 0x65u8, 0x6cu8, 0x61u8, 0x79u8]
}

/// The header key `screen_res`.
pub open spec fn screen_res_key() -> Seq<u8> {
    seq![0x73u8, 0x63u8, 0x72u8, 0x65u8, 0x65u8, 0x6eu8, 0x5fu8, 0x72u8, 0x65u8, 0x73u8]
}

/// Why a session cannot go on.
#[derive(Clone, Copy, Debug, PartialEq, Eq, Structural)]
pub enum ProtocolError {
    /// The device speaks another major version of the protocol.
    ProtocolVersionMismatch { local_major: u16, local_minor: u16, remote_major: u16, remote_minor: u16 },
    /// A message is shorter than a field it declares, carries the wrong tag,
    /// or holds a field that cannot be read.
    MalformedMessage,
    /// The first server information lacks the screen size.
    MissingCoreField,
    /// The device screen and the configured areas leave nothing to map.
    UnusableGeometry,
}

/// What the session asks of the code around it after a message.
#[derive(Clone, Copy, Debug, PartialEq, Eq, Structural)]
pub enum Dispatch {
    /// A touch sample arrived.
    Touch,
    /// A key event arrived.
    Key,
    /// The server information was updated.
    ServerInfoUpdated,
    /// The message was rewritten into a reply: send it back as it is.
    Reply,
    /// A message of unknown kind arrived and was ignored.
    Unknown,
}

/// What the device reports about itself.
#[derive(Clone, Copy, Debug)]
pub struct ServerInfo {
    /// The device's protocol version, major and minor.
    pub version: (u16, u16),
    /// The device's screen size in whole pixels.
    pub server_screen_res: Pair<i32>,
}

/// The screen size that a `screen_res` value holds: two single-precision
/// numbers, x then y, most significant byte first; bytes after them are
/// ignored.
pub open spec fn screen_res_of(v: Seq<u8>) -> Option<Pair<i32>> {
    if v.len() < 8 {
        None
    } else {
        match (whole_pixels(be_u32_at(v, 0)), whole_pixels(be_u32_at(v, 4))) {
            (Some(x), Some(y)) => Some(Pair([x, y])),
            _ => None,
        }
    }
}

/// `info` with the headers `h` applied in order, and whether a core field was
/// among them (or `seen` already); `None` where a known header cannot be read.
/// Unknown keys are skipped.
pub open spec fn apply_headers(info: ServerInfo, h: Seq<(Seq<u8>, Seq<u8>)>, seen: bool) -> Option<
    (ServerInfo, bool),
>
    decreases h.len(),
{
    if h.len() == 0 {
        Some((info, seen))
    } else if h[0].0 == screen_res_key() {
        match screen_res_of(h[0].1) {
            Some(res) => apply_headers(
                ServerInfo { server_screen_res: res, ..info },
                h.drop_first(),
                true,
            ),
            None => None,
        }
    } else {
        apply_headers(info, h.drop_first(), seen)
    }
}

/// The major and minor version that a server-information message carries.
pub open spec fn message_version(msg: Seq<u8>) -> (u16, u16) {
    (be_u16_value(msg[4], msg[5]), be_u16_value(msg[6], msg[7]))
}

/// `info` updated by the server-information message `msg`: its tag, the
/// version (whose major part must be ours), then headers up to the end of the
/// message. Where `require_core` is set the screen size must be among them.
pub open spec fn info_update(info: ServerInfo, msg: Seq<u8>, require_core: bool) -> Result<
    ServerInfo,
    ProtocolError,
> {
    if msg.len() < 8 || msg.subrange(0, 4) != server_info_tag() {
        Err(ProtocolError::MalformedMessage)
    } else if message_version(msg).0 != ABSM_VERSION_MAJOR {
        Err(
            ProtocolError::ProtocolVersionMismatch {
                local_major: ABSM_VERSION_MAJOR,
                local_minor: ABSM_VERSION_MINOR,
                remote_major: message_version(msg).0,
                remote_minor: message_version(msg).1,
            },
        )
    } else {
        match parse_headers(msg.subrange(8, msg.len() as int)) {
            None => Err(ProtocolError::MalformedMessage),
            Some(h) => match apply_headers(
                ServerInfo { version: message_version(msg), ..info },
                h,
                false,
            ) {
                None => Err(ProtocolError::MalformedMessage),
                Some((new, seen)) => if require_core && !seen {
                    Err(ProtocolError::MissingCoreField)
                } else {
                    Ok(new)
                },
            },
        }
    }
}

/// The starting point of `from_message`; every field of it is overwritten by
/// a message that is accepted.
pub open spec fn blank_info() -> ServerInfo {
    ServerInfo { version: (0, 0), server_screen_res: Pair([0i32, 0i32]) }
}

/// The handshake that opens a session: its tag, our version, and the headers
/// `client_name` and `frame_delay` (the bits of a single-precision number of
/// seconds).
pub open spec fn handshake_bytes(client_name: Seq<u8>, frame_delay_bits: u32) -> Seq<u8> {
    handshake_tag() + be_u16_bytes(ABSM_VERSION_MAJOR) + be_u16_bytes(ABSM_VERSION_MINOR)
        + header_bytes(client_name_key(), client_name) + header_bytes(
        frame_delay_key(),
        be_u32_bytes(frame_delay_bits),
    )
}

/// The bytes `a`, `b`, `c`, `d`, appended.
fn push4(buf: &mut Vec<u8>, a: u8, b: u8, c: u8, d: u8)
    ensures
        final(buf)@ == old(buf)@ + seq![a, b, c, d],
{
    buf.push(a);
    buf.push(b);
    buf.push(c);
    buf.push(d);
    proof {
        assert(buf@ =~= old(buf)@ + seq![a, b, c, d]);
    }
}

/// Whether `a` and `b` hold the same bytes.
fn bytes_eq(a: &[u8], b: &[u8]) -> (r: bool)
    ensures
        r == (a@ == b@),
{
    if a.len() != b.len() {
        return false;
    }
    let mut i: usize = 0;
    while i < a.len()
        invariant
            a@.len() == b@.len(),
            i <= a@.len(),
            forall|j: int| 0 <= j < i ==> a@[j] == b@[j],
        decreases a@.len() - i,
    {
        if a[i] != b[i] {
            return false;
        }
        i = i + 1;
    }
    proof {
        assert(a@ =~= b@);
    }
    true
}

/// Whether `msg` begins with the tag `t`.
fn has_tag(msg: &[u8], t: [u8; 4]) -> (r: bool)
    ensures
        r == (msg@.len() >= 4 && msg@.subrange(0, 4) == t@),
{
    if msg.len() < 4 {
        return false;
    }
    let r = msg[0] == t[0] && msg[1] == t[1] && msg[2] == t[2] && msg[3] == t[3];
    proof {
        if r {
            assert(msg@.subrange(0, 4) =~= t@);
        } else if msg@.subrange(0, 4) == t@ {
            assert(msg@.subrange(0, 4)[0] == t@[0]);
            assert(msg@.subrange(0, 4)[1] == t@[1]);
            assert(msg@.subrange(0, 4)[2] == t@[2]);
            assert(msg@.subrange(0, 4)[3] == t@[3]);
        }
    }
    r
}

/// The handshake that opens a session.
pub fn handshake_message(client_name: &[u8], frame_delay_bits: u32) -> (r: Vec<u8>)
    requires
        client_name@.len() <= u32::MAX,
    ensures
        r@ == handshake_bytes(client_name@, frame_delay_bits),
{
    let mut buf: Vec<u8> = Vec::new();
    push4(&mut buf, 0x61u8, 0x62u8, 0x73u8, 0x4du8);
    let major = crate::wire::u16_bytes(ABSM_VERSION_MAJOR);
    let minor = crate::wire::u16_bytes(ABSM_VERSION_MINOR);
    buf.push(major[0]);
    buf.push(major[1]);
    buf.push(minor[0]);
    buf.push(minor[1]);
    let name_key: [u8; 11] = [0x63u8, 0x6cu8, 0x69u8, 0x65u8, 0x6eu8, 0x74u8, 0x5fu8, 0x6eu8, 0x61u8, 0x6du8, 0x65u8];
    encode_header(&mut buf, vstd::array::array_as_slice(&name_key), client_name);
    let delay_key: [u8; 11] = [0x66u8, 0x72u8, 0x61u8, 0x6du8, 0x65u8, 0x5fu8, 0x64u8, 0x65u8, 0x6cu8, 0x61u8, 0x79u8];
    let delay = crate::wire::u32_bytes(frame_delay_bits);
    encode_header(
        &mut buf,
        vstd::array::array_as_slice(&delay_key),
        vstd::array::array_as_slice(&delay),
    );
    proof {
        assert(name_key@ =~= client_name_key());
        assert(delay_key@ =~= frame_delay_key());
        assert(buf@ =~= handshake_bytes(client_name@, frame_delay_bits));
    }
    buf
}

/// The acknowledgement sent once the setup is built; it carries no headers.
pub fn setup_message() -> (r: Vec<u8>)
    ensures
        r@ == setup_tag(),
{
    let mut buf: Vec<u8> = Vec::new();
    push4(&mut buf, 0x73u8, 0x65u8, 0x74u8, 0x70u8);
    proof {
        assert(buf@ =~= setup_tag());
    }
    buf
}


/// The screen size that a `screen_res` value holds.
fn read_screen_res(v: &[u8]) -> (r: Option<Pair<i32>>)
    ensures
        r == screen_res_of(v@),
{
    if v.len() < 8 {
        return None;
    }
    let x = pixels_from_bits(crate::wire::u32_at(v, 0));
    let y = pixels_from_bits(crate::wire::u32_at(v, 4));
    match (x, y) {
        (Some(x), Some(y)) => Some(Pair::new(x, y)),
        _ => None,
    }
}

impl ServerInfo {
    /// Applies the server-information message `msg`. On an error nothing
    /// changes.
    pub fn extend_from(&mut self, msg: &[u8], require_core_fields: bool) -> (r: Result<
        (),
        ProtocolError,
    >)
        ensures
            match info_update(*old(self), msg@, require_core_fields) {
                Ok(info) => r is Ok && *final(self) == info,
                Err(e) => r == Err::<(), ProtocolError>(e) && *final(self) == *old(self),
            },
    {
        // Check the message header.
        let tag: [u8; 4] = [0x73u8, 0x49u8, 0x6eu8, 0x66u8];
        if msg.len() < 8 || !has_tag(msg, tag) {
            proof {
                assert(tag@ =~= server_info_tag());
            }
            return Err(ProtocolError::MalformedMessage);
        }
        proof {
            assert(tag@ =~= server_info_tag());
        }
        let major = crate::wire::u16_at(msg, 4);
        let minor = crate::wire::u16_at(msg, 6);
        if major != ABSM_VERSION_MAJOR {
            return Err(
                ProtocolError::ProtocolVersionMismatch {
                    local_major: ABSM_VERSION_MAJOR,
                    local_minor: ABSM_VERSION_MINOR,
                    remote_major: major,
                    remote_minor: minor,
                },
            );
        }
        // Read the headers, up to the end of the message.
        let rest = vstd::slice::slice_subrange(msg, 8, msg.len());
        let headers = match decode_headers(rest) {
            Some(h) => h,
            None => {
                return Err(ProtocolError::MalformedMessage);
            },
        };
        let ghost h = entries_view(headers@);
        let ghost start = ServerInfo { version: (major, minor), ..*old(self) };
        let mut cur = ServerInfo { version: (major, minor), server_screen_res: self.server_screen_res };
        let mut seen = false;
        let key: [u8; 10] = [
            0x73u8,
            0x63u8,
            0x72u8,
            0x65u8,
            0x65u8,
            0x6eu8,
            0x5fu8,
            0x72u8,
            0x65u8,
            0x73u8,
        ];
        proof {
            assert(key@ =~= screen_res_key());
            assert(h.subrange(0, h.len() as int) =~= h);
        }
        let mut i: usize = 0;
        while i < headers.len()
            invariant
                i <= headers@.len(),
                h == entries_view(headers@),
                *self == *old(self),
                msg@.len() >= 8,
                msg@.subrange(0, 4) == server_info_tag(),
                message_version(msg@) == (major, minor),
                major == ABSM_VERSION_MAJOR,
                parse_headers(msg@.subrange(8, msg@.len() as int)) == Some(h),
                start == (ServerInfo { version: (major, minor), ..*old(self) }),
                key@ == screen_res_key(),
                apply_headers(start, h, false) == apply_headers(
                    cur,
                    h.subrange(i as int, h.len() as int),
                    seen,
                ),
            decreases headers@.len() - i,
        {
            let ghost tail = h.subrange(i as int, h.len() as int);
            proof {
                assert(tail[0] == h[i as int]);
                assert(tail.drop_first() =~= h.subrange(i + 1, h.len() as int));
            }
            let k = headers[i].0.as_slice();
            let v = headers[i].1.as_slice();
            proof {
                assert(h[i as int] == (headers@[i as int].0@, headers@[i as int].1@));
                assert(k@ == tail[0].0 && v@ == tail[0].1);
            }
            if bytes_eq(k, vstd::array::array_as_slice(&key)) {
                match read_screen_res(v) {
                    Some(res) => {
                        cur.server_screen_res = res;
                        seen = true;
                    },
                    None => {
                        return Err(ProtocolError::MalformedMessage);
                    },
                }
            }
            i = i + 1;
        }
        // The core fields must have been set.
        if require_core_fields && !seen {
            return Err(ProtocolError::MissingCoreField);
        }
        *self = cur;
        Ok(())
    }

    /// Applies a later server-information message; fields it leaves out keep
    /// their values.
    pub fn update(&mut self, msg: &[u8]) -> (r: Result<(), ProtocolError>)
        ensures
            match info_update(*old(self), msg@, false) {
                Ok(info) => r is Ok && *final(self) == info,
                Err(e) => r == Err::<(), ProtocolError>(e) && *final(self) == *old(self),
            },
    {
        self.extend_from(msg, false)
    }

    /// The server information of the first server-information message, which
    /// must hold every core field.
    pub fn from_message(msg: &[u8]) -> (r: Result<ServerInfo, ProtocolError>)
        ensures
            r == info_update(blank_info(), msg@, true),
    {
        let mut new = ServerInfo { version: (0, 0), server_screen_res: Pair::new(0, 0) };
        match new.extend_from(msg, true) {
            Ok(()) => Ok(new),
            Err(e) => Err(e),
        }
    }

    /// The setup for this device under `config`.
    pub fn build(&self, config: &Config) -> (r: Option<Setup>)
        ensures
            r is Some <==> buildable(*self, *config),
            r is Some ==> r->0 == setup_of(*self, *config) && r->0.wf(),
    {
        Setup::new(self, config)
    }
}


/// The state of a session once the handshake is done.
#[derive(Clone, Debug)]
pub struct AbsmSession {
    pub config: Config,
    pub server_info: ServerInfo,
    pub setup: Setup,
}

/// The kind of a message by its tag; `None` for a message too short to hold
/// one.
pub open spec fn dispatch_of(msg: Seq<u8>) -> Option<Dispatch> {
    if msg.len() < 4 {
        None
    } else {
        let t = msg.subrange(0, 4);
        Some(
            if t == touch_tag() {
                Dispatch::Touch
            } else if t == key_tag() {
                Dispatch::Key
            } else if t == server_info_tag() {
                Dispatch::ServerInfoUpdated
            } else if t == ping_tag() {
                Dispatch::Reply
            } else {
                Dispatch::Unknown
            },
        )
    }
}

impl AbsmSession {
    /// Starts a session from the device's reply to the handshake: the reply
    /// must be a server-information message of our major version holding
    /// every core field, and the setup built from it must map something.
    pub fn new(config: Config, reply: &[u8]) -> (r: Result<AbsmSession, ProtocolError>)
        ensures
            match info_update(blank_info(), reply@, true) {
                Err(e) => r == Err::<AbsmSession, ProtocolError>(e),
                Ok(info) => if buildable(info, config) {
                    &&& r is Ok
                    &&& r->Ok_0.config == config
                    &&& r->Ok_0.server_info == info
                    &&& r->Ok_0.setup == setup_of(info, config)
                    &&& r->Ok_0.setup.wf()
                } else {
                    r == Err::<AbsmSession, ProtocolError>(ProtocolError::UnusableGeometry)
                },
            },
    {
        let server_info = match ServerInfo::from_message(reply) {
            Ok(info) => info,
            Err(e) => {
                return Err(e);
            },
        };
        match server_info.build(&config) {
            Some(setup) => Ok(AbsmSession { config, server_info, setup }),
            None => Err(ProtocolError::UnusableGeometry),
        }
    }

    /// Handles one message. A touch or a key event is reported to the caller;
    /// server information updates `server_info` (the setup is not rebuilt); a
    /// ping is rewritten in place into its reply, for the caller to send back;
    /// a message of another kind is ignored. A message too short to hold a tag
    /// is malformed.
    pub fn consume_message(&mut self, msg: &mut Vec<u8>) -> (r: Result<Dispatch, ProtocolError>)
        ensures
            final(self).config == old(self).config,
            final(self).setup == old(self).setup,
            match dispatch_of(old(msg)@) {
                None => r == Err::<Dispatch, ProtocolError>(ProtocolError::MalformedMessage)
                    && final(self).server_info == old(self).server_info,
                Some(Dispatch::ServerInfoUpdated) => match info_update(
                    old(self).server_info,
                    old(msg)@,
                    false,
                ) {
                    Ok(info) => r == Ok::<Dispatch, ProtocolError>(Dispatch::ServerInfoUpdated)
                        && final(self).server_info == info,
                    Err(e) => r == Err::<Dispatch, ProtocolError>(e) && final(self).server_info
                        == old(self).server_info,
                },
                Some(d) => r == Ok::<Dispatch, ProtocolError>(d) && final(self).server_info
                    == old(self).server_info,
            },
            dispatch_of(old(msg)@) == Some(Dispatch::Reply) ==> final(msg)@ == reply_tag()
                + old(msg)@.subrange(4, old(msg)@.len() as int),
            dispatch_of(old(msg)@) != Some(Dispatch::Reply) ==> final(msg)@ == old(msg)@,
    {
        let ghost m = msg@;
        if msg.len() < 4 {
            return Err(ProtocolError::MalformedMessage);
        }
        let touch: [u8; 4] = [0x74u8, 0x75u8, 0x63u8, 0x68u8];
        let key: [u8; 4] = [0x6bu8, 0x65u8, 0x79u8, 0x70u8];
        let info: [u8; 4] = [0x73u8, 0x49u8, 0x6eu8, 0x66u8];
        let ping: [u8; 4] = [0x70u8, 0x69u8, 0x6eu8, 0x67u8];
        proof {
            assert(touch@ =~= touch_tag());
            assert(key@ =~= key_tag());
            assert(info@ =~= server_info_tag());
            assert(ping@ =~= ping_tag());
        }
        if has_tag(msg.as_slice(), touch) {
            Ok(Dispatch::Touch)
        } else if has_tag(msg.as_slice(), key) {
            Ok(Dispatch::Key)
        } else if has_tag(msg.as_slice(), info) {
            match self.server_info.update(msg.as_slice()) {
                Ok(()) => Ok(Dispatch::ServerInfoUpdated),
                Err(e) => Err(e),
            }
        } else if has_tag(msg.as_slice(), ping) {
            msg.set(0, 0x72u8);
            msg.set(1, 0x65u8);
            msg.set(2, 0x70u8);
            msg.set(3, 0x6cu8);
            proof {
                assert(msg@ =~= reply_tag() + m.subrange(4, m.len() as int));
            }
            Ok(Dispatch::Reply)
        } else {
            Ok(Dispatch::Unknown)
        }
    }
}

/// A reply of another major version stops the session before any setup is
/// built: the server information is refused with a version mismatch, whatever
/// it held before and whatever the message holds after the version.
pub proof fn lemma_version_gate(info: ServerInfo, msg: Seq<u8>, require_core: bool)
    requires
        msg.len() >= 8,
        msg.subrange(0, 4) == server_info_tag(),
        message_version(msg).0 != ABSM_VERSION_MAJOR,
    ensures
        info_update(info, msg, require_core) == Err::<ServerInfo, ProtocolError>(
            ProtocolError::ProtocolVersionMismatch {
                local_major: ABSM_VERSION_MAJOR,
                local_minor: ABSM_VERSION_MINOR,
                remote_major: message_version(msg).0,
                remote_minor: message_version(msg).1,
            },
        ),
        info_update(info, msg, require_core) is Err,
{
}

/// A scratch buffer for one message at a time, owned by its user.
pub struct NetBuffer {
    buf: Vec<u8>,
}

impl NetBuffer {
    /// The bytes the buffer holds.
    pub closed spec fn contents(&self) -> Seq<u8> {
        self.buf@
    }

    pub fn new() -> (r: NetBuffer)
        ensures
            r.contents().len() == 0,
    {
        NetBuffer { buf: Vec::with_capacity(65536) }
    }
}

/// Hands out a buffer emptied for the next message.
pub trait LocalBuffer {
    fn borrow(&mut self) -> (r: &mut Vec<u8>)
        ensures
            r@.len() == 0,
    ;
}

impl LocalBuffer for NetBuffer {
    fn borrow(&mut self) -> (r: &mut Vec<u8>) {
        self.buf.clear();
        &mut self.buf
    }
}

} // verus!

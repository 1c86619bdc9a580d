//! The server-list-ping protocol: outcome taxonomy, the records a confirmed
//! server yields, the handshake state machine with its legacy fallback, and
//! extraction of a candidate address from one line of scanner output.
//!
//! The network itself is driven by the surrounding application; everything
//! here is the protocol logic on plain values.

use vstd::prelude::*;
use crate::ip::find_from;

verus! {

/// Why a candidate failed verification.
#[derive(Clone, Debug, PartialEq, Eq)]
pub enum Error {
    /// The scanner output line held no `ip` field.
    NoIp,
    /// The `ip` field was not a string.
    InvalidIpType,
    /// The TCP connection could not be opened.
    ServerUnreachable,
    /// The modern handshake failed; carries the underlying message.
    CantPingServer(String),
    /// A connect or modern-ping step ran over its time budget.
    Timeout,
    /// The legacy fallback handshake failed.
    OldSLPFail,
}

impl Error {
    /// The diagnostic line for this outcome.
    pub fn describe(&self) -> (r: String)
        ensures
            match self {
                Error::NoIp => r@ == "error: Scan json did not contain ip field"@,
                Error::InvalidIpType => r@ == "error: Invalid Ip"@,
                Error::ServerUnreachable => r@ == "error: Cant connect to server"@,
                Error::CantPingServer(m) => r@
                    == "error: Cant server list ping server, Craftping error: "@ + m@,
                Error::Timeout => r@ == "Timeout occured with slp or tcp"@,
                Error::OldSLPFail => r@ == "error: Failed to ping with 1.6"@,
            },
    {
        match self {
            Error::NoIp => "error: Scan json did not contain ip field".to_owned(),
            Error::InvalidIpType => "error: Invalid Ip".to_owned(),
            Error::ServerUnreachable => "error: Cant connect to server".to_owned(),
            Error::CantPingServer(m) => "error: Cant server list ping server, Craftping error: "
                .to_owned().concat(m.as_str()),
            Error::Timeout => "Timeout occured with slp or tcp".to_owned(),
            Error::OldSLPFail => "error: Failed to ping with 1.6".to_owned(),
        }
    }
}

/// One entry of the player sample a modern server advertises.
#[derive(Clone, Debug, PartialEq, Eq)]
pub struct PlayerSample {
    pub name: String,
    pub id: String,
}

/// The style flags of a modern server's rich-text description.
#[derive(Clone, Copy, Debug, PartialEq, Eq, Structural)]
pub struct ChatStyle {
    pub bold: bool,
    pub italic: bool,
    pub underlined: bool,
    pub strikethrough: bool,
    pub obfuscated: bool,
}

/// What a successful modern handshake reports, on plain values; the
/// application converts the ping library's response into this shape.
#[derive(Clone, Debug)]
pub struct ModernInfo {
    pub version: String,
    pub protocol: i32,
    pub max_players: usize,
    pub online_players: usize,
    pub sample: Option<Vec<PlayerSample>>,
    pub description_text: String,
    pub style: ChatStyle,
    pub color: Option<String>,
    /// Opaque capture of any extra formatting payload.
    pub extra: String,
    /// Raw favicon bytes, when the server sent one.
    pub favicon: Option<Vec<u8>>,
    /// Opaque capture of mod metadata.
    pub mod_info: String,
    /// Opaque capture of forge metadata.
    pub forge_data: String,
}

/// What the legacy fallback handshake reports.
#[derive(Clone, Debug, PartialEq, Eq)]
pub struct LegacyInfo {
    /// The whole kick payload as text.
    pub full_response: String,
    pub motd: String,
    pub max_players: String,
    pub current_players: String,
}

/// A confirmed server, as handed to the persistence collaborator.  Two
/// protocol generations produce two shapes.
#[derive(Clone, Debug)]
pub enum ServerRecord {
    Modern {
        ip: String,
        /// The scanner output line the candidate came from.
        scan_line: String,
        version: String,
        protocol: i32,
        max_players: usize,
        online_players: usize,
        sample: Option<Vec<PlayerSample>>,
        description_text: String,
        style: ChatStyle,
        color: Option<String>,
        extra: String,
        /// Favicon in its transport encoding, empty when the server sent none.
        favicon: String,
        mod_info: String,
        forge_data: String,
    },
    Legacy {
        ip: String,
        scan_line: String,
        full_response: String,
        motd: String,
        max_players: String,
        current_players: String,
    },
}

/// What `base64::encode` returns for the given bytes; the encoding depends
/// on the bytes alone.
pub uninterp spec fn base64_chars(b: Seq<u8>) -> Seq<char>;

/// Relies on `base64::encode` (standard alphabet, padded): four output
/// characters for every three input bytes.
#[verifier::external_body]
fn base64_encode(b: &Vec<u8>) -> (r: String)
    ensures
        r@ == base64_chars(b@),
        r@.len() == 4 * ((b@.len() + 2) / 3),
{
    base64::encode(b)
}

/// The record a modern handshake for candidate `ip` must produce: every
/// field of `info` carried over, the favicon bytes in their transport
/// encoding, a missing favicon as the empty string.
pub open spec fn is_modern_record_for(
    r: ServerRecord,
    ip: Seq<char>,
    line: Seq<char>,
    info: ModernInfo,
) -> bool {
    r matches ServerRecord::Modern {
        ip: rip,
        scan_line: rline,
        version,
        protocol,
        max_players,
        online_players,
        sample,
        description_text,
        style,
        color,
        extra,
        favicon,
        mod_info,
        forge_data,
    } && rip@ == ip && rline@ == line && version == info.version && protocol == info.protocol
        && max_players == info.max_players && online_players == info.online_players && sample
        == info.sample && description_text == info.description_text && style == info.style
        && color == info.color && extra == info.extra && mod_info == info.mod_info && forge_data
        == info.forge_data && favicon@ == (match info.favicon {
        Some(b) => base64_chars(b@),
        None => Seq::<char>::empty(),
    })
}

/// The record a legacy handshake for candidate `ip` must produce.
pub open spec fn is_legacy_record_for(
    r: ServerRecord,
    ip: Seq<char>,
    line: Seq<char>,
    info: LegacyInfo,
) -> bool {
    r matches ServerRecord::Legacy {
        ip: rip,
        scan_line: rline,
        full_response,
        motd,
        max_players,
        current_players,
    } && rip@ == ip && rline@ == line && full_response == info.full_response && motd == info.motd
        && max_players == info.max_players && current_players == info.current_players
}

/// Normalizes a successful modern handshake into the record that is
/// persisted: every field is carried over; the favicon bytes are encoded,
/// a missing favicon becomes the empty string.
pub fn make_modern_record(ip: String, scan_line: String, info: ModernInfo) -> (r: ServerRecord)
    ensures
        is_modern_record_for(r, ip@, scan_line@, info),
{
    let favicon = match info.favicon {
        Some(b) => base64_encode(&b),
        None => String::new(),
    };
    ServerRecord::Modern {
        ip,
        scan_line,
        version: info.version,
        protocol: info.protocol,
        max_players: info.max_players,
        online_players: info.online_players,
        sample: info.sample,
        description_text: info.description_text,
        style: info.style,
        color: info.color,
        extra: info.extra,
        favicon,
        mod_info: info.mod_info,
        forge_data: info.forge_data,
    }
}


/// UTF-16 code units of one character: one unit below `0x10000`, a
/// surrogate pair above.
pub open spec fn utf16_units_of_char(c: char) -> Seq<u16> {
    if (c as int) < 0x10000 {
        seq![c as u16]
    } else {
        let v = (c as int) - 0x10000;
        seq![(0xD800 + (v / 0x400)) as u16, (0xDC00 + (v % 0x400)) as u16]
    }
}

/// UTF-16 code units of a string.
pub open spec fn utf16_units(s: Seq<char>) -> Seq<u16>
    decreases s.len(),
{
    if s.len() == 0 {
        Seq::empty()
    } else {
        utf16_units(s.drop_last()) + utf16_units_of_char(s.last())
    }
}

/// Big-endian bytes of one 16-bit value.
pub open spec fn be16(u: u16) -> Seq<u8> {
    seq![(u >> 8) as u8, (u & 0xFF) as u8]
}

/// Big-endian bytes of a sequence of 16-bit values.
pub open spec fn be_bytes(units: Seq<u16>) -> Seq<u8>
    decreases units.len(),
{
    if units.len() == 0 {
        Seq::empty()
    } else {
        be_bytes(units.drop_last()) + be16(units.last())
    }
}

/// The fixed plugin-message channel name `MC|PingHost`, UTF-16BE encoded.
pub open spec fn channel_name_bytes() -> Seq<u8> {
    seq![
        0x00u8,
        0x4Du8,
        0x00u8,
        0x43u8,
        0x00u8,
        0x7Cu8,
        0x00u8,
        0x50u8,
        0x00u8,
        0x69u8,
        0x00u8,
        0x6Eu8,
        0x00u8,
        0x67u8,
        0x00u8,
        0x48u8,
        0x00u8,
        0x6Fu8,
        0x00u8,
        0x73u8,
        0x00u8,
        0x74u8,
    ]
}

/// The legacy ping request for a hostname and port, byte for byte: the
/// ping-request byte, the secondary request byte, the plugin-message byte,
/// the channel name with its 16-bit unit-count prefix, a 16-bit length of
/// the payload that follows it, the protocol-version byte `0x4A`, the
/// hostname with its 16-bit unit-count prefix, and the 16-bit port.
pub open spec fn legacy_request_bytes(host: Seq<char>, port: u16) -> Seq<u8> {
    let units = utf16_units(host);
    seq![0xFEu8, 0x01u8, 0xFAu8] + be16(11u16) + channel_name_bytes() + be16(
        (5 + 2 * units.len()) as u16,
    ) + seq![0x4Au8] + be16(units.len() as u16) + be_bytes(units) + be16(port)
}

/// A string never needs more than two units per character.
pub proof fn lemma_utf16_len(s: Seq<char>)
    ensures
        utf16_units(s).len() <= 2 * s.len(),
    decreases s.len(),
{
    if s.len() > 0 {
        lemma_utf16_len(s.drop_last());
    }
}

fn encode_utf16_units(s: &str) -> (units: Vec<u16>)
    ensures
        units@ == utf16_units(s@),
{
    let n = s.unicode_len();
    let mut units: Vec<u16> = Vec::new();
    let mut i: usize = 0;
    while i < n
        invariant
            i <= n,
            n == s@.len(),
            units@ == utf16_units(s@.take(i as int)),
        decreases n - i,
    {
        let c = s.get_char(i);
        proof {
            assert(s@.take(i + 1).drop_last() =~= s@.take(i as int));
            assert(s@.take(i + 1).last() == s@[i as int]);
        }
        let cv = c as u32;
        if cv < 0x10000 {
            units.push(c as u16);
            proof {
                assert(units@ =~= utf16_units(s@.take(i + 1)));
            }
        } else {
            let v = cv - 0x10000;
            units.push((0xD800 + (v / 0x400)) as u16);
            units.push((0xDC00 + (v % 0x400)) as u16);
            proof {
                assert(units@ =~= utf16_units(s@.take(i + 1)));
            }
        }
        i = i + 1;
    }
    proof {
        assert(s@.take(n as int) =~= s@);
    }
    units
}

fn push_be16(out: &mut Vec<u8>, u: u16)
    ensures
        final(out)@ == old(out)@ + be16(u),
{
    out.push((u >> 8) as u8);
    out.push((u & 0xFF) as u8);
    proof {
        assert(out@ =~= old(out)@ + be16(u));
    }
}

/// Builds the legacy ping request for `host` and `port`, exactly the bytes
/// of [`legacy_request_bytes`].
pub fn legacy_ping_request(host: &str, port: u16) -> (r: Vec<u8>)
    requires
        host@.len() <= 0x3FFE,
    ensures
        r@ == legacy_request_bytes(host@, port),
{
    let units = encode_utf16_units(host);
    proof {
        lemma_utf16_len(host@);
    }
    let mut out: Vec<u8> = Vec::new();
    out.push(0xFE);
    out.push(0x01);
    out.push(0xFA);
    push_be16(&mut out, 11);
    let channel: [u8; 22] = [
        0x00,
        0x4D,
        0x00,
        0x43,
        0x00,
        0x7C,
        0x00,
        0x50,
        0x00,
        0x69,
        0x00,
        0x6E,
        0x00,
        0x67,
        0x00,
        0x48,
        0x00,
        0x6F,
        0x00,
        0x73,
        0x00,
        0x74,
    ];
    let mut ci: usize = 0;
    let ghost after_header = out@;
    while ci < 22
        invariant
            ci <= 22,
            channel@.len() == 22,
            channel@ == channel_name_bytes(),
            out@ == after_header + channel_name_bytes().take(ci as int),
        decreases 22 - ci,
    {
        out.push(channel[ci]);
        proof {
            assert(channel_name_bytes().take(ci + 1) =~= channel_name_bytes().take(
                ci as int,
            ).push(channel_name_bytes()[ci as int]));
            assert(out@ =~= after_header + channel_name_bytes().take(ci + 1));
        }
        ci = ci + 1;
    }
    proof {
        assert(channel_name_bytes().take(22) =~= channel_name_bytes());
    }
    let ulen = units.len();
    push_be16(&mut out, (5 + 2 * (ulen as u16)));
    out.push(0x4A);
    push_be16(&mut out, ulen as u16);
    let ghost before_units = out@;
    let mut ui: usize = 0;
    while ui < units.len()
        invariant
            ui <= units@.len(),
            out@ == before_units + be_bytes(units@.take(ui as int)),
        decreases units@.len() - ui,
    {
        proof {
            assert(units@.take(ui + 1).drop_last() =~= units@.take(ui as int));
            assert(units@.take(ui + 1).last() == units@[ui as int]);
        }
        push_be16(&mut out, units[ui]);
        proof {
            assert(out@ =~= before_units + be_bytes(units@.take(ui + 1)));
        }
        ui = ui + 1;
    }
    proof {
        assert(units@.take(units@.len() as int) =~= units@);
    }
    push_be16(&mut out, port);
    proof {
        assert(out@ =~= legacy_request_bytes(host@, port));
    }
    out
}


/// 16-bit big-endian units read from a byte stream; a trailing odd byte is
/// dropped.
pub open spec fn units_of_bytes(b: Seq<u8>) -> Seq<u16>
    decreases b.len(),
{
    if b.len() < 2 {
        Seq::empty()
    } else {
        seq![(b[0] * 256 + b[1]) as u16] + units_of_bytes(b.skip(2))
    }
}

/// The three fields of a legacy kick payload, still as code units in wire
/// order: the unit sequence is reversed, the first two section-sign
/// separators of the reversed stream mark off the last two fields, and the
/// rest (in natural order) is the message of the day.  The segment before
/// the first separator of the reversed stream is the max-players field
/// reversed; the next segment is the current-players field reversed.
/// `None` when fewer than two separators exist.
pub open spec fn legacy_fields(units: Seq<u16>) -> Option<(Seq<u16>, Seq<u16>, Seq<u16>)> {
    let rev = units.reverse();
    let k1 = find_from(rev, 0xA7u16, 0);
    if k1 < 0 {
        None
    } else {
        let k2 = find_from(rev, 0xA7u16, k1 + 1);
        if k2 < 0 {
            None
        } else {
            Some(
                (
                    units.take(units.len() - k2 - 1),
                    rev.take(k1).reverse(),
                    rev.subrange(k1 + 1, k2).reverse(),
                ),
            )
        }
    }
}

/// What `String::from_utf16_lossy` returns for the given code units; the
/// text depends on the units alone.
pub uninterp spec fn utf16_text(units: Seq<u16>) -> Seq<char>;

/// Relies on `String::from_utf16_lossy`: decodes UTF-16, replacing invalid
/// data with the replacement character; no units give the empty string.
#[verifier::external_body]
fn utf16_lossy(units: &Vec<u16>) -> (r: String)
    ensures
        r@ == utf16_text(units@),
        units@.len() == 0 ==> r@.len() == 0,
{
    String::from_utf16_lossy(&units[..])
}

fn units_from_bytes(b: &[u8], start: usize) -> (units: Vec<u16>)
    requires
        start <= b@.len(),
    ensures
        units@ == units_of_bytes(b@.skip(start as int)),
{
    let mut units: Vec<u16> = Vec::new();
    let mut i: usize = start;
    while i < b.len() && i + 1 < b.len()
        invariant
            start <= i <= b@.len(),
            units_of_bytes(b@.skip(start as int)) == units@ + units_of_bytes(
                b@.skip(i as int),
            ),
        decreases b@.len() - i,
    {
        let u: u16 = (b[i] as u16) * 256 + (b[i + 1] as u16);
        proof {
            let rest = b@.skip(i as int);
            assert(rest[0] == b@[i as int]);
            assert(rest[1] == b@[i + 1]);
            assert(rest.skip(2) =~= b@.skip(i + 2));
            assert(units_of_bytes(rest) =~= seq![u] + units_of_bytes(b@.skip(i + 2)));
            assert((units@ + seq![u]) + units_of_bytes(b@.skip(i + 2)) =~= units@ + (seq![u]
                + units_of_bytes(b@.skip(i + 2))));
        }
        units.push(u);
        i = i + 2;
    }
    proof {
        assert(b@.skip(i as int).len() < 2);
        assert(units_of_bytes(b@.skip(i as int)) =~= Seq::<u16>::empty());
        assert(units@ + Seq::<u16>::empty() =~= units@);
    }
    units
}

fn reverse_units(v: &Vec<u16>) -> (r: Vec<u16>)
    ensures
        r@ == v@.reverse(),
{
    let mut r: Vec<u16> = Vec::new();
    let n = v.len();
    let mut i: usize = 0;
    while i < n
        invariant
            i <= n,
            n == v@.len(),
            r@.len() == i,
            forall|j: int| 0 <= j < i ==> r@[j] == v@[n - 1 - j],
        decreases n - i,
    {
        r.push(v[n - 1 - i]);
        i = i + 1;
    }
    proof {
        assert(r@ =~= v@.reverse());
    }
    r
}

fn find_unit_at(t: &Vec<u16>, c: u16, start: usize) -> (r: usize)
    requires
        start <= t@.len(),
    ensures
        find_from(t@, c, start as int) < 0 ==> r == t@.len(),
        find_from(t@, c, start as int) >= 0 ==> r == find_from(t@, c, start as int) && r
            < t@.len(),
        start <= r <= t@.len(),
        r < t@.len() ==> t@[r as int] == c,
{
    let mut i: usize = start;
    while i < t.len()
        invariant
            start <= i <= t@.len(),
            find_from(t@, c, start as int) == find_from(t@, c, i as int),
        decreases t@.len() - i,
    {
        if t[i] == c {
            return i;
        }
        i = i + 1;
    }
    i
}

fn subvec_units(t: &Vec<u16>, a: usize, b: usize) -> (r: Vec<u16>)
    requires
        a <= b <= t@.len(),
    ensures
        r@ == t@.subrange(a as int, b as int),
{
    let mut r: Vec<u16> = Vec::new();
    let mut i: usize = a;
    while i < b
        invariant
            a <= i <= b <= t@.len(),
            r@ == t@.subrange(a as int, i as int),
        decreases b - i,
    {
        r.push(t[i]);
        proof {
            assert(t@.subrange(a as int, i + 1) =~= t@.subrange(a as int, i as int).push(
                t@[i as int],
            ));
        }
        i = i + 1;
    }
    r
}

/// Decodes everything read back from a legacy ping, first byte included:
/// the stream must open with the kick-packet id `0xFF`; the rest is taken
/// as UTF-16BE code units and split as [`legacy_fields`] describes.  Any
/// other shape is the legacy-protocol failure.
pub fn decode_legacy_response(data: &[u8]) -> (r: Result<LegacyInfo, Error>)
    ensures
        match r {
            Ok(info) => data@.len() >= 1 && data@[0] == 0xFF && (legacy_fields(
                units_of_bytes(data@.skip(1)),
            ) matches Some((m, mx, cur)) && info.motd@ == utf16_text(m) && info.max_players@
                == utf16_text(mx) && info.current_players@ == utf16_text(cur))
                && info.full_response@ == utf16_text(units_of_bytes(data@.skip(1))),
            Err(e) => e == Error::OldSLPFail && (data@.len() < 1 || data@[0] != 0xFF
                || legacy_fields(units_of_bytes(data@.skip(1))) is None),
        },
{
    if data.len() < 1 {
        return Err(Error::OldSLPFail);
    }
    if data[0] != 0xFF {
        return Err(Error::OldSLPFail);
    }
    let units = units_from_bytes(data, 1);
    let full_response = utf16_lossy(&units);
    let rev = reverse_units(&units);
    let k1 = find_unit_at(&rev, 0xA7, 0);
    if k1 == rev.len() {
        return Err(Error::OldSLPFail);
    }
    let k2 = find_unit_at(&rev, 0xA7, k1 + 1);
    if k2 == rev.len() {
        return Err(Error::OldSLPFail);
    }
    let max_rev = subvec_units(&rev, 0, k1);
    let cur_rev = subvec_units(&rev, k1 + 1, k2);
    let max_units = reverse_units(&max_rev);
    let cur_units = reverse_units(&cur_rev);
    let motd_units = subvec_units(&units, 0, units.len() - k2 - 1);
    proof {
        assert(rev@.take(k1 as int) =~= rev@.subrange(0, k1 as int));
        assert(motd_units@ =~= units@.take(units@.len() - k2 - 1));
    }
    let motd = utf16_lossy(&motd_units);
    let max_players = utf16_lossy(&max_units);
    let current_players = utf16_lossy(&cur_units);
    proof {
        let u = units@;
        let rv = u.reverse();
        assert(rev@ == rv);
        assert(k1 as int == find_from(rv, 0xA7u16, 0));
        assert(k2 as int == find_from(rv, 0xA7u16, k1 + 1));
        assert(legacy_fields(u) == Some(
            (u.take(u.len() - k2 - 1), rv.take(k1 as int).reverse(), rv.subrange(
                k1 + 1,
                k2 as int,
            ).reverse()),
        ));
        assert(max_units@ == rv.take(k1 as int).reverse());
        assert(cur_units@ == rv.subrange(k1 + 1, k2 as int).reverse());
        assert(motd_units@ == u.take(u.len() - k2 - 1));
    }
    Ok(LegacyInfo { full_response, motd, max_players, current_players })
}


/// Where one candidate's handshake stands.  The modern exchange runs on the
/// first connection; its timeout, and nothing else, falls back to the
/// legacy exchange on a fresh connection.
#[derive(Debug)]
pub enum PingState {
    /// Waiting for the TCP connection (10-second budget).
    Connecting,
    /// Connection open; waiting for the modern status exchange (10-second
    /// budget).
    ModernHandshake,
    /// Modern exchange timed out; waiting for the legacy exchange on a
    /// fresh connection (10-second budget).
    LegacyHandshake,
    /// Terminal: the record to persist, or why the candidate was dropped.
    Done(Result<ServerRecord, Error>),
}

/// What the driving loop observed for the current step.
#[derive(Debug)]
pub enum PingEvent {
    ConnectOk,
    ConnectFailed,
    ConnectTimedOut,
    /// The modern exchange succeeded, already converted to plain values.
    ModernOk(ModernInfo),
    /// The modern exchange failed; carries the underlying message.
    ModernFailed(String),
    ModernTimedOut,
    /// The legacy exchange produced a decoded kick payload.
    LegacyOk(LegacyInfo),
    LegacyFailed,
    LegacyTimedOut,
}

/// Which events can be observed in which state.
pub open spec fn event_fits(state: PingState, event: PingEvent) -> bool {
    match state {
        PingState::Connecting => event is ConnectOk || event is ConnectFailed || event
            is ConnectTimedOut,
        PingState::ModernHandshake => event is ModernOk || event is ModernFailed || event
            is ModernTimedOut,
        PingState::LegacyHandshake => event is LegacyOk || event is LegacyFailed || event
            is LegacyTimedOut,
        PingState::Done(_) => false,
    }
}

/// One transition of the handshake state machine for the candidate at
/// `ip`.  Every edge is pinned: connect failures and timeouts are
/// terminal; a modern success ends in the normalized modern record; a
/// modern protocol error is terminal with its message; only a modern
/// timeout enters the legacy fallback; the legacy exchange ends in the
/// legacy record or is terminal.
pub fn ping_step(state: PingState, event: PingEvent, ip: &String, scan_line: &String) -> (next:
    PingState)
    requires
        event_fits(state, event),
    ensures
        (state is Connecting && event is ConnectOk) ==> next is ModernHandshake,
        (state is Connecting && event is ConnectFailed) ==> next == PingState::Done(
            Err::<ServerRecord, Error>(Error::ServerUnreachable),
        ),
        (state is Connecting && event is ConnectTimedOut) ==> next == PingState::Done(
            Err::<ServerRecord, Error>(Error::Timeout),
        ),
        state is ModernHandshake ==> (event matches PingEvent::ModernOk(info) ==> (next
            matches PingState::Done(Ok(r)) && is_modern_record_for(r, ip@, scan_line@, info))),
        state is ModernHandshake ==> (event matches PingEvent::ModernFailed(msg) ==> next
            == PingState::Done(Err::<ServerRecord, Error>(Error::CantPingServer(msg)))),
        (state is ModernHandshake && event is ModernTimedOut) ==> next is LegacyHandshake,
        state is LegacyHandshake ==> (event matches PingEvent::LegacyOk(info) ==> (next
            matches PingState::Done(Ok(r)) && is_legacy_record_for(r, ip@, scan_line@, info))),
        (state is LegacyHandshake && event is LegacyFailed) ==> next == PingState::Done(
            Err::<ServerRecord, Error>(Error::OldSLPFail),
        ),
        (state is LegacyHandshake && event is LegacyTimedOut) ==> next == PingState::Done(
            Err::<ServerRecord, Error>(Error::Timeout),
        ),
        // The fallback is entered through a modern-ping timeout and through
        // nothing else.
        next is LegacyHandshake ==> state is ModernHandshake && event is ModernTimedOut,
{
    match (state, event) {
        (PingState::Connecting, PingEvent::ConnectOk) => PingState::ModernHandshake,
        (PingState::Connecting, PingEvent::ConnectFailed) => PingState::Done(
            Err(Error::ServerUnreachable),
        ),
        (PingState::Connecting, PingEvent::ConnectTimedOut) => PingState::Done(
            Err(Error::Timeout),
        ),
        (PingState::ModernHandshake, PingEvent::ModernOk(info)) => PingState::Done(
            Ok(make_modern_record(ip.clone(), scan_line.clone(), info)),
        ),
        (PingState::ModernHandshake, PingEvent::ModernFailed(msg)) => PingState::Done(
            Err(Error::CantPingServer(msg)),
        ),
        (PingState::ModernHandshake, PingEvent::ModernTimedOut) => PingState::LegacyHandshake,
        (PingState::LegacyHandshake, PingEvent::LegacyOk(info)) => PingState::Done(
            Ok(
                ServerRecord::Legacy {
                    ip: ip.clone(),
                    scan_line: scan_line.clone(),
                    full_response: info.full_response,
                    motd: info.motd,
                    max_players: info.max_players,
                    current_players: info.current_players,
                },
            ),
        ),
        (PingState::LegacyHandshake, PingEvent::LegacyFailed) => PingState::Done(
            Err(Error::OldSLPFail),
        ),
        (PingState::LegacyHandshake, PingEvent::LegacyTimedOut) => PingState::Done(
            Err(Error::Timeout),
        ),
        _ => PingState::Done(Err(Error::OldSLPFail)),
    }
}


#[verifier::external_type_specification]
#[verifier::external_body]
pub struct ExValue(serde_json::Value);

/// Whether `serde_json` parses the line as one JSON value; parsing
/// depends on the line alone.
pub uninterp spec fn scan_line_parses(line: Seq<char>) -> bool;

/// Whether the line parses to an object that holds an `ip` key.
pub uninterp spec fn line_has_ip_field(line: Seq<char>) -> bool;

/// Whether the line's `ip` field is a JSON string.
pub uninterp spec fn line_has_string_ip(line: Seq<char>) -> bool;

/// The text of the line's string `ip` field.
pub uninterp spec fn ip_text(line: Seq<char>) -> Seq<char>;

/// Relies on `serde_json::from_str::<Value>`: whether a line parses is a
/// function of the line alone; a malformed line yields `None`.
#[verifier::external_body]
fn json_parse_line(line: &str) -> (r: Option<serde_json::Value>)
    ensures
        r is Some <==> scan_line_parses(line@),
{
    match serde_json::from_str::<serde_json::Value>(line) {
        Ok(v) => Some(v),
        Err(_) => None,
    }
}

/// How the `ip` field of one scanner output line reads.
enum IpField {
    /// The line is not a JSON object with an `ip` key.
    Missing,
    /// The `ip` field exists but is not a string.
    NotText,
    /// The text of the string `ip` field.
    Text(String),
}

/// Relies on `serde_json::from_str::<Value>`, `Value::get` and
/// `Value::as_str`, chained on one line of scanner output: whether the
/// line holds an `ip` key, whether that field is a string, and the
/// field's text are each functions of the line alone.  A line with an
/// `ip` key is in particular a line that parses.
#[verifier::external_body]
fn json_line_ip(line: &str) -> (r: IpField)
    ensures
        r is Missing <==> !line_has_ip_field(line@),
        r is Text <==> line_has_string_ip(line@),
        (r matches IpField::Text(s) ==> s@ == ip_text(line@)),
        !(r is Missing) ==> scan_line_parses(line@),
{
    match serde_json::from_str::<serde_json::Value>(line) {
        Ok(v) => match v.get("ip") {
            Some(field) => match field.as_str() {
                Some(s) => IpField::Text(s.to_owned()),
                None => IpField::NotText,
            },
            None => IpField::Missing,
        },
        Err(_) => IpField::Missing,
    }
}

/// The candidate address carried in one line of scanner output: the `ip`
/// field must exist and must be a string.  Success returns exactly the
/// field's text; a line without an `ip` key (a malformed line included)
/// is the missing-address outcome, a non-string field the wrong-type
/// outcome, each if and only if.
pub fn get_candidate_ip(line: &str) -> (r: Result<String, Error>)
    ensures
        r is Ok <==> line_has_string_ip(line@),
        (r matches Ok(s) ==> s@ == ip_text(line@)),
        r == Err::<String, Error>(Error::NoIp) <==> !line_has_ip_field(line@),
        r == Err::<String, Error>(Error::InvalidIpType) <==> (line_has_ip_field(line@)
            && !line_has_string_ip(line@)),
{
    match json_line_ip(line) {
        IpField::Text(s) => Ok(s),
        IpField::NotText => Err(Error::InvalidIpType),
        IpField::Missing => Err(Error::NoIp),
    }
}

/// One line of scanner output as a candidate value: exactly the lines
/// that parse yield one, and malformed lines are dropped (`None`), as the
/// scan adapter's contract says.
pub fn parse_scan_line(line: &str) -> (r: Option<serde_json::Value>)
    ensures
        r is Some <==> scan_line_parses(line@),
{
    json_parse_line(line)
}

} // verus!

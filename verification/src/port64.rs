//! The raw TCP port-64 protocol of the Ultimate 64 / Ultimate II+.
//!
//! Every command travels in one packet:
//! ```text
//! ┌──────────┬──────────┬─────────────────────┐
//! │ cmd (2 B)│ len (2 B)│ payload (len bytes) │
//! └──────────┴──────────┴─────────────────────┘
//! ```
//! Both `cmd` and `len` are little-endian `u16`; all command words lie in
//! `0xFF00..=0xFFFF`.  When the device has a password, every session starts
//! with an `AUTHENTICATE` packet whose one-byte reply must be `1`.
//!
//! This module builds the exact bytes of every packet and decodes every
//! reply; opening the socket and moving the bytes is left to the caller.
use vstd::prelude::*;
use vstd::string::StringSliceAdditionalSpecFns;
use vstd::utf8::{valid_utf8, decode_utf8, encode_utf8};
use crate::text::{push_str, push_decimal, decimal, string_from_chars};

verus! {

/// TCP port the Ultimate DMA service listens on.
pub const PORT: u16 = 64;

/// Default per-operation timeout in seconds.
pub const TIMEOUT_SECS: u64 = 5;

/// Load a PRG via DMA.
pub const CMD_DMA: u16 = 0xFF01;
/// Load and run a PRG via DMA.
pub const CMD_DMARUN: u16 = 0xFF02;
/// Inject the keyboard buffer.
pub const CMD_KEYB: u16 = 0xFF03;
/// Soft-reset the C64.
pub const CMD_RESET: u16 = 0xFF04;
/// Delay; the length field holds the milliseconds.
pub const CMD_WAIT: u16 = 0xFF05;
/// Raw write to a C64 address.
pub const CMD_DMAWRITE: u16 = 0xFF06;
/// Write to the REU address space.
pub const CMD_REUWRITE: u16 = 0xFF07;
/// Replace the active Kernal ROM.
pub const CMD_KERNALWRITE: u16 = 0xFF08;
/// Load and jump to an address.
pub const CMD_DMAJUMP: u16 = 0xFF09;
/// Mount a disk image.
pub const CMD_MOUNT_IMG: u16 = 0xFF0A;
/// Mount and run a disk image.
pub const CMD_RUN_IMG: u16 = 0xFF0B;
/// Power off the C64.
pub const CMD_POWEROFF: u16 = 0xFF0C;
/// Mount and run a cartridge image.
pub const CMD_RUN_CRT: u16 = 0xFF0D;
/// Query the device identity string.
pub const CMD_IDENTIFY: u16 = 0xFF0E;
/// Password authentication.
pub const CMD_AUTHENTICATE: u16 = 0xFF1F;
/// Start the VIC video stream (U64 only).
pub const CMD_VICSTREAM_ON: u16 = 0xFF20;
/// Start the audio stream (U64 only).
pub const CMD_AUDIOSTREAM_ON: u16 = 0xFF21;
/// Start the debug stream (U64 only).
pub const CMD_DEBUGSTREAM_ON: u16 = 0xFF22;
/// Stop the VIC video stream.
pub const CMD_VICSTREAM_OFF: u16 = 0xFF30;
/// Stop the audio stream.
pub const CMD_AUDIOSTREAM_OFF: u16 = 0xFF31;
/// Stop the debug stream.
pub const CMD_DEBUGSTREAM_OFF: u16 = 0xFF32;
/// Load the SID cartridge ROM buffer (developer command).
pub const CMD_LOADSIDCRT: u16 = 0xFF71;
/// Load the boot cartridge ROM buffer (developer command).
pub const CMD_LOADBOOTCRT: u16 = 0xFF72;
/// Read flash geometry or pages (developer command).
pub const CMD_READFLASH: u16 = 0xFF75;
/// Read / write the U64 debug register.
pub const CMD_DEBUG_REG: u16 = 0xFF76;

/// Largest payload the cartridge ROM buffers take (8 KB).
pub const CRT_BUFFER_SIZE: usize = 0x2000;

/// Largest number of characters the C64 keyboard buffer holds.
pub const KEYBOARD_BUFFER_SIZE: usize = 10;

/// Failure of a port-64 session.
#[derive(Debug, Clone)]
pub enum Port64Error {
    Connect(String),
    AuthFailed,
    Send(String),
    Recv(String),
    Timeout,
    InvalidResponse(String),
}

/// The human-readable text of an error.
pub open spec fn error_text(e: Port64Error) -> Seq<char> {
    match e {
        Port64Error::Connect(s) => "Connect failed: "@ + s@,
        Port64Error::AuthFailed => "Authentication rejected — check password"@,
        Port64Error::Send(s) => "Send failed: "@ + s@,
        Port64Error::Recv(s) => "Receive failed: "@ + s@,
        Port64Error::Timeout => "Timed out — device may be offline"@,
        Port64Error::InvalidResponse(s) => "Invalid response: "@ + s@,
    }
}

impl Port64Error {
    /// The human-readable text of the error, as shown to the user.
    pub fn message(&self) -> (r: String)
        ensures
            r@ == error_text(*self),
    {
        let mut out: Vec<char> = Vec::new();
        match self {
            Port64Error::Connect(s) => {
                push_str(&mut out, "Connect failed: ");
                push_str(&mut out, s.as_str());
            },
            Port64Error::AuthFailed => {
                push_str(&mut out, "Authentication rejected — check password");
            },
            Port64Error::Send(s) => {
                push_str(&mut out, "Send failed: ");
                push_str(&mut out, s.as_str());
            },
            Port64Error::Recv(s) => {
                push_str(&mut out, "Receive failed: ");
                push_str(&mut out, s.as_str());
            },
            Port64Error::Timeout => {
                push_str(&mut out, "Timed out — device may be offline");
            },
            Port64Error::InvalidResponse(s) => {
                push_str(&mut out, "Invalid response: ");
                push_str(&mut out, s.as_str());
            },
        }
        string_from_chars(&out)
    }
}

/// Flash geometry reported by the device.
#[derive(Debug, Clone)]
pub struct FlashGeometry {
    pub page_size: u32,
    pub page_count: u32,
}

impl FlashGeometry {
    /// Total flash size in bytes.
    pub fn total_bytes(&self) -> (r: u64)
        ensures
            r == self.page_size * self.page_count,
    {
        let a = self.page_size as u64;
        let b = self.page_count as u64;
        assert(a * b <= 0xffff_ffffu64 * 0xffff_ffffu64) by (nonlinear_arith)
            requires
                a <= 0xffff_ffffu64,
                b <= 0xffff_ffffu64,
        ;
        a * b
    }
}

/// Which U64 data stream a start or stop command addresses.
#[derive(Debug, Clone, Copy, PartialEq, Eq)]
pub enum StreamKind {
    Vic,
    Audio,
    Debug,
}

/// The command word that starts a stream of the given kind.
pub open spec fn stream_on_spec(kind: StreamKind) -> u16 {
    match kind {
        StreamKind::Vic => CMD_VICSTREAM_ON,
        StreamKind::Audio => CMD_AUDIOSTREAM_ON,
        StreamKind::Debug => CMD_DEBUGSTREAM_ON,
    }
}

/// The command word that stops a stream of the given kind.
pub open spec fn stream_off_spec(kind: StreamKind) -> u16 {
    match kind {
        StreamKind::Vic => CMD_VICSTREAM_OFF,
        StreamKind::Audio => CMD_AUDIOSTREAM_OFF,
        StreamKind::Debug => CMD_DEBUGSTREAM_OFF,
    }
}

/// The command word that starts a stream of the given kind.
pub fn stream_on_command(kind: StreamKind) -> (c: u16)
    ensures
        c == stream_on_spec(kind),
{
    match kind {
        StreamKind::Vic => CMD_VICSTREAM_ON,
        StreamKind::Audio => CMD_AUDIOSTREAM_ON,
        StreamKind::Debug => CMD_DEBUGSTREAM_ON,
    }
}

/// The command word that stops a stream of the given kind.
pub fn stream_off_command(kind: StreamKind) -> (c: u16)
    ensures
        c == stream_off_spec(kind),
{
    match kind {
        StreamKind::Vic => CMD_VICSTREAM_OFF,
        StreamKind::Audio => CMD_AUDIOSTREAM_OFF,
        StreamKind::Debug => CMD_DEBUGSTREAM_OFF,
    }
}

// ── Byte layout ───────────────────────────────────────────────────

/// Little-endian bytes of a 16-bit word.
pub open spec fn le16(v: int) -> Seq<u8> {
    seq![(v % 256) as u8, ((v / 256) % 256) as u8]
}

/// Little-endian bytes of the low 24 bits of a number.
pub open spec fn le24(v: int) -> Seq<u8> {
    seq![(v % 256) as u8, ((v / 256) % 256) as u8, ((v / 65536) % 256) as u8]
}

/// The value of two little-endian bytes.
pub open spec fn le16_value(lo: u8, hi: u8) -> int {
    lo + 256 * hi
}

/// The value of four little-endian bytes.
pub open spec fn le32_value(b: Seq<u8>) -> int {
    b[0] + 256 * b[1] + 65536 * b[2] + 16777216 * b[3]
}

/// A packet whose length field holds `len_field`, followed by `payload`.
pub open spec fn framed(cmd: u16, len_field: int, payload: Seq<u8>) -> Seq<u8> {
    le16(cmd as int) + le16(len_field) + payload
}

/// A command packet: the length field holds the payload's length, cut to
/// 16 bits as the wire format does.
pub open spec fn packet(cmd: u16, payload: Seq<u8>) -> Seq<u8> {
    framed(cmd, (payload.len() % 65536) as int, payload)
}

/// A packet of the image commands, whose length takes a third byte.
pub open spec fn image_packet_spec(cmd: u16, data: Seq<u8>) -> Seq<u8> {
    le16(cmd as int) + le24(data.len() as int) + data
}

fn push_le16(out: &mut Vec<u8>, v: u16)
    ensures
        final(out)@ == old(out)@ + le16(v as int),
{
    out.push((v % 256) as u8);
    out.push((v / 256) as u8);
    assert(out@ =~= old(out)@ + le16(v as int));
}

fn push_bytes(out: &mut Vec<u8>, data: &[u8])
    ensures
        final(out)@ == old(out)@ + data@,
{
    let mut i: usize = 0;
    while i < data.len()
        invariant
            i <= data@.len(),
            out@ == old(out)@ + data@.take(i as int),
        decreases data@.len() - i,
    {
        out.push(data[i]);
        assert(data@.take(i as int + 1) =~= data@.take(i as int).push(data@[i as int]));
        i = i + 1;
    }
    assert(data@.take(data@.len() as int) =~= data@);
}

/// The packet that sends `cmd` with `payload`.
pub fn command_packet(cmd: u16, payload: &[u8]) -> (pkt: Vec<u8>)
    ensures
        pkt@ == packet(cmd, payload@),
{
    let mut pkt: Vec<u8> = Vec::new();
    push_le16(&mut pkt, cmd);
    push_le16(&mut pkt, (payload.len() % 65536) as u16);
    push_bytes(&mut pkt, payload);
    pkt
}

/// The packet whose length field carries `len_field` rather than the
/// payload's length (used by `CMD_WAIT`, where it holds milliseconds).
pub fn raw_len_packet(cmd: u16, len_field: u16, payload: &[u8]) -> (pkt: Vec<u8>)
    ensures
        pkt@ == framed(cmd, len_field as int, payload@),
{
    let mut pkt: Vec<u8> = Vec::new();
    push_le16(&mut pkt, cmd);
    push_le16(&mut pkt, len_field);
    push_bytes(&mut pkt, payload);
    pkt
}

/// The packet of the image commands (`CMD_MOUNT_IMG`, `CMD_RUN_IMG`,
/// `CMD_RUN_CRT`): a 24-bit length, low 16 bits first, then the data.
pub fn image_packet(cmd: u16, data: &[u8]) -> (pkt: Vec<u8>)
    ensures
        pkt@ == image_packet_spec(cmd, data@),
{
    let len = data.len();
    let mut pkt: Vec<u8> = Vec::new();
    push_le16(&mut pkt, cmd);
    pkt.push((len % 256) as u8);
    pkt.push(((len / 256) % 256) as u8);
    pkt.push(((len / 65536) % 256) as u8);
    push_bytes(&mut pkt, data);
    assert(pkt@ =~= image_packet_spec(cmd, data@));
    pkt
}

/// The `CMD_WAIT` packet: the delay travels in the length field and no
/// payload follows.
pub fn wait_packet(millis: u16) -> (pkt: Vec<u8>)
    ensures
        pkt@ == framed(CMD_WAIT, millis as int, Seq::empty()),
{
    let empty: Vec<u8> = Vec::new();
    raw_len_packet(CMD_WAIT, millis, empty.as_slice())
}

/// Payload of an address-prefixed write: the address, little-endian, then
/// the data (`CMD_DMAWRITE`, `CMD_DMAJUMP`).
pub fn address_payload(address: u16, data: &[u8]) -> (p: Vec<u8>)
    ensures
        p@ == le16(address as int) + data@,
{
    let mut p: Vec<u8> = Vec::new();
    push_le16(&mut p, address);
    push_bytes(&mut p, data);
    p
}

/// Payload of `CMD_REUWRITE`: the low 24 bits of the offset, little-endian,
/// then the data.
pub fn reu_payload(offset: u32, data: &[u8]) -> (p: Vec<u8>)
    ensures
        p@ == le24(offset as int) + data@,
{
    let mut p: Vec<u8> = Vec::new();
    p.push((offset % 256) as u8);
    p.push(((offset / 256) % 256) as u8);
    p.push(((offset / 65536) % 256) as u8);
    push_bytes(&mut p, data);
    assert(p@ =~= le24(offset as int) + data@);
    p
}

/// Payload of `CMD_KERNALWRITE`: the device skips the first two bytes, so
/// two zero bytes precede the ROM image.
pub fn kernal_payload(rom_data: &[u8]) -> (p: Vec<u8>)
    ensures
        p@ == seq![0u8, 0u8] + rom_data@,
{
    let mut p: Vec<u8> = Vec::new();
    p.push(0u8);
    p.push(0u8);
    push_bytes(&mut p, rom_data);
    assert(p@ =~= seq![0u8, 0u8] + rom_data@);
    p
}

/// Payload of `CMD_KEYB`: the first ten bytes of the text's UTF-8 encoding.
pub fn keys_payload(text: &str) -> (p: Vec<u8>)
    ensures
        p@ == (if text.spec_bytes().len() > KEYBOARD_BUFFER_SIZE {
            text.spec_bytes().take(KEYBOARD_BUFFER_SIZE as int)
        } else {
            text.spec_bytes()
        }),
{
    let bytes = text.as_bytes();
    let n = if bytes.len() > KEYBOARD_BUFFER_SIZE {
        KEYBOARD_BUFFER_SIZE
    } else {
        bytes.len()
    };
    let p = crate::text::sub_bytes(bytes, 0, n);
    assert(bytes@.take(bytes@.len() as int) =~= bytes@);
    p
}

/// Data sent by `CMD_LOADSIDCRT` / `CMD_LOADBOOTCRT`: at most the first 8 KB.
pub fn crt_payload(data: &[u8]) -> (p: Vec<u8>)
    ensures
        p@ == (if data@.len() > CRT_BUFFER_SIZE {
            data@.take(CRT_BUFFER_SIZE as int)
        } else {
            data@
        }),
{
    let n = if data.len() > CRT_BUFFER_SIZE {
        CRT_BUFFER_SIZE
    } else {
        data.len()
    };
    let p = crate::text::sub_bytes(data, 0, n);
    assert(data@.take(data@.len() as int) =~= data@);
    p
}

/// Payload of `CMD_READFLASH` for one page: sub-command 2, then the low
/// 24 bits of the page index.
pub fn flash_page_payload(page: u32) -> (p: Vec<u8>)
    ensures
        p@ == seq![2u8] + le24(page as int),
{
    let mut p: Vec<u8> = Vec::new();
    p.push(2u8);
    p.push((page % 256) as u8);
    p.push(((page / 256) % 256) as u8);
    p.push(((page / 65536) % 256) as u8);
    assert(p@ =~= seq![2u8] + le24(page as int));
    p
}

/// Payload of `CMD_DEBUG_REG`: empty to read, one byte to write.
pub fn debug_register_payload(write: Option<u8>) -> (p: Vec<u8>)
    ensures
        p@ == (match write {
            Some(v) => seq![v],
            None => Seq::<u8>::empty(),
        }),
{
    let mut p: Vec<u8> = Vec::new();
    if let Some(v) = write {
        p.push(v);
    }
    assert(p@ =~= (match write {
        Some(v) => seq![v],
        None => Seq::<u8>::empty(),
    }));
    p
}

/// Payload of a stream start: the buffer-size hint, little-endian, then the
/// UTF-8 bytes of the stream name.
pub fn stream_start_payload(buffer_size: u16, name: &str) -> (p: Vec<u8>)
    ensures
        p@ == le16(buffer_size as int) + name.spec_bytes(),
{
    let mut p: Vec<u8> = Vec::new();
    push_le16(&mut p, buffer_size);
    push_bytes(&mut p, name.as_bytes());
    p
}

// ── Replies ───────────────────────────────────────────────────────

/// Judge the one-byte reply to `AUTHENTICATE`: `1` accepts, anything else
/// is a rejection.
pub fn check_auth_reply(reply: u8) -> (r: Result<(), Port64Error>)
    ensures
        r is Ok <==> reply == 1,
        r matches Err(e) ==> e is AuthFailed,
{
    if reply != 1 {
        Err(Port64Error::AuthFailed)
    } else {
        Ok(())
    }
}

/// The `u32` answered to a flash query: four little-endian bytes.
pub fn decode_u32_le(buf: &[u8]) -> (v: u32)
    requires
        buf@.len() == 4,
    ensures
        v == le32_value(buf@),
{
    let v = buf[0] as u32 + 256 * (buf[1] as u32) + 65536 * (buf[2] as u32) + 16777216 * (
    buf[3] as u32);
    v
}

/// What a flash page read gives: the data, or an error when the device sent
/// nothing.
pub fn flash_page_reply(page: u32, data: Vec<u8>) -> (r: Result<Vec<u8>, Port64Error>)
    ensures
        data@.len() > 0 ==> (r matches Ok(d) && d@ == data@),
        data@.len() == 0 ==> (r matches Err(Port64Error::InvalidResponse(m)) && m@ == "Flash page "@
            + decimal(page as nat) + " returned no data"@),
{
    if data.len() == 0 {
        let mut out: Vec<char> = Vec::new();
        push_str(&mut out, "Flash page ");
        push_decimal(&mut out, page as u64);
        push_str(&mut out, " returned no data");
        Err(Port64Error::InvalidResponse(string_from_chars(&out)))
    } else {
        Ok(data)
    }
}

/// What `String::from_utf8` (std) puts in its error's text for bytes that
/// are not UTF-8.
pub uninterp spec fn utf8_error_text(bytes: Seq<u8>) -> Seq<char>;

/// Calls `String::from_utf8` (std): `Ok` exactly when the bytes are valid
/// UTF-8, holding the decoded characters; otherwise the text of the std
/// error, named by `utf8_error_text`.
#[verifier::external_body]
pub(crate) fn string_from_utf8(bytes: Vec<u8>) -> (r: Result<String, String>)
    ensures
        r is Ok <==> valid_utf8(bytes@),
        r matches Ok(s) ==> s@ == decode_utf8(bytes@),
        r matches Err(m) ==> m@ == utf8_error_text(bytes@),
{
    match String::from_utf8(bytes) {
        Ok(s) => Ok(s),
        Err(e) => Err(e.to_string()),
    }
}

/// The device identity from the characters of its Pascal-style reply
/// (the length byte already read).
pub fn identity_from_reply(chars: Vec<u8>) -> (r: Result<String, Port64Error>)
    ensures
        valid_utf8(chars@) ==> (r matches Ok(s) && s@ == decode_utf8(chars@)),
        !valid_utf8(chars@) ==> (r matches Err(Port64Error::InvalidResponse(m)) && m@
            == "Non-UTF8 identity: "@ + utf8_error_text(chars@)),
{
    match string_from_utf8(chars) {
        Ok(s) => Ok(s),
        Err(m) => {
            let mut out: Vec<char> = Vec::new();
            push_str(&mut out, "Non-UTF8 identity: ");
            push_str(&mut out, m.as_str());
            Err(Port64Error::InvalidResponse(string_from_chars(&out)))
        },
    }
}

// ── Client ────────────────────────────────────────────────────────

/// Settings of a port-64 client: where to connect, the optional password
/// and the per-operation timeout.
#[derive(Debug, Clone)]
pub struct Port64Client {
    host: String,
    password: Option<String>,
    timeout_secs: u64,
}

impl Port64Client {
    /// The host the client connects to.
    pub closed spec fn host_spec(&self) -> Seq<char> {
        self.host@
    }

    /// The configured password, if any.
    pub closed spec fn password_spec(&self) -> Option<Seq<char>> {
        match self.password {
            Some(p) => Some(p@),
            None => None,
        }
    }

    /// The per-operation timeout in seconds.
    pub closed spec fn timeout_spec(&self) -> u64 {
        self.timeout_secs
    }

    /// A client for `host` (an IP address or host name, no port) with the
    /// default timeout.
    pub fn new(host: String, password: Option<String>) -> (c: Self)
        ensures
            c.host_spec() == host@,
            c.password_spec() == (match password {
                Some(p) => Some(p@),
                None => None::<Seq<char>>,
            }),
            c.timeout_spec() == TIMEOUT_SECS,
    {
        Port64Client { host, password, timeout_secs: TIMEOUT_SECS }
    }

    /// The same client with another per-operation timeout.
    pub fn with_timeout(self, secs: u64) -> (c: Self)
        ensures
            c.host_spec() == self.host_spec(),
            c.password_spec() == self.password_spec(),
            c.timeout_spec() == secs,
    {
        let mut c = self;
        c.timeout_secs = secs;
        c
    }

    /// The host the client connects to.
    pub fn host(&self) -> (h: &str)
        ensures
            h@ == self.host_spec(),
    {
        self.host.as_str()
    }

    /// The per-operation timeout in seconds.
    pub fn timeout_secs(&self) -> (t: u64)
        ensures
            t == self.timeout_spec(),
    {
        self.timeout_secs
    }

    /// The `AUTHENTICATE` packet that must open each session, or `None`
    /// when no password, or an empty one, is configured.
    pub fn auth_packet(&self) -> (pkt: Option<Vec<u8>>)
        ensures
            match self.password_spec() {
                Some(p) => if p.len() > 0 {
                    pkt matches Some(v) && v@ == packet(CMD_AUTHENTICATE, encode_utf8(p))
                } else {
                    pkt is None
                },
                None => pkt is None,
            },
    {
        match &self.password {
            Some(p) => {
                if p.as_str().is_empty() {
                    None
                } else {
                    Some(command_packet(CMD_AUTHENTICATE, p.as_str().as_bytes()))
                }
            },
            None => None,
        }
    }
}

/// The geometry built from the two flash queries.
pub fn flash_geometry_from(page_size: u32, page_count: u32) -> (g: FlashGeometry)
    ensures
        g.page_size == page_size,
        g.page_count == page_count,
{
    FlashGeometry { page_size, page_count }
}

// ── Laws of the wire format ───────────────────────────────────────

/// A command packet decodes back to its command word, the payload length
/// (modulo 2^16) and the payload itself.
pub proof fn lemma_packet_decodes(cmd: u16, payload: Seq<u8>)
    ensures
        packet(cmd, payload).len() == 4 + payload.len(),
        le16_value(packet(cmd, payload)[0], packet(cmd, payload)[1]) == cmd,
        le16_value(packet(cmd, payload)[2], packet(cmd, payload)[3]) == payload.len() % 65536,
        packet(cmd, payload).skip(4) == payload,
{
    let p = packet(cmd, payload);
    assert(p.skip(4) =~= payload);
}

/// The three bytes of a 24-bit little-endian field give back the value
/// modulo 2^24 (REU offsets, flash pages, image lengths).
pub proof fn lemma_le24_decodes(v: int)
    requires
        v >= 0,
    ensures
        le24(v)[0] + 256 * le24(v)[1] + 65536 * le24(v)[2] == v % 16777216,
{
    let b0 = v % 256;
    let b1 = (v / 256) % 256;
    let b2 = (v / 65536) % 256;
    assert((v / 256) / 256 == v / 65536) by {
        vstd::arithmetic::div_mod::lemma_div_denominator(v, 256, 256);
    }
    assert(v == 256 * (v / 256) + b0) by {
        vstd::arithmetic::div_mod::lemma_fundamental_div_mod(v, 256);
    }
    assert(v / 256 == 256 * (v / 65536) + b1) by {
        vstd::arithmetic::div_mod::lemma_fundamental_div_mod(v / 256, 256);
    }
    assert(v / 65536 == 256 * ((v / 65536) / 256) + b2) by {
        vstd::arithmetic::div_mod::lemma_fundamental_div_mod(v / 65536, 256);
    }
    assert((v / 65536) / 256 == v / 16777216) by {
        vstd::arithmetic::div_mod::lemma_div_denominator(v, 65536, 256);
    }
    assert(v == 16777216 * (v / 16777216) + (b0 + 256 * b1 + 65536 * b2)) by (nonlinear_arith)
        requires
            v == 256 * (v / 256) + b0,
            v / 256 == 256 * (v / 65536) + b1,
            v / 65536 == 256 * (v / 16777216) + b2,
    ;
    assert(0 <= b0 + 256 * b1 + 65536 * b2 < 16777216);
    vstd::arithmetic::div_mod::lemma_fundamental_div_mod_converse(
        v,
        16777216,
        v / 16777216,
        b0 + 256 * b1 + 65536 * b2,
    );
    assert(le24(v)[0] == b0);
    assert(le24(v)[1] == b1);
    assert(le24(v)[2] == b2);
}

} // verus!

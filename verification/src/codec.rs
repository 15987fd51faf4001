//! Binary message codec.
//!
//! Stateless functions that validate and decode a raw UDP payload into a
//! typed PTP message.  Every length check precedes every read, so
//! decoding never reads out of bounds and never panics; a malformed
//! buffer yields a typed decode failure instead.
//!
//! Wire layout of the 34-byte common header: message type is the low
//! nibble of byte 0, protocol version the low nibble of byte 1, message
//! length at offset 2, domain number at 4, flags at 6, the signed
//! correction field at 8, the 10-byte source port identity at 20, the
//! sequence id at 30, the control field at 32 and the signed
//! log-message-interval at 33.  Multi-byte fields are big-endian.

use vstd::prelude::*;

use crate::identity::{ClockIdentity, PortIdentity};

verus! {

/// Protocol version byte, split into its two nibbles.  Only major
/// version 2 messages are accepted.
#[derive(Clone, Copy, Debug, PartialEq, Eq)]
pub struct PtpVersion {
    pub major: u8,
    pub minor: u8,
}

/// Clock class carried in Announce messages (lower is better).
#[derive(Clone, Copy, Debug, PartialEq, Eq)]
pub struct PtpClockClass {
    pub class: u8,
}

impl PtpClockClass {
    pub fn new(class: u8) -> (r: PtpClockClass)
        ensures
            r.class == class,
    {
        PtpClockClass { class }
    }

    pub fn class(&self) -> (r: u8)
        ensures
            r == self.class,
    {
        self.class
    }
}

/// Clock accuracy carried in Announce messages (lower is better).
#[derive(Clone, Copy, Debug, PartialEq, Eq)]
pub struct PtpClockAccuracy {
    pub accuracy: u8,
}

impl PtpClockAccuracy {
    pub fn new(accuracy: u8) -> (r: PtpClockAccuracy)
        ensures
            r.accuracy == accuracy,
    {
        PtpClockAccuracy { accuracy }
    }
}

/// Signed correction field: a fixed-point nanosecond value in units of
/// 2^-16 ns.
#[derive(Clone, Copy, Debug, PartialEq, Eq)]
pub struct PtpCorrectionField {
    pub value: i64,
}

/// Current UTC offset carried in Announce messages, in seconds.
#[derive(Clone, Copy, Debug, PartialEq, Eq)]
pub struct PtpUtcOffset {
    pub offset: i16,
}

/// A 10-byte PTP timestamp: 48 bits of seconds and 32 bits of
/// nanoseconds, both big-endian.  The codec does not interpret the
/// value further.
#[derive(Clone, Copy, Debug, PartialEq, Eq)]
pub struct PtpTimestamp {
    pub seconds: u64,
    pub nanoseconds: u32,
}

/// The PTP message types, one per defined message-type nibble.
#[derive(Clone, Copy, Debug, PartialEq, Eq)]
pub enum PtpMessageType {
    Sync,
    DelayReq,
    PDelayReq,
    PDelayResp,
    FollowUp,
    DelayResp,
    PDelayRespFollowUp,
    Announce,
    Signaling,
    Management,
}

/// Why a buffer was rejected.  Callers treat every failure as "not a
/// recognizable PTP message" and drop the packet.
#[derive(Clone, Copy, Debug, PartialEq, Eq)]
pub enum PtpError {
    /// The buffer is shorter than the 34-byte common header.
    TooShort,
    /// The version nibble is not 2.
    UnsupportedVersion,
    /// The message-type nibble is not one of the defined types.
    UnknownMessageType,
    /// The buffer is shorter than the minimum length of its type.
    BodyTooShort,
}

/// The common 34-byte header shared by every PTP message.
#[derive(Clone, Copy, Debug, PartialEq, Eq)]
pub struct PtpHeader {
    pub message_type: PtpMessageType,
    pub version: PtpVersion,
    pub message_length: u16,
    pub domain_number: u8,
    pub flags: u16,
    pub correction_field: PtpCorrectionField,
    pub source_port_identity: PortIdentity,
    pub sequence_id: u16,
    pub control_field: u8,
    pub log_message_interval: i8,
}

pub open spec fn spec_u16_be(s: Seq<u8>, off: int) -> int {
    s[off] * 0x100 + s[off + 1]
}

pub open spec fn spec_u32_be(s: Seq<u8>, off: int) -> int {
    s[off] * 0x1000000 + s[off + 1] * 0x10000 + s[off + 2] * 0x100 + s[off + 3]
}

pub open spec fn spec_u48_be(s: Seq<u8>, off: int) -> int {
    s[off] * 0x10000000000 + s[off + 1] * 0x100000000 + spec_u32_be(s, off + 2)
}

pub open spec fn spec_u64_be(s: Seq<u8>, off: int) -> int {
    s[off] * 0x100000000000000 + s[off + 1] * 0x1000000000000 + s[off + 2] * 0x10000000000
        + s[off + 3] * 0x100000000 + spec_u32_be(s, off + 4)
}

/// The 8 bytes at `off` read as a two's-complement 64-bit integer.
pub open spec fn spec_i64_be(s: Seq<u8>, off: int) -> int {
    let u = spec_u64_be(s, off);
    if u >= 0x8000000000000000 {
        u - 0x10000000000000000
    } else {
        u
    }
}

/// The 2 bytes at `off` read as a two's-complement 16-bit integer.
pub open spec fn spec_i16_be(s: Seq<u8>, off: int) -> int {
    let u = spec_u16_be(s, off);
    if u >= 0x8000 {
        u - 0x10000
    } else {
        u
    }
}

/// The byte at `off` read as a two's-complement 8-bit integer.
pub open spec fn spec_i8(s: Seq<u8>, off: int) -> int {
    if s[off] >= 0x80 {
        s[off] - 0x100
    } else {
        s[off] as int
    }
}

fn read_u16_be(buf: &[u8], off: usize) -> (r: u16)
    requires
        off + 2 <= buf@.len(),
    ensures
        r == spec_u16_be(buf@, off as int),
{
    (buf[off] as u16) * 0x100 + (buf[off + 1] as u16)
}

fn read_u32_be(buf: &[u8], off: usize) -> (r: u32)
    requires
        off + 4 <= buf@.len(),
    ensures
        r == spec_u32_be(buf@, off as int),
{
    (buf[off] as u32) * 0x1000000 + (buf[off + 1] as u32) * 0x10000 + (buf[off + 2] as u32) * 0x100
        + (buf[off + 3] as u32)
}

fn read_u48_be(buf: &[u8], off: usize) -> (r: u64)
    requires
        off + 6 <= buf@.len(),
    ensures
        r == spec_u48_be(buf@, off as int),
{
    (buf[off] as u64) * 0x10000000000 + (buf[off + 1] as u64) * 0x100000000 + (read_u32_be(
        buf,
        off + 2,
    ) as u64)
}

fn read_u64_be(buf: &[u8], off: usize) -> (r: u64)
    requires
        off + 8 <= buf@.len(),
    ensures
        r == spec_u64_be(buf@, off as int),
{
    (buf[off] as u64) * 0x100000000000000 + (buf[off + 1] as u64) * 0x1000000000000 + (buf[off
        + 2] as u64) * 0x10000000000 + (buf[off + 3] as u64) * 0x100000000 + (read_u32_be(
        buf,
        off + 4,
    ) as u64)
}

fn read_i64_be(buf: &[u8], off: usize) -> (r: i64)
    requires
        off + 8 <= buf@.len(),
    ensures
        r == spec_i64_be(buf@, off as int),
{
    let u = read_u64_be(buf, off);
    if u >= 0x8000000000000000 {
        let magnitude = u64::MAX - u;
        -(magnitude as i64) - 1
    } else {
        u as i64
    }
}

fn read_i16_be(buf: &[u8], off: usize) -> (r: i16)
    requires
        off + 2 <= buf@.len(),
    ensures
        r == spec_i16_be(buf@, off as int),
{
    let u = read_u16_be(buf, off);
    if u >= 0x8000 {
        let magnitude = u16::MAX - u;
        -(magnitude as i16) - 1
    } else {
        u as i16
    }
}

fn read_i8(buf: &[u8], off: usize) -> (r: i8)
    requires
        off + 1 <= buf@.len(),
    ensures
        r == spec_i8(buf@, off as int),
{
    let u = buf[off];
    if u >= 0x80 {
        let magnitude = u8::MAX - u;
        -(magnitude as i8) - 1
    } else {
        u as i8
    }
}

fn read_identity(buf: &[u8], off: usize) -> (r: ClockIdentity)
    requires
        off + 8 <= buf@.len(),
    ensures
        r.clock_id@ == buf@.subrange(off as int, off as int + 8),
{
    let r = ClockIdentity {
        clock_id: [
            buf[off],
            buf[off + 1],
            buf[off + 2],
            buf[off + 3],
            buf[off + 4],
            buf[off + 5],
            buf[off + 6],
            buf[off + 7],
        ],
    };
    proof {
        assert(r.clock_id@ =~= buf@.subrange(off as int, off as int + 8));
    }
    r
}

fn read_timestamp(buf: &[u8], off: usize) -> (r: PtpTimestamp)
    requires
        off + 10 <= buf@.len(),
    ensures
        r == spec_timestamp(buf@, off as int),
{
    let n = buf.len();
    PtpTimestamp { seconds: read_u48_be(buf, off), nanoseconds: read_u32_be(buf, off + 6) }
}

/// The 10-byte timestamp at `off`: 6 bytes of seconds, 4 of nanoseconds.
pub open spec fn spec_timestamp(s: Seq<u8>, off: int) -> PtpTimestamp {
    PtpTimestamp {
        seconds: spec_u48_be(s, off) as u64,
        nanoseconds: spec_u32_be(s, off + 6) as u32,
    }
}

/// The message type encoded by a type nibble, if the nibble is defined.
pub open spec fn spec_message_type(nibble: int) -> Option<PtpMessageType> {
    if nibble == 0x0 {
        Some(PtpMessageType::Sync)
    } else if nibble == 0x1 {
        Some(PtpMessageType::DelayReq)
    } else if nibble == 0x2 {
        Some(PtpMessageType::PDelayReq)
    } else if nibble == 0x3 {
        Some(PtpMessageType::PDelayResp)
    } else if nibble == 0x8 {
        Some(PtpMessageType::FollowUp)
    } else if nibble == 0x9 {
        Some(PtpMessageType::DelayResp)
    } else if nibble == 0xA {
        Some(PtpMessageType::PDelayRespFollowUp)
    } else if nibble == 0xB {
        Some(PtpMessageType::Announce)
    } else if nibble == 0xC {
        Some(PtpMessageType::Signaling)
    } else if nibble == 0xD {
        Some(PtpMessageType::Management)
    } else {
        None
    }
}

fn message_type_of_nibble(nibble: u8) -> (r: Option<PtpMessageType>)
    ensures
        r == spec_message_type(nibble as int),
{
    if nibble == 0x0 {
        Some(PtpMessageType::Sync)
    } else if nibble == 0x1 {
        Some(PtpMessageType::DelayReq)
    } else if nibble == 0x2 {
        Some(PtpMessageType::PDelayReq)
    } else if nibble == 0x3 {
        Some(PtpMessageType::PDelayResp)
    } else if nibble == 0x8 {
        Some(PtpMessageType::FollowUp)
    } else if nibble == 0x9 {
        Some(PtpMessageType::DelayResp)
    } else if nibble == 0xA {
        Some(PtpMessageType::PDelayRespFollowUp)
    } else if nibble == 0xB {
        Some(PtpMessageType::Announce)
    } else if nibble == 0xC {
        Some(PtpMessageType::Signaling)
    } else if nibble == 0xD {
        Some(PtpMessageType::Management)
    } else {
        None
    }
}

/// The minimum total length a buffer of the given type must have before
/// its fixed body offsets may be sliced.
pub open spec fn spec_min_length(t: PtpMessageType) -> int {
    match t {
        PtpMessageType::Announce => 64,
        PtpMessageType::Sync => 44,
        PtpMessageType::FollowUp => 44,
        PtpMessageType::DelayReq => 44,
        PtpMessageType::DelayResp => 54,
        PtpMessageType::PDelayReq => 54,
        PtpMessageType::PDelayResp => 54,
        PtpMessageType::PDelayRespFollowUp => 54,
        PtpMessageType::Signaling => 34,
        PtpMessageType::Management => 34,
    }
}

fn min_length_of(t: PtpMessageType) -> (r: usize)
    ensures
        r == spec_min_length(t),
{
    match t {
        PtpMessageType::Announce => 64,
        PtpMessageType::Sync => 44,
        PtpMessageType::FollowUp => 44,
        PtpMessageType::DelayReq => 44,
        PtpMessageType::DelayResp => 54,
        PtpMessageType::PDelayReq => 54,
        PtpMessageType::PDelayResp => 54,
        PtpMessageType::PDelayRespFollowUp => 54,
        PtpMessageType::Signaling => 34,
        PtpMessageType::Management => 34,
    }
}

/// Why decoding the buffer fails, or `None` where it succeeds.  Checks
/// run in this order: header length, version nibble, type nibble, then
/// the per-type minimum length.
pub open spec fn spec_decode_err(s: Seq<u8>) -> Option<PtpError> {
    if s.len() < 34 {
        Some(PtpError::TooShort)
    } else if s[1] % 16 != 2 {
        Some(PtpError::UnsupportedVersion)
    } else if spec_message_type((s[0] % 16) as int) is None {
        Some(PtpError::UnknownMessageType)
    } else if s.len() < spec_min_length(spec_message_type((s[0] % 16) as int)->Some_0) {
        Some(PtpError::BodyTooShort)
    } else {
        None
    }
}

/// Whether the header checks alone (length, version, type) pass.
pub open spec fn spec_header_err(s: Seq<u8>) -> Option<PtpError> {
    if s.len() < 34 {
        Some(PtpError::TooShort)
    } else if s[1] % 16 != 2 {
        Some(PtpError::UnsupportedVersion)
    } else if spec_message_type((s[0] % 16) as int) is None {
        Some(PtpError::UnknownMessageType)
    } else {
        None
    }
}

/// `h` holds exactly the header fields encoded in the first 34 bytes of
/// `s`.
pub open spec fn header_matches(h: PtpHeader, s: Seq<u8>) -> bool {
    &&& Some(h.message_type) == spec_message_type((s[0] % 16) as int)
    &&& h.version.major == s[1] % 16
    &&& h.version.minor == s[1] / 16
    &&& h.message_length == spec_u16_be(s, 2)
    &&& h.domain_number == s[4]
    &&& h.flags == spec_u16_be(s, 6)
    &&& h.correction_field.value == spec_i64_be(s, 8)
    &&& h.source_port_identity.clock_identity.clock_id@ == s.subrange(20, 28)
    &&& h.source_port_identity.port_number == spec_u16_be(s, 28)
    &&& h.sequence_id == spec_u16_be(s, 30)
    &&& h.control_field == s[32]
    &&& h.log_message_interval == spec_i8(s, 33)
}

/// Header parsing: fails on a buffer shorter than 34 bytes, on a
/// version nibble other than 2, and on an undefined message-type
/// nibble; otherwise returns the decoded header.  No byte outside the
/// checked length is ever read.
pub fn parse_header(buf: &[u8]) -> (r: Result<PtpHeader, PtpError>)
    ensures
        r is Err <==> spec_header_err(buf@) is Some,
        r is Err ==> r->Err_0 == spec_header_err(buf@)->Some_0,
        r is Ok ==> header_matches(r->Ok_0, buf@),
{
    if buf.len() < 34 {
        return Err(PtpError::TooShort);
    }
    let version_byte = buf[1];
    if version_byte % 16 != 2 {
        return Err(PtpError::UnsupportedVersion);
    }
    let type_nibble = buf[0] % 16;
    let message_type = match message_type_of_nibble(type_nibble) {
        Some(t) => t,
        None => {
            return Err(PtpError::UnknownMessageType);
        },
    };
    Ok(
        PtpHeader {
            message_type,
            version: PtpVersion { major: version_byte % 16, minor: version_byte / 16 },
            message_length: read_u16_be(buf, 2),
            domain_number: buf[4],
            flags: read_u16_be(buf, 6),
            correction_field: PtpCorrectionField { value: read_i64_be(buf, 8) },
            source_port_identity: PortIdentity {
                clock_identity: read_identity(buf, 20),
                port_number: read_u16_be(buf, 28),
            },
            sequence_id: read_u16_be(buf, 30),
            control_field: buf[32],
            log_message_interval: read_i8(buf, 33),
        },
    )
}

/// Announce: the BMCA-relevant description of a candidate transmitter.
#[derive(Clone, Copy, Debug, PartialEq, Eq)]
pub struct AnnounceMessage {
    pub header: PtpHeader,
    pub origin_timestamp: PtpTimestamp,
    pub current_utc_offset: PtpUtcOffset,
    pub priority1: u8,
    pub priority2: u8,
    pub clock_class: PtpClockClass,
    pub clock_accuracy: PtpClockAccuracy,
    pub offset_scaled_log_variance: u16,
    pub steps_removed: u16,
    pub time_source: u8,
    /// The grandmaster identity the sender announces.
    pub ptt_identity: ClockIdentity,
}

#[derive(Clone, Copy, Debug, PartialEq, Eq)]
pub struct SyncMessage {
    pub header: PtpHeader,
    pub origin_timestamp: PtpTimestamp,
}

#[derive(Clone, Copy, Debug, PartialEq, Eq)]
pub struct FollowUpMessage {
    pub header: PtpHeader,
    pub precise_origin_timestamp: PtpTimestamp,
}

#[derive(Clone, Copy, Debug, PartialEq, Eq)]
pub struct DelayReqMessage {
    pub header: PtpHeader,
    pub origin_timestamp: PtpTimestamp,
}

#[derive(Clone, Copy, Debug, PartialEq, Eq)]
pub struct DelayRespMessage {
    pub header: PtpHeader,
    pub receive_timestamp: PtpTimestamp,
    pub requesting_port_identity: PortIdentity,
}

#[derive(Clone, Copy, Debug, PartialEq, Eq)]
pub struct PDelayReqMessage {
    pub header: PtpHeader,
}

#[derive(Clone, Copy, Debug, PartialEq, Eq)]
pub struct PDelayRespMessage {
    pub header: PtpHeader,
    pub request_receipt_timestamp: PtpTimestamp,
    pub requesting_port_identity: PortIdentity,
}

#[derive(Clone, Copy, Debug, PartialEq, Eq)]
pub struct PDelayRespFollowUpMessage {
    pub header: PtpHeader,
    pub response_origin_timestamp: PtpTimestamp,
    pub requesting_port_identity: PortIdentity,
}

#[derive(Clone, Copy, Debug, PartialEq, Eq)]
pub struct SignalingMessage {
    pub header: PtpHeader,
}

#[derive(Clone, Copy, Debug, PartialEq, Eq)]
pub struct ManagementMessage {
    pub header: PtpHeader,
}

/// A decoded PTP message: one variant per message type.
#[derive(Clone, Copy, Debug, PartialEq, Eq)]
pub enum PtpMessage {
    Announce(AnnounceMessage),
    Sync(SyncMessage),
    FollowUp(FollowUpMessage),
    DelayReq(DelayReqMessage),
    DelayResp(DelayRespMessage),
    PDelayReq(PDelayReqMessage),
    PDelayResp(PDelayRespMessage),
    PDelayRespFollowup(PDelayRespFollowUpMessage),
    Signaling(SignalingMessage),
    Management(ManagementMessage),
}

impl PtpMessage {
    /// The common header of the message, whatever its variant.
    pub fn header(&self) -> (r: &PtpHeader)
        ensures
            *r == self.spec_header(),
    {
        match self {
            PtpMessage::Announce(m) => &m.header,
            PtpMessage::Sync(m) => &m.header,
            PtpMessage::FollowUp(m) => &m.header,
            PtpMessage::DelayReq(m) => &m.header,
            PtpMessage::DelayResp(m) => &m.header,
            PtpMessage::PDelayReq(m) => &m.header,
            PtpMessage::PDelayResp(m) => &m.header,
            PtpMessage::PDelayRespFollowup(m) => &m.header,
            PtpMessage::Signaling(m) => &m.header,
            PtpMessage::Management(m) => &m.header,
        }
    }

    pub open spec fn spec_header(self) -> PtpHeader {
        match self {
            PtpMessage::Announce(m) => m.header,
            PtpMessage::Sync(m) => m.header,
            PtpMessage::FollowUp(m) => m.header,
            PtpMessage::DelayReq(m) => m.header,
            PtpMessage::DelayResp(m) => m.header,
            PtpMessage::PDelayReq(m) => m.header,
            PtpMessage::PDelayResp(m) => m.header,
            PtpMessage::PDelayRespFollowup(m) => m.header,
            PtpMessage::Signaling(m) => m.header,
            PtpMessage::Management(m) => m.header,
        }
    }
}

/// `pi` holds the 10-byte port identity (8-byte clock identity plus
/// port number) encoded at `off`.
pub open spec fn port_identity_matches(pi: PortIdentity, s: Seq<u8>, off: int) -> bool {
    &&& pi.clock_identity.clock_id@ == s.subrange(off, off + 8)
    &&& pi.port_number == spec_u16_be(s, off + 8)
}

/// `m` holds exactly what the buffer `s` encodes: the right variant for
/// the type nibble, the common header, and the body fields at their
/// fixed offsets past byte 34.
pub open spec fn message_matches(m: PtpMessage, s: Seq<u8>) -> bool {
    &&& header_matches(m.spec_header(), s)
    &&& match m {
        PtpMessage::Announce(a) => {
            &&& a.header.message_type == PtpMessageType::Announce
            &&& a.origin_timestamp == spec_timestamp(s, 34)
            &&& a.current_utc_offset.offset == spec_i16_be(s, 44)
            &&& a.priority1 == s[47]
            &&& a.clock_class.class == s[48]
            &&& a.clock_accuracy.accuracy == s[49]
            &&& a.offset_scaled_log_variance == spec_u16_be(s, 50)
            &&& a.priority2 == s[52]
            &&& a.ptt_identity.clock_id@ == s.subrange(53, 61)
            &&& a.steps_removed == spec_u16_be(s, 61)
            &&& a.time_source == s[63]
        },
        PtpMessage::Sync(m) => {
            &&& m.header.message_type == PtpMessageType::Sync
            &&& m.origin_timestamp == spec_timestamp(s, 34)
        },
        PtpMessage::FollowUp(m) => {
            &&& m.header.message_type == PtpMessageType::FollowUp
            &&& m.precise_origin_timestamp == spec_timestamp(s, 34)
        },
        PtpMessage::DelayReq(m) => {
            &&& m.header.message_type == PtpMessageType::DelayReq
            &&& m.origin_timestamp == spec_timestamp(s, 34)
        },
        PtpMessage::DelayResp(m) => {
            &&& m.header.message_type == PtpMessageType::DelayResp
            &&& m.receive_timestamp == spec_timestamp(s, 34)
            &&& port_identity_matches(m.requesting_port_identity, s, 44)
        },
        PtpMessage::PDelayReq(m) => m.header.message_type == PtpMessageType::PDelayReq,
        PtpMessage::PDelayResp(m) => {
            &&& m.header.message_type == PtpMessageType::PDelayResp
            &&& m.request_receipt_timestamp == spec_timestamp(s, 34)
            &&& port_identity_matches(m.requesting_port_identity, s, 44)
        },
        PtpMessage::PDelayRespFollowup(m) => {
            &&& m.header.message_type == PtpMessageType::PDelayRespFollowUp
            &&& m.response_origin_timestamp == spec_timestamp(s, 34)
            &&& port_identity_matches(m.requesting_port_identity, s, 44)
        },
        PtpMessage::Signaling(m) => m.header.message_type == PtpMessageType::Signaling,
        PtpMessage::Management(m) => m.header.message_type == PtpMessageType::Management,
    }
}

impl PtpMessage {
    /// Full decoding: the header checks, then the per-type minimum
    /// length, then the typed body.  Fails exactly where
    /// `spec_decode_err` says so; on success the message holds exactly
    /// the fields the buffer encodes.
    pub fn parse(buf: &[u8]) -> (r: Result<PtpMessage, PtpError>)
        ensures
            r is Err <==> spec_decode_err(buf@) is Some,
            r is Err ==> r->Err_0 == spec_decode_err(buf@)->Some_0,
            r is Ok ==> message_matches(r->Ok_0, buf@),
    {
        let header = match parse_header(buf) {
            Ok(h) => h,
            Err(e) => {
                return Err(e);
            },
        };
        if buf.len() < min_length_of(header.message_type) {
            return Err(PtpError::BodyTooShort);
        }
        let n = buf.len();
        match header.message_type {
            PtpMessageType::Announce => Ok(
                PtpMessage::Announce(
                    AnnounceMessage {
                        header,
                        origin_timestamp: read_timestamp(buf, 34),
                        current_utc_offset: PtpUtcOffset { offset: read_i16_be(buf, 44) },
                        priority1: buf[47],
                        clock_class: PtpClockClass { class: buf[48] },
                        clock_accuracy: PtpClockAccuracy { accuracy: buf[49] },
                        offset_scaled_log_variance: read_u16_be(buf, 50),
                        priority2: buf[52],
                        ptt_identity: read_identity(buf, 53),
                        steps_removed: read_u16_be(buf, 61),
                        time_source: buf[63],
                    },
                ),
            ),
            PtpMessageType::Sync => Ok(
                PtpMessage::Sync(SyncMessage { header, origin_timestamp: read_timestamp(buf, 34) }),
            ),
            PtpMessageType::FollowUp => Ok(
                PtpMessage::FollowUp(
                    FollowUpMessage { header, precise_origin_timestamp: read_timestamp(buf, 34) },
                ),
            ),
            PtpMessageType::DelayReq => Ok(
                PtpMessage::DelayReq(
                    DelayReqMessage { header, origin_timestamp: read_timestamp(buf, 34) },
                ),
            ),
            PtpMessageType::DelayResp => Ok(
                PtpMessage::DelayResp(
                    DelayRespMessage {
                        header,
                        receive_timestamp: read_timestamp(buf, 34),
                        requesting_port_identity: PortIdentity {
                            clock_identity: read_identity(buf, 44),
                            port_number: read_u16_be(buf, 52),
                        },
                    },
                ),
            ),
            PtpMessageType::PDelayReq => Ok(PtpMessage::PDelayReq(PDelayReqMessage { header })),
            PtpMessageType::PDelayResp => Ok(
                PtpMessage::PDelayResp(
                    PDelayRespMessage {
                        header,
                        request_receipt_timestamp: read_timestamp(buf, 34),
                        requesting_port_identity: PortIdentity {
                            clock_identity: read_identity(buf, 44),
                            port_number: read_u16_be(buf, 52),
                        },
                    },
                ),
            ),
            PtpMessageType::PDelayRespFollowUp => Ok(
                PtpMessage::PDelayRespFollowup(
                    PDelayRespFollowUpMessage {
                        header,
                        response_origin_timestamp: read_timestamp(buf, 34),
                        requesting_port_identity: PortIdentity {
                            clock_identity: read_identity(buf, 44),
                            port_number: read_u16_be(buf, 52),
                        },
                    },
                ),
            ),
            PtpMessageType::Signaling => Ok(PtpMessage::Signaling(SignalingMessage { header })),
            PtpMessageType::Management => Ok(PtpMessage::Management(ManagementMessage { header })),
        }
    }
}

/// Buffers shorter than the 34-byte common header are always rejected.
pub proof fn lemma_short_buffer_rejected(s: Seq<u8>)
    requires
        s.len() < 34,
    ensures
        spec_header_err(s) == Some(PtpError::TooShort),
        spec_decode_err(s) == Some(PtpError::TooShort),
{
}

/// Buffers whose version nibble is not 2 are always rejected, whatever
/// the other bytes hold.
pub proof fn lemma_wrong_version_rejected(s: Seq<u8>)
    requires
        s.len() >= 34,
        s[1] % 16 != 2,
    ensures
        spec_header_err(s) == Some(PtpError::UnsupportedVersion),
        spec_decode_err(s) == Some(PtpError::UnsupportedVersion),
{
}

} // verus!

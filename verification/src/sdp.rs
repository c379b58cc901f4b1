//! Reading a session description (SDP).
//!
//! A description is a text of lines `key=value`. The lines that matter here
//! are the media line (`m`), the connection line (`c`) and the attributes
//! `rtpmap` and `ptime` (`a`). The shape of each value is given by a regular
//! expression; what the groups of a match hold is read and checked here.

use vstd::prelude::*;
use vstd::string::{StrSliceExecFns, StringExecFns};
use crate::descriptor::{BitDepth, Ipv4Address, PacketTime, SessionDescriptor};
use crate::error::{outcome, DecimalError, Fault, SdpPlayerError, SdpPlayerResult};
use crate::pattern::{captures, group, group_text, groups_view, regex_captures};
use crate::text::{
    all_digits,
    chars_of,
    contains,
    contains_text,
    decimal,
    digit,
    digits_value,
    find,
    first_two,
    first_two_bounds,
    index_of,
    lowercase,
    parse_decimal,
    parse_digits,
    unsigned_part,
    parse_number,
    pieces,
    same_text,
    split,
    split_bounds,
    to_lowercase,
    trim,
    trim_bounds,
};

verus! {

/// The shape of an `rtpmap` attribute: payload id, encoding name, sample
/// rate and channel count.
pub const RTPMAP_REGEX: &'static str = r"rtpmap:([0-9]+) (.+)\/([0-9]+)\/([0-9]+)";

/// The shape of a media line: media, port, protocol and payload id.
pub const MEDIA_AND_TRANSPORT_REGEX: &'static str = r"(.+) ([0-9]+) (.+) ([0-9]+)";

/// The shape of a connection line: network type, address type, and
/// multicast address with its time to live.
pub const CONNECTION_INFO_REGEX: &'static str =
    r"(.+) (IP[4,6]) ([0-9]+\.[0-9]+\.[0-9]+\.[0-9]+)\/([0-9]+)";

/// The shape of a `ptime` attribute.
pub const PTIME_REGEX: &'static str = r"ptime:(.+)";

/// The encoding that a name stands for. `lowered` is the name in lower
/// case. A name that mentions 16, 24 or 32 is the integer encoding of that
/// width, whichever of them comes first in this order; one that mentions
/// "float" in any case is the floating-point encoding.
pub open spec fn bit_depth_named(name: Seq<char>, lowered: Seq<char>) -> Result<BitDepth, Fault> {
    if contains(name, "16"@) {
        Ok(BitDepth::L16)
    } else if contains(name, "24"@) {
        Ok(BitDepth::L24)
    } else if contains(name, "32"@) {
        Ok(BitDepth::L32)
    } else if contains(lowered, "float"@) {
        Ok(BitDepth::FloatingPoint)
    } else {
        Err(Fault::InvalidBitDepth(name))
    }
}

impl BitDepth {
    /// The name of the encoding.
    pub fn name(&self) -> (name: &'static str)
        ensures
            name@ == match self {
                BitDepth::L16 => "L16"@,
                BitDepth::L24 => "L24"@,
                BitDepth::L32 => "L32"@,
                BitDepth::FloatingPoint => "Floating Point"@,
            },
    {
        match self {
            BitDepth::L16 => "L16",
            BitDepth::L24 => "L24",
            BitDepth::L32 => "L32",
            BitDepth::FloatingPoint => "Floating Point",
        }
    }

    /// Reads an encoding from its name and the name in lower case.
    pub fn from_lowered(name: &str, lowered: &str) -> (r: SdpPlayerResult<BitDepth>)
        ensures
            outcome(r) == bit_depth_named(name@, lowered@),
    {
        let text: Vec<char> = chars_of(name);
        if contains_text(text.as_slice(), chars_of("16").as_slice()) {
            Ok(BitDepth::L16)
        } else if contains_text(text.as_slice(), chars_of("24").as_slice()) {
            Ok(BitDepth::L24)
        } else if contains_text(text.as_slice(), chars_of("32").as_slice()) {
            Ok(BitDepth::L32)
        } else if contains_text(chars_of(lowered).as_slice(), chars_of("float").as_slice()) {
            Ok(BitDepth::FloatingPoint)
        } else {
            Err(SdpPlayerError::InvalidBitDepth(name.to_owned()))
        }
    }

    /// Reads an encoding from its name.
    pub fn parse(name: &str) -> (r: SdpPlayerResult<BitDepth>)
        ensures
            outcome(r) == bit_depth_named(name@, lowercase(name@)),
    {
        let lowered: String = to_lowercase(name);
        BitDepth::from_lowered(name, lowered.as_str())
    }
}

impl std::str::FromStr for BitDepth {
    type Err = SdpPlayerError;

    fn from_str(s: &str) -> (r: Result<Self, Self::Err>)
        ensures
            outcome(r) == bit_depth_named(s@, lowercase(s@)),
    {
        BitDepth::parse(s)
    }
}

/// What a media line announces.
#[derive(Debug, Clone, Copy, PartialEq, Eq, Structural)]
pub enum Media {
    Audio,
    Video,
}

/// The media that a name stands for.
pub open spec fn media_named(name: Seq<char>) -> Result<Media, Fault> {
    if name == "audio"@ {
        Ok(Media::Audio)
    } else if name == "video"@ {
        Ok(Media::Video)
    } else {
        Err(Fault::UnsupportedMediaType(name))
    }
}

impl Media {
    /// Reads a media from its name.
    pub fn parse(name: &str) -> (r: SdpPlayerResult<Media>)
        ensures
            outcome(r) == media_named(name@),
    {
        if same_text(name, "audio") {
            Ok(Media::Audio)
        } else if same_text(name, "video") {
            Ok(Media::Video)
        } else {
            Err(SdpPlayerError::UnsupportedMediaType(name.to_owned()))
        }
    }
}

impl std::str::FromStr for Media {
    type Err = SdpPlayerError;

    fn from_str(s: &str) -> (r: Result<Self, Self::Err>)
        ensures
            outcome(r) == media_named(s@),
    {
        Media::parse(s)
    }
}

/// What an `rtpmap` attribute says of a payload.
#[derive(Debug, Clone, Copy, PartialEq, Eq, Structural)]
pub struct RtpMap {
    pub payload_id: u16,
    pub bit_depth: BitDepth,
    pub sample_rate: u32,
    pub channels: u16,
}

/// What an `rtpmap` attribute says, given what the expression for its shape
/// captured in it. The fields are read in the order payload id, encoding,
/// sample rate, channels, and the first that cannot be read decides the
/// error.
pub open spec fn rtpmap_of(text: Seq<char>, found: Option<Seq<Option<Seq<char>>>>) -> Result<
    RtpMap,
    Fault,
> {
    match found {
        Some(groups) => match (
            group(groups, 1),
            group(groups, 2),
            group(groups, 3),
            group(groups, 4),
        ) {
            (Some(id), Some(name), Some(rate), Some(count)) => match decimal(id, 0xffff) {
                Err(e) => Err(Fault::InvalidPayloadId(e)),
                Ok(payload_id) => match bit_depth_named(name, lowercase(name)) {
                    Err(fault) => Err(fault),
                    Ok(bit_depth) => match decimal(rate, 0xffff_ffff) {
                        Err(e) => Err(Fault::InvalidSampleRate(e)),
                        Ok(sample_rate) => match decimal(count, 0xffff) {
                            Err(e) => Err(Fault::InvalidChannels(e)),
                            Ok(channels) => Ok(
                                RtpMap {
                                    payload_id: payload_id as u16,
                                    bit_depth,
                                    sample_rate: sample_rate as u32,
                                    channels: channels as u16,
                                },
                            ),
                        },
                    },
                },
            },
            _ => Err(Fault::MalformedRtpMap(text)),
        },
        None => Err(Fault::MalformedRtpMap(text)),
    }
}

impl RtpMap {
    /// Reads an `rtpmap` attribute from what the expression for its shape
    /// captured in it.
    pub fn from_captures(text: &str, found: &Option<Vec<Option<String>>>) -> (r: SdpPlayerResult<
        RtpMap,
    >)
        ensures
            outcome(r) == rtpmap_of(
                text@,
                match found {
                    Some(groups) => Some(groups_view(groups@)),
                    None => None,
                },
            ),
    {
        match found {
            Some(groups) => match (
                group_text(groups, 1),
                group_text(groups, 2),
                group_text(groups, 3),
                group_text(groups, 4),
            ) {
                (Some(id), Some(name), Some(rate), Some(count)) => {
                    let payload_id: u16 = match parse_number(id, 0xffff) {
                        Ok(n) => n as u16,
                        Err(e) => { return Err(SdpPlayerError::invalid_payload_id(e)); },
                    };
                    let bit_depth: BitDepth = match BitDepth::parse(name) {
                        Ok(d) => d,
                        Err(e) => { return Err(e); },
                    };
                    let sample_rate: u32 = match parse_number(rate, 0xffff_ffff) {
                        Ok(n) => n as u32,
                        Err(e) => { return Err(SdpPlayerError::invalid_sample_rate(e)); },
                    };
                    let channels: u16 = match parse_number(count, 0xffff) {
                        Ok(n) => n as u16,
                        Err(e) => { return Err(SdpPlayerError::invalid_channels(e)); },
                    };
                    Ok(RtpMap { payload_id, bit_depth, sample_rate, channels })
                },
                _ => Err(SdpPlayerError::MalformedRtpMap(text.to_owned())),
            },
            None => Err(SdpPlayerError::MalformedRtpMap(text.to_owned())),
        }
    }

    /// Reads an `rtpmap` attribute.
    pub fn parse(text: &str) -> (r: SdpPlayerResult<RtpMap>)
        ensures
            outcome(r) == rtpmap_of(text@, regex_captures(RTPMAP_REGEX@, text@)),
    {
        let found: Option<Vec<Option<String>>> = captures(RTPMAP_REGEX, text);
        RtpMap::from_captures(text, &found)
    }
}

impl std::str::FromStr for RtpMap {
    type Err = SdpPlayerError;

    fn from_str(s: &str) -> (r: Result<Self, Self::Err>)
        ensures
            outcome(r) == rtpmap_of(s@, regex_captures(RTPMAP_REGEX@, s@)),
    {
        RtpMap::parse(s)
    }
}

/// What a media line announces.
#[derive(Debug, PartialEq)]
pub struct MediaAndTransport {
    pub media: Media,
    pub port: u16,
    pub protocol: String,
    pub payload_id: u16,
}

/// A media line as plain values.
pub struct MediaAndTransportModel {
    pub media: Media,
    pub port: u16,
    pub protocol: Seq<char>,
    pub payload_id: u16,
}

impl View for MediaAndTransport {
    type V = MediaAndTransportModel;

    open spec fn view(&self) -> MediaAndTransportModel {
        MediaAndTransportModel {
            media: self.media,
            port: self.port,
            protocol: self.protocol@,
            payload_id: self.payload_id,
        }
    }
}

/// What a media line announces, given what the expression for its shape
/// captured in it. The fields are read in the order media, port, payload
/// id, and the first that cannot be read decides the error.
pub open spec fn media_and_transport_of(
    text: Seq<char>,
    found: Option<Seq<Option<Seq<char>>>>,
) -> Result<MediaAndTransportModel, Fault> {
    match found {
        Some(groups) => match (
            group(groups, 1),
            group(groups, 2),
            group(groups, 3),
            group(groups, 4),
        ) {
            (Some(name), Some(port), Some(protocol), Some(id)) => match media_named(name) {
                Err(fault) => Err(fault),
                Ok(media) => match decimal(port, 0xffff) {
                    Err(e) => Err(Fault::InvalidPort(e)),
                    Ok(port) => match decimal(id, 0xffff) {
                        Err(e) => Err(Fault::InvalidPayloadId(e)),
                        Ok(payload_id) => Ok(
                            MediaAndTransportModel {
                                media,
                                port: port as u16,
                                protocol,
                                payload_id: payload_id as u16,
                            },
                        ),
                    },
                },
            },
            _ => Err(Fault::MalformedMediaTransport(text)),
        },
        None => Err(Fault::MalformedMediaTransport(text)),
    }
}

impl Clone for MediaAndTransport {
    fn clone(&self) -> (copy: Self)
        ensures
            copy@ == self@,
    {
        MediaAndTransport {
            media: self.media,
            port: self.port,
            protocol: self.protocol.clone(),
            payload_id: self.payload_id,
        }
    }
}

/// The result of reading a media line, as plain values.
pub open spec fn media_and_transport_read(r: SdpPlayerResult<MediaAndTransport>) -> Result<
    MediaAndTransportModel,
    Fault,
> {
    match r {
        Ok(m) => Ok(m@),
        Err(e) => Err(e@),
    }
}

impl MediaAndTransport {
    /// Reads a media line from what the expression for its shape captured
    /// in it.
    pub fn from_captures(text: &str, found: &Option<Vec<Option<String>>>) -> (r: SdpPlayerResult<
        MediaAndTransport,
    >)
        ensures
            media_and_transport_read(r) == media_and_transport_of(
                text@,
                match found {
                    Some(groups) => Some(groups_view(groups@)),
                    None => None,
                },
            ),
    {
        match found {
            Some(groups) => match (
                group_text(groups, 1),
                group_text(groups, 2),
                group_text(groups, 3),
                group_text(groups, 4),
            ) {
                (Some(name), Some(port), Some(protocol), Some(id)) => {
                    let media: Media = match Media::parse(name) {
                        Ok(m) => m,
                        Err(e) => { return Err(e); },
                    };
                    let port: u16 = match parse_number(port, 0xffff) {
                        Ok(n) => n as u16,
                        Err(e) => { return Err(SdpPlayerError::invalid_port(e)); },
                    };
                    let payload_id: u16 = match parse_number(id, 0xffff) {
                        Ok(n) => n as u16,
                        Err(e) => { return Err(SdpPlayerError::invalid_payload_id(e)); },
                    };
                    Ok(MediaAndTransport { media, port, protocol: protocol.to_owned(), payload_id })
                },
                _ => Err(SdpPlayerError::MalformedMediaTransport(text.to_owned())),
            },
            None => Err(SdpPlayerError::MalformedMediaTransport(text.to_owned())),
        }
    }

    /// Reads a media line.
    pub fn parse(text: &str) -> (r: SdpPlayerResult<MediaAndTransport>)
        ensures
            media_and_transport_read(r) == media_and_transport_of(
                text@,
                regex_captures(MEDIA_AND_TRANSPORT_REGEX@, text@),
            ),
    {
        let found: Option<Vec<Option<String>>> = captures(MEDIA_AND_TRANSPORT_REGEX, text);
        MediaAndTransport::from_captures(text, &found)
    }
}

impl std::str::FromStr for MediaAndTransport {
    type Err = SdpPlayerError;

    fn from_str(s: &str) -> (r: Result<Self, Self::Err>)
        ensures
            media_and_transport_read(r) == media_and_transport_of(
                s@,
                regex_captures(MEDIA_AND_TRANSPORT_REGEX@, s@),
            ),
    {
        MediaAndTransport::parse(s)
    }
}

/// One byte of an IPv4 address in its decimal form: one to three digits,
/// no zero before another digit, and at most 255.
pub open spec fn octet(s: Seq<char>) -> Option<u8> {
    if 1 <= s.len() <= 3 && all_digits(s) && (s.len() == 1 || s[0] != '0') && digits_value(s)
        <= 255 {
        Some(digits_value(s) as u8)
    } else {
        None
    }
}

/// The IPv4 address that a text writes: four bytes in decimal with dots
/// between them.
pub open spec fn ipv4_of(s: Seq<char>) -> Option<Ipv4Address> {
    let parts = split(s, '.');
    if parts.len() == 4 {
        match (octet(parts[0]), octet(parts[1]), octet(parts[2]), octet(parts[3])) {
            (Some(a), Some(b), Some(c), Some(d)) => Some(Ipv4Address(a, b, c, d)),
            _ => None,
        }
    } else {
        None
    }
}

fn parse_octet(chars: &[char], from: usize, to: usize) -> (r: Option<u8>)
    requires
        from <= to <= chars@.len(),
    ensures
        r == octet(chars@.subrange(from as int, to as int)),
{
    let ghost s = chars@.subrange(from as int, to as int);
    if to - from < 1 || to - from > 3 {
        return None;
    }
    assert(s[0] == chars@[from as int]);
    if to - from > 1 && chars[from] == '0' {
        return None;
    }
    match parse_digits(chars, from, to, 255) {
        Ok(n) => Some(n as u8),
        Err(_) => None,
    }
}

impl Ipv4Address {
    /// Reads an address in dotted decimal form.
    pub fn parse(text: &str) -> (r: Option<Ipv4Address>)
        ensures
            r == ipv4_of(text@),
    {
        let chars: Vec<char> = chars_of(text);
        let bounds: Vec<(usize, usize)> = split_bounds(chars.as_slice(), '.');
        if bounds.len() != 4 {
            return None;
        }
        let ghost parts = split(chars@, '.');
        assert(forall|k: int|
            0 <= k < 4 ==> #[trigger] parts[k] == chars@.subrange(
                bounds@[k].0 as int,
                bounds@[k].1 as int,
            ));
        let a: Option<u8> = parse_octet(chars.as_slice(), bounds[0].0, bounds[0].1);
        let b: Option<u8> = parse_octet(chars.as_slice(), bounds[1].0, bounds[1].1);
        let c: Option<u8> = parse_octet(chars.as_slice(), bounds[2].0, bounds[2].1);
        let d: Option<u8> = parse_octet(chars.as_slice(), bounds[3].0, bounds[3].1);
        assert(a == octet(parts[0]) && b == octet(parts[1]) && c == octet(parts[2]) && d == octet(
            parts[3],
        ));
        match (a, b, c, d) {
            (Some(a), Some(b), Some(c), Some(d)) => Some(Ipv4Address(a, b, c, d)),
            _ => None,
        }
    }
}

/// What a connection line announces.
#[derive(Debug, Clone, Copy, PartialEq, Eq, Structural)]
pub struct ConnectionInfo {
    pub multicast_address: Ipv4Address,
}

/// What a connection line announces, given what the expression for its
/// shape captured in it.
pub open spec fn connection_info_of(
    text: Seq<char>,
    found: Option<Seq<Option<Seq<char>>>>,
) -> Result<ConnectionInfo, Fault> {
    match found {
        Some(groups) => match group(groups, 3) {
            Some(address) => match ipv4_of(address) {
                Some(multicast_address) => Ok(ConnectionInfo { multicast_address }),
                None => Err(Fault::InvalidIP(address)),
            },
            None => Err(Fault::MalformedConnectionInfo(text)),
        },
        None => Err(Fault::MalformedConnectionInfo(text)),
    }
}

impl ConnectionInfo {
    /// Reads a connection line from what the expression for its shape
    /// captured in it.
    pub fn from_captures(text: &str, found: &Option<Vec<Option<String>>>) -> (r: SdpPlayerResult<
        ConnectionInfo,
    >)
        ensures
            outcome(r) == connection_info_of(
                text@,
                match found {
                    Some(groups) => Some(groups_view(groups@)),
                    None => None,
                },
            ),
    {
        match found {
            Some(groups) => match group_text(groups, 3) {
                Some(address) => match Ipv4Address::parse(address) {
                    Some(multicast_address) => Ok(ConnectionInfo { multicast_address }),
                    None => Err(SdpPlayerError::invalid_ip(address.to_owned())),
                },
                None => Err(SdpPlayerError::MalformedConnectionInfo(text.to_owned())),
            },
            None => Err(SdpPlayerError::MalformedConnectionInfo(text.to_owned())),
        }
    }

    /// Reads a connection line.
    pub fn parse(text: &str) -> (r: SdpPlayerResult<ConnectionInfo>)
        ensures
            outcome(r) == connection_info_of(
                text@,
                regex_captures(CONNECTION_INFO_REGEX@, text@),
            ),
    {
        let found: Option<Vec<Option<String>>> = captures(CONNECTION_INFO_REGEX, text);
        ConnectionInfo::from_captures(text, &found)
    }
}

impl std::str::FromStr for ConnectionInfo {
    type Err = SdpPlayerError;

    fn from_str(s: &str) -> (r: Result<Self, Self::Err>)
        ensures
            outcome(r) == connection_info_of(s@, regex_captures(CONNECTION_INFO_REGEX@, s@)),
    {
        ConnectionInfo::parse(s)
    }
}

/// The value of the digit at position `i`, or zero where there is none.
pub open spec fn digit_at(s: Seq<char>, i: int) -> nat {
    if 0 <= i < s.len() {
        match digit(s[i]) {
            Some(d) => d,
            None => 0,
        }
    } else {
        0
    }
}

/// The first three digits after the decimal point, as thousandths.
pub open spec fn thousandths(fraction: Seq<char>) -> nat {
    digit_at(fraction, 0) * 100 + digit_at(fraction, 1) * 10 + digit_at(fraction, 2)
}

/// The digits before the decimal point of a number without its sign.
pub open spec fn whole_part(body: Seq<char>) -> Seq<char> {
    match index_of(body, '.') {
        Some(i) => body.take(i),
        None => body,
    }
}

/// The digits after the decimal point of a number without its sign.
pub open spec fn fraction_part(body: Seq<char>) -> Seq<char> {
    match index_of(body, '.') {
        Some(i) => body.skip(i + 1),
        None => Seq::empty(),
    }
}

/// The packet time that the digits before and after a decimal point write
/// in milliseconds. Either side may be empty, not both. Digits beyond the
/// third after the point are not counted.
pub open spec fn packet_time_from_parts(whole: Seq<char>, fraction: Seq<char>) -> Result<
    PacketTime,
    DecimalError,
> {
    let micros = digits_value(whole) * 1000 + thousandths(fraction);
    if whole.len() + fraction.len() == 0 || !all_digits(whole) || !all_digits(fraction) {
        Err(DecimalError::InvalidDigit)
    } else if micros > u32::MAX {
        Err(DecimalError::Overflow)
    } else {
        Ok(PacketTime { micros: micros as u32 })
    }
}

/// The packet time that a text writes in milliseconds: digits, a decimal
/// point and more digits, with or without a plus sign before them. The
/// point may be left out.
pub open spec fn packet_time_written(s: Seq<char>) -> Result<PacketTime, DecimalError> {
    let body = unsigned_part(s);
    if s.len() == 0 {
        Err(DecimalError::Empty)
    } else {
        packet_time_from_parts(whole_part(body), fraction_part(body))
    }
}

fn digit_or_zero(chars: &[char], from: usize, to: usize, i: usize) -> (d: u64)
    requires
        from <= to <= chars@.len(),
        i <= 2,
        all_digits(chars@.subrange(from as int, to as int)),
    ensures
        d == digit_at(chars@.subrange(from as int, to as int), i as int),
        d <= 9,
{
    if i < to - from {
        let c: char = chars[from + i];
        assert(chars@.subrange(from as int, to as int)[i as int] == c);
        assert(digit(chars@.subrange(from as int, to as int)[i as int]) is Some);
        (c as u32 - 0x30) as u64
    } else {
        0
    }
}

fn leading_thousandths(chars: &[char], from: usize, to: usize) -> (t: u64)
    requires
        from <= to <= chars@.len(),
        all_digits(chars@.subrange(from as int, to as int)),
    ensures
        t == thousandths(chars@.subrange(from as int, to as int)),
        t <= 999,
{
    let d0: u64 = digit_or_zero(chars, from, to, 0);
    let d1: u64 = digit_or_zero(chars, from, to, 1);
    let d2: u64 = digit_or_zero(chars, from, to, 2);
    d0 * 100 + d1 * 10 + d2
}

fn packet_time_parts(
    chars: &[char],
    whole: (usize, usize),
    fraction: (usize, usize),
) -> (r: Result<PacketTime, DecimalError>)
    requires
        whole.0 <= whole.1 <= chars@.len(),
        fraction.0 <= fraction.1 <= chars@.len(),
    ensures
        r == packet_time_from_parts(
            chars@.subrange(whole.0 as int, whole.1 as int),
            chars@.subrange(fraction.0 as int, fraction.1 as int),
        ),
{
    if whole.1 - whole.0 == 0 && fraction.1 - fraction.0 == 0 {
        return Err(DecimalError::InvalidDigit);
    }
    match parse_digits(chars, fraction.0, fraction.1, u64::MAX) {
        Err(DecimalError::InvalidDigit) => { return Err(DecimalError::InvalidDigit); },
        _ => {},
    }
    let millis: u64 = match parse_digits(chars, whole.0, whole.1, 4_294_967) {
        Ok(n) => n,
        Err(DecimalError::InvalidDigit) => { return Err(DecimalError::InvalidDigit); },
        Err(_) => { return Err(DecimalError::Overflow); },
    };
    let micros: u64 = millis * 1000 + leading_thousandths(chars, fraction.0, fraction.1);
    if micros > u32::MAX as u64 {
        Err(DecimalError::Overflow)
    } else {
        Ok(PacketTime { micros: micros as u32 })
    }
}

impl PacketTime {
    /// Reads a packet time written in milliseconds.
    pub fn parse(text: &str) -> (r: Result<PacketTime, DecimalError>)
        ensures
            r == packet_time_written(text@),
    {
        let chars: Vec<char> = chars_of(text);
        let len: usize = chars.len();
        if len == 0 {
            return Err(DecimalError::Empty);
        }
        let first: usize = if chars[0] == '+' {
            1
        } else {
            0
        };
        let ghost body = unsigned_part(text@);
        assert(body =~= chars@.subrange(first as int, len as int));
        let (whole_end, fraction_start): (usize, usize) = match find(
            chars.as_slice(),
            '.',
            first,
            len,
        ) {
            Some(i) => (i, i + 1),
            None => (len, len),
        };
        proof {
            crate::text::lemma_index_of_range(body, '.');
            assert(whole_part(body) =~= chars@.subrange(first as int, whole_end as int));
            assert(fraction_part(body) =~= chars@.subrange(fraction_start as int, len as int));
        }
        packet_time_parts(chars.as_slice(), (first, whole_end), (fraction_start, len))
    }
}

/// What a `ptime` attribute says, given what the expression for its shape
/// captured in it.
pub open spec fn packet_time_of(text: Seq<char>, found: Option<Seq<Option<Seq<char>>>>) -> Result<
    PacketTime,
    Fault,
> {
    match found {
        Some(groups) => match group(groups, 1) {
            Some(written) => match packet_time_written(written) {
                Ok(time) => Ok(time),
                Err(e) => Err(Fault::InvalidPacketTime(e)),
            },
            None => Err(Fault::MalformedPtime(text)),
        },
        None => Err(Fault::MalformedPtime(text)),
    }
}

/// Reads a `ptime` attribute from what the expression for its shape
/// captured in it.
pub fn packet_time_from_captures(text: &str, found: &Option<Vec<Option<String>>>) -> (r:
    SdpPlayerResult<PacketTime>)
    ensures
        outcome(r) == packet_time_of(
            text@,
            match found {
                Some(groups) => Some(groups_view(groups@)),
                None => None,
            },
        ),
{
    match found {
        Some(groups) => match group_text(groups, 1) {
            Some(written) => match PacketTime::parse(written) {
                Ok(time) => Ok(time),
                Err(e) => Err(SdpPlayerError::invalid_packet_time(e)),
            },
            None => Err(SdpPlayerError::MalformedPtime(text.to_owned())),
        },
        None => Err(SdpPlayerError::MalformedPtime(text.to_owned())),
    }
}

/// Reads a `ptime` attribute.
pub fn parse_packet_time(attribute: &str) -> (r: SdpPlayerResult<PacketTime>)
    ensures
        outcome(r) == packet_time_of(attribute@, regex_captures(PTIME_REGEX@, attribute@)),
{
    let found: Option<Vec<Option<String>>> = captures(PTIME_REGEX, attribute);
    packet_time_from_captures(attribute, &found)
}

/// The value of one line of a session description.
#[derive(Debug, PartialEq)]
pub enum SdpValue {
    /// `v`
    ProtocolVersion(u16),
    /// `o`
    OriginatorAndSessionIdentifier(String),
    /// `s`
    SessionName(String),
    /// `t`
    ActiveTime((usize, usize)),
    /// `m`
    MediaNameAndTransportAddress(MediaAndTransport),
    /// `i`
    SessionInfo(String),
    /// `u`
    SessionDescription(String),
    /// `c`
    ConnectionInformation(ConnectionInfo),
    /// `a`
    Attribute(String),
}

/// The value of one line as plain values.
pub enum SdpValueModel {
    ProtocolVersion(u16),
    OriginatorAndSessionIdentifier(Seq<char>),
    SessionName(Seq<char>),
    ActiveTime((usize, usize)),
    MediaNameAndTransportAddress(MediaAndTransportModel),
    SessionInfo(Seq<char>),
    SessionDescription(Seq<char>),
    ConnectionInformation(ConnectionInfo),
    Attribute(Seq<char>),
}

impl View for SdpValue {
    type V = SdpValueModel;

    open spec fn view(&self) -> SdpValueModel {
        match self {
            SdpValue::ProtocolVersion(v) => SdpValueModel::ProtocolVersion(*v),
            SdpValue::OriginatorAndSessionIdentifier(s) =>
                SdpValueModel::OriginatorAndSessionIdentifier(s@),
            SdpValue::SessionName(s) => SdpValueModel::SessionName(s@),
            SdpValue::ActiveTime(t) => SdpValueModel::ActiveTime(*t),
            SdpValue::MediaNameAndTransportAddress(m) =>
                SdpValueModel::MediaNameAndTransportAddress(m@),
            SdpValue::SessionInfo(s) => SdpValueModel::SessionInfo(s@),
            SdpValue::SessionDescription(s) => SdpValueModel::SessionDescription(s@),
            SdpValue::ConnectionInformation(c) => SdpValueModel::ConnectionInformation(*c),
            SdpValue::Attribute(s) => SdpValueModel::Attribute(s@),
        }
    }
}

impl Clone for SdpValue {
    fn clone(&self) -> (copy: Self)
        ensures
            copy@ == self@,
    {
        match self {
            SdpValue::ProtocolVersion(v) => SdpValue::ProtocolVersion(*v),
            SdpValue::OriginatorAndSessionIdentifier(s) => SdpValue::OriginatorAndSessionIdentifier(
                s.clone(),
            ),
            SdpValue::SessionName(s) => SdpValue::SessionName(s.clone()),
            SdpValue::ActiveTime(t) => SdpValue::ActiveTime((t.0, t.1)),
            SdpValue::MediaNameAndTransportAddress(m) => SdpValue::MediaNameAndTransportAddress(
                m.clone(),
            ),
            SdpValue::SessionInfo(s) => SdpValue::SessionInfo(s.clone()),
            SdpValue::SessionDescription(s) => SdpValue::SessionDescription(s.clone()),
            SdpValue::ConnectionInformation(c) => SdpValue::ConnectionInformation(*c),
            SdpValue::Attribute(s) => SdpValue::Attribute(s.clone()),
        }
    }
}

/// The two times of a `t` line: two decimal numbers with a space between
/// them.
pub open spec fn active_time_of(value: Seq<char>) -> Result<(usize, usize), Fault> {
    match first_two(value, ' ') {
        Some((start, stop)) => match decimal(start, usize::MAX as nat) {
            Err(e) => Err(Fault::InvalidActiveTime(e)),
            Ok(start) => match decimal(stop, usize::MAX as nat) {
                Err(e) => Err(Fault::InvalidActiveTime(e)),
                Ok(stop) => Ok((start as usize, stop as usize)),
            },
        },
        None => Err(Fault::MalformedSdpFile(value)),
    }
}

fn parse_active_time(value: &str) -> (r: SdpPlayerResult<(usize, usize)>)
    ensures
        outcome(r) == active_time_of(value@),
{
    let chars: Vec<char> = chars_of(value);
    assert(chars@.subrange(0, chars@.len() as int) =~= chars@);
    match first_two_bounds(chars.as_slice(), ' ', 0, chars.len()) {
        Some((a, b)) => {
            let start: usize = match parse_decimal(chars.as_slice(), a.0, a.1, usize::MAX as u64) {
                Ok(n) => n as usize,
                Err(e) => { return Err(SdpPlayerError::InvalidActiveTime(e)); },
            };
            let stop: usize = match parse_decimal(chars.as_slice(), b.0, b.1, usize::MAX as u64) {
                Ok(n) => n as usize,
                Err(e) => { return Err(SdpPlayerError::InvalidActiveTime(e)); },
            };
            Ok((start, stop))
        },
        None => Err(SdpPlayerError::MalformedSdpFile(value.to_owned())),
    }
}

/// The value of a line with the given key. A line with a key that is not
/// known has no value and is passed over.
pub open spec fn value_of(key: Seq<char>, value: Seq<char>) -> Result<
    Option<SdpValueModel>,
    Fault,
> {
    if key == "v"@ {
        match decimal(value, 0xffff) {
            Ok(version) => Ok(Some(SdpValueModel::ProtocolVersion(version as u16))),
            Err(e) => Err(Fault::InvalidSdpVersion(e)),
        }
    } else if key == "o"@ {
        Ok(Some(SdpValueModel::OriginatorAndSessionIdentifier(value)))
    } else if key == "s"@ {
        Ok(Some(SdpValueModel::SessionName(value)))
    } else if key == "t"@ {
        match active_time_of(value) {
            Ok(times) => Ok(Some(SdpValueModel::ActiveTime(times))),
            Err(fault) => Err(fault),
        }
    } else if key == "m"@ {
        match media_and_transport_of(value, regex_captures(MEDIA_AND_TRANSPORT_REGEX@, value)) {
            Ok(media) => Ok(Some(SdpValueModel::MediaNameAndTransportAddress(media))),
            Err(fault) => Err(fault),
        }
    } else if key == "i"@ {
        Ok(Some(SdpValueModel::SessionInfo(value)))
    } else if key == "u"@ {
        Ok(Some(SdpValueModel::SessionDescription(value)))
    } else if key == "c"@ {
        match connection_info_of(value, regex_captures(CONNECTION_INFO_REGEX@, value)) {
            Ok(connection) => Ok(Some(SdpValueModel::ConnectionInformation(connection))),
            Err(fault) => Err(fault),
        }
    } else if key == "a"@ {
        Ok(Some(SdpValueModel::Attribute(value)))
    } else {
        Ok(None)
    }
}

/// The result of reading a value, as plain values.
pub open spec fn value_read(r: SdpPlayerResult<Option<SdpValue>>) -> Result<
    Option<SdpValueModel>,
    Fault,
> {
    match r {
        Ok(Some(v)) => Ok(Some(v@)),
        Ok(None) => Ok(None),
        Err(e) => Err(e@),
    }
}

/// Reads the value of a line with the given key.
pub fn parse_value(key: &str, value: &str) -> (r: SdpPlayerResult<Option<SdpValue>>)
    ensures
        value_read(r) == value_of(key@, value@),
{
    if same_text(key, "v") {
        match parse_number(value, 0xffff) {
            Ok(version) => Ok(Some(SdpValue::ProtocolVersion(version as u16))),
            Err(e) => Err(SdpPlayerError::invalid_sdp_version(e)),
        }
    } else if same_text(key, "o") {
        Ok(Some(SdpValue::OriginatorAndSessionIdentifier(value.to_owned())))
    } else if same_text(key, "s") {
        Ok(Some(SdpValue::SessionName(value.to_owned())))
    } else if same_text(key, "t") {
        match parse_active_time(value) {
            Ok(times) => Ok(Some(SdpValue::ActiveTime(times))),
            Err(e) => Err(e),
        }
    } else if same_text(key, "m") {
        match MediaAndTransport::parse(value) {
            Ok(media) => Ok(Some(SdpValue::MediaNameAndTransportAddress(media))),
            Err(e) => Err(e),
        }
    } else if same_text(key, "i") {
        Ok(Some(SdpValue::SessionInfo(value.to_owned())))
    } else if same_text(key, "u") {
        Ok(Some(SdpValue::SessionDescription(value.to_owned())))
    } else if same_text(key, "c") {
        match ConnectionInfo::parse(value) {
            Ok(connection) => Ok(Some(SdpValue::ConnectionInformation(connection))),
            Err(e) => Err(e),
        }
    } else if same_text(key, "a") {
        Ok(Some(SdpValue::Attribute(value.to_owned())))
    } else {
        Ok(None)
    }
}

/// How much of a session description is read.
#[derive(Debug, Clone, Copy, PartialEq, Eq, Structural)]
pub enum Reading {
    /// Every known key, the version (`v`) and the active time (`t`) among
    /// them.
    Session,
    /// The keys that say something of the stream. The version and the
    /// active time are passed over, whatever their lines hold.
    Stream,
}

/// Whether a line with this key is passed over without a look at its
/// value.
pub open spec fn passed_over(reading: Reading, key: Seq<char>) -> bool {
    reading == Reading::Stream && (key == "v"@ || key == "t"@)
}

/// The value of a line with the given key, under the given reading.
pub open spec fn value_in(reading: Reading, key: Seq<char>, value: Seq<char>) -> Result<
    Option<SdpValueModel>,
    Fault,
> {
    if passed_over(reading, key) {
        Ok(None)
    } else {
        value_of(key, value)
    }
}

/// Reads the value of a line with the given key, under the given reading.
pub fn parse_value_in(reading: Reading, key: &str, value: &str) -> (r: SdpPlayerResult<
    Option<SdpValue>,
>)
    ensures
        value_read(r) == value_in(reading, key@, value@),
{
    match reading {
        Reading::Session => parse_value(key, value),
        Reading::Stream => {
            if same_text(key, "v") || same_text(key, "t") {
                Ok(None)
            } else {
                parse_value(key, value)
            }
        },
    }
}

/// What one line of a session description holds under the given reading:
/// nothing, for an empty line, a comment (a line that starts with `#`) and a
/// line that is passed over or has a key that is not known; else its key
/// and its value. The key is what stands before the first `=` of the line
/// without the white space around it, the value what stands between the
/// first `=` and the second, or the end.
pub open spec fn line_in(reading: Reading, line: Seq<char>) -> Result<
    Option<(Seq<char>, SdpValueModel)>,
    Fault,
> {
    let trimmed = trim(line);
    if trimmed.len() == 0 || trimmed[0] == '#' {
        Ok(None)
    } else {
        match first_two(trimmed, '=') {
            Some((key, value)) => match value_in(reading, key, value) {
                Ok(Some(v)) => Ok(Some((key, v))),
                Ok(None) => Ok(None),
                Err(fault) => Err(fault),
            },
            None => Err(Fault::MalformedSdpFile("line is not a key/value pair: "@ + line)),
        }
    }
}

/// What one line of a session description holds when every known key is
/// read.
pub open spec fn line_of(line: Seq<char>) -> Result<Option<(Seq<char>, SdpValueModel)>, Fault> {
    line_in(Reading::Session, line)
}

/// The result of reading a line, as plain values.
pub open spec fn line_read(r: SdpPlayerResult<Option<(&str, SdpValue)>>) -> Result<
    Option<(Seq<char>, SdpValueModel)>,
    Fault,
> {
    match r {
        Ok(Some((key, v))) => Ok(Some((key@, v@))),
        Ok(None) => Ok(None),
        Err(e) => Err(e@),
    }
}

/// Reads one line of a session description, every known key.
pub fn parse_line(line: &str) -> (r: SdpPlayerResult<Option<(&str, SdpValue)>>)
    ensures
        line_read(r) == line_of(line@),
{
    parse_line_in(Reading::Session, line)
}

/// Reads one line of a session description under the given reading.
pub fn parse_line_in(reading: Reading, line: &str) -> (r: SdpPlayerResult<
    Option<(&str, SdpValue)>,
>)
    ensures
        line_read(r) == line_in(reading, line@),
{
    let chars: Vec<char> = chars_of(line);
    let (start, end): (usize, usize) = trim_bounds(chars.as_slice());
    if start == end {
        return Ok(None);
    }
    assert(trim(line@)[0] == chars@[start as int]);
    if chars[start] == '#' {
        return Ok(None);
    }
    match first_two_bounds(chars.as_slice(), '=', start, end) {
        Some((k, v)) => {
            let key: &str = line.substring_char(k.0, k.1);
            let value: &str = line.substring_char(v.0, v.1);
            match parse_value_in(reading, key, value) {
                Ok(Some(parsed)) => Ok(Some((key, parsed))),
                Ok(None) => Ok(None),
                Err(e) => Err(e),
            }
        },
        None => {
            let mut message: String = "line is not a key/value pair: ".to_owned();
            message.append(line);
            Err(SdpPlayerError::MalformedSdpFile(message))
        },
    }
}

/// What has been found in the lines of a session description so far.
#[derive(Debug, Clone, Copy, PartialEq, Eq, Structural)]
pub struct SdpFields {
    pub version: Option<u16>,
    pub multicast_port: Option<u16>,
    pub multicast_address: Option<Ipv4Address>,
    pub payload_id: Option<u16>,
    pub packet_time: Option<PacketTime>,
    pub bit_depth: Option<BitDepth>,
    pub sample_rate: Option<u32>,
    pub channels: Option<u16>,
}

/// Nothing found yet.
pub open spec fn no_fields() -> SdpFields {
    SdpFields {
        version: None,
        multicast_port: None,
        multicast_address: None,
        payload_id: None,
        packet_time: None,
        bit_depth: None,
        sample_rate: None,
        channels: None,
    }
}

/// What an attribute adds to what has been found: the encoding, the sample
/// rate and the channel count where it is a readable `rtpmap`, the packet
/// time where it is a readable `ptime`. An attribute that is neither adds
/// nothing and is no error.
pub open spec fn with_attribute(fields: SdpFields, attribute: Seq<char>) -> SdpFields {
    let mapped = match rtpmap_of(attribute, regex_captures(RTPMAP_REGEX@, attribute)) {
        Ok(map) => SdpFields {
            sample_rate: Some(map.sample_rate),
            channels: Some(map.channels),
            bit_depth: Some(map.bit_depth),
            ..fields
        },
        Err(_) => fields,
    };
    match packet_time_of(attribute, regex_captures(PTIME_REGEX@, attribute)) {
        Ok(time) => SdpFields { packet_time: Some(time), ..mapped },
        Err(_) => mapped,
    }
}

/// What the value of a line adds to what has been found. A later line
/// replaces what an earlier one said.
pub open spec fn with_value(fields: SdpFields, value: SdpValueModel) -> SdpFields {
    match value {
        SdpValueModel::ProtocolVersion(v) => SdpFields { version: Some(v), ..fields },
        SdpValueModel::MediaNameAndTransportAddress(m) => SdpFields {
            payload_id: Some(m.payload_id),
            multicast_port: Some(m.port),
            ..fields
        },
        SdpValueModel::ConnectionInformation(c) => SdpFields {
            multicast_address: Some(c.multicast_address),
            ..fields
        },
        SdpValueModel::Attribute(a) => with_attribute(fields, a),
        _ => fields,
    }
}

/// What is found in a run of lines under the given reading, starting from
/// `fields`. The first line that cannot be read ends the reading with its
/// error.
pub open spec fn fields_of(reading: Reading, lines: Seq<Seq<char>>, fields: SdpFields) -> Result<
    SdpFields,
    Fault,
>
    decreases lines.len(),
{
    if lines.len() == 0 {
        Ok(fields)
    } else {
        match line_in(reading, lines[0]) {
            Err(fault) => Err(fault),
            Ok(None) => fields_of(reading, lines.skip(1), fields),
            Ok(Some((_, value))) => fields_of(reading, lines.skip(1), with_value(fields, value)),
        }
    }
}

/// What is found in a session description under the given reading.
pub open spec fn fields_in(reading: Reading, text: Seq<char>) -> Result<SdpFields, Fault> {
    fields_of(reading, split(text, '\n'), no_fields())
}

impl SdpFields {
    /// Nothing found yet.
    pub fn new() -> (fields: Self)
        ensures
            fields == no_fields(),
    {
        SdpFields {
            version: None,
            multicast_port: None,
            multicast_address: None,
            payload_id: None,
            packet_time: None,
            bit_depth: None,
            sample_rate: None,
            channels: None,
        }
    }

    /// Adds what an attribute says.
    pub fn attribute(self, attribute: &str) -> (fields: Self)
        ensures
            fields == with_attribute(self, attribute@),
    {
        let mut fields: SdpFields = self;
        match RtpMap::parse(attribute) {
            Ok(map) => {
                fields.sample_rate = Some(map.sample_rate);
                fields.channels = Some(map.channels);
                fields.bit_depth = Some(map.bit_depth);
            },
            Err(_) => {},
        }
        match parse_packet_time(attribute) {
            Ok(time) => {
                fields.packet_time = Some(time);
            },
            Err(_) => {},
        }
        fields
    }

    /// Adds what the value of a line says.
    pub fn value(self, value: &SdpValue) -> (fields: Self)
        ensures
            fields == with_value(self, value@),
    {
        let mut fields: SdpFields = self;
        match value {
            SdpValue::ProtocolVersion(v) => {
                fields.version = Some(*v);
            },
            SdpValue::MediaNameAndTransportAddress(m) => {
                fields.payload_id = Some(m.payload_id);
                fields.multicast_port = Some(m.port);
            },
            SdpValue::ConnectionInformation(c) => {
                fields.multicast_address = Some(c.multicast_address);
            },
            SdpValue::Attribute(a) => {
                fields = fields.attribute(a.as_str());
            },
            _ => {},
        }
        fields
    }

    /// Reads the lines of a session description under the given reading.
    pub fn parse(reading: Reading, text: &str) -> (r: SdpPlayerResult<SdpFields>)
        ensures
            outcome(r) == fields_in(reading, text@),
    {
        let chars: Vec<char> = chars_of(text);
        let bounds: Vec<(usize, usize)> = split_bounds(chars.as_slice(), '\n');
        let ghost lines = split(text@, '\n');
        let mut fields: SdpFields = SdpFields::new();
        let mut k: usize = 0;
        assert(lines.skip(0) =~= lines);
        while k < bounds.len()
            invariant
                k <= bounds@.len(),
                chars@ == text@,
                lines == pieces(chars@, bounds@),
                forall|j: int|
                    0 <= j < bounds@.len() ==> (#[trigger] bounds@[j]).0 <= bounds@[j].1
                        <= chars@.len(),
                fields_in(reading, text@) == fields_of(reading, lines, no_fields()),
                fields_of(reading, lines, no_fields()) == fields_of(
                    reading,
                    lines.skip(k as int),
                    fields,
                ),
            decreases bounds@.len() - k,
        {
            let line: &str = text.substring_char(bounds[k].0, bounds[k].1);
            assert(line@ == lines[k as int]);
            assert(lines.skip(k as int)[0] == line@);
            assert(lines.skip(k as int).skip(1) =~= lines.skip(k + 1));
            match parse_line_in(reading, line) {
                Err(e) => { return Err(e); },
                Ok(None) => {},
                Ok(Some((_, value))) => {
                    fields = fields.value(&value);
                },
            }
            k = k + 1;
        }
        Ok(fields)
    }
}

/// A session description with everything it has to say about its stream.
#[derive(Debug, Clone, Copy, PartialEq, Eq, Structural)]
pub struct Sdp {
    /// `v` line
    pub version: u16,
    /// `m` line
    pub multicast_port: u16,
    /// `c` line
    pub multicast_address: Ipv4Address,
    /// `m` line
    pub payload_id: u16,
    /// `ptime` attribute
    pub packet_time: PacketTime,
    /// `rtpmap` attribute
    pub bit_depth: BitDepth,
    /// `rtpmap` attribute
    pub sample_rate: u32,
    /// `rtpmap` attribute
    pub channels: u16,
}

/// The stream that the found fields describe, where none of its six
/// fields is missing.
pub open spec fn descriptor_from(fields: SdpFields) -> Option<SessionDescriptor> {
    match (
        fields.bit_depth,
        fields.channels,
        fields.multicast_address,
        fields.multicast_port,
        fields.packet_time,
        fields.sample_rate,
    ) {
        (
            Some(bit_depth),
            Some(channels),
            Some(multicast_address),
            Some(multicast_port),
            Some(packet_time),
            Some(sample_rate),
        ) => Some(
            SessionDescriptor {
                multicast_address,
                multicast_port,
                bit_depth,
                channels,
                sample_rate,
                packet_time,
            },
        ),
        _ => None,
    }
}

/// The session description that the found fields make up, where neither
/// the version, nor the payload id, nor a field of the stream is missing.
pub open spec fn sdp_from(fields: SdpFields) -> Option<Sdp> {
    match (descriptor_from(fields), fields.version, fields.payload_id) {
        (Some(stream), Some(version), Some(payload_id)) => Some(
            Sdp {
                version,
                multicast_port: stream.multicast_port,
                multicast_address: stream.multicast_address,
                payload_id,
                packet_time: stream.packet_time,
                bit_depth: stream.bit_depth,
                sample_rate: stream.sample_rate,
                channels: stream.channels,
            },
        ),
        _ => None,
    }
}

/// The stream that a session description announces. Lines that give the
/// version or the active time are passed over, whatever they hold. A
/// description whose other lines can all be read but which leaves a field
/// of the stream open is malformed as a whole.
pub open spec fn descriptor_of(text: Seq<char>) -> Result<SessionDescriptor, Fault> {
    match fields_in(Reading::Stream, text) {
        Err(fault) => Err(fault),
        Ok(fields) => match descriptor_from(fields) {
            Some(stream) => Ok(stream),
            None => Err(Fault::MalformedSdpFile(text)),
        },
    }
}

/// What a session description says, version and payload id included.
/// Every line with a known key has to be readable.
pub open spec fn sdp_of(text: Seq<char>) -> Result<Sdp, Fault> {
    match fields_in(Reading::Session, text) {
        Err(fault) => Err(fault),
        Ok(fields) => match sdp_from(fields) {
            Some(sdp) => Ok(sdp),
            None => Err(Fault::MalformedSdpFile(text)),
        },
    }
}

impl SdpFields {
    /// The stream that the fields describe, if none is missing.
    pub fn descriptor(&self) -> (stream: Option<SessionDescriptor>)
        ensures
            stream == descriptor_from(*self),
    {
        match (
            self.bit_depth,
            self.channels,
            self.multicast_address,
            self.multicast_port,
            self.packet_time,
            self.sample_rate,
        ) {
            (
                Some(bit_depth),
                Some(channels),
                Some(multicast_address),
                Some(multicast_port),
                Some(packet_time),
                Some(sample_rate),
            ) => Some(
                SessionDescriptor {
                    multicast_address,
                    multicast_port,
                    bit_depth,
                    channels,
                    sample_rate,
                    packet_time,
                },
            ),
            _ => None,
        }
    }

    /// The session description that the fields make up, if none is missing.
    pub fn sdp(&self) -> (sdp: Option<Sdp>)
        ensures
            sdp == sdp_from(*self),
    {
        match (self.descriptor(), self.version, self.payload_id) {
            (Some(stream), Some(version), Some(payload_id)) => Some(
                Sdp {
                    version,
                    multicast_port: stream.multicast_port,
                    multicast_address: stream.multicast_address,
                    payload_id,
                    packet_time: stream.packet_time,
                    bit_depth: stream.bit_depth,
                    sample_rate: stream.sample_rate,
                    channels: stream.channels,
                },
            ),
            _ => None,
        }
    }
}

impl Sdp {
    /// Reads a session description.
    pub fn parse(text: &str) -> (r: SdpPlayerResult<Sdp>)
        ensures
            outcome(r) == sdp_of(text@),
    {
        match SdpFields::parse(Reading::Session, text) {
            Err(e) => Err(e),
            Ok(fields) => match fields.sdp() {
                Some(sdp) => Ok(sdp),
                None => Err(SdpPlayerError::MalformedSdpFile(text.to_owned())),
            },
        }
    }

    /// The stream that the description announces.
    pub fn descriptor(&self) -> (stream: SessionDescriptor)
        ensures
            stream == (SessionDescriptor {
                multicast_address: self.multicast_address,
                multicast_port: self.multicast_port,
                bit_depth: self.bit_depth,
                channels: self.channels,
                sample_rate: self.sample_rate,
                packet_time: self.packet_time,
            }),
    {
        SessionDescriptor {
            multicast_address: self.multicast_address,
            multicast_port: self.multicast_port,
            bit_depth: self.bit_depth,
            channels: self.channels,
            sample_rate: self.sample_rate,
            packet_time: self.packet_time,
        }
    }
}

impl std::str::FromStr for Sdp {
    type Err = SdpPlayerError;

    fn from_str(s: &str) -> (r: Result<Self, Self::Err>)
        ensures
            outcome(r) == sdp_of(s@),
    {
        Sdp::parse(s)
    }
}

/// Reads a session description.
pub fn sdp_from_str(sdp: &str) -> (r: SdpPlayerResult<Sdp>)
    ensures
        outcome(r) == sdp_of(sdp@),
{
    Sdp::parse(sdp)
}

/// Reads the stream that a session description announces.
pub fn session_descriptor_from_sdp_str(sdp: &str) -> (r: SdpPlayerResult<SessionDescriptor>)
    ensures
        outcome(r) == descriptor_of(sdp@),
{
    match SdpFields::parse(Reading::Stream, sdp) {
        Err(e) => Err(e),
        Ok(fields) => match fields.descriptor() {
            Some(stream) => Ok(stream),
            None => Err(SdpPlayerError::MalformedSdpFile(sdp.to_owned())),
        },
    }
}

impl std::str::FromStr for SessionDescriptor {
    type Err = SdpPlayerError;

    fn from_str(s: &str) -> (r: Result<Self, Self::Err>)
        ensures
            outcome(r) == descriptor_of(s@),
    {
        session_descriptor_from_sdp_str(s)
    }
}

} // verus!

//! What a session announces about its audio stream.

use vstd::prelude::*;
use crate::error::{Fault, SdpPlayerError};
use crate::text::{decimal, parse_number};

verus! {

/// An IPv4 address, most significant byte first.
#[derive(Debug, Clone, Copy, PartialEq, Eq, Structural)]
pub struct Ipv4Address(pub u8, pub u8, pub u8, pub u8);

/// The duration of the audio in one packet, in microseconds.
#[derive(Debug, Clone, Copy, PartialEq, Eq, Structural)]
pub struct PacketTime {
    pub micros: u32,
}

impl PacketTime {
    pub fn from_micros(micros: u32) -> (time: Self)
        ensures
            time.micros == micros,
    {
        PacketTime { micros }
    }

    /// A whole number of milliseconds, if it can be held.
    pub fn from_millis(millis: u32) -> (time: Option<Self>)
        ensures
            match time {
                Some(t) => t.micros == millis * 1000,
                None => millis * 1000 > u32::MAX,
            },
    {
        if millis <= u32::MAX / 1000 {
            Some(PacketTime { micros: millis * 1000 })
        } else {
            None
        }
    }
}

/// Whether a session is playing.
#[derive(Debug, Clone, Copy, PartialEq, Eq, Structural)]
pub struct Status {
    pub playing: bool,
}

/// The stream of one session: where it is sent and how it is encoded.
#[derive(Debug, Clone, Copy, PartialEq, Eq, Structural)]
pub struct SessionDescriptor {
    pub multicast_address: Ipv4Address,
    pub multicast_port: u16,
    pub bit_depth: BitDepth,
    pub channels: u16,
    pub sample_rate: u32,
    pub packet_time: PacketTime,
}

/// The smaller of a number and the largest 32-bit number.
pub open spec fn saturated(n: int) -> u32 {
    if n > u32::MAX {
        u32::MAX
    } else {
        n as u32
    }
}

impl SessionDescriptor {
    /// Size of one packet: channels times the packet time in milliseconds
    /// times the sample rate in kHz, rounded down, and no more than 32 bits
    /// hold.
    pub open spec fn spec_buffer_size(&self) -> u32 {
        saturated(
            (self.channels as int * self.packet_time.micros as int * self.sample_rate as int)
                / 1_000_000,
        )
    }

    #[verifier::when_used_as_spec(spec_buffer_size)]
    pub fn buffer_size(&self) -> (size: u32)
        ensures
            size == self.spec_buffer_size(),
    {
        let channels: u128 = self.channels as u128;
        let micros: u128 = self.packet_time.micros as u128;
        let rate: u128 = self.sample_rate as u128;
        assert(channels * micros <= 0xffff * 0xffff_ffff) by (nonlinear_arith)
            requires
                channels <= 0xffff,
                micros <= 0xffff_ffff,
        ;
        let frame: u128 = channels * micros;
        assert(frame * rate <= 0xffff * 0xffff_ffff * 0xffff_ffff) by (nonlinear_arith)
            requires
                frame <= 0xffff * 0xffff_ffff,
                rate <= 0xffff_ffff,
        ;
        let size: u128 = frame * rate / 1_000_000;
        if size > u32::MAX as u128 {
            u32::MAX
        } else {
            size as u32
        }
    }

    /// Number of samples the output device is asked to take at a time: the
    /// packet size times the buffer multiplier, divided by the width of a
    /// sample in bytes.
    pub open spec fn spec_device_buffer_size(&self, buffer_multiplier: u32) -> u64 {
        ((self.spec_buffer_size() as int * buffer_multiplier as int)
            / self.bit_depth.spec_bytes_per_sample() as int) as u64
    }

    #[verifier::when_used_as_spec(spec_device_buffer_size)]
    pub fn device_buffer_size(&self, buffer_multiplier: u32) -> (size: u64)
        ensures
            size == self.spec_device_buffer_size(buffer_multiplier),
    {
        let packet: u64 = self.buffer_size() as u64;
        let factor: u64 = buffer_multiplier as u64;
        assert(packet * factor <= 0xffff_ffff * 0xffff_ffff) by (nonlinear_arith)
            requires
                packet <= 0xffff_ffff,
                factor <= 0xffff_ffff,
        ;
        packet * factor / (self.bit_depth.bytes_per_sample() as u64)
    }
}

/// The buffer multiplier that is used where none is configured.
pub open spec fn default_buffer_multiplier(channels: u16) -> u32 {
    (45 * channels) as u32
}

/// The buffer multiplier of a session: the configured one, or the default
/// where none is configured. A configured text that is no 32-bit decimal
/// number is an error.
pub open spec fn buffer_multiplier_of(configured: Option<Seq<char>>, channels: u16) -> Result<
    u32,
    Fault,
> {
    match configured {
        None => Ok(default_buffer_multiplier(channels)),
        Some(text) => match decimal(text, u32::MAX as nat) {
            Ok(n) => Ok(n as u32),
            Err(e) => Err(Fault::InvalidBufferMultiplier(e)),
        },
    }
}

/// Reads the buffer multiplier from its configured text, if there is one.
pub fn buffer_multiplier(configured: Option<&str>, channels: u16) -> (r: Result<
    u32,
    SdpPlayerError,
>)
    ensures
        match r {
            Ok(n) => buffer_multiplier_of(
                match configured {
                    Some(s) => Some(s@),
                    None => None,
                },
                channels,
            ) == Ok::<u32, Fault>(n),
            Err(e) => buffer_multiplier_of(
                match configured {
                    Some(s) => Some(s@),
                    None => None,
                },
                channels,
            ) == Err::<u32, Fault>(e@),
        },
{
    match configured {
        None => Ok(45 * channels as u32),
        Some(text) => match parse_number(text, u32::MAX as u64) {
            Ok(n) => Ok(n as u32),
            Err(e) => Err(SdpPlayerError::invalid_buffer_multiplier(e)),
        },
    }
}

/// Encoding of one PCM sample on the wire.
#[derive(Debug, Clone, Copy, PartialEq, Eq, Structural)]
pub enum BitDepth {
    /// 16-bit signed, big-endian.
    L16,
    /// 24-bit signed, big-endian.
    L24,
    /// 32-bit signed, big-endian.
    L32,
    /// 32-bit IEEE 754, big-endian.
    FloatingPoint,
}

impl BitDepth {
    /// Width of one sample in bits.
    pub open spec fn spec_bits(&self) -> u16 {
        match self {
            BitDepth::L16 => 16,
            BitDepth::L24 => 24,
            BitDepth::L32 => 32,
            BitDepth::FloatingPoint => 32,
        }
    }

    /// Whether samples are IEEE 754 numbers rather than integers.
    pub open spec fn spec_floating_point(&self) -> bool {
        *self == BitDepth::FloatingPoint
    }

    /// Width of one sample in bytes.
    pub open spec fn spec_bytes_per_sample(&self) -> usize {
        match self {
            BitDepth::L16 => 2,
            BitDepth::L24 => 3,
            BitDepth::L32 => 4,
            BitDepth::FloatingPoint => 4,
        }
    }

    /// The sample code that stands for an amplitude of exactly 1.0 in the
    /// integer encodings. Of no meaning for `FloatingPoint`, whose codes
    /// are IEEE 754 bit patterns; there it is 0.
    pub open spec fn spec_full_scale(&self) -> i32 {
        match self {
            BitDepth::L16 => 0x7fff,
            BitDepth::L24 => 0x7fff_ffff,
            BitDepth::L32 => 0x7fff_ffff,
            BitDepth::FloatingPoint => 0,
        }
    }

    #[verifier::when_used_as_spec(spec_bits)]
    pub fn bits(&self) -> (b: u16)
        ensures
            b == self.spec_bits(),
    {
        match self {
            BitDepth::L16 => 16,
            BitDepth::L24 => 24,
            BitDepth::L32 => 32,
            BitDepth::FloatingPoint => 32,
        }
    }

    #[verifier::when_used_as_spec(spec_floating_point)]
    pub fn floating_point(&self) -> (f: bool)
        ensures
            f == self.spec_floating_point(),
    {
        match self {
            BitDepth::FloatingPoint => true,
            _ => false,
        }
    }

    #[verifier::when_used_as_spec(spec_bytes_per_sample)]
    pub fn bytes_per_sample(&self) -> (w: usize)
        ensures
            w == self.spec_bytes_per_sample(),
            w * 8 == self.spec_bits(),
    {
        match self {
            BitDepth::L16 => 2,
            BitDepth::L24 => 3,
            BitDepth::L32 => 4,
            BitDepth::FloatingPoint => 4,
        }
    }

    #[verifier::when_used_as_spec(spec_full_scale)]
    pub fn full_scale(&self) -> (s: i32)
        ensures
            s == self.spec_full_scale(),
    {
        match self {
            BitDepth::L16 => 0x7fff,
            BitDepth::L24 => 0x7fff_ffff,
            BitDepth::L32 => 0x7fff_ffff,
            BitDepth::FloatingPoint => 0,
        }
    }
}

} // verus!

//! The ways in which a session can fail before or while it plays.

use vstd::prelude::*;
use rtp_rs::RtpReaderError;

verus! {

/// Errors of the RTP header reader. Nothing is known of a value but that it
/// was returned.
#[verifier::external_type_specification]
#[verifier::external_body]
pub struct ExRtpReaderError(rtp_rs::RtpReaderError);

/// Why a text is not the decimal number it should be.
#[derive(Debug, Clone, Copy, PartialEq, Eq, Structural)]
pub enum DecimalError {
    /// There is no digit at all.
    Empty,
    /// A character is no decimal digit.
    InvalidDigit,
    /// The number is larger than its type can hold.
    Overflow,
}

/// What went wrong, with the text or the reason it went wrong on.
#[derive(Debug)]
pub enum SdpPlayerError {
    InvalidBitDepth(String),
    MalformedSdpFile(String),
    InvalidSdpVersion(DecimalError),
    InvalidPacketTime(DecimalError),
    InvalidIP(String),
    InvalidPayloadId(DecimalError),
    InvalidPort(DecimalError),
    InvalidChannels(DecimalError),
    InvalidSampleRate(DecimalError),
    InvalidBufferMultiplier(DecimalError),
    InvalidActiveTime(DecimalError),
    MalformedConnectionInfo(String),
    MalformedPtime(String),
    MalformedRtpMap(String),
    UnsupportedMediaType(String),
    MalformedMediaTransport(String),
    RtpReaderError(RtpReaderError),
    ReceiverAlreadystarted,
}

/// An error as plain values: texts as sequences of characters, and of an
/// RTP reader error only that there was one.
pub enum Fault {
    InvalidBitDepth(Seq<char>),
    MalformedSdpFile(Seq<char>),
    InvalidSdpVersion(DecimalError),
    InvalidPacketTime(DecimalError),
    InvalidIP(Seq<char>),
    InvalidPayloadId(DecimalError),
    InvalidPort(DecimalError),
    InvalidChannels(DecimalError),
    InvalidSampleRate(DecimalError),
    InvalidBufferMultiplier(DecimalError),
    InvalidActiveTime(DecimalError),
    MalformedConnectionInfo(Seq<char>),
    MalformedPtime(Seq<char>),
    MalformedRtpMap(Seq<char>),
    UnsupportedMediaType(Seq<char>),
    MalformedMediaTransport(Seq<char>),
    RtpReader,
    ReceiverAlreadystarted,
}

impl View for SdpPlayerError {
    type V = Fault;

    open spec fn view(&self) -> Fault {
        match self {
            SdpPlayerError::InvalidBitDepth(s) => Fault::InvalidBitDepth(s@),
            SdpPlayerError::MalformedSdpFile(s) => Fault::MalformedSdpFile(s@),
            SdpPlayerError::InvalidSdpVersion(e) => Fault::InvalidSdpVersion(*e),
            SdpPlayerError::InvalidPacketTime(e) => Fault::InvalidPacketTime(*e),
            SdpPlayerError::InvalidIP(s) => Fault::InvalidIP(s@),
            SdpPlayerError::InvalidPayloadId(e) => Fault::InvalidPayloadId(*e),
            SdpPlayerError::InvalidPort(e) => Fault::InvalidPort(*e),
            SdpPlayerError::InvalidChannels(e) => Fault::InvalidChannels(*e),
            SdpPlayerError::InvalidSampleRate(e) => Fault::InvalidSampleRate(*e),
            SdpPlayerError::InvalidBufferMultiplier(e) => Fault::InvalidBufferMultiplier(*e),
            SdpPlayerError::InvalidActiveTime(e) => Fault::InvalidActiveTime(*e),
            SdpPlayerError::MalformedConnectionInfo(s) => Fault::MalformedConnectionInfo(s@),
            SdpPlayerError::MalformedPtime(s) => Fault::MalformedPtime(s@),
            SdpPlayerError::MalformedRtpMap(s) => Fault::MalformedRtpMap(s@),
            SdpPlayerError::UnsupportedMediaType(s) => Fault::UnsupportedMediaType(s@),
            SdpPlayerError::MalformedMediaTransport(s) => Fault::MalformedMediaTransport(s@),
            SdpPlayerError::RtpReaderError(_) => Fault::RtpReader,
            SdpPlayerError::ReceiverAlreadystarted => Fault::ReceiverAlreadystarted,
        }
    }
}

impl SdpPlayerError {
    pub fn invalid_sdp_version(e: DecimalError) -> (error: Self)
        ensures
            error@ == Fault::InvalidSdpVersion(e),
    {
        SdpPlayerError::InvalidSdpVersion(e)
    }

    pub fn invalid_packet_time(e: DecimalError) -> (error: Self)
        ensures
            error@ == Fault::InvalidPacketTime(e),
    {
        SdpPlayerError::InvalidPacketTime(e)
    }

    pub fn invalid_ip(address: String) -> (error: Self)
        ensures
            error@ == Fault::InvalidIP(address@),
    {
        SdpPlayerError::InvalidIP(address)
    }

    pub fn invalid_payload_id(e: DecimalError) -> (error: Self)
        ensures
            error@ == Fault::InvalidPayloadId(e),
    {
        SdpPlayerError::InvalidPayloadId(e)
    }

    pub fn invalid_port(e: DecimalError) -> (error: Self)
        ensures
            error@ == Fault::InvalidPort(e),
    {
        SdpPlayerError::InvalidPort(e)
    }

    pub fn invalid_channels(e: DecimalError) -> (error: Self)
        ensures
            error@ == Fault::InvalidChannels(e),
    {
        SdpPlayerError::InvalidChannels(e)
    }

    pub fn invalid_sample_rate(e: DecimalError) -> (error: Self)
        ensures
            error@ == Fault::InvalidSampleRate(e),
    {
        SdpPlayerError::InvalidSampleRate(e)
    }

    pub fn invalid_buffer_multiplier(e: DecimalError) -> (error: Self)
        ensures
            error@ == Fault::InvalidBufferMultiplier(e),
    {
        SdpPlayerError::InvalidBufferMultiplier(e)
    }
}

pub type SdpPlayerResult<T> = Result<T, SdpPlayerError>;

/// A result with its error as plain values.
pub open spec fn outcome<T>(r: Result<T, SdpPlayerError>) -> Result<T, Fault> {
    match r {
        Ok(v) => Ok(v),
        Err(e) => Err(e@),
    }
}

} // verus!

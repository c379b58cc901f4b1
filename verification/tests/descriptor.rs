use sdplay_lib::descriptor::buffer_multiplier;
use sdplay_lib::error::{DecimalError, SdpPlayerError};
use sdplay_lib::{BitDepth, Ipv4Address, PacketTime, SessionDescriptor, Status};

fn stereo() -> SessionDescriptor {
    SessionDescriptor {
        multicast_address: Ipv4Address(239, 0, 0, 1),
        multicast_port: 5004,
        bit_depth: BitDepth::L16,
        channels: 2,
        sample_rate: 48000,
        packet_time: PacketTime::from_millis(1).unwrap(),
    }
}

#[test]
fn stereo_session_arithmetic() {
    let descriptor = stereo();
    assert_eq!(descriptor.buffer_size(), 96);
    assert_eq!(descriptor.buffer_size() as usize / descriptor.bit_depth.bytes_per_sample(), 48);
    let multiplier = buffer_multiplier(None, descriptor.channels).unwrap();
    assert_eq!(multiplier, 90);
    assert_eq!(descriptor.device_buffer_size(multiplier), 4320);
}

#[test]
fn buffer_size_rounds_down() {
    let mut descriptor = stereo();
    descriptor.channels = 8;
    descriptor.packet_time = PacketTime { micros: 125 };
    assert_eq!(descriptor.buffer_size(), 48);
    descriptor.sample_rate = 44100;
    descriptor.channels = 1;
    descriptor.packet_time = PacketTime { micros: 333 };
    assert_eq!(descriptor.buffer_size(), 14);
    descriptor.packet_time = PacketTime { micros: 0 };
    assert_eq!(descriptor.buffer_size(), 0);
}

#[test]
fn buffer_size_saturates() {
    let descriptor = SessionDescriptor {
        channels: u16::MAX,
        sample_rate: u32::MAX,
        packet_time: PacketTime { micros: u32::MAX },
        ..stereo()
    };
    assert_eq!(descriptor.buffer_size(), u32::MAX);
    assert_eq!(
        descriptor.device_buffer_size(u32::MAX),
        (u32::MAX as u64 * u32::MAX as u64) / 2
    );
}

#[test]
fn device_buffer_size_by_width() {
    let mut descriptor = stereo();
    descriptor.bit_depth = BitDepth::L24;
    assert_eq!(descriptor.device_buffer_size(90), 2880);
    descriptor.bit_depth = BitDepth::FloatingPoint;
    assert_eq!(descriptor.device_buffer_size(90), 2160);
    assert_eq!(descriptor.device_buffer_size(0), 0);
}

#[test]
fn buffer_multiplier_default() {
    assert_eq!(buffer_multiplier(None, 1).unwrap(), 45);
    assert_eq!(buffer_multiplier(None, 0).unwrap(), 0);
    assert_eq!(buffer_multiplier(None, u16::MAX).unwrap(), 2_949_075);
}

#[test]
fn buffer_multiplier_configured() {
    assert_eq!(buffer_multiplier(Some("100"), 2).unwrap(), 100);
    assert_eq!(buffer_multiplier(Some("4294967295"), 2).unwrap(), u32::MAX);
    assert!(matches!(
        buffer_multiplier(Some("4294967296"), 2),
        Err(SdpPlayerError::InvalidBufferMultiplier(DecimalError::Overflow))
    ));
    assert!(matches!(
        buffer_multiplier(Some("many"), 2),
        Err(SdpPlayerError::InvalidBufferMultiplier(DecimalError::InvalidDigit))
    ));
    assert!(matches!(
        buffer_multiplier(Some(""), 2),
        Err(SdpPlayerError::InvalidBufferMultiplier(DecimalError::Empty))
    ));
}

#[test]
fn error_constructors() {
    assert!(matches!(
        SdpPlayerError::invalid_sdp_version(DecimalError::Empty),
        SdpPlayerError::InvalidSdpVersion(DecimalError::Empty)
    ));
    assert!(matches!(
        SdpPlayerError::invalid_packet_time(DecimalError::Overflow),
        SdpPlayerError::InvalidPacketTime(DecimalError::Overflow)
    ));
    assert!(matches!(
        SdpPlayerError::invalid_ip("1.2.3".to_owned()),
        SdpPlayerError::InvalidIP(t) if t == "1.2.3"
    ));
    assert!(matches!(
        SdpPlayerError::invalid_payload_id(DecimalError::InvalidDigit),
        SdpPlayerError::InvalidPayloadId(DecimalError::InvalidDigit)
    ));
    assert!(matches!(
        SdpPlayerError::invalid_port(DecimalError::InvalidDigit),
        SdpPlayerError::InvalidPort(DecimalError::InvalidDigit)
    ));
    assert!(matches!(
        SdpPlayerError::invalid_channels(DecimalError::InvalidDigit),
        SdpPlayerError::InvalidChannels(DecimalError::InvalidDigit)
    ));
    assert!(matches!(
        SdpPlayerError::invalid_sample_rate(DecimalError::InvalidDigit),
        SdpPlayerError::InvalidSampleRate(DecimalError::InvalidDigit)
    ));
    assert!(matches!(
        SdpPlayerError::invalid_buffer_multiplier(DecimalError::InvalidDigit),
        SdpPlayerError::InvalidBufferMultiplier(DecimalError::InvalidDigit)
    ));
}

#[test]
fn status_is_a_plain_value() {
    assert_eq!(Status { playing: true }, Status { playing: true });
    assert_ne!(Status { playing: true }, Status { playing: false });
}

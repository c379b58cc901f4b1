use sdplay_lib::error::{DecimalError, SdpPlayerError};
use sdplay_lib::sdp::{
    parse_line, parse_line_in, parse_packet_time, parse_value, parse_value_in, sdp_from_str,
    session_descriptor_from_sdp_str, ConnectionInfo, Media, MediaAndTransport, Reading, RtpMap,
    Sdp, SdpFields, SdpValue,
};
use sdplay_lib::{BitDepth, Ipv4Address, PacketTime, SessionDescriptor};

const SDP: &str = "v=0
o=- 1311738121 1311738121 IN IP4 192.168.1.1
s=Stage left I/O
c=IN IP4 239.0.0.1/32
t=0 0
m=audio 5004 RTP/AVP 98
i=Channels 1-8
a=rtpmap:98 L16/48000/8
a=recvonly
a=ptime:0.125
";

#[test]
fn parse_comment() {
    let line = "# hello world";
    let parsed = parse_line(line).unwrap();
    assert!(parsed.is_none());
}

#[test]
fn sdp_parse_comment() {
    let line = "# hello world";
    let parsed = parse_line(line).unwrap();
    assert!(parsed.is_none());
}

#[test]
fn parse_empty_line() {
    let line = " ";
    let parsed = parse_line(line).unwrap();
    assert!(parsed.is_none());
}

#[test]
fn sdp_parse_empty_line() {
    let line = " ";
    let parsed = parse_line(line).unwrap();
    assert!(parsed.is_none());
}

#[test]
fn parse_version() {
    let line = "v=0";
    let (key, value) = parse_line(line).unwrap().unwrap();
    assert_eq!(key, "v");
    assert_eq!(value, SdpValue::ProtocolVersion(0));
}

#[test]
fn parse_name_and_transport() {
    let line = "m=audio 5004 RTP/AVP 98";
    let (key, value) = parse_line(line).unwrap().unwrap();
    assert_eq!(key, "m");
    assert_eq!(
        value,
        SdpValue::MediaNameAndTransportAddress(MediaAndTransport {
            media: Media::Audio,
            port: 5004,
            protocol: "RTP/AVP".to_owned(),
            payload_id: 98
        })
    );
}

#[test]
fn sdp_parse_name_and_transport() {
    let line = "m=audio 5004 RTP/AVP 98";
    let (key, value) = parse_line(line).unwrap().unwrap();
    assert_eq!(key, "m");
    assert_eq!(
        value,
        SdpValue::MediaNameAndTransportAddress(MediaAndTransport {
            media: Media::Audio,
            port: 5004,
            protocol: "RTP/AVP".to_owned(),
            payload_id: 98
        })
    );
}

#[test]
fn parse_attribute() {
    let line = "a=rtpmap:98 L16/48000/8";
    let (key, value) = parse_line(line).unwrap().unwrap();
    assert_eq!(key, "a");
    assert_eq!(
        value,
        SdpValue::Attribute("rtpmap:98 L16/48000/8".to_owned())
    );
}

#[test]
fn sdp_parse_attribute() {
    let line = "a=rtpmap:98 L16/48000/8";
    let (key, value) = parse_line(line).unwrap().unwrap();
    assert_eq!(key, "a");
    assert_eq!(
        value,
        SdpValue::Attribute("rtpmap:98 L16/48000/8".to_owned())
    );
}

#[test]
fn parse_rtpmap() {
    let line = "rtpmap:98 L16/48000/8";
    let rtp_map: RtpMap = line.parse().unwrap();
    assert_eq!(
        rtp_map,
        RtpMap {
            bit_depth: BitDepth::L16,
            channels: 8,
            payload_id: 98,
            sample_rate: 48000
        }
    );
}

#[test]
fn sdp_parse_rtpmap() {
    let line = "rtpmap:98 L16/48000/8";
    let rtp_map: RtpMap = line.parse().unwrap();
    assert_eq!(
        rtp_map,
        RtpMap {
            bit_depth: BitDepth::L16,
            channels: 8,
            payload_id: 98,
            sample_rate: 48000
        }
    );
}

#[test]
fn from_url() {
    let _url = "http://10.1.255.252:5050/x-manufacturer/senders/ce187070-000a-102b-bb00-000000000000/stream.sdp";
}

#[test]
fn from_str() {
    let sdp = sdp_from_str(SDP).unwrap();
    assert_eq!(
        sdp,
        Sdp {
            bit_depth: BitDepth::L16,
            channels: 8,
            multicast_port: 5004,
            payload_id: 98,
            version: 0,
            multicast_address: Ipv4Address(239, 0, 0, 1),
            packet_time: PacketTime::from_micros(125),
            sample_rate: 48000
        }
    );
    assert_eq!(sdp.packet_time.micros as f32 / 1000.0, 0.125);
}

#[test]
fn descriptor_from_str() {
    let descriptor: SessionDescriptor = SDP.parse().unwrap();
    assert_eq!(
        descriptor,
        SessionDescriptor {
            multicast_address: Ipv4Address(239, 0, 0, 1),
            multicast_port: 5004,
            bit_depth: BitDepth::L16,
            channels: 8,
            sample_rate: 48000,
            packet_time: PacketTime { micros: 125 },
        }
    );
    assert_eq!(descriptor, sdp_from_str(SDP).unwrap().descriptor());
    assert_eq!(descriptor, session_descriptor_from_sdp_str(SDP).unwrap());
}

#[test]
fn descriptor_needs_no_version() {
    let text = "c=IN IP4 239.1.2.3/32\nm=audio 6000 RTP/AVP 97\na=rtpmap:97 L24/96000/2\na=ptime:1";
    let descriptor = session_descriptor_from_sdp_str(text).unwrap();
    assert_eq!(descriptor.multicast_address, Ipv4Address(239, 1, 2, 3));
    assert_eq!(descriptor.multicast_port, 6000);
    assert_eq!(descriptor.bit_depth, BitDepth::L24);
    assert_eq!(descriptor.sample_rate, 96000);
    assert_eq!(descriptor.channels, 2);
    assert_eq!(descriptor.packet_time.micros, 1000);
    assert!(matches!(
        sdp_from_str(text),
        Err(SdpPlayerError::MalformedSdpFile(t)) if t == text
    ));
}

#[test]
fn missing_field_is_malformed() {
    let text = "v=0\nm=audio 5004 RTP/AVP 98\na=rtpmap:98 L16/48000/8\na=ptime:1";
    assert!(matches!(
        session_descriptor_from_sdp_str(text),
        Err(SdpPlayerError::MalformedSdpFile(t)) if t == text
    ));
}

#[test]
fn later_line_replaces_earlier() {
    let text = "a=ptime:1\na=ptime:0.25\n";
    let fields = SdpFields::parse(Reading::Stream, text).unwrap();
    assert_eq!(fields.packet_time, Some(PacketTime { micros: 250 }));
    assert_eq!(fields.bit_depth, None);
    assert_eq!(fields.descriptor(), None);
}

#[test]
fn line_without_equals_is_an_error() {
    match parse_line("  hello  ") {
        Err(SdpPlayerError::MalformedSdpFile(m)) => {
            assert_eq!(m, "line is not a key/value pair:   hello  ")
        }
        other => panic!("unexpected {:?}", other),
    }
    assert!(session_descriptor_from_sdp_str("v=0\nnonsense\n").is_err());
}

#[test]
fn value_ends_at_second_equals() {
    let (key, value) = parse_line(" a=fmtp:98 x=y \r").unwrap().unwrap();
    assert_eq!(key, "a");
    assert_eq!(value, SdpValue::Attribute("fmtp:98 x".to_owned()));
}

#[test]
fn unknown_key_is_passed_over() {
    assert!(parse_line("z=whatever").unwrap().is_none());
    assert!(parse_value("b", "AS:1000").unwrap().is_none());
}

#[test]
fn plain_values() {
    assert_eq!(
        parse_value("o", "- 1 2 IN IP4 10.0.0.1").unwrap(),
        Some(SdpValue::OriginatorAndSessionIdentifier("- 1 2 IN IP4 10.0.0.1".to_owned()))
    );
    assert_eq!(
        parse_value("s", "name").unwrap(),
        Some(SdpValue::SessionName("name".to_owned()))
    );
    assert_eq!(
        parse_value("i", "info").unwrap(),
        Some(SdpValue::SessionInfo("info".to_owned()))
    );
    assert_eq!(
        parse_value("u", "uri").unwrap(),
        Some(SdpValue::SessionDescription("uri".to_owned()))
    );
    assert_eq!(
        parse_value("c", "IN IP4 239.0.0.1/32").unwrap(),
        Some(SdpValue::ConnectionInformation(ConnectionInfo {
            multicast_address: Ipv4Address(239, 0, 0, 1)
        }))
    );
}

#[test]
fn active_time() {
    assert_eq!(
        parse_value("t", "10 20").unwrap(),
        Some(SdpValue::ActiveTime((10, 20)))
    );
    assert!(matches!(
        parse_value("t", "10"),
        Err(SdpPlayerError::MalformedSdpFile(_))
    ));
    assert!(matches!(
        parse_value("t", "10 x"),
        Err(SdpPlayerError::InvalidActiveTime(DecimalError::InvalidDigit))
    ));
}

#[test]
fn version_errors() {
    assert!(matches!(
        parse_value("v", ""),
        Err(SdpPlayerError::InvalidSdpVersion(DecimalError::Empty))
    ));
    assert!(matches!(
        parse_value("v", "x"),
        Err(SdpPlayerError::InvalidSdpVersion(DecimalError::InvalidDigit))
    ));
    assert!(matches!(
        parse_value("v", "65536"),
        Err(SdpPlayerError::InvalidSdpVersion(DecimalError::Overflow))
    ));
    assert_eq!(
        parse_value("v", "+65535").unwrap(),
        Some(SdpValue::ProtocolVersion(65535))
    );
}

#[test]
fn rtpmap_errors() {
    assert!(matches!(
        "rtpmap:98 L16/48000".parse::<RtpMap>(),
        Err(SdpPlayerError::MalformedRtpMap(t)) if t == "rtpmap:98 L16/48000"
    ));
    assert!(matches!(
        RtpMap::parse("rtpmap:65536 L16/48000/8"),
        Err(SdpPlayerError::InvalidPayloadId(DecimalError::Overflow))
    ));
    assert!(matches!(
        RtpMap::parse("rtpmap:98 opus/48000/8"),
        Err(SdpPlayerError::InvalidBitDepth(t)) if t == "opus"
    ));
    assert!(matches!(
        RtpMap::parse("rtpmap:98 L16/4294967296/8"),
        Err(SdpPlayerError::InvalidSampleRate(DecimalError::Overflow))
    ));
    assert!(matches!(
        RtpMap::parse("rtpmap:98 L16/48000/70000"),
        Err(SdpPlayerError::InvalidChannels(DecimalError::Overflow))
    ));
}

#[test]
fn rtpmap_from_given_captures() {
    let groups = Some(vec![
        Some("whole".to_owned()),
        Some("97".to_owned()),
        Some("L24".to_owned()),
        Some("44100".to_owned()),
        Some("2".to_owned()),
    ]);
    assert_eq!(
        RtpMap::from_captures("whole", &groups).unwrap(),
        RtpMap { payload_id: 97, bit_depth: BitDepth::L24, sample_rate: 44100, channels: 2 }
    );
    let short = Some(vec![Some("whole".to_owned()), Some("97".to_owned())]);
    assert!(matches!(
        RtpMap::from_captures("whole", &short),
        Err(SdpPlayerError::MalformedRtpMap(t)) if t == "whole"
    ));
    let hole = Some(vec![None, None, None, None, None]);
    assert!(matches!(
        RtpMap::from_captures("x", &hole),
        Err(SdpPlayerError::MalformedRtpMap(_))
    ));
    assert!(matches!(
        RtpMap::from_captures("y", &None),
        Err(SdpPlayerError::MalformedRtpMap(t)) if t == "y"
    ));
}

#[test]
fn bit_depth_names() {
    assert_eq!("L16".parse::<BitDepth>().unwrap(), BitDepth::L16);
    assert_eq!("L24".parse::<BitDepth>().unwrap(), BitDepth::L24);
    assert_eq!("L32".parse::<BitDepth>().unwrap(), BitDepth::L32);
    assert_eq!("FLOAT".parse::<BitDepth>().unwrap(), BitDepth::FloatingPoint);
    assert_eq!("Floating Point".parse::<BitDepth>().unwrap(), BitDepth::FloatingPoint);
    assert_eq!("float32".parse::<BitDepth>().unwrap(), BitDepth::L32);
    assert_eq!("2416".parse::<BitDepth>().unwrap(), BitDepth::L16);
    assert!(matches!(
        "L8".parse::<BitDepth>(),
        Err(SdpPlayerError::InvalidBitDepth(t)) if t == "L8"
    ));
    assert_eq!(
        BitDepth::from_lowered("FLOAT", "float").unwrap(),
        BitDepth::FloatingPoint
    );
    assert!(BitDepth::from_lowered("FLOAT", "FLOAT").is_err());
    assert_eq!(BitDepth::L16.name(), "L16");
    assert_eq!(BitDepth::FloatingPoint.name(), "Floating Point");
}

#[test]
fn media_names() {
    assert_eq!("audio".parse::<Media>().unwrap(), Media::Audio);
    assert_eq!("video".parse::<Media>().unwrap(), Media::Video);
    assert!(matches!(
        "Audio".parse::<Media>(),
        Err(SdpPlayerError::UnsupportedMediaType(t)) if t == "Audio"
    ));
}

#[test]
fn media_and_transport_errors() {
    assert!(matches!(
        "audio 5004".parse::<MediaAndTransport>(),
        Err(SdpPlayerError::MalformedMediaTransport(t)) if t == "audio 5004"
    ));
    assert!(matches!(
        MediaAndTransport::parse("text 5004 RTP/AVP 98"),
        Err(SdpPlayerError::UnsupportedMediaType(t)) if t == "text"
    ));
    assert!(matches!(
        MediaAndTransport::parse("audio 65536 RTP/AVP 98"),
        Err(SdpPlayerError::InvalidPort(DecimalError::Overflow))
    ));
    assert!(matches!(
        MediaAndTransport::parse("audio 5004 RTP/AVP 65536"),
        Err(SdpPlayerError::InvalidPayloadId(DecimalError::Overflow))
    ));
    let parsed = MediaAndTransport::parse("video 1 udp 2").unwrap();
    assert_eq!(parsed.clone(), parsed);
    assert_eq!(parsed.media, Media::Video);
}

#[test]
fn connection_info() {
    let info: ConnectionInfo = "IN IP4 239.69.1.255/64".parse().unwrap();
    assert_eq!(info.multicast_address, Ipv4Address(239, 69, 1, 255));
    assert!(matches!(
        "IN IP4 239.0.0.1".parse::<ConnectionInfo>(),
        Err(SdpPlayerError::MalformedConnectionInfo(t)) if t == "IN IP4 239.0.0.1"
    ));
    assert!(matches!(
        ConnectionInfo::parse("IN IP4 239.0.0.256/32"),
        Err(SdpPlayerError::InvalidIP(t)) if t == "239.0.0.256"
    ));
}

#[test]
fn ipv4_addresses() {
    assert_eq!(Ipv4Address::parse("0.0.0.0"), Some(Ipv4Address(0, 0, 0, 0)));
    assert_eq!(Ipv4Address::parse("255.255.255.255"), Some(Ipv4Address(255, 255, 255, 255)));
    assert_eq!(Ipv4Address::parse("1.2.3"), None);
    assert_eq!(Ipv4Address::parse("1.2.3.4.5"), None);
    assert_eq!(Ipv4Address::parse("1.2.3."), None);
    assert_eq!(Ipv4Address::parse("01.2.3.4"), None);
    assert_eq!(Ipv4Address::parse("1.2.3.+4"), None);
    assert_eq!(Ipv4Address::parse("1.2.3.1000"), None);
    assert_eq!(Ipv4Address::parse(""), None);
}

#[test]
fn packet_times() {
    assert_eq!(PacketTime::parse("1"), Ok(PacketTime { micros: 1000 }));
    assert_eq!(PacketTime::parse("1.0"), Ok(PacketTime { micros: 1000 }));
    assert_eq!(PacketTime::parse("0.125"), Ok(PacketTime { micros: 125 }));
    assert_eq!(PacketTime::parse("0.33"), Ok(PacketTime { micros: 330 }));
    assert_eq!(PacketTime::parse("0.3339"), Ok(PacketTime { micros: 333 }));
    assert_eq!(PacketTime::parse(".5"), Ok(PacketTime { micros: 500 }));
    assert_eq!(PacketTime::parse("4."), Ok(PacketTime { micros: 4000 }));
    assert_eq!(PacketTime::parse("+2.5"), Ok(PacketTime { micros: 2500 }));
    assert_eq!(PacketTime::parse("4294967.295"), Ok(PacketTime { micros: u32::MAX }));
    assert_eq!(PacketTime::parse("4294967.296"), Err(DecimalError::Overflow));
    assert_eq!(PacketTime::parse("99999999999999999999999"), Err(DecimalError::Overflow));
    assert_eq!(PacketTime::parse(""), Err(DecimalError::Empty));
    assert_eq!(PacketTime::parse("."), Err(DecimalError::InvalidDigit));
    assert_eq!(PacketTime::parse("+"), Err(DecimalError::InvalidDigit));
    assert_eq!(PacketTime::parse("-1"), Err(DecimalError::InvalidDigit));
    assert_eq!(PacketTime::parse("1.2.3"), Err(DecimalError::InvalidDigit));
    assert_eq!(PacketTime::parse("1e3"), Err(DecimalError::InvalidDigit));
    assert_eq!(PacketTime::from_millis(4), Some(PacketTime { micros: 4000 }));
    assert_eq!(PacketTime::from_millis(u32::MAX), None);
}

#[test]
fn ptime_attribute() {
    assert_eq!(parse_packet_time("ptime:0.125").unwrap(), PacketTime { micros: 125 });
    assert!(matches!(
        parse_packet_time("rtpmap:98 L16/48000/8"),
        Err(SdpPlayerError::MalformedPtime(t)) if t == "rtpmap:98 L16/48000/8"
    ));
    assert!(matches!(
        parse_packet_time("ptime:fast"),
        Err(SdpPlayerError::InvalidPacketTime(DecimalError::InvalidDigit))
    ));
}

#[test]
fn descriptor_passes_over_version_and_active_time() {
    for line in ["v=x", "v=70000", "v=", "t=0", "t=a b", "t="] {
        assert!(matches!(
            session_descriptor_from_sdp_str(line),
            Err(SdpPlayerError::MalformedSdpFile(t)) if t == line
        ));
        let text = format!(
            "{line}\nc=IN IP4 239.0.0.1/32\nm=audio 5004 RTP/AVP 98\na=rtpmap:98 L16/48000/8\na=ptime:1\n"
        );
        let descriptor = session_descriptor_from_sdp_str(&text).unwrap();
        assert_eq!(
            descriptor,
            SessionDescriptor {
                multicast_address: Ipv4Address(239, 0, 0, 1),
                multicast_port: 5004,
                bit_depth: BitDepth::L16,
                channels: 8,
                sample_rate: 48000,
                packet_time: PacketTime { micros: 1000 },
            }
        );
        assert_eq!(text.parse::<SessionDescriptor>().unwrap(), descriptor);
    }
}

#[test]
fn session_reads_version_and_active_time() {
    assert!(matches!(
        sdp_from_str("v=x"),
        Err(SdpPlayerError::InvalidSdpVersion(DecimalError::InvalidDigit))
    ));
    assert!(matches!(
        sdp_from_str("v=70000"),
        Err(SdpPlayerError::InvalidSdpVersion(DecimalError::Overflow))
    ));
    assert!(matches!(
        sdp_from_str("v=0\nt=0"),
        Err(SdpPlayerError::MalformedSdpFile(t)) if t == "0"
    ));
    assert!(matches!(
        "t=1 x".parse::<Sdp>(),
        Err(SdpPlayerError::InvalidActiveTime(DecimalError::InvalidDigit))
    ));
}

#[test]
fn readings_differ_on_version_and_active_time_only() {
    assert!(parse_line_in(Reading::Stream, "v=x").unwrap().is_none());
    assert!(parse_line_in(Reading::Stream, "t=0").unwrap().is_none());
    assert!(parse_line_in(Reading::Session, "v=x").is_err());
    assert!(parse_value_in(Reading::Stream, "v", "0").unwrap().is_none());
    assert_eq!(
        parse_value_in(Reading::Session, "v", "0").unwrap(),
        Some(SdpValue::ProtocolVersion(0))
    );
    for reading in [Reading::Session, Reading::Stream] {
        assert_eq!(
            parse_line_in(reading, "a=recvonly").unwrap(),
            Some(("a", SdpValue::Attribute("recvonly".to_owned())))
        );
        assert!(matches!(
            parse_line_in(reading, "m=audio x RTP/AVP 98"),
            Err(SdpPlayerError::MalformedMediaTransport(_))
        ));
        assert!(matches!(
            parse_line_in(reading, "v"),
            Err(SdpPlayerError::MalformedSdpFile(_))
        ));
        assert!(parse_line_in(reading, "# v=x").unwrap().is_none());
    }
    assert!(SdpFields::parse(Reading::Session, "v=x").is_err());
    assert_eq!(SdpFields::parse(Reading::Stream, "v=x").unwrap(), SdpFields::new());
    assert_eq!(SdpFields::parse(Reading::Session, "v=3").unwrap().version, Some(3));
}

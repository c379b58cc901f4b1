//! The receiving side of a session: what to do with each datagram that
//! arrives on the multicast socket.
//!
//! The caller owns the socket and the channel to the playback side. It
//! reports each datagram, and each reason to stop, to a [`Receiver`], and
//! does what the returned [`ReceiverAction`] says. Payloads are forwarded in
//! the order of arrival whatever their sequence numbers are: a gap or a
//! step back is reported, never repaired.

use vstd::prelude::*;
use vstd::slice::{slice_subrange, slice_to_vec};
use rtp_rs::{RtpReader, RtpReaderError};
use crate::error::{Fault, SdpPlayerError};

verus! {

/// Whether `RtpReader::new` accepts the datagram as an RTP packet.
pub uninterp spec fn rtp_header_valid(datagram: Seq<u8>) -> bool;

/// Where the fixed part of an RTP header and its list of contributing
/// sources end: after twelve bytes and four more for each source, whose
/// number the low four bits of the first byte give.
pub open spec fn rtp_sources_end(datagram: Seq<u8>) -> int {
    12 + 4 * (datagram[0] as int % 16)
}

/// Whether the header declares an extension: bit 4 of the first byte.
pub open spec fn rtp_has_extension(datagram: Seq<u8>) -> bool {
    (datagram[0] as int / 16) % 2 == 1
}

/// Whether the header declares padding: bit 5 of the first byte.
pub open spec fn rtp_has_padding(datagram: Seq<u8>) -> bool {
    (datagram[0] as int / 32) % 2 == 1
}

/// The length of the RTP header of a datagram, with the list of
/// contributing sources and, where one is declared, the header extension:
/// four bytes and four times the number that the third and fourth of them
/// write, most significant byte first.
pub open spec fn rtp_payload_offset(datagram: Seq<u8>) -> nat {
    let fixed = rtp_sources_end(datagram);
    if rtp_has_extension(datagram) {
        (fixed + 4 + 4 * (datagram[fixed + 2] as int * 256 + datagram[fixed + 3] as int)) as nat
    } else {
        fixed as nat
    }
}

/// The number of padding bytes at the end of a datagram, where its header
/// declares padding: what the last byte holds.
pub open spec fn rtp_padding(datagram: Seq<u8>) -> Option<u8> {
    if rtp_has_padding(datagram) {
        Some(datagram[datagram.len() - 1])
    } else {
        None
    }
}

/// The sequence number of an RTP packet: its third and fourth byte, most
/// significant first.
pub open spec fn rtp_sequence_number(datagram: Seq<u8>) -> u16 {
    (datagram[2] as int * 256 + datagram[3] as int) as u16
}

/// The fields of an RTP header that the receiver reads.
#[derive(Debug, Clone, Copy, PartialEq, Eq)]
pub struct RtpHeader {
    /// Index of the first byte after the header.
    pub payload_offset: usize,
    /// Number of padding bytes at the end of the datagram, if declared.
    pub padding: Option<u8>,
    /// Position of the packet in the stream, modulo 65536.
    pub sequence_number: u16,
}

/// Number of bytes to leave off the end of a datagram.
pub open spec fn padding_len(padding: Option<u8>) -> nat {
    match padding {
        Some(n) => n as nat,
        None => 0,
    }
}

/// Parses the header of an RTP packet with `rtp_rs::RtpReader`.
///
/// Trusted: the result is `Ok` exactly when `RtpReader::new` accepts the
/// datagram, and then holds what the reader's `payload_offset`, `padding`
/// and `sequence_number` return, which the reader computes from the bytes of
/// the header as stated here. `RtpReader::new` rejects a datagram of fewer
/// than twelve bytes and one whose header or padding would reach past its
/// end, so for an accepted one the header and the padding together fit into
/// the datagram.
#[verifier::external_body]
fn read_header(datagram: &[u8]) -> (r: Result<RtpHeader, RtpReaderError>)
    ensures
        (r is Ok) == rtp_header_valid(datagram@),
        r matches Ok(h) ==> {
            &&& datagram@.len() >= 12
            &&& h.payload_offset == rtp_payload_offset(datagram@)
            &&& h.padding == rtp_padding(datagram@)
            &&& h.sequence_number == rtp_sequence_number(datagram@)
            &&& h.payload_offset + padding_len(h.padding) <= datagram@.len()
        },
{
    let reader = RtpReader::new(datagram)?;
    Ok(
        RtpHeader {
            payload_offset: reader.payload_offset(),
            padding: reader.padding(),
            sequence_number: reader.sequence_number().into(),
        },
    )
}

/// What the sequence number of a packet says about the packets before it.
#[derive(Debug, Clone, Copy, PartialEq, Eq, Structural)]
pub enum SequenceCheck {
    /// The packet is the first one, or follows the previous one directly.
    InOrder,
    /// This many packets between the previous one and this one are missing.
    Lost(u16),
    /// The packet repeats the previous one or lies before it.
    Inconsistent,
}

/// How far `current` lies ahead of `previous`, counting modulo 65536.
pub open spec fn forward_distance(previous: u16, current: u16) -> int {
    (current - previous) % 0x1_0000
}

/// Compares a sequence number with the one before it. A step forward of up
/// to half the number range counts as loss, anything else but the direct
/// successor as a repetition or a step back.
pub open spec fn check_sequence(previous: Option<u16>, current: u16) -> SequenceCheck {
    match previous {
        None => SequenceCheck::InOrder,
        Some(p) => {
            let d = forward_distance(p, current);
            if d == 1 {
                SequenceCheck::InOrder
            } else if 2 <= d < 0x8000 {
                SequenceCheck::Lost((d - 1) as u16)
            } else {
                SequenceCheck::Inconsistent
            }
        },
    }
}

/// A packet that follows its predecessor directly raises nothing, also
/// where the numbers wrap from 65535 to 0. One that skips a single number
/// reports exactly one lost packet. One that repeats its predecessor, or
/// lies one before it, is reported as inconsistent.
pub proof fn lemma_sequence_continuity(n: u16)
    ensures
        check_sequence(Some(n), if n == 0xffff { 0u16 } else { (n + 1) as u16 })
            == SequenceCheck::InOrder,
        check_sequence(Some(0xffffu16), 0u16) == SequenceCheck::InOrder,
        check_sequence(Some(n), ((n + 2) % 0x1_0000) as u16) == SequenceCheck::Lost(1),
        check_sequence(Some(n), n) == SequenceCheck::Inconsistent,
        check_sequence(Some(n), ((n + 0xffff) % 0x1_0000) as u16) == SequenceCheck::Inconsistent,
{
}

/// The sequence check as the receiver runs it.
pub fn sequence_check(previous: Option<u16>, current: u16) -> (check: SequenceCheck)
    ensures
        check == check_sequence(previous, current),
{
    match previous {
        None => SequenceCheck::InOrder,
        Some(p) => {
            let d: u16 = if current >= p {
                current - p
            } else {
                (0xffff - p) + current + 1
            };
            if d == 1 {
                SequenceCheck::InOrder
            } else if 2 <= d && d < 0x8000 {
                SequenceCheck::Lost(d - 1)
            } else {
                SequenceCheck::Inconsistent
            }
        },
    }
}

/// How many packets arrived since the last report, and the size of the
/// payload of the packet that caused this one.
#[derive(Debug, Clone, Copy, PartialEq, Eq, Structural)]
pub struct RateReport {
    pub packets: u64,
    pub payload_size: usize,
}

/// Why the receive loop ends.
#[derive(Debug)]
pub enum ExitReason {
    /// The session was told to stop.
    Stopped,
    /// The socket failed.
    SocketFailed,
    /// The playback side no longer takes payloads.
    ForwardFailed,
    /// A datagram holds no valid RTP packet.
    Malformed(SdpPlayerError),
}

/// What the caller has to do after an event.
#[derive(Debug)]
pub enum ReceiverAction {
    /// Receive the next datagram; this one was empty.
    Ignore,
    /// Send the payload to the playback side, report what `check` and
    /// `rate` hold, and receive the next datagram.
    Forward { payload: Vec<u8>, check: SequenceCheck, rate: Option<RateReport> },
    /// Leave the receive loop and drop the socket and the channel.
    Exit(ExitReason),
}

/// A [`ReceiverAction`] as plain values.
pub enum ReceiverStep {
    Ignore,
    Forward { payload: Seq<u8>, check: SequenceCheck, rate: Option<RateReport> },
    ExitStopped,
    ExitSocketFailed,
    ExitForwardFailed,
    ExitMalformed(Fault),
}

impl View for ReceiverAction {
    type V = ReceiverStep;

    open spec fn view(&self) -> ReceiverStep {
        match self {
            ReceiverAction::Ignore => ReceiverStep::Ignore,
            ReceiverAction::Forward { payload, check, rate } => ReceiverStep::Forward {
                payload: payload@,
                check: *check,
                rate: *rate,
            },
            ReceiverAction::Exit(ExitReason::Stopped) => ReceiverStep::ExitStopped,
            ReceiverAction::Exit(ExitReason::SocketFailed) => ReceiverStep::ExitSocketFailed,
            ReceiverAction::Exit(ExitReason::ForwardFailed) => ReceiverStep::ExitForwardFailed,
            ReceiverAction::Exit(ExitReason::Malformed(e)) => ReceiverStep::ExitMalformed(e@),
        }
    }
}

/// What the receiver remembers from one datagram to the next.
#[derive(Debug, Clone, Copy, PartialEq, Eq, Structural)]
pub struct ReceiverState {
    /// Sequence number of the last packet that was forwarded.
    pub last_sequence_number: Option<u16>,
    /// Packets counted since the last rate report.
    pub packets: u64,
}

/// The payload of a datagram with the given RTP header: what lies between
/// the header and the padding.
pub open spec fn payload_of(datagram: Seq<u8>, header: RtpHeader) -> Seq<u8> {
    datagram.subrange(
        header.payload_offset as int,
        datagram.len() - padding_len(header.padding),
    )
}

/// The receiver's answer to a datagram that holds an RTP packet with the
/// given header, and what it remembers afterwards. `report_due` says that a
/// second or more has passed since the last rate report: the receiver then
/// reports the packets counted so far and counts anew, without this one.
pub open spec fn on_packet(
    state: ReceiverState,
    datagram: Seq<u8>,
    header: RtpHeader,
    report_due: bool,
) -> (ReceiverState, ReceiverStep) {
    let payload = payload_of(datagram, header);
    (
        ReceiverState {
            last_sequence_number: Some(header.sequence_number),
            packets: if report_due {
                0
            } else if state.packets < u64::MAX {
                (state.packets + 1) as u64
            } else {
                state.packets
            },
        },
        ReceiverStep::Forward {
            payload,
            check: check_sequence(state.last_sequence_number, header.sequence_number),
            rate: if report_due {
                Some(RateReport { packets: state.packets, payload_size: payload.len() as usize })
            } else {
                None
            },
        },
    )
}

/// The header that `RtpReader` reads from a datagram that it accepts.
pub open spec fn rtp_header(datagram: Seq<u8>) -> RtpHeader {
    RtpHeader {
        payload_offset: rtp_payload_offset(datagram) as usize,
        padding: rtp_padding(datagram),
        sequence_number: rtp_sequence_number(datagram),
    }
}

/// The receiver's answer to a datagram, and what it remembers afterwards.
/// An empty datagram is passed over. One that holds no valid RTP packet
/// ends the loop with the error of the RTP reader. Any other is forwarded
/// without its header and padding.
pub open spec fn on_datagram(state: ReceiverState, datagram: Seq<u8>, report_due: bool) -> (
    ReceiverState,
    ReceiverStep,
) {
    if datagram.len() == 0 {
        (state, ReceiverStep::Ignore)
    } else if !rtp_header_valid(datagram) {
        (state, ReceiverStep::ExitMalformed(Fault::RtpReader))
    } else {
        on_packet(state, datagram, rtp_header(datagram), report_due)
    }
}

/// The decisions of the receiving side of one session.
pub struct Receiver {
    state: ReceiverState,
    started: bool,
}

impl Receiver {
    /// What the receiver remembers.
    pub closed spec fn state(&self) -> ReceiverState {
        self.state
    }

    /// Whether the receive loop has been started.
    pub closed spec fn started(&self) -> bool {
        self.started
    }

    /// A receiver that has seen no packet yet.
    pub fn new() -> (receiver: Self)
        ensures
            receiver.state() == (ReceiverState { last_sequence_number: None, packets: 0 }),
            !receiver.started(),
    {
        Receiver { state: ReceiverState { last_sequence_number: None, packets: 0 }, started: false }
    }

    /// Sequence number of the last packet that was forwarded.
    pub fn last_sequence_number(&self) -> (number: Option<u16>)
        ensures
            number == self.state().last_sequence_number,
    {
        self.state.last_sequence_number
    }

    /// Claims the receive loop. It can be started once.
    pub fn start(&mut self) -> (r: Result<(), SdpPlayerError>)
        ensures
            final(self).started(),
            final(self).state() == old(self).state(),
            r is Ok == !old(self).started(),
            r matches Err(e) ==> e@ == Fault::ReceiverAlreadystarted,
    {
        if self.started {
            Err(SdpPlayerError::ReceiverAlreadystarted)
        } else {
            self.started = true;
            Ok(())
        }
    }

    /// A datagram with the given RTP header has arrived.
    pub fn packet(&mut self, datagram: &[u8], header: &RtpHeader, report_due: bool) -> (action:
        ReceiverAction)
        requires
            header.payload_offset + padding_len(header.padding) <= datagram@.len(),
        ensures
            (final(self).state(), action@) == on_packet(
                old(self).state(),
                datagram@,
                *header,
                report_due,
            ),
            final(self).started() == old(self).started(),
    {
        let end: usize = match header.padding {
            Some(n) => datagram.len() - n as usize,
            None => datagram.len(),
        };
        let payload: Vec<u8> = slice_to_vec(slice_subrange(datagram, header.payload_offset, end));
        let check: SequenceCheck = sequence_check(
            self.state.last_sequence_number,
            header.sequence_number,
        );
        let rate: Option<RateReport> = if report_due {
            Some(RateReport { packets: self.state.packets, payload_size: payload.len() })
        } else {
            None
        };
        self.state.last_sequence_number = Some(header.sequence_number);
        if report_due {
            self.state.packets = 0;
        } else if self.state.packets < u64::MAX {
            self.state.packets = self.state.packets + 1;
        }
        ReceiverAction::Forward { payload, check, rate }
    }

    /// A datagram has arrived. `report_due` says that a second or more has
    /// passed since the last rate report.
    pub fn datagram(&mut self, datagram: &[u8], report_due: bool) -> (action: ReceiverAction)
        ensures
            (final(self).state(), action@) == on_datagram(old(self).state(), datagram@, report_due),
            final(self).started() == old(self).started(),
            action matches ReceiverAction::Exit(ExitReason::Malformed(e)) ==> e@
                == Fault::RtpReader,
            action matches ReceiverAction::Forward { payload, .. } ==> {
                &&& datagram@.len() >= 12
                &&& rtp_payload_offset(datagram@) + padding_len(rtp_padding(datagram@))
                    <= datagram@.len()
                &&& payload@.len() == datagram@.len() - rtp_payload_offset(datagram@)
                    - padding_len(rtp_padding(datagram@))
            },
            datagram@.len() > 0 && rtp_header_valid(datagram@) ==> rtp_payload_offset(datagram@)
                + padding_len(rtp_padding(datagram@)) <= datagram@.len(),
    {
        if datagram.len() == 0 {
            return ReceiverAction::Ignore;
        }
        match read_header(datagram) {
            Err(e) => ReceiverAction::Exit(ExitReason::Malformed(SdpPlayerError::RtpReaderError(e))),
            Ok(header) => self.packet(datagram, &header, report_due),
        }
    }

    /// The session was told to stop.
    pub fn stop(&self) -> (action: ReceiverAction)
        ensures
            action@ == ReceiverStep::ExitStopped,
    {
        ReceiverAction::Exit(ExitReason::Stopped)
    }

    /// Receiving from the socket failed.
    pub fn socket_failed(&self) -> (action: ReceiverAction)
        ensures
            action@ == ReceiverStep::ExitSocketFailed,
    {
        ReceiverAction::Exit(ExitReason::SocketFailed)
    }

    /// The playback side did not take a payload.
    pub fn forward_failed(&self) -> (action: ReceiverAction)
        ensures
            action@ == ReceiverStep::ExitForwardFailed,
    {
        ReceiverAction::Exit(ExitReason::ForwardFailed)
    }
}

} // verus!

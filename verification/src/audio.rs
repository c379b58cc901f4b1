//! The playback side of a session: the elastic buffer between the network
//! and the output device.
//!
//! The output device asks for a fixed number of samples at its own pace;
//! packets arrive whenever the network delivers them. [`PlaybackEngine`]
//! decides, event by event, what the caller has to do next: wait for another
//! packet, or hand a block of samples to the device. The caller owns the
//! device and the channel the packets come through.

use vstd::prelude::*;
use crate::descriptor::BitDepth;
use crate::pcm::{convert, decoded};

verus! {

/// What the engine holds, as plain values.
pub struct EngineModel {
    /// Encoding of the packets of this session.
    pub depth: BitDepth,
    /// Decoded samples not yet handed to the device, oldest first.
    pub buffered: Seq<i32>,
    /// Number of samples the device is waiting for, if it is waiting.
    pub demand: Option<nat>,
    /// Whether the source of packets has ended.
    pub closed: bool,
}

/// What the caller has to do after an event, as plain values.
pub enum ActionModel {
    /// Nothing: the device is not waiting.
    Idle,
    /// Wait for the next packet, or for the end of the packets.
    Receive,
    /// Hand these samples to the device and return from its callback.
    Write(Seq<i32>),
}

/// The smaller of two lengths.
pub open spec fn shorter(a: nat, b: nat) -> nat {
    if a <= b {
        a
    } else {
        b
    }
}

/// Answers a pending demand as soon as it can be answered: in full when
/// enough samples are buffered, with whatever is left when the packets have
/// ended.
pub open spec fn settle(m: EngineModel) -> (EngineModel, ActionModel) {
    match m.demand {
        None => (m, ActionModel::Idle),
        Some(n) => if m.buffered.len() >= n || m.closed {
            let k = shorter(n, m.buffered.len()) as int;
            (
                EngineModel { buffered: m.buffered.skip(k), demand: None, ..m },
                ActionModel::Write(m.buffered.take(k)),
            )
        } else {
            (m, ActionModel::Receive)
        },
    }
}

/// The device asks for `n` samples.
pub open spec fn on_demand(m: EngineModel, n: nat) -> (EngineModel, ActionModel) {
    settle(EngineModel { demand: Some(n), ..m })
}

/// A packet has arrived.
pub open spec fn on_packet(m: EngineModel, payload: Seq<u8>) -> (EngineModel, ActionModel) {
    settle(EngineModel { buffered: m.buffered + decoded(m.depth, payload), ..m })
}

/// The packets have ended.
pub open spec fn on_closed(m: EngineModel) -> (EngineModel, ActionModel) {
    settle(EngineModel { closed: true, ..m })
}

/// All samples of a run of packets, in arrival order.
pub open spec fn decoded_all(depth: BitDepth, packets: Seq<Seq<u8>>) -> Seq<i32>
    decreases packets.len(),
{
    if packets.len() == 0 {
        Seq::empty()
    } else {
        decoded(depth, packets[0]) + decoded_all(depth, packets.skip(1))
    }
}

/// Everything the device can still get: what is buffered, then what the
/// packets on their way will decode to.
pub open spec fn stream(m: EngineModel, pending: Seq<Seq<u8>>) -> Seq<i32> {
    m.buffered + decoded_all(m.depth, pending)
}

/// How one invocation of the device's callback ends.
pub struct CallbackOutcome {
    /// The engine when the callback returns.
    pub engine: EngineModel,
    /// The packets that have not been received yet.
    pub pending: Seq<Seq<u8>>,
    /// The samples written to the device.
    pub block: Seq<i32>,
}

/// Carries out what the engine asks for until it asks for a write. Each
/// `Receive` is answered with the next packet of `pending`, or with the end
/// of the packets once `pending` is used up.
pub open spec fn receive_until_write(
    step: (EngineModel, ActionModel),
    pending: Seq<Seq<u8>>,
) -> CallbackOutcome
    decreases pending.len(),
{
    match step.1 {
        ActionModel::Write(block) => CallbackOutcome { engine: step.0, pending, block },
        ActionModel::Idle => CallbackOutcome { engine: step.0, pending, block: Seq::empty() },
        ActionModel::Receive => if pending.len() == 0 {
            let end = on_closed(step.0);
            CallbackOutcome {
                engine: end.0,
                pending,
                block: match end.1 {
                    ActionModel::Write(block) => block,
                    _ => Seq::empty(),
                },
            }
        } else {
            receive_until_write(on_packet(step.0, pending[0]), pending.skip(1))
        },
    }
}

/// One invocation of the device's callback, asking for `n` samples, while
/// `pending` is what the channel will still deliver before it closes.
pub open spec fn callback(m: EngineModel, pending: Seq<Seq<u8>>, n: nat) -> CallbackOutcome {
    receive_until_write(on_demand(m, n), pending)
}

/// The blocks written by `count` invocations of the callback in a row, each
/// asking for `n` samples.
pub open spec fn written(m: EngineModel, pending: Seq<Seq<u8>>, n: nat, count: nat) -> Seq<
    Seq<i32>,
>
    decreases count,
{
    if count == 0 {
        Seq::empty()
    } else {
        let first = callback(m, pending, n);
        seq![first.block] + written(first.engine, first.pending, n, (count - 1) as nat)
    }
}

/// The engine after `count` invocations of the callback in a row.
pub open spec fn engine_after(
    m: EngineModel,
    pending: Seq<Seq<u8>>,
    n: nat,
    count: nat,
) -> EngineModel
    decreases count,
{
    if count == 0 {
        m
    } else {
        let first = callback(m, pending, n);
        engine_after(first.engine, first.pending, n, (count - 1) as nat)
    }
}

proof fn lemma_receive(m: EngineModel, pending: Seq<Seq<u8>>, n: nat)
    requires
        m.demand == Some(n),
        !m.closed,
        m.buffered.len() < n,
    ensures
        ({
            let s = stream(m, pending);
            let out = receive_until_write((m, ActionModel::Receive), pending);
            &&& out.engine.depth == m.depth
            &&& out.engine.demand is None
            &&& s.len() >= n ==> {
                &&& out.block == s.take(n as int)
                &&& stream(out.engine, out.pending) == s.skip(n as int)
                &&& !out.engine.closed
            }
            &&& s.len() < n ==> {
                &&& out.block == s
                &&& out.engine.buffered.len() == 0
                &&& out.pending.len() == 0
                &&& out.engine.closed
            }
        }),
    decreases pending.len(),
{
    let s = stream(m, pending);
    if pending.len() == 0 {
        assert(s =~= m.buffered);
        assert(m.buffered.take(m.buffered.len() as int) =~= m.buffered);
    } else {
        let rest = pending.skip(1);
        let grown = EngineModel { buffered: m.buffered + decoded(m.depth, pending[0]), ..m };
        assert(s =~= grown.buffered + decoded_all(m.depth, rest));
        if grown.buffered.len() >= n {
            reveal_with_fuel(receive_until_write, 2);
            let next = settle(grown);
            assert(s.take(n as int) =~= grown.buffered.take(n as int));
            assert(stream(next.0, rest) =~= s.skip(n as int));
        } else {
            lemma_receive(grown, rest, n);
        }
    }
}

/// While the engine asks for a packet only when it has fewer samples than
/// the device waits for, what is left in the buffer after a write is less
/// than the packet that made the write possible: the buffer never holds
/// more than what the device asks for and one packet.
pub proof fn lemma_leftover_is_less_than_a_packet(m: EngineModel, payload: Seq<u8>, n: nat)
    requires
        m.demand == Some(n),
        m.buffered.len() < n,
        !m.closed,
    ensures
        on_packet(m, payload).1 is Write ==> on_packet(m, payload).0.buffered.len() < decoded(
            m.depth,
            payload,
        ).len(),
        on_packet(m, payload).1 is Receive ==> on_packet(m, payload).0.buffered.len() < n,
        !(on_packet(m, payload).1 is Idle),
{
}

/// One callback hands over the next `n` samples of the stream, in order,
/// and leaves the rest of the stream as it is. When fewer than `n` samples
/// are left before the packets end, it hands over those and does not wait
/// for more.
pub proof fn lemma_callback(m: EngineModel, pending: Seq<Seq<u8>>, n: nat)
    requires
        !m.closed,
    ensures
        ({
            let s = stream(m, pending);
            let out = callback(m, pending, n);
            &&& out.engine.depth == m.depth
            &&& out.engine.demand is None
            &&& s.len() >= n ==> {
                &&& out.block == s.take(n as int)
                &&& stream(out.engine, out.pending) == s.skip(n as int)
                &&& !out.engine.closed
            }
            &&& s.len() < n ==> {
                &&& out.block == s
                &&& out.block.len() < n
                &&& out.engine.buffered.len() == 0
                &&& out.pending.len() == 0
                &&& out.engine.closed
            }
        }),
{
    let s = stream(m, pending);
    let asked = EngineModel { demand: Some(n), ..m };
    if m.buffered.len() >= n {
        assert(s.take(n as int) =~= m.buffered.take(n as int));
        assert(stream(settle(asked).0, pending) =~= s.skip(n as int));
    } else {
        assert(stream(asked, pending) == s);
        lemma_receive(asked, pending, n);
    }
}

proof fn lemma_written(m: EngineModel, pending: Seq<Seq<u8>>, n: nat, k: nat)
    requires
        !m.closed,
        n > 0,
        stream(m, pending).len() == k * n,
    ensures
        written(m, pending, n, k).len() == k,
        forall|i: int| 0 <= i < k ==> (#[trigger] written(m, pending, n, k)[i]).len() == n,
        written(m, pending, n, k).flatten() == stream(m, pending),
        engine_after(m, pending, n, k).buffered.len() == 0,
    decreases k,
{
    let s = stream(m, pending);
    if k == 0 {
        assert(s.len() == 0);
        assert(written(m, pending, n, k).flatten() =~= s);
    } else {
        assert(k * n >= n && (k - 1) * n == k * n - n) by (nonlinear_arith)
            requires
                k >= 1,
                n > 0,
        ;
        lemma_callback(m, pending, n);
        let first = callback(m, pending, n);
        let rest = written(first.engine, first.pending, n, (k - 1) as nat);
        lemma_written(first.engine, first.pending, n, (k - 1) as nat);
        let all = written(m, pending, n, k);
        assert(all == seq![first.block] + rest);
        assert(all.first() == first.block);
        assert(all.drop_first() =~= rest);
        assert(all.flatten() == first.block + rest.flatten());
        assert(s.take(n as int) + s.skip(n as int) =~= s);
        assert forall|i: int| 0 <= i < k implies (#[trigger] all[i]).len() == n by {
            if i > 0 {
                assert(all[i] == rest[i - 1]);
            }
        }
    }
}

/// Packets that decode to exactly `k` blocks of `n` samples are played in
/// exactly `k` callbacks: each writes `n` samples, the blocks one after
/// another are the decoded packets in the order of their arrival, and nothing is
/// left in the buffer.
pub proof fn lemma_whole_blocks(depth: BitDepth, packets: Seq<Seq<u8>>, n: nat, k: nat)
    requires
        n > 0,
        decoded_all(depth, packets).len() == k * n,
    ensures
        ({
            let fresh = EngineModel {
                depth,
                buffered: Seq::<i32>::empty(),
                demand: None,
                closed: false,
            };
            let blocks = written(fresh, packets, n, k);
            &&& blocks.len() == k
            &&& forall|i: int| 0 <= i < k ==> (#[trigger] blocks[i]).len() == n
            &&& blocks.flatten() == decoded_all(depth, packets)
            &&& engine_after(fresh, packets, n, k).buffered.len() == 0
        }),
{
    let fresh = EngineModel { depth, buffered: Seq::<i32>::empty(), demand: None, closed: false };
    assert(stream(fresh, packets) =~= decoded_all(depth, packets));
    lemma_written(fresh, packets, n, k);
}

/// When the packets end while the device waits for more samples than
/// there are, the callback still returns: it writes what is there, which is
/// less than was asked for.
pub proof fn lemma_partial_tail(m: EngineModel, pending: Seq<Seq<u8>>, n: nat)
    requires
        !m.closed,
        stream(m, pending).len() < n,
    ensures
        callback(m, pending, n).block == stream(m, pending),
        callback(m, pending, n).block.len() < n,
        callback(m, pending, n).engine.buffered.len() == 0,
{
    lemma_callback(m, pending, n);
}

/// Once the packets have ended the engine never asks to wait: whatever the
/// device asks for is answered at once, with at most what it asked for.
pub proof fn lemma_closed_never_waits(m: EngineModel, n: nat)
    requires
        m.closed,
    ensures
        on_demand(m, n).1 is Write,
        on_demand(m, n).1->Write_0 == m.buffered.take(shorter(n, m.buffered.len()) as int),
        on_closed(EngineModel { demand: Some(n), ..m }).1 is Write,
{
}

/// What the engine tells its caller to do.
#[derive(Debug, PartialEq)]
pub enum PlaybackAction {
    /// Nothing: the device is not waiting.
    Idle,
    /// Wait for the next packet, or for the end of the packets.
    Receive,
    /// Hand these samples to the device, and a copy to the level meter, and
    /// return from the device's callback. Fewer samples than the device
    /// asked for come only after the packets have ended; the rest of the
    /// device's buffer is then left as it is.
    Write(Vec<i32>),
}

impl View for PlaybackAction {
    type V = ActionModel;

    open spec fn view(&self) -> ActionModel {
        match self {
            PlaybackAction::Idle => ActionModel::Idle,
            PlaybackAction::Receive => ActionModel::Receive,
            PlaybackAction::Write(block) => ActionModel::Write(block@),
        }
    }
}

/// The accumulator of decoded samples between packet arrival and the
/// device's callback. Samples leave in the order they came.
pub struct ElasticBuffer {
    samples: Vec<i32>,
}

impl View for ElasticBuffer {
    type V = Seq<i32>;

    closed spec fn view(&self) -> Seq<i32> {
        self.samples@
    }
}

impl ElasticBuffer {
    pub fn new() -> (buffer: Self)
        ensures
            buffer@ == Seq::<i32>::empty(),
    {
        ElasticBuffer { samples: Vec::new() }
    }

    /// Number of samples waiting.
    pub fn len(&self) -> (n: usize)
        ensures
            n == self@.len(),
    {
        self.samples.len()
    }

    /// Appends the samples of one packet.
    pub fn extend(&mut self, samples: Vec<i32>)
        ensures
            final(self)@ == old(self)@ + samples@,
    {
        let mut samples = samples;
        self.samples.append(&mut samples);
    }

    /// Removes the oldest `n` samples, or all of them if there are fewer,
    /// and returns them.
    pub fn drain(&mut self, n: usize) -> (block: Vec<i32>)
        ensures
            block@ == old(self)@.take(shorter(n as nat, old(self)@.len()) as int),
            final(self)@ == old(self)@.skip(shorter(n as nat, old(self)@.len()) as int),
    {
        let k: usize = if n <= self.samples.len() {
            n
        } else {
            self.samples.len()
        };
        let mut block: Vec<i32> = self.samples.split_off(k);
        std::mem::swap(&mut self.samples, &mut block);
        block
    }
}

/// The decisions of the playback side of one session.
pub struct PlaybackEngine {
    depth: BitDepth,
    buffer: ElasticBuffer,
    demand: Option<usize>,
    closed: bool,
}

impl View for PlaybackEngine {
    type V = EngineModel;

    closed spec fn view(&self) -> EngineModel {
        EngineModel {
            depth: self.depth,
            buffered: self.buffer@,
            demand: match self.demand {
                Some(n) => Some(n as nat),
                None => None,
            },
            closed: self.closed,
        }
    }
}

impl PlaybackEngine {
    /// An engine with nothing buffered, for packets in the given encoding.
    pub fn new(depth: BitDepth) -> (engine: Self)
        ensures
            engine@ == (EngineModel {
                depth,
                buffered: Seq::<i32>::empty(),
                demand: None,
                closed: false,
            }),
    {
        PlaybackEngine { depth, buffer: ElasticBuffer::new(), demand: None, closed: false }
    }

    /// Number of samples waiting for the device.
    pub fn buffered(&self) -> (n: usize)
        ensures
            n == self@.buffered.len(),
    {
        self.buffer.len()
    }

    fn settle(&mut self) -> (action: PlaybackAction)
        ensures
            (final(self)@, action@) == settle(old(self)@),
    {
        match self.demand {
            None => PlaybackAction::Idle,
            Some(n) => {
                if self.buffer.len() >= n || self.closed {
                    let block: Vec<i32> = self.buffer.drain(n);
                    self.demand = None;
                    PlaybackAction::Write(block)
                } else {
                    PlaybackAction::Receive
                }
            },
        }
    }

    /// The device asks for `n` samples.
    pub fn demand(&mut self, n: usize) -> (action: PlaybackAction)
        ensures
            (final(self)@, action@) == on_demand(old(self)@, n as nat),
    {
        self.demand = Some(n);
        self.settle()
    }

    /// A packet has arrived.
    pub fn packet(&mut self, payload: &[u8]) -> (action: PlaybackAction)
        ensures
            (final(self)@, action@) == on_packet(old(self)@, payload@),
    {
        let samples: Vec<i32> = convert(self.depth, payload);
        self.buffer.extend(samples);
        self.settle()
    }

    /// The packets have ended.
    pub fn closed(&mut self) -> (action: PlaybackAction)
        ensures
            (final(self)@, action@) == on_closed(old(self)@),
    {
        self.closed = true;
        self.settle()
    }
}

/// What the loop between the receiver and the device's callback sees.
#[derive(Debug)]
pub enum BridgeEvent {
    /// The receiver has forwarded a payload.
    Packet(Vec<u8>),
    /// The receiver has ended.
    SourceClosed,
    /// The session was told to stop.
    Stop,
}

/// What that loop has to do.
#[derive(Debug)]
pub enum BridgeAction {
    /// Hand the payload on to the device's callback and go on.
    Forward(Vec<u8>),
    /// Leave the loop and close the channel to the callback, which then
    /// plays what it has and returns.
    Exit,
}

/// The decision of the loop between the receiver and the device's
/// callback: payloads are handed on untouched and in order, anything else
/// ends the loop.
pub fn bridge(event: BridgeEvent) -> (action: BridgeAction)
    ensures
        match event {
            BridgeEvent::Packet(payload) => action == BridgeAction::Forward(payload),
            BridgeEvent::SourceClosed => action is Exit,
            BridgeEvent::Stop => action is Exit,
        },
{
    match event {
        BridgeEvent::Packet(payload) => BridgeAction::Forward(payload),
        BridgeEvent::SourceClosed => BridgeAction::Exit,
        BridgeEvent::Stop => BridgeAction::Exit,
    }
}

/// How far a sample is from silence, as a number that grows with the
/// amplitude. For the integer encodings it is the absolute value of the
/// code. For the floating-point encoding it is the bit pattern without its
/// sign bit, which orders the absolute values of all numbers up to
/// infinity; a pattern that is not a number has no magnitude.
pub open spec fn magnitude(depth: BitDepth, code: i32) -> Option<u32> {
    if depth == BitDepth::FloatingPoint {
        let bits = if code >= 0 {
            code as int
        } else {
            code + 0x8000_0000
        };
        if bits > 0x7f80_0000 {
            None
        } else {
            Some(bits as u32)
        }
    } else if code >= 0 {
        Some(code as u32)
    } else {
        Some((-code) as u32)
    }
}

/// The larger of a peak and the magnitude of one more sample.
pub open spec fn louder(depth: BitDepth, peak: u32, code: i32) -> u32 {
    match magnitude(depth, code) {
        Some(m) => if m > peak {
            m
        } else {
            peak
        },
        None => peak,
    }
}

/// The peak after a block of samples.
pub open spec fn peak_over(depth: BitDepth, peak: u32, block: Seq<i32>) -> u32
    decreases block.len(),
{
    if block.len() == 0 {
        peak
    } else {
        louder(depth, peak_over(depth, peak, block.drop_last()), block.last())
    }
}

/// The peak after a block is no smaller than the peak before it and than
/// the magnitude of any sample of the block, and it is one of these.
pub proof fn lemma_peak_is_maximum(depth: BitDepth, peak: u32, block: Seq<i32>)
    ensures
        peak_over(depth, peak, block) >= peak,
        forall|i: int|
            0 <= i < block.len() && (#[trigger] magnitude(depth, block[i])) is Some
                ==> peak_over(depth, peak, block) >= magnitude(depth, block[i])->Some_0,
        peak_over(depth, peak, block) == peak || exists|i: int|
            0 <= i < block.len() && #[trigger] magnitude(depth, block[i]) == Some(
                peak_over(depth, peak, block),
            ),
    decreases block.len(),
{
    if block.len() > 0 {
        let front = block.drop_last();
        lemma_peak_is_maximum(depth, peak, front);
        let before = peak_over(depth, peak, front);
        let after = peak_over(depth, peak, block);
        assert forall|i: int|
            0 <= i < block.len() && (#[trigger] magnitude(depth, block[i])) is Some implies after
                >= magnitude(depth, block[i])->Some_0 by {
            if i < front.len() {
                assert(front[i] == block[i]);
            }
        }
        if after != peak {
            if after == before {
                let i = choose|i: int|
                    0 <= i < front.len() && #[trigger] magnitude(depth, front[i]) == Some(before);
                assert(front[i] == block[i]);
            } else {
                assert(magnitude(depth, block[block.len() - 1]) == Some(after));
            }
        }
    }
}

/// What the level meter reports once a second.
#[derive(Debug, Clone, Copy, PartialEq, Eq, Structural)]
pub struct MeterReport {
    /// The largest magnitude since the last report.
    pub peak: u32,
    /// Number of frames in the block that was just written.
    pub frames: usize,
    /// Duration of that block in milliseconds, rounded down.
    pub millis: u128,
}

/// What the meter reports for a block, if a report is due.
pub open spec fn report_of(
    depth: BitDepth,
    channels: u16,
    sample_rate: u32,
    peak: u32,
    block: Seq<i32>,
) -> MeterReport {
    let frames = block.len() / (channels as nat);
    MeterReport {
        peak: peak_over(depth, peak, block),
        frames: frames as usize,
        millis: (frames * 1000 / (sample_rate as nat)) as u128,
    }
}

/// The level meter: the peak of the blocks written to the device since the
/// last report.
pub struct LevelMeter {
    depth: BitDepth,
    channels: u16,
    sample_rate: u32,
    peak: u32,
}

impl LevelMeter {
    #[verifier::type_invariant]
    spec fn well_formed(self) -> bool {
        self.channels > 0 && self.sample_rate > 0
    }

    pub closed spec fn depth(&self) -> BitDepth {
        self.depth
    }

    pub closed spec fn channels(&self) -> u16 {
        self.channels
    }

    pub closed spec fn sample_rate(&self) -> u32 {
        self.sample_rate
    }

    /// The largest magnitude since the last report.
    pub closed spec fn peak(&self) -> u32 {
        self.peak
    }

    /// A meter for a stream with at least one channel and a sample rate
    /// above zero; `None` for any other.
    pub fn new(depth: BitDepth, channels: u16, sample_rate: u32) -> (meter: Option<Self>)
        ensures
            meter is Some == (channels > 0 && sample_rate > 0),
            meter matches Some(m) ==> m.depth() == depth && m.channels() == channels
                && m.sample_rate() == sample_rate && m.peak() == 0,
    {
        if channels > 0 && sample_rate > 0 {
            Some(LevelMeter { depth, channels, sample_rate, peak: 0 })
        } else {
            None
        }
    }

    /// Takes a block that was written to the device. `report_due` says that
    /// a second or more has passed since the last report: the meter then
    /// reports and starts over from silence.
    pub fn block(&mut self, block: &[i32], report_due: bool) -> (report: Option<MeterReport>)
        ensures
            final(self).depth() == old(self).depth(),
            final(self).channels() == old(self).channels(),
            final(self).sample_rate() == old(self).sample_rate(),
            report_due ==> final(self).peak() == 0 && report == Some(
                report_of(
                    old(self).depth(),
                    old(self).channels(),
                    old(self).sample_rate(),
                    old(self).peak(),
                    block@,
                ),
            ),
            !report_due ==> report is None && final(self).peak() == peak_over(
                old(self).depth(),
                old(self).peak(),
                block@,
            ),
    {
        proof {
            use_type_invariant(&*self);
        }
        let peak: u32 = peak_of(self.depth, self.peak, block);
        if report_due {
            let frames: usize = block.len() / (self.channels as usize);
            let millis: u128 = frames as u128 * 1000 / (self.sample_rate as u128);
            self.peak = 0;
            Some(MeterReport { peak, frames, millis })
        } else {
            self.peak = peak;
            None
        }
    }
}

fn magnitude_of(depth: BitDepth, code: i32) -> (m: Option<u32>)
    ensures
        m == magnitude(depth, code),
{
    if depth.floating_point() {
        let bits: i64 = if code >= 0 {
            code as i64
        } else {
            code as i64 + 0x8000_0000
        };
        if bits > 0x7f80_0000 {
            None
        } else {
            Some(bits as u32)
        }
    } else if code >= 0 {
        Some(code as u32)
    } else {
        Some((-(code as i64)) as u32)
    }
}

fn peak_of(depth: BitDepth, peak: u32, block: &[i32]) -> (p: u32)
    ensures
        p == peak_over(depth, peak, block@),
{
    let mut p: u32 = peak;
    let mut i: usize = 0;
    while i < block.len()
        invariant
            i <= block@.len(),
            p == peak_over(depth, peak, block@.take(i as int)),
        decreases block@.len() - i,
    {
        assert(block@.take(i + 1).drop_last() =~= block@.take(i as int));
        match magnitude_of(depth, block[i]) {
            Some(m) => {
                if m > p {
                    p = m;
                }
            },
            None => {},
        }
        i = i + 1;
    }
    assert(block@.take(block@.len() as int) =~= block@);
    p
}

} // verus!

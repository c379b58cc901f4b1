use sdplay_lib::audio::{
    bridge, BridgeAction, BridgeEvent, ElasticBuffer, LevelMeter, MeterReport, PlaybackAction,
    PlaybackEngine,
};
use sdplay_lib::BitDepth;

fn l16(samples: &[i16]) -> Vec<u8> {
    samples.iter().flat_map(|s| s.to_be_bytes()).collect()
}

/// Runs one callback of the device: asks for `n` samples and serves the
/// engine from `pending` until it writes.
fn callback(engine: &mut PlaybackEngine, pending: &mut Vec<Vec<u8>>, n: usize) -> Vec<i32> {
    let mut action = engine.demand(n);
    loop {
        match action {
            PlaybackAction::Write(block) => return block,
            PlaybackAction::Receive => {
                action = if pending.is_empty() {
                    engine.closed()
                } else {
                    let packet = pending.remove(0);
                    engine.packet(&packet)
                };
            }
            PlaybackAction::Idle => panic!("idle while the device waits"),
        }
    }
}

#[test]
fn whole_blocks_drain_the_buffer() {
    let n = 4;
    let k = 3;
    let samples: Vec<i16> = (1..=(n * k) as i16).collect();
    let mut pending: Vec<Vec<u8>> = vec![
        l16(&samples[0..5]),
        l16(&samples[5..5]),
        l16(&samples[5..6]),
        l16(&samples[6..12]),
    ];
    let mut engine = PlaybackEngine::new(BitDepth::L16);
    let mut written = Vec::new();
    for _ in 0..k {
        let block = callback(&mut engine, &mut pending, n);
        assert_eq!(block.len(), n);
        written.extend(block);
    }
    let expected: Vec<i32> = samples.iter().map(|s| *s as i32).collect();
    assert_eq!(written, expected);
    assert_eq!(engine.buffered(), 0);
    assert!(pending.is_empty());
}

#[test]
fn partial_tail_is_written_without_waiting() {
    let n = 8;
    let mut pending = vec![l16(&[1, 2, 3]), l16(&[4, 5, 6, 7])];
    let mut engine = PlaybackEngine::new(BitDepth::L16);
    let block = callback(&mut engine, &mut pending, n);
    assert_eq!(block, vec![1, 2, 3, 4, 5, 6, 7]);
    assert!(block.len() < n);
    assert_eq!(engine.buffered(), 0);
    assert_eq!(engine.demand(n), PlaybackAction::Write(vec![]));
}

#[test]
fn engine_waits_until_enough_is_buffered() {
    let mut engine = PlaybackEngine::new(BitDepth::L16);
    assert_eq!(engine.packet(&l16(&[1])), PlaybackAction::Idle);
    assert_eq!(engine.demand(3), PlaybackAction::Receive);
    assert_eq!(engine.packet(&l16(&[2])), PlaybackAction::Receive);
    assert_eq!(engine.packet(&[]), PlaybackAction::Receive);
    assert_eq!(engine.packet(&l16(&[3, 4, 5])), PlaybackAction::Write(vec![1, 2, 3]));
    assert_eq!(engine.buffered(), 2);
    assert_eq!(engine.packet(&l16(&[6])), PlaybackAction::Idle);
    assert_eq!(engine.demand(3), PlaybackAction::Write(vec![4, 5, 6]));
    assert_eq!(engine.demand(0), PlaybackAction::Write(vec![]));
}

#[test]
fn close_answers_a_pending_demand() {
    let mut engine = PlaybackEngine::new(BitDepth::L24);
    assert_eq!(engine.closed(), PlaybackAction::Idle);
    assert_eq!(engine.packet(&[0, 0, 1, 0, 0, 2]), PlaybackAction::Idle);
    assert_eq!(engine.demand(1), PlaybackAction::Write(vec![0x100]));
    assert_eq!(engine.demand(5), PlaybackAction::Write(vec![0x200]));
    let mut waiting = PlaybackEngine::new(BitDepth::L16);
    assert_eq!(waiting.demand(2), PlaybackAction::Receive);
    assert_eq!(waiting.closed(), PlaybackAction::Write(vec![]));
}

#[test]
fn elastic_buffer_is_first_in_first_out() {
    let mut buffer = ElasticBuffer::new();
    assert_eq!(buffer.len(), 0);
    buffer.extend(vec![1, 2, 3]);
    buffer.extend(vec![]);
    buffer.extend(vec![4, 5]);
    assert_eq!(buffer.len(), 5);
    assert_eq!(buffer.drain(2), vec![1, 2]);
    assert_eq!(buffer.drain(0), Vec::<i32>::new());
    assert_eq!(buffer.len(), 3);
    assert_eq!(buffer.drain(10), vec![3, 4, 5]);
    assert_eq!(buffer.len(), 0);
    assert_eq!(buffer.drain(1), Vec::<i32>::new());
}

#[test]
fn bridge_forwards_payloads_and_ends_otherwise() {
    assert!(matches!(
        bridge(BridgeEvent::Packet(vec![1, 2, 3])),
        BridgeAction::Forward(p) if p == vec![1, 2, 3]
    ));
    assert!(matches!(bridge(BridgeEvent::SourceClosed), BridgeAction::Exit));
    assert!(matches!(bridge(BridgeEvent::Stop), BridgeAction::Exit));
}

#[test]
fn meter_needs_channels_and_rate() {
    assert!(LevelMeter::new(BitDepth::L16, 0, 48000).is_none());
    assert!(LevelMeter::new(BitDepth::L16, 2, 0).is_none());
    assert!(LevelMeter::new(BitDepth::L16, 2, 48000).is_some());
}

#[test]
fn meter_reports_the_peak_and_starts_over() {
    let mut meter = LevelMeter::new(BitDepth::L16, 2, 48000).unwrap();
    assert_eq!(meter.block(&[1, -5, 3], false), None);
    assert_eq!(meter.block(&[2, 2], false), None);
    let block = vec![-4i32; 4320];
    assert_eq!(
        meter.block(&block, true),
        Some(MeterReport { peak: 5, frames: 2160, millis: 45 })
    );
    assert_eq!(
        meter.block(&[], true),
        Some(MeterReport { peak: 0, frames: 0, millis: 0 })
    );
    assert_eq!(
        meter.block(&[i32::MIN, 7, 7], true),
        Some(MeterReport { peak: 0x8000_0000, frames: 1, millis: 0 })
    );
}

#[test]
fn meter_level_in_decibels() {
    let mut meter = LevelMeter::new(BitDepth::L16, 1, 1000).unwrap();
    let report = meter.block(&[16384, -32767, 100], true).unwrap();
    assert_eq!(report.frames, 3);
    assert_eq!(report.millis, 3);
    let level = report.peak as f64 / BitDepth::L16.full_scale() as f64;
    assert_eq!(20.0 * level.log10(), 0.0);
}

#[test]
fn meter_orders_float_samples_by_absolute_value() {
    let mut meter = LevelMeter::new(BitDepth::FloatingPoint, 1, 48000).unwrap();
    let codes: Vec<i32> = [0.25f32, -0.75, 0.5, f32::NAN, -f32::NAN]
        .iter()
        .map(|v| v.to_bits() as i32)
        .collect();
    let report = meter.block(&codes, true).unwrap();
    assert_eq!(f32::from_bits(report.peak), 0.75);
    let report = meter.block(&[f32::NEG_INFINITY.to_bits() as i32], true).unwrap();
    assert_eq!(f32::from_bits(report.peak), f32::INFINITY);
    let report = meter.block(&[(-0.0f32).to_bits() as i32], true).unwrap();
    assert_eq!(report.peak, 0);
}

use wavesynth::bridge::VoiceBridge;
use wavesynth::envelope::{EnvelopeTiming, Stage};
use wavesynth::voice::KeyState;

const SAMPLE_RATE: f32 = 44100.0;

fn ticks(seconds: f32) -> u64 {
    (seconds * SAMPLE_RATE).round() as u64
}

fn scenario_envelope() -> EnvelopeTiming {
    EnvelopeTiming::new(ticks(0.3), ticks(0.4), ticks(0.5))
}

/// A host that plays voices at scripted gains (the last one repeating),
/// sums the gains, and remembers which voices it played.
struct ScriptedSynth {
    gains: Vec<f32>,
    next: usize,
    played: Vec<(u8, Stage)>,
}

impl ScriptedSynth {
    fn new(gains: &[f32]) -> ScriptedSynth {
        ScriptedSynth { gains: gains.to_vec(), next: 0, played: Vec::new() }
    }

    /// Plays one sample of `bridge` and returns the sum of the gains.
    fn play(&mut self, bridge: &mut VoiceBridge<f32>) -> f32 {
        let mut live: Vec<(KeyState<f32>, Stage)> = Vec::new();
        bridge.live_voices_into(&mut live);
        self.played.clear();
        let mut sum = 0.0;
        let mut gains = Vec::new();
        for (voice, stage) in live.iter() {
            let gain = self.gains[self.next.min(self.gains.len() - 1)];
            self.next += 1;
            sum += gain;
            self.played.push((voice.key, *stage));
            gains.push(gain);
        }
        bridge.record_tick(&gains);
        sum
    }
}

/// One sample in which every live voice gets `gain`.
fn run(bridge: &mut VoiceBridge<f32>, gain: f32) -> f32 {
    ScriptedSynth::new(&[gain]).play(bridge)
}

#[test]
fn stage_boundaries() {
    let e = EnvelopeTiming::new(10, 5, 8);
    assert_eq!(e.stage(0, false, 0), Stage::Attack);
    assert_eq!(e.stage(9, false, 0), Stage::Attack);
    assert_eq!(e.stage(10, false, 0), Stage::Decay);
    assert_eq!(e.stage(14, false, 0), Stage::Decay);
    assert_eq!(e.stage(15, false, 0), Stage::Sustain);
    assert_eq!(e.stage(u64::MAX, false, 0), Stage::Sustain);
    assert_eq!(e.stage(3, true, 7), Stage::Attack);
    assert_eq!(e.stage(3, true, 8), Stage::Finished);
    assert_eq!(e.stage(20, true, 100), Stage::Finished);
}

#[test]
fn zero_durations_skip_their_stage() {
    let e = EnvelopeTiming::new(0, 0, 0);
    assert_eq!(e.stage(0, false, 0), Stage::Sustain);
    assert_eq!(e.stage(0, true, 0), Stage::Finished);
}

#[test]
fn press_adds_a_voice() {
    let mut b = VoiceBridge::new(scenario_envelope(), 0.0f32);
    assert_eq!(b.len(), 0);
    b.on_event(true, 69, 100);
    assert_eq!(b.len(), 1);
    let v = b.voice(0);
    assert_eq!(v.key, 69);
    assert_eq!(v.velocity, 100);
    assert!(!v.is_released);
    assert_eq!(v.ticks_since_pressed, 0);
    assert_eq!(v.start_volume, 0.0);
    assert_eq!(v.last_volume, 0.0);
}

#[test]
fn release_of_unknown_key_is_a_no_op() {
    let mut b = VoiceBridge::new(scenario_envelope(), 0.0f32);
    b.on_event(false, 60, 64);
    assert_eq!(b.len(), 0);
    b.on_event(true, 61, 64);
    b.on_event(false, 60, 64);
    assert_eq!(b.len(), 1);
    assert_eq!(b.voice(0).key, 61);
    assert!(!b.voice(0).is_released);
}

#[test]
fn zero_velocity_press_counts_as_softest() {
    let mut b = VoiceBridge::new(scenario_envelope(), 0.0f32);
    b.on_event(true, 40, 0);
    assert_eq!(b.voice(0).velocity, 1);
}

#[test]
fn one_voice_per_key_in_press_order() {
    let mut b = VoiceBridge::new(scenario_envelope(), 0.0f32);
    b.on_event(true, 60, 10);
    b.on_event(true, 64, 20);
    b.on_event(true, 60, 30);
    b.on_event(true, 67, 40);
    assert_eq!(b.len(), 3);
    assert_eq!((b.voice(0).key, b.voice(0).velocity), (60, 30));
    assert_eq!((b.voice(1).key, b.voice(1).velocity), (64, 20));
    assert_eq!((b.voice(2).key, b.voice(2).velocity), (67, 40));
}

/// The voices the next sample will play, with their stages.
fn next_live(bridge: &VoiceBridge<f32>) -> Vec<(u8, Stage)> {
    let mut live: Vec<(KeyState<f32>, Stage)> = Vec::new();
    bridge.live_voices_into(&mut live);
    live.iter().map(|(v, s)| (v.key, *s)).collect()
}

#[test]
fn tick_records_gain_and_moves_the_right_clock() {
    let mut b = VoiceBridge::new(scenario_envelope(), 0.0f32);
    b.on_event(true, 60, 127);
    b.on_event(true, 62, 127);
    let mut live: Vec<(KeyState<f32>, Stage)> = Vec::new();
    b.live_voices_into(&mut live);
    assert_eq!(live[0].0.ticks_since_pressed, 1);
    assert_eq!(live[1].0.ticks_since_pressed, 1);
    let mut synth = ScriptedSynth::new(&[0.25, 0.5]);
    assert_eq!(synth.play(&mut b), 0.75);
    assert_eq!(synth.played, vec![(60, Stage::Attack), (62, Stage::Attack)]);
    assert_eq!(b.voice(0).last_volume, 0.25);
    assert_eq!(b.voice(1).last_volume, 0.5);
    assert_eq!(b.voice(0).ticks_since_pressed, 1);
    b.on_event(false, 62, 0);
    assert_eq!(b.voice(1).start_volume, 0.5);
    ScriptedSynth::new(&[0.3, 0.4]).play(&mut b);
    assert_eq!(b.voice(0).ticks_since_pressed, 2);
    assert_eq!(b.voice(1).ticks_since_pressed, 1);
    assert_eq!(b.voice(1).ticks_since_released, 1);
    assert_eq!(b.voice(1).last_volume, 0.4);
}

#[test]
fn retrigger_during_release_starts_from_last_gain() {
    let mut b = VoiceBridge::new(scenario_envelope(), 0.0f32);
    b.on_event(true, 69, 127);
    for _ in 0..100 {
        run(&mut b, 0.6);
    }
    b.on_event(false, 69, 0);
    assert_eq!(b.voice(0).start_volume, 0.6);
    for _ in 0..50 {
        run(&mut b, 0.45);
    }
    let mut synth = ScriptedSynth::new(&[0.4375]);
    synth.play(&mut b);
    assert_eq!(synth.played, vec![(69, Stage::Attack)]);
    assert!(b.voice(0).is_released);
    b.on_event(true, 69, 90);
    let v = b.voice(0);
    assert_eq!(b.len(), 1);
    assert_eq!(v.start_volume, 0.4375);
    assert_eq!(v.ticks_since_pressed, 0);
    assert!(!v.is_released);
    assert_eq!(v.velocity, 90);
}

#[test]
fn finished_release_drops_the_voice() {
    let mut b = VoiceBridge::new(EnvelopeTiming::new(2, 2, 3), 0.0f32);
    b.on_event(true, 50, 100);
    b.on_event(true, 52, 100);
    run(&mut b, 1.0);
    b.on_event(false, 50, 0);
    for released in 1..3u64 {
        let mut synth = ScriptedSynth::new(&[0.5]);
        synth.play(&mut b);
        assert_eq!(synth.played[0].0, 50);
        assert_eq!(b.voice(0).ticks_since_released, released);
    }
    // The release clock reaches 3 ticks in this sample: the voice is not
    // played and is gone after it.
    assert_eq!(next_live(&b), vec![(52, Stage::Sustain)]);
    let mut synth = ScriptedSynth::new(&[0.5]);
    assert_eq!(synth.play(&mut b), 0.5);
    assert_eq!(synth.played, vec![(52, Stage::Sustain)]);
    assert_eq!(b.len(), 1);
    assert_eq!(b.voice(0).key, 52);
    b.on_event(true, 50, 100);
    assert_eq!(b.voice(1).key, 50);
    assert_eq!(b.voice(1).start_volume, 0.0);
}

#[test]
fn adsr_scenario_at_forty_four_kilohertz() {
    let e = scenario_envelope();
    assert_eq!((e.attack, e.decay, e.release), (13230, 17640, 22050));
    let mut b = VoiceBridge::new(e, 0.0f32);
    b.on_event(true, 69, 127);
    assert_eq!(b.voice(0).start_volume, 0.0);
    // The first sample after the press plays one tick in.
    for _ in 1..13230 {
        assert_eq!(next_live(&b), vec![(69, Stage::Attack)]);
        run(&mut b, 0.5);
    }
    for _ in 0..17640 {
        assert_eq!(next_live(&b), vec![(69, Stage::Decay)]);
        run(&mut b, 0.9);
    }
    for _ in 0..1000 {
        assert_eq!(next_live(&b), vec![(69, Stage::Sustain)]);
        run(&mut b, 0.8);
    }
    b.on_event(false, 69, 0);
    assert_eq!(b.voice(0).start_volume, 0.8);
    for _ in 1..22050 {
        assert_eq!(next_live(&b), vec![(69, Stage::Sustain)]);
        run(&mut b, 0.1);
    }
    assert_eq!(b.voice(0).ticks_since_released, 22049);
    assert_eq!(next_live(&b), vec![]);
    assert_eq!(run(&mut b, 0.7), 0.0);
    assert_eq!(b.len(), 0);
}

#[test]
fn live_voices_skip_finished_ones_in_order() {
    let mut b = VoiceBridge::new(EnvelopeTiming::new(1, 1, 1), 0.0f32);
    b.on_event(true, 60, 100);
    b.on_event(true, 62, 100);
    b.on_event(true, 64, 100);
    run(&mut b, 0.5);
    b.on_event(false, 62, 0);
    let mut live = vec![(b.voice(0), Stage::Attack)];
    b.live_voices_into(&mut live);
    let keys: Vec<(u8, Stage)> = live.iter().map(|(v, s)| (v.key, *s)).collect();
    assert_eq!(keys, vec![(60, Stage::Sustain), (64, Stage::Sustain)]);
    assert_eq!(live[0].0.ticks_since_pressed, 2);
    assert_eq!(b.len(), 3);
    b.record_tick(&[0.1, 0.2]);
    assert_eq!(b.len(), 2);
    assert_eq!((b.voice(0).key, b.voice(0).last_volume), (60, 0.1));
    assert_eq!((b.voice(1).key, b.voice(1).last_volume), (64, 0.2));
    assert_eq!(b.voice(1).ticks_since_pressed, 2);
}

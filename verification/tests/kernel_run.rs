//! End-to-end runs of the kernel and the synthesizer facade.

use benihora::benihora::Benihora;
use benihora::fixed::FIX_ONE;
use benihora::glottis::TABLE_SIZE;
use benihora::noise::Noise;
use benihora::recorder::WaveformRecorder;
use benihora::resample::Resample;
use benihora::routine::{Event as RoutineEvent, Routine, Runtime, TongueIndex};
use benihora::synth::{Event, Synth};
use benihora::wiggle::Wiggle;

const HOST_48K: i64 = 3145728000;

/// One period of the glottal-flow integral for a tenseness in `[0, 1]`,
/// sampled for the kernel's waveform table. This is the parametric source
/// model, evaluated in floating point outside the verified core.
fn lf_integral_table(tenseness: f64) -> Vec<i64> {
    let rd = (3.0 * (1.0 - tenseness)).clamp(0.5, 2.7);
    let ra = -0.01 + 0.048 * rd;
    let rk = 0.224 + 0.118 * rd;
    let rg = (rk / 4.0) * (0.5 + 1.2 * rk) / (0.11 * rd - ra * (0.5 + 1.2 * rk));
    let tp = 1.0 / (2.0 * rg);
    let te = tp + tp * rk;
    let eps = 1.0 / ra;
    let shift = (-eps * (1.0 - te)).exp();
    let delta = 1.0 - shift;
    let rhs = ((1.0 / eps) * (shift - 1.0) + (1.0 - te) * shift) / delta;
    let lower = -(te - tp) / 2.0 + rhs;
    let upper = -lower;
    let omega = std::f64::consts::PI / tp;
    let s = (omega * te).sin();
    let y = -std::f64::consts::PI * s * upper / (tp * 2.0);
    let z = y.ln();
    let alpha = z / (tp / 2.0 - te);
    let e0 = -1.0 / (s * (alpha * te).exp());
    let a = 1.0 / (alpha * alpha + omega * omega);
    let b = 1.0 / eps;
    let c = 1.0 / delta;
    let d = e0 * (alpha * te).exp() * (alpha * (omega * te).sin() - omega * (omega * te).cos())
        / (alpha * alpha + omega * omega);
    let mut table = Vec::with_capacity(TABLE_SIZE);
    for i in 0..TABLE_SIZE {
        let t = i as f64 / TABLE_SIZE as f64;
        let v = if t <= te {
            e0 * (alpha * t).exp() * (alpha * (omega * t).sin() - omega * (omega * t).cos()) * a
        } else {
            (((-eps * (t - te)).exp() - 1.0) * b + shift * (t - te)) * c + d
        };
        let fixed = (v * 65536.0).round() as i64;
        table.push(fixed.clamp(-65536, 65536));
    }
    table
}

fn refresh_table(synth: &mut Synth) {
    let tenseness = match &synth.benihora {
        Some(b) => b.tenseness.new_tenseness as f64 / 65536.0,
        None => 0.6,
    };
    let table = lf_integral_table(tenseness);
    if let Some(b) = &mut synth.benihora {
        if b.benihora.glottis.table_stale {
            b.benihora.glottis.set_waveform_integral(&table);
        }
    }
}

#[test]
fn identity_resampling_passes_samples_through() {
    let mut r = Resample::new(HOST_48K, HOST_48K);
    for x in [0, 32768, -32768, 65536] {
        assert_eq!(r.steps_needed(), 1);
        let out = r.process(&vec![x]);
        assert_eq!(out, x);
    }
}

#[test]
fn upsampler_settles_on_constant_input() {
    // inner at 24 kHz, host at 48 kHz
    let mut r = Resample::new(HOST_48K / 2, HOST_48K);
    let c = 32768;
    let mut last = 0;
    for _ in 0..8 {
        let k = r.steps_needed();
        let samples = vec![c; k];
        last = r.process(&samples);
    }
    assert_eq!(last, c);
}

#[test]
fn downsampler_settles_near_constant_input() {
    // inner at 96 kHz, host at 48 kHz
    let mut r = Resample::new(2 * HOST_48K, HOST_48K);
    let c = 32768;
    let mut last = 0;
    for _ in 0..8 {
        let k = r.steps_needed();
        let samples = vec![c; k];
        last = r.process(&samples);
    }
    // box averaging of a constant recovers it within rounding
    assert!((last - c).abs() < 8);
}

#[test]
fn unity_sound_speed_uses_identity_resampling() {
    // at sound speed one and a 48 kHz host, the inner rate equals the host
    // rate, and a constant producer would pass straight through
    let b = Benihora::new(FIX_ONE, HOST_48K, FIX_ONE, 7, false);
    assert!(matches!(b.resample.algo, benihora::resample::Algo::Identity));
}

#[test]
fn seeded_runs_are_bit_identical() {
    let run = || -> Vec<i64> {
        let mut s = Synth::new();
        s.seed = 42;
        s.ensure_benihora(HOST_48K);
        refresh_table(&mut s);
        s.handle_event(0, &Event::NoteOn { note: 60, velocity: 39322 });
        let mut out = Vec::new();
        for i in 0..12000 {
            if i == 6000 {
                s.handle_event(0, &Event::NoteOff { note: 60 });
            }
            out.push(s.process(1));
            refresh_table(&mut s);
        }
        out
    };
    let a = run();
    let b = run();
    assert_eq!(a, b);
}

#[test]
fn voiced_note_produces_sound_within_bounds() {
    let mut s = Synth::new();
    s.ensure_benihora(HOST_48K);
    refresh_table(&mut s);
    s.handle_event(0, &Event::NoteOn { note: 60, velocity: 39322 });
    let mut energy: f64 = 0.0;
    let mut count = 0u64;
    for i in 0..24000 {
        let y = s.process(1);
        refresh_table(&mut s);
        // every output sample respects the hard limiter
        assert!(y >= -131072 && y <= 131072);
        if i >= 12000 {
            let v = y as f64 / 65536.0;
            energy += v * v;
            count += 1;
        }
    }
    let rms = (energy / count as f64).sqrt();
    assert!(rms > 0.0005, "rms too low: {rms}");
    assert!(rms < 1.0, "rms too high: {rms}");
}

/// Energy of `signal` in a band around `hz`, summed over narrow probes.
fn band_energy(signal: &[f64], rate: f64, lo: f64, hi: f64) -> f64 {
    let mut total = 0.0;
    let mut hz = lo;
    while hz <= hi {
        let w = 2.0 * std::f64::consts::PI * hz / rate;
        let coeff = 2.0 * w.cos();
        let (mut s0, mut s1, mut s2) = (0.0, 0.0, 0.0);
        for &x in signal {
            s0 = x + coeff * s1 - s2;
            s2 = s1;
            s1 = s0;
        }
        total += s1 * s1 + s2 * s2 - coeff * s1 * s2;
        hz += 20.0;
    }
    total
}

#[test]
fn steady_vowel_keeps_low_formant_energy_dominant() {
    // the default tongue is the open vowel: its first formant band should
    // carry far more energy than the band well above the formants
    let mut s = Synth::new();
    s.ensure_benihora(HOST_48K);
    refresh_table(&mut s);
    s.handle_event(0, &Event::NoteOn { note: 60, velocity: 39322 });
    let mut tail = Vec::new();
    for i in 0..48000 {
        let y = s.process(1);
        refresh_table(&mut s);
        if i >= 24000 {
            tail.push(y as f64 / 65536.0);
        }
    }
    let low = band_energy(&tail, 48000.0, 600.0, 1000.0);
    let high = band_energy(&tail, 48000.0, 4800.0, 5200.0);
    assert!(low > high, "formant band not dominant: {low} vs {high}");
}

#[test]
fn silence_decays_after_release() {
    let mut s = Synth::new();
    s.ensure_benihora(HOST_48K);
    refresh_table(&mut s);
    s.handle_event(0, &Event::NoteOn { note: 60, velocity: 39322 });
    for _ in 0..12000 {
        s.process(1);
        refresh_table(&mut s);
    }
    s.handle_event(12000, &Event::NoteOff { note: 60 });
    let mut y = 0;
    for _ in 0..48000 {
        y = s.process(1);
        refresh_table(&mut s);
    }
    // with the voice released and no excitation left, the output has decayed
    // to less than one ten-thousandth of full scale
    assert!(y.abs() <= 6, "still sounding: {y}");
}

#[test]
fn velum_routine_opens_and_closes_the_nose() {
    let mut s = Synth::new();
    s.ensure_benihora(HOST_48K);
    refresh_table(&mut s);
    let mut rt = Runtime::new();
    std::mem::swap(&mut rt, &mut s.routine_runtime);
    rt.push_routine(&Routine {
        name: "nasal".to_owned(),
        events: vec![
            (0, RoutineEvent::Velum { openness: 65536 }),
            (13107, RoutineEvent::Velum { openness: 0 }),
        ],
    });
    std::mem::swap(&mut rt, &mut s.routine_runtime);
    let mut widest = 0i64;
    for _ in 0..40000 {
        s.process(1);
        refresh_table(&mut s);
        let b = s.benihora.as_ref().expect("kernel missing");
        let velum = b.benihora.tract.current_diameter.nose[0];
        if velum > widest {
            widest = velum;
        }
    }
    // the velum overshot most of the way open before the closing event...
    assert!(widest > 19661, "velum never opened: {widest}");
    // ...and has settled shut again by the end
    let b = s.benihora.as_ref().expect("kernel missing");
    assert_eq!(b.benihora.tract.current_diameter.nose[0], 655);
}

#[test]
fn facade_keeps_last_note_priority() {
    let mut s = Synth::new();
    s.ensure_benihora(HOST_48K);
    s.handle_event(0, &Event::NoteOn { note: 60, velocity: 39322 });
    s.handle_event(10, &Event::NoteOn { note: 64, velocity: 39322 });
    s.handle_event(20, &Event::NoteOff { note: 60 });
    {
        let b = s.benihora.as_ref().expect("kernel missing");
        // the most recent held note keeps sounding, at about 329.63 Hz
        assert!(b.sound);
        assert_eq!(b.frequency.target_frequency, 21602460);
    }
    s.handle_event(30, &Event::NoteOff { note: 64 });
    let b = s.benihora.as_ref().expect("kernel missing");
    assert!(!b.sound);
    assert_eq!(s.note_off_time, 30);
}

#[test]
fn pitch_bend_scales_frequency_target() {
    let mut s = Synth::new();
    s.ensure_benihora(HOST_48K);
    s.handle_event(0, &Event::PitchBend { value: 65536 });
    match &s.benihora {
        Some(b) => assert_eq!(b.frequency.pitchbend, 131072),
        None => panic!("kernel missing"),
    }
}

#[test]
fn routine_events_drive_the_kernel() {
    let mut s = Synth::new();
    s.ensure_benihora(HOST_48K);
    refresh_table(&mut s);
    let mut rt = Runtime::new();
    std::mem::swap(&mut rt, &mut s.routine_runtime);
    rt.push_routine(&Routine {
        name: "drive".to_owned(),
        events: vec![
            (0, RoutineEvent::Velum { openness: 65536 }),
            (0, RoutineEvent::Pitch { value: 65536 }),
            (0, RoutineEvent::Sound { sound: true }),
            (
                0,
                RoutineEvent::Tongue {
                    index: TongueIndex::Index(1),
                    speed: Some(1310720),
                },
            ),
        ],
    });
    std::mem::swap(&mut rt, &mut s.routine_runtime);
    s.process(1);
    let b = s.benihora.as_ref().expect("kernel missing");
    // the velum target opened fully: 0.01 + 0.39
    assert_eq!(b.benihora.tract.target_diameter.nose[0], 26214);
    // a full-scale pitch event bends up one semitone (within the fit's cents)
    assert_eq!(b.frequency.pitchbend, 69276);
    assert!(b.sound);
    // the tongue chases preset one at the requested speed
    assert_eq!(b.tract.tongue_target, (1271398, 224789));
    assert_eq!(b.tract.speed, 1310720);
}

#[test]
fn noise_and_wiggle_are_seeded_and_bounded() {
    let mut n1 = Noise::new(9, HOST_48K, 32768000);
    let mut n2 = Noise::new(9, HOST_48K, 32768000);
    for _ in 0..200 {
        let a = n1.process();
        let b = n2.process();
        assert_eq!(a, b);
        assert!(a.abs() <= 524288);
    }
    let mut w1 = Wiggle::new(2, 655360, 5);
    let mut w2 = Wiggle::new(2, 655360, 5);
    for _ in 0..200 {
        let a = w1.process();
        let b = w2.process();
        assert_eq!(a, b);
        assert!(a.abs() <= 262144);
    }
}

#[test]
fn recorder_swaps_on_period_boundary() {
    let mut r = WaveformRecorder::new();
    r.record(0, 10);
    r.record(30000, 11);
    r.record(60000, 12);
    assert_eq!(r.get_waveform().len(), 0);
    // the phase wraps: the finished period becomes readable
    r.record(100, 13);
    assert_eq!(r.get_waveform().as_slice(), &[10, 11, 12]);
    r.record(30000, 14);
    assert_eq!(r.get_waveform().as_slice(), &[10, 11, 12]);
}

//! The monophonic note stack and note-to-frequency mapping.

use benihora::synth::note_frequency;
use benihora::voice::VoiceManager;

#[test]
fn last_note_priority() {
    let mut v = VoiceManager::new();
    assert_eq!(v.get_voice(), None);
    v.noteon(60);
    v.noteon(64);
    assert_eq!(v.get_voice(), Some(64));
    v.noteoff(60);
    // the most recently pressed held note stays active
    assert_eq!(v.get_voice(), Some(64));
    v.noteoff(64);
    assert_eq!(v.get_voice(), None);
}

#[test]
fn releasing_a_note_removes_every_copy() {
    let mut v = VoiceManager::new();
    v.noteon(60);
    v.noteon(62);
    v.noteon(60);
    v.noteoff(60);
    assert_eq!(v.get_voice(), Some(62));
    v.noteoff(62);
    assert_eq!(v.get_voice(), None);
}

#[test]
fn concert_pitch_and_e4() {
    // note 69 is concert pitch, 440 Hz exactly
    assert_eq!(note_frequency(69), 28835840);
    // note 64 is about 329.63 Hz
    assert_eq!(note_frequency(64), 21602460);
    let hz = note_frequency(64) as f64 / 65536.0;
    assert!((hz - 329.63).abs() < 0.01);
}

#[test]
fn octaves_double() {
    let a3 = note_frequency(57);
    let a4 = note_frequency(69);
    let a5 = note_frequency(81);
    assert_eq!(a4, 2 * a3);
    assert_eq!(a5, 2 * a4);
}

use vstoy::adsr::ADSR;
use vstoy::keyboard::{Note, NoteState};
use vstoy::ratio::Ratio;

fn config() -> ADSR {
    // attack 100 ticks, no decay, sustain 4/5, release 200 ticks
    ADSR::new(100, 0, Ratio { num: 8, den: 10 }, 200)
}

#[test]
fn attack_ramp_is_linear() {
    let adsr = config();
    let mut n = Note { state: NoteState::Attack, duration: 50, release_time: 0, freq: 440 };
    let g = adsr.sample(&mut n);
    assert_eq!(g, Ratio { num: 50, den: 100 });
    assert!(g.eq_frac(1, 2));
    assert_eq!(n.state, NoteState::Attack);
    assert_eq!(n.duration, 50);
}

#[test]
fn attack_end_passes_through_and_enters_decay() {
    let adsr = config();
    let mut n = Note { state: NoteState::Attack, duration: 100, release_time: 0, freq: 440 };
    let g = adsr.sample(&mut n);
    assert_eq!(g, Ratio { num: 1, den: 1 });
    assert_eq!(n.state, NoteState::Decay);
}

#[test]
fn zero_attack_skips_ramp() {
    let adsr = ADSR::new(0, 0, Ratio { num: 1, den: 1 }, 200);
    let mut n = Note { state: NoteState::Attack, duration: 0, release_time: 0, freq: 440 };
    let g = adsr.sample(&mut n);
    assert_eq!(g, Ratio { num: 1, den: 1 });
    assert_eq!(n.state, NoteState::Decay);
}

#[test]
fn fresh_voice_starts_silent_when_attack_is_nonzero() {
    let adsr = config();
    let mut n = Note { state: NoteState::Attack, duration: 0, release_time: 0, freq: 440 };
    let g = adsr.sample(&mut n);
    assert_eq!(g.num, 0);
    assert!(g.num <= g.den);
    assert!(g.eq_frac(0, 1));
}

#[test]
fn decay_is_instant_passthrough_to_sustain() {
    let adsr = config();
    let mut n = Note { state: NoteState::Decay, duration: 120, release_time: 0, freq: 440 };
    let g = adsr.sample(&mut n);
    assert_eq!(g, Ratio { num: 1, den: 1 });
    assert_eq!(n.state, NoteState::Sustain);
}

#[test]
fn sustain_holds_the_sustain_level() {
    let adsr = config();
    let mut n = Note { state: NoteState::Sustain, duration: 150, release_time: 0, freq: 440 };
    let g = adsr.sample(&mut n);
    assert_eq!(g, Ratio { num: 8, den: 10 });
    assert_eq!(n.state, NoteState::Sustain);
}

#[test]
fn release_fades_from_sustain_level_to_zero() {
    let adsr = config();
    // 100 ticks into a 200-tick release: half of the sustain level is left
    let mut n = Note { state: NoteState::Release, duration: 250, release_time: 150, freq: 440 };
    let g = adsr.sample(&mut n);
    assert_eq!(g, Ratio { num: 800, den: 2000 });
    assert!(g.eq_frac(2, 5));
    assert_eq!(n.state, NoteState::Release);
}

#[test]
fn release_linearity_at_half_and_at_end() {
    // attack 0, no decay, sustain 1, release 500 ticks
    let adsr = ADSR::new(0, 0, Ratio { num: 1, den: 1 }, 500);
    // the voice entered Release at elapsed 1000; sample 250 ticks later
    let mut n = Note { state: NoteState::Release, duration: 1250, release_time: 1000, freq: 440 };
    let g = adsr.sample(&mut n);
    assert!(g.eq_frac(1, 2));
    assert_eq!(n.state, NoteState::Release);
    // 500 ticks later the voice is done
    let mut done = Note { state: NoteState::Release, duration: 1500, release_time: 1000, freq: 440 };
    let g2 = adsr.sample(&mut done);
    assert!(g2.eq_frac(0, 1));
    assert_eq!(done.state, NoteState::Off);
}

#[test]
fn zero_release_ends_the_voice_at_once() {
    let adsr = ADSR::new(100, 0, Ratio { num: 8, den: 10 }, 0);
    let mut n = Note { state: NoteState::Release, duration: 42, release_time: 42, freq: 440 };
    let g = adsr.sample(&mut n);
    assert!(g.eq_frac(0, 1));
    assert_eq!(n.state, NoteState::Off);
}

#[test]
fn off_voice_stays_silent() {
    let adsr = config();
    let mut n = Note { state: NoteState::Off, duration: 900, release_time: 300, freq: 440 };
    let g = adsr.sample(&mut n);
    assert!(g.eq_frac(0, 1));
    assert_eq!(n.state, NoteState::Off);
}

#[test]
fn sample_only_changes_the_state() {
    let adsr = config();
    let mut n = Note { state: NoteState::Release, duration: 400, release_time: 150, freq: 440 };
    adsr.sample(&mut n);
    assert_eq!(n.duration, 400);
    assert_eq!(n.release_time, 150);
    assert_eq!(n.freq, 440);
    assert_eq!(n.state, NoteState::Off);
}

#[test]
fn default_adsr_has_no_attack_and_full_sustain() {
    let adsr = ADSR::default();
    assert_eq!(adsr.attack, 0);
    assert_eq!(adsr.decay, 0);
    assert_eq!(adsr.sustain, Ratio { num: 1, den: 1 });
    assert_eq!(adsr.release, 0);
    assert!(adsr.is_valid());
}

#[test]
fn validity_check_rejects_bad_configurations() {
    assert!(config().is_valid());
    // sustain above one
    assert!(!ADSR::new(0, 0, Ratio { num: 3, den: 2 }, 10).is_valid());
    // zero denominator
    assert!(!ADSR::new(0, 0, Ratio { num: 0, den: 0 }, 10).is_valid());
    // sustain denominator times release overflows
    assert!(!ADSR::new(0, 0, Ratio { num: 1, den: u64::MAX }, u64::MAX).is_valid());
}

#[test]
fn ratio_equality_is_exact() {
    let half = Ratio::new(2, 4);
    assert!(half.eq_frac(1, 2));
    assert!(half.eq_frac(3, 6));
    assert!(!half.eq_frac(2, 3));
    assert!(Ratio::new(0, 7).eq_frac(0, 1));
}

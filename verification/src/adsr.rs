use crate::keyboard::{triggered_note, Note, NoteState};
use crate::ratio::Ratio;
use vstd::prelude::*;

verus! {

/// Envelope configuration: attack, decay and release lengths in ticks,
/// and the sustain level as a gain fraction in [0, 1].
///
/// The configuration is built once at instrument initialization and is
/// read-only thereafter; one instance shapes every voice.
#[derive(Copy, Clone, Debug, PartialEq, Eq, Structural)]
pub struct ADSR {
    pub attack: u64,
    pub decay: u64,
    pub sustain: Ratio,
    pub release: u64,
}

impl Default for ADSR {
    /// No attack, no decay, full sustain, no release.
    fn default() -> (a: ADSR)
        ensures
            a == (ADSR { attack: 0, decay: 0, sustain: Ratio { num: 1, den: 1 }, release: 0 }),
    {
        ADSR { attack: 0, decay: 0, sustain: Ratio { num: 1, den: 1 }, release: 0 }
    }
}

impl ADSR {
    /// A valid configuration: the sustain level is a fraction in [0, 1]
    /// and release gains can be computed without overflow.
    pub open spec fn wf(self) -> bool {
        &&& self.sustain.wf()
        &&& self.sustain.le_one()
        &&& self.sustain.den * self.release <= u64::MAX
    }

    pub fn new(attack: u64, decay: u64, sustain: Ratio, release: u64) -> (a: ADSR)
        ensures
            a == (ADSR { attack, decay, sustain, release }),
    {
        ADSR { attack, decay, sustain, release }
    }

    /// Runtime check of `wf`, for callers outside verified code.
    pub fn is_valid(&self) -> (b: bool)
        ensures
            b == self.wf(),
    {
        proof {
            assert(self.sustain.den * self.release <= u64::MAX * u64::MAX) by (nonlinear_arith)
                requires
                    self.sustain.den <= u64::MAX,
                    self.release <= u64::MAX,
            ;
        }
        self.sustain.den > 0 && self.sustain.num <= self.sustain.den && (self.sustain.den
            as u128) * (self.release as u128) <= u64::MAX as u128
    }

    /// The gain `sample` yields for a voice in its current state.
    ///
    /// Attack ramps linearly from 0 to 1 over `attack` ticks; decay is an
    /// instant passthrough to sustain; sustain holds the sustain level;
    /// release fades linearly from the sustain level to 0 over `release`
    /// ticks, counted from the moment the release began; a silent voice
    /// contributes nothing. A zero-length attack or release skips its
    /// ramp entirely, so no gain ever divides by zero.
    pub open spec fn gain_spec(self, n: Note) -> Ratio {
        match n.state {
            NoteState::Attack => if n.duration < self.attack {
                Ratio { num: n.duration, den: self.attack }
            } else {
                Ratio { num: 1, den: 1 }
            },
            NoteState::Decay => Ratio { num: 1, den: 1 },
            NoteState::Sustain => self.sustain,
            NoteState::Release => {
                let progress = n.duration - n.release_time;
                if progress < self.release {
                    Ratio {
                        num: (self.sustain.num * (self.release - progress)) as u64,
                        den: (self.sustain.den * self.release) as u64,
                    }
                } else {
                    Ratio { num: 0, den: 1 }
                }
            },
            NoteState::Off => Ratio { num: 0, den: 1 },
        }
    }

    /// The state a voice is in after one `sample` call.
    ///
    /// `sample` owns every transition except the two the pool performs:
    /// entering `Attack` on note-on and `Release` on note-off.
    pub open spec fn next_state_spec(self, n: Note) -> NoteState {
        match n.state {
            NoteState::Attack => if n.duration < self.attack {
                NoteState::Attack
            } else {
                NoteState::Decay
            },
            NoteState::Decay => NoteState::Sustain,
            NoteState::Sustain => NoteState::Sustain,
            NoteState::Release => if n.duration - n.release_time < self.release {
                NoteState::Release
            } else {
                NoteState::Off
            },
            NoteState::Off => NoteState::Off,
        }
    }

    /// Shape one raw oscillator sample: return the gain the driver must
    /// multiply it by, and perform this call's phase transition on the
    /// voice. Only the phase changes; the timing fields and the bound
    /// frequency are left alone. The gain is always a well-formed
    /// fraction of at most one.
    pub fn sample(&self, note: &mut Note) -> (gain: Ratio)
        requires
            self.wf(),
            old(note).wf(),
        ensures
            gain == self.gain_spec(*old(note)),
            gain.wf(),
            gain.le_one(),
            final(note).state == self.next_state_spec(*old(note)),
            final(note).duration == old(note).duration,
            final(note).release_time == old(note).release_time,
            final(note).freq == old(note).freq,
            final(note).wf(),
    {
        match note.state {
            NoteState::Attack => {
                if note.duration < self.attack {
                    Ratio { num: note.duration, den: self.attack }
                } else {
                    note.state = NoteState::Decay;
                    Ratio { num: 1, den: 1 }
                }
            },
            NoteState::Decay => {
                note.state = NoteState::Sustain;
                Ratio { num: 1, den: 1 }
            },
            NoteState::Sustain => self.sustain,
            NoteState::Release => {
                let progress = note.duration - note.release_time;
                if progress < self.release {
                    proof {
                        assert(self.sustain.num * (self.release - progress) <= self.sustain.den
                            * self.release) by (nonlinear_arith)
                            requires
                                self.sustain.num <= self.sustain.den,
                                0 <= progress,
                                progress < self.release,
                        ;
                        assert(self.sustain.den * self.release <= u64::MAX);
                        assert(self.sustain.den * self.release >= 1) by (nonlinear_arith)
                            requires
                                self.sustain.den >= 1,
                                self.release >= 1,
                        ;
                    }
                    Ratio {
                        num: self.sustain.num * (self.release - progress),
                        den: self.sustain.den * self.release,
                    }
                } else {
                    note.state = NoteState::Off;
                    Ratio { num: 0, den: 1 }
                }
            },
            NoteState::Off => Ratio { num: 0, den: 1 },
        }
    }
}

/// Position of a stage in the one-way lifecycle
/// `Attack -> Decay -> Sustain -> Release -> Off`.
pub open spec fn stage_rank(s: NoteState) -> int {
    match s {
        NoteState::Attack => 0,
        NoteState::Decay => 1,
        NoteState::Sustain => 2,
        NoteState::Release => 3,
        NoteState::Off => 4,
    }
}

/// Within one note lifecycle the envelope only moves forward: sampling
/// never returns a voice to an earlier stage, and only a note-on can.
pub proof fn lemma_phases_move_forward(adsr: ADSR, n: Note)
    ensures
        stage_rank(adsr.next_state_spec(n)) >= stage_rank(n.state),
{
}

/// The first sample after a note-on never amplifies: for any frequency,
/// the gain of the freshly triggered voice is at most one, and it is
/// exactly zero unless the attack is instantaneous (an instantaneous
/// attack skips the ramp and passes the raw value through).
pub proof fn lemma_first_sample_after_note_on(adsr: ADSR, freq: u64)
    requires
        adsr.wf(),
    ensures
        ({
            let g = adsr.gain_spec(triggered_note(freq));
            &&& g.wf()
            &&& g.le_one()
            &&& (adsr.attack > 0 ==> g.is_frac(0, 1))
            &&& (adsr.attack == 0 ==> g == (Ratio { num: 1, den: 1 })
                && adsr.next_state_spec(triggered_note(freq)) == NoteState::Decay)
        }),
{
}

/// Release fades linearly: with a full sustain level, a voice that
/// entered `Release` p ticks ago is sampled with gain (release - p) /
/// release — half way through the release the gain is exactly one half —
/// and once p reaches `release` the gain is zero and the voice goes
/// `Off`.
pub proof fn lemma_release_linearity(adsr: ADSR, note: Note)
    requires
        adsr.wf(),
        note.wf(),
        note.state == NoteState::Release,
        adsr.sustain == (Ratio { num: 1, den: 1 }),
    ensures
        ({
            let p = note.duration - note.release_time;
            &&& (p < adsr.release ==> adsr.gain_spec(note).is_frac(
                adsr.release - p,
                adsr.release as int,
            ))
            &&& (p < adsr.release && p * 2 == adsr.release ==> adsr.gain_spec(note).is_frac(1, 2))
            &&& (p >= adsr.release ==> adsr.gain_spec(note).is_frac(0, 1)
                && adsr.next_state_spec(note) == NoteState::Off)
        }),
{
    let p = note.duration - note.release_time;
    if p < adsr.release {
        let g = adsr.gain_spec(note);
        assert(g.num == adsr.release - p && g.den == adsr.release);
        if p * 2 == adsr.release {
            assert(g.num * 2 == 1 * g.den);
        }
    }
}

} // verus!

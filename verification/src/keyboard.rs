use vstd::prelude::*;

verus! {

/// Envelope lifecycle stage of one voice.
///
/// Within one note lifecycle the stages move one way:
/// `Attack -> Decay -> Sustain`, then `Release` once a note-off arrives,
/// then `Off`. `Off` is terminal until a new note-on restarts the cycle.
#[derive(Copy, Clone, Debug, PartialEq, Eq, Structural)]
pub enum NoteState {
    Attack,
    Decay,
    Release,
    Sustain,
    Off,
}

/// Number of voice slots in a default keyboard.
pub const KEYBOARD_SIZE: usize = 32;

/// One voice slot: a tracked pitch together with its envelope timing.
///
/// `duration` counts ticks since the slot last entered `Attack`;
/// `release_time` records the value of `duration` at the moment `Release`
/// began (meaningful only in `Release`); `freq` is the bound frequency
/// key, with 0 meaning the slot was never assigned.
#[derive(Copy, Clone, Debug, PartialEq, Eq, Structural)]
pub struct Note {
    pub state: NoteState,
    pub duration: u64,
    pub release_time: u64,
    pub freq: u64,
}

impl Note {
    /// In `Release` the recorded release start never lies in the future.
    pub open spec fn wf(self) -> bool {
        self.state == NoteState::Release ==> self.release_time <= self.duration
    }
}

impl Default for Note {
    /// A silent, never-assigned slot.
    fn default() -> (n: Note)
        ensures
            n == silent_note(),
    {
        Note { state: NoteState::Off, duration: 0, release_time: 0, freq: 0 }
    }
}

/// The state of a slot that no note occupies.
pub open spec fn silent_note() -> Note {
    Note { state: NoteState::Off, duration: 0, release_time: 0, freq: 0 }
}

/// The state a slot takes when a note-on (re)binds it to `freq`.
pub open spec fn triggered_note(freq: u64) -> Note {
    Note { state: NoteState::Attack, duration: 0, release_time: 0, freq }
}

/// The state a slot takes when a note-off releases it: frequency and
/// elapsed time are kept, and the moment the release began is recorded.
pub open spec fn released_note(n: Note) -> Note {
    Note { state: NoteState::Release, release_time: n.duration, ..n }
}

/// The state a slot takes after `delta` ticks pass: an active slot's
/// elapsed time grows, a silent slot stays as it is.
pub open spec fn advanced_note(n: Note, delta: u64) -> Note {
    if n.state == NoteState::Off {
        n
    } else {
        Note { duration: (n.duration + delta) as u64, ..n }
    }
}

/// Whether a note event for `freq` acts on this slot: the slot is bound
/// to the frequency and still active. A note-on retriggers such a voice;
/// a note-off releases it. A dead slot whose `freq` field still holds a
/// stale value is never such a voice.
pub open spec fn voice_match(n: Note, freq: u64) -> bool {
    n.freq == freq && n.state != NoteState::Off
}

/// Index of the first active voice bound to `freq`, or -1 if none is.
pub open spec fn first_voice_slot(notes: Seq<Note>, freq: u64) -> int
    decreases notes.len(),
{
    if notes.len() == 0 {
        -1
    } else if voice_match(notes[0], freq) {
        0
    } else {
        let rest = first_voice_slot(notes.drop_first(), freq);
        if rest < 0 {
            -1
        } else {
            rest + 1
        }
    }
}

/// Index of the first free slot, or -1 if every slot is active.
pub open spec fn first_free_slot(notes: Seq<Note>) -> int
    decreases notes.len(),
{
    if notes.len() == 0 {
        -1
    } else if notes[0].state == NoteState::Off {
        0
    } else {
        let rest = first_free_slot(notes.drop_first());
        if rest < 0 {
            -1
        } else {
            rest + 1
        }
    }
}

/// The slot a note-on for `freq` takes, or -1 when the event is dropped:
/// an active voice already bound to the frequency wins over the first
/// free slot, so a repeated note-on retriggers its voice — even
/// mid-release — instead of sounding a duplicate at the same frequency.
pub open spec fn on_slot(notes: Seq<Note>, freq: u64) -> int {
    if first_voice_slot(notes, freq) >= 0 {
        first_voice_slot(notes, freq)
    } else {
        first_free_slot(notes)
    }
}

/// `first_voice_slot` yields -1 exactly when no active voice holds
/// `freq`; otherwise it yields the least such index.
pub proof fn lemma_first_voice_slot(notes: Seq<Note>, freq: u64)
    ensures
        first_voice_slot(notes, freq) < 0 ==> forall|i: int|
            0 <= i < notes.len() ==> !voice_match(notes[i], freq),
        first_voice_slot(notes, freq) >= 0 ==> {
            let j = first_voice_slot(notes, freq);
            &&& 0 <= j < notes.len()
            &&& voice_match(notes[j], freq)
            &&& forall|i: int| 0 <= i < j ==> !voice_match(notes[i], freq)
        },
    decreases notes.len(),
{
    if notes.len() == 0 {
    } else if voice_match(notes[0], freq) {
    } else {
        lemma_first_voice_slot(notes.drop_first(), freq);
        let rest = first_voice_slot(notes.drop_first(), freq);
        if rest < 0 {
            assert forall|i: int| 0 <= i < notes.len() implies !voice_match(notes[i], freq) by {
                if i >= 1 {
                    assert(notes[i] == notes.drop_first()[i - 1]);
                }
            }
        } else {
            assert(notes[rest + 1] == notes.drop_first()[rest]);
            assert forall|i: int| 0 <= i < rest + 1 implies !voice_match(notes[i], freq) by {
                if i >= 1 {
                    assert(notes[i] == notes.drop_first()[i - 1]);
                }
            }
        }
    }
}

/// The least index of an active voice bound to `freq` characterizes
/// `first_voice_slot`.
pub proof fn lemma_first_voice_slot_is(notes: Seq<Note>, freq: u64, j: int)
    requires
        0 <= j < notes.len(),
        voice_match(notes[j], freq),
        forall|i: int| 0 <= i < j ==> !voice_match(notes[i], freq),
    ensures
        first_voice_slot(notes, freq) == j,
    decreases notes.len(),
{
    if j == 0 {
    } else {
        assert(!voice_match(notes[0], freq));
        assert(notes.drop_first()[j - 1] == notes[j]);
        assert forall|i: int| 0 <= i < j - 1 implies !voice_match(notes.drop_first()[i], freq) by {
            assert(notes.drop_first()[i] == notes[i + 1]);
        }
        lemma_first_voice_slot_is(notes.drop_first(), freq, j - 1);
    }
}

/// `first_free_slot` yields -1 exactly when every slot is active;
/// otherwise it yields the least free index.
pub proof fn lemma_first_free_slot(notes: Seq<Note>)
    ensures
        first_free_slot(notes) < 0 ==> forall|i: int|
            0 <= i < notes.len() ==> notes[i].state != NoteState::Off,
        first_free_slot(notes) >= 0 ==> {
            let j = first_free_slot(notes);
            &&& 0 <= j < notes.len()
            &&& notes[j].state == NoteState::Off
            &&& forall|i: int| 0 <= i < j ==> notes[i].state != NoteState::Off
        },
    decreases notes.len(),
{
    if notes.len() == 0 {
    } else if notes[0].state == NoteState::Off {
    } else {
        lemma_first_free_slot(notes.drop_first());
        let rest = first_free_slot(notes.drop_first());
        if rest < 0 {
            assert forall|i: int| 0 <= i < notes.len() implies notes[i].state != NoteState::Off by {
                if i >= 1 {
                    assert(notes[i] == notes.drop_first()[i - 1]);
                }
            }
        } else {
            assert(notes[rest + 1] == notes.drop_first()[rest]);
            assert forall|i: int| 0 <= i < rest + 1 implies notes[i].state != NoteState::Off by {
                if i >= 1 {
                    assert(notes[i] == notes.drop_first()[i - 1]);
                }
            }
        }
    }
}

/// The least free index characterizes `first_free_slot`.
pub proof fn lemma_first_free_slot_is(notes: Seq<Note>, j: int)
    requires
        0 <= j < notes.len(),
        notes[j].state == NoteState::Off,
        forall|i: int| 0 <= i < j ==> notes[i].state != NoteState::Off,
    ensures
        first_free_slot(notes) == j,
    decreases notes.len(),
{
    if j == 0 {
    } else {
        assert(notes[0].state != NoteState::Off);
        assert(notes.drop_first()[j - 1] == notes[j]);
        assert forall|i: int| 0 <= i < j - 1 implies notes.drop_first()[i].state != NoteState::Off
            by {
            assert(notes.drop_first()[i] == notes[i + 1]);
        }
        lemma_first_free_slot_is(notes.drop_first(), j - 1);
    }
}

/// What the pool's slots look like after a note-on event for `freq`:
/// the slot `on_slot` picks is reset to the start of `Attack`; a pool
/// full of other voices drops the event.
pub open spec fn note_on_spec(notes: Seq<Note>, freq: u64) -> Seq<Note> {
    let j = on_slot(notes, freq);
    if j < 0 {
        notes
    } else {
        notes.update(j, triggered_note(freq))
    }
}

/// What the pool's slots look like after a note-off event for `freq`:
/// the first active voice bound to the frequency enters `Release`; when
/// there is none the event is a no-op.
pub open spec fn note_off_spec(notes: Seq<Note>, freq: u64) -> Seq<Note> {
    let j = first_voice_slot(notes, freq);
    if j < 0 {
        notes
    } else {
        notes.update(j, released_note(notes[j]))
    }
}

/// What the pool's slots look like after `delta` ticks pass.
pub open spec fn advance_spec(notes: Seq<Note>, delta: u64) -> Seq<Note> {
    notes.map(|i: int, n: Note| advanced_note(n, delta))
}

/// Retriggering: a note-on for a frequency that some active voice holds
/// resets the first such voice to the start of `Attack` — its elapsed
/// time returns to zero — rather than taking a second slot for the
/// frequency.
pub proof fn lemma_retrigger(notes: Seq<Note>, freq: u64)
    requires
        exists|i: int| 0 <= i < notes.len() && voice_match(notes[i], freq),
    ensures
        ({
            let j = first_voice_slot(notes, freq);
            &&& 0 <= j < notes.len()
            &&& note_on_spec(notes, freq) == notes.update(j, triggered_note(freq))
            &&& note_on_spec(notes, freq)[j].duration == 0
            &&& note_on_spec(notes, freq)[j].state == NoteState::Attack
        }),
{
    lemma_first_voice_slot(notes, freq);
    if first_voice_slot(notes, freq) < 0 {
        let w = choose|i: int| 0 <= i < notes.len() && voice_match(notes[i], freq);
        assert(!voice_match(notes[w], freq));
    }
}

/// A second note-on for a frequency, issued with no intervening
/// note-off, takes the same slot as the first and leaves the pool
/// exactly as the first left it.
pub proof fn lemma_retrigger_idempotent(notes: Seq<Note>, freq: u64)
    requires
        on_slot(notes, freq) >= 0,
    ensures
        on_slot(note_on_spec(notes, freq), freq) == on_slot(notes, freq),
        note_on_spec(note_on_spec(notes, freq), freq) == note_on_spec(notes, freq),
{
    let j = on_slot(notes, freq);
    let once = note_on_spec(notes, freq);
    lemma_first_voice_slot(notes, freq);
    lemma_first_free_slot(notes);
    assert(voice_match(once[j], freq));
    assert forall|i: int| 0 <= i < j implies !voice_match(once[i], freq) by {
        assert(once[i] == notes[i]);
    }
    lemma_first_voice_slot_is(once, freq, j);
    assert(note_on_spec(once, freq) =~= once);
}

/// When every slot is active with some other frequency, a note-on is
/// dropped: the pool does not change, and in particular no active voice
/// is overwritten.
pub proof fn lemma_full_pool_drops(notes: Seq<Note>, freq: u64)
    requires
        forall|i: int| 0 <= i < notes.len() ==> notes[i].state != NoteState::Off,
        forall|i: int| 0 <= i < notes.len() ==> notes[i].freq != freq,
    ensures
        note_on_spec(notes, freq) == notes,
{
    lemma_first_voice_slot(notes, freq);
    lemma_first_free_slot(notes);
}

/// A note-on never overwrites a slot that is active with another
/// frequency, no matter what the pool holds.
pub proof fn lemma_no_steal(notes: Seq<Note>, freq: u64)
    ensures
        forall|i: int|
            0 <= i < notes.len() && notes[i].state != NoteState::Off && notes[i].freq != freq
                ==> note_on_spec(notes, freq)[i] == notes[i],
{
    lemma_first_voice_slot(notes, freq);
    lemma_first_free_slot(notes);
    assert forall|i: int|
        0 <= i < notes.len() && notes[i].state != NoteState::Off && notes[i].freq != freq
            implies note_on_spec(notes, freq)[i] == notes[i] by {
        let j = on_slot(notes, freq);
        if j >= 0 {
            assert(voice_match(notes[j], freq) || notes[j].state == NoteState::Off);
            assert(i != j);
        }
    }
}

/// Every slot well-formed, so that each can be handed to the envelope.
pub open spec fn all_wf(notes: Seq<Note>) -> bool {
    forall|i: int| 0 <= i < notes.len() ==> notes[i].wf()
}

/// No two active voices hold the same non-zero frequency.
pub open spec fn unique_freqs(notes: Seq<Note>) -> bool {
    forall|i: int, j: int|
        0 <= i < j < notes.len() && notes[i].state != NoteState::Off && notes[j].state
            != NoteState::Off && notes[i].freq != 0 ==> notes[i].freq != notes[j].freq
}

/// The pool events keep every slot well-formed.
pub proof fn lemma_events_preserve_wf(notes: Seq<Note>, freq: u64, delta: u64)
    requires
        all_wf(notes),
    ensures
        all_wf(note_on_spec(notes, freq)),
        all_wf(note_off_spec(notes, freq)),
        (forall|i: int|
            0 <= i < notes.len() && notes[i].state != NoteState::Off ==> notes[i].duration + delta
                <= u64::MAX) ==> all_wf(advance_spec(notes, delta)),
{
    lemma_first_voice_slot(notes, freq);
    lemma_first_free_slot(notes);
    let on = note_on_spec(notes, freq);
    assert forall|i: int| 0 <= i < on.len() implies on[i].wf() by {
        let s = on_slot(notes, freq);
        if s >= 0 && i == s {
            assert(on[i] == triggered_note(freq));
        } else {
            assert(on[i] == notes[i]);
        }
    }
    let off = note_off_spec(notes, freq);
    assert forall|i: int| 0 <= i < off.len() implies off[i].wf() by {
        let j = first_voice_slot(notes, freq);
        if j >= 0 && i == j {
            assert(off[i] == released_note(notes[j]));
        } else {
            assert(off[i] == notes[i]);
        }
    }
    if forall|i: int|
        0 <= i < notes.len() && notes[i].state != NoteState::Off ==> notes[i].duration + delta
            <= u64::MAX {
        assert forall|i: int| 0 <= i < notes.len() implies advance_spec(notes, delta)[i].wf() by {
            assert(advance_spec(notes, delta)[i] == advanced_note(notes[i], delta));
            if notes[i].state != NoteState::Off {
                assert(notes[i].duration + delta <= u64::MAX);
            }
        }
    }
}

/// A note-on keeps non-zero frequencies unique among the active voices:
/// a frequency that already sounds is never copied into a second active
/// slot.
pub proof fn lemma_note_on_preserves_unique(notes: Seq<Note>, freq: u64)
    requires
        unique_freqs(notes),
    ensures
        unique_freqs(note_on_spec(notes, freq)),
{
    lemma_first_voice_slot(notes, freq);
    lemma_first_free_slot(notes);
    let s = on_slot(notes, freq);
    if s >= 0 {
        let result = note_on_spec(notes, freq);
        assert forall|k: int|
            0 <= k < notes.len() && k != s && freq != 0 && notes[k].state != NoteState::Off
                implies notes[k].freq != freq by {
            if first_voice_slot(notes, freq) >= 0 && k > s {
                assert(notes[s].freq != notes[k].freq);
            }
        }
        assert forall|i: int, j: int|
            0 <= i < j < result.len() && result[i].state != NoteState::Off && result[j].state
                != NoteState::Off && result[i].freq != 0 implies result[i].freq != result[j].freq
            by {
            if i == s {
                assert(result[j] == notes[j]);
            } else if j == s {
                assert(result[i] == notes[i]);
            } else {
                assert(result[i] == notes[i] && result[j] == notes[j]);
            }
        }
    }
}

/// Fixed-capacity pool of voice slots.
///
/// Created once with a fixed number of slots, all silent; mutated only by
/// note-on/note-off resolution and by the per-sample time advance. The
/// slot vector never grows or shrinks after construction: every method
/// keeps its length.
#[derive(Debug)]
pub struct Keyboard {
    pub notes: Vec<Note>,
}

impl Default for Keyboard {
    /// A keyboard with the default number of slots, all silent.
    fn default() -> (k: Keyboard)
        ensures
            k.notes@.len() == KEYBOARD_SIZE,
            forall|i: int| 0 <= i < k.notes@.len() ==> k.notes@[i] == silent_note(),
    {
        Keyboard::new(KEYBOARD_SIZE)
    }
}

impl Keyboard {
    /// A pool of `capacity` silent slots.
    pub fn new(capacity: usize) -> (k: Keyboard)
        ensures
            k.notes@.len() == capacity,
            forall|i: int| 0 <= i < k.notes@.len() ==> k.notes@[i] == silent_note(),
    {
        let mut notes: Vec<Note> = Vec::new();
        let mut i: usize = 0;
        while i < capacity
            invariant
                i <= capacity,
                notes@.len() == i,
                forall|j: int| 0 <= j < i ==> notes@[j] == silent_note(),
            decreases capacity - i,
        {
            notes.push(Note { state: NoteState::Off, duration: 0, release_time: 0, freq: 0 });
            i = i + 1;
        }
        Keyboard { notes }
    }

    /// Bind `freq` to the first active voice already holding it — which
    /// restarts that voice's attack — or else to the first free slot.
    /// When every slot is busy with another frequency the event is
    /// dropped and nothing changes.
    pub fn note_on(&mut self, freq: u64)
        ensures
            final(self).notes@ == note_on_spec(old(self).notes@, freq),
    {
        let n = self.notes.len();
        let mut i: usize = 0;
        while i < n
            invariant
                n == self.notes@.len(),
                i <= n,
                self.notes@ == old(self).notes@,
                forall|k: int| 0 <= k < i ==> !voice_match(self.notes@[k], freq),
            decreases n - i,
        {
            let slot = self.notes[i];
            if slot.freq == freq && slot.state != NoteState::Off {
                self.notes[i] = Note {
                    state: NoteState::Attack,
                    duration: 0,
                    release_time: 0,
                    freq,
                };
                proof {
                    lemma_first_voice_slot_is(old(self).notes@, freq, i as int);
                }
                return ;
            }
            i = i + 1;
        }
        let mut i: usize = 0;
        while i < n
            invariant
                n == self.notes@.len(),
                i <= n,
                self.notes@ == old(self).notes@,
                forall|k: int| 0 <= k < n ==> !voice_match(self.notes@[k], freq),
                forall|k: int| 0 <= k < i ==> self.notes@[k].state != NoteState::Off,
            decreases n - i,
        {
            let slot = self.notes[i];
            if slot.state == NoteState::Off {
                self.notes[i] = Note {
                    state: NoteState::Attack,
                    duration: 0,
                    release_time: 0,
                    freq,
                };
                proof {
                    lemma_first_voice_slot(old(self).notes@, freq);
                    lemma_first_free_slot_is(old(self).notes@, i as int);
                }
                return ;
            }
            i = i + 1;
        }
        proof {
            lemma_first_voice_slot(old(self).notes@, freq);
            lemma_first_free_slot(old(self).notes@);
        }
    }

    /// Release the first active voice bound to `freq`: record when the
    /// release began and enter `Release`. A note-off for a frequency with
    /// no active voice leaves the pool unchanged.
    pub fn note_off(&mut self, freq: u64)
        ensures
            final(self).notes@ == note_off_spec(old(self).notes@, freq),
            (forall|i: int|
                0 <= i < old(self).notes@.len() ==> !voice_match(old(self).notes@[i], freq))
                ==> final(self).notes@ == old(self).notes@,
    {
        let mut i: usize = 0;
        let n = self.notes.len();
        while i < n
            invariant
                n == self.notes@.len(),
                i <= n,
                self.notes@ == old(self).notes@,
                forall|k: int| 0 <= k < i ==> !voice_match(self.notes@[k], freq),
            decreases n - i,
        {
            let slot = self.notes[i];
            if slot.freq == freq && slot.state != NoteState::Off {
                self.notes[i] = Note {
                    state: NoteState::Release,
                    release_time: slot.duration,
                    ..slot
                };
                proof {
                    lemma_first_voice_slot_is(old(self).notes@, freq, i as int);
                }
                return ;
            }
            i = i + 1;
        }
        proof {
            lemma_first_voice_slot(old(self).notes@, freq);
        }
    }

    /// Let `delta` ticks pass: every active slot's elapsed time grows by
    /// `delta`, silent slots stay as they are.
    pub fn advance(&mut self, delta: u64)
        requires
            forall|i: int|
                0 <= i < old(self).notes@.len() && old(self).notes@[i].state != NoteState::Off
                    ==> old(self).notes@[i].duration + delta <= u64::MAX,
        ensures
            final(self).notes@ == advance_spec(old(self).notes@, delta),
    {
        let mut i: usize = 0;
        let n = self.notes.len();
        while i < n
            invariant
                n == self.notes@.len(),
                n == old(self).notes@.len(),
                i <= n,
                forall|k: int|
                    0 <= k < n && old(self).notes@[k].state != NoteState::Off ==> old(
                        self,
                    ).notes@[k].duration + delta <= u64::MAX,
                forall|k: int|
                    0 <= k < i ==> self.notes@[k] == advanced_note(old(self).notes@[k], delta),
                forall|k: int| i <= k < n ==> self.notes@[k] == old(self).notes@[k],
            decreases n - i,
        {
            let slot = self.notes[i];
            if slot.state != NoteState::Off {
                proof {
                    assert(self.notes@[i as int] == old(self).notes@[i as int]);
                }
                self.notes[i] = Note { duration: slot.duration + delta, ..slot };
            }
            i = i + 1;
        }
        proof {
            assert(self.notes@ =~= advance_spec(old(self).notes@, delta));
        }
    }
}

} // verus!

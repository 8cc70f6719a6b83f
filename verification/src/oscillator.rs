//! The voice: which pitch sounds, where its waveform stands, and what it renders.
//!
//! A voice is monophonic. It is either silent or sounds one pitch; a note-on
//! retunes it without touching the phase, and any note-off silences it and
//! rewinds the phase. Samples are rendered symbolically: a [`Sample`] names the
//! pitch and the phase that determine the value of the waveform, so that two
//! renderings can be compared exactly.

use vstd::prelude::*;

verus! {

/// The key whose pitch is the reference tone of 440 Hz.
pub const REFERENCE_KEY: u16 = 57;

/// The key a note event is addressed to.
#[derive(Clone, Copy, Debug, PartialEq, Eq, Structural)]
pub enum Key {
    /// One concrete key.
    Specific(u16),
    /// The wildcard: no key in particular.
    Unspecified,
}

/// An equal-tempered pitch, held as its distance in semitones from the
/// reference key.
///
/// It stands for the frequency `440 Hz * 2^(semitones / 12)`: twelve semitones
/// up double the frequency, twelve down halve it.
#[derive(Clone, Copy, Debug, PartialEq, Eq, Structural)]
pub struct Pitch {
    pub semitones: i32,
}

impl Pitch {
    /// The pitch of `key`: as many semitones away from the reference tone as
    /// `key` is from [`REFERENCE_KEY`].
    pub open spec fn of_key(key: u16) -> Pitch {
        Pitch { semitones: (key - REFERENCE_KEY) as i32 }
    }

    /// Computes the pitch of `key`.
    pub fn from_key(key: u16) -> (pitch: Pitch)
        ensures
            pitch == Pitch::of_key(key),
            pitch.semitones == key - 57,
    {
        let semitones: i32 = key as i32 - REFERENCE_KEY as i32;
        Pitch { semitones }
    }
}

/// One rendered sample, named by what determines its value.
#[derive(Clone, Copy, Debug, PartialEq, Eq, Structural)]
pub enum Sample {
    /// Exactly zero.
    Silence,
    /// The waveform of `pitch`, `phase` samples into its cycle of one second.
    Tone { pitch: Pitch, phase: u32 },
}

/// The mathematical state of a voice.
pub struct Voice {
    /// Samples per second.
    pub sample_rate: nat,
    /// The sounding pitch; `None` while the voice is silent.
    pub pitch: Option<Pitch>,
    /// The running sample counter, wrapped at the sample rate.
    pub phase: nat,
}

impl Voice {
    /// Well-formedness: the phase stays below the sample rate, and a silent
    /// voice is rewound.
    pub open spec fn wf(self) -> bool {
        &&& self.sample_rate > 0
        &&& self.phase < self.sample_rate
        &&& (self.pitch is None ==> self.phase == 0)
    }

    /// The voice right after activation.
    pub open spec fn silent(sample_rate: nat) -> Voice {
        Voice { sample_rate, pitch: None, phase: 0 }
    }

    /// Whether a note is held.
    pub open spec fn is_active(self) -> bool {
        self.pitch is Some
    }

    /// The voice after a note-on for `key`: retuned, phase kept. The wildcard
    /// changes nothing.
    pub open spec fn note_on(self, key: Key) -> Voice {
        match key {
            Key::Specific(k) => Voice { pitch: Some(Pitch::of_key(k)), ..self },
            Key::Unspecified => self,
        }
    }

    /// The voice after a note-off, whichever key it names: silent and rewound.
    pub open spec fn note_off(self) -> Voice {
        Voice { pitch: None, phase: 0, ..self }
    }

    /// The `i`-th sample this voice renders, counting from zero.
    pub open spec fn sample_at(self, i: nat) -> Sample {
        match self.pitch {
            None => Sample::Silence,
            Some(pitch) => Sample::Tone {
                pitch,
                phase: ((self.phase + i) % self.sample_rate) as u32,
            },
        }
    }

    /// The next `n` samples this voice renders.
    pub open spec fn render(self, n: nat) -> Seq<Sample> {
        Seq::new(n, |i: int| self.sample_at(i as nat))
    }

    /// The voice after rendering `n` samples: a sounding voice moves its phase
    /// on by `n`, wrapping at the sample rate; a silent one stays as it is.
    pub open spec fn advance(self, n: nat) -> Voice {
        if self.pitch is Some {
            Voice { phase: (self.phase + n) % self.sample_rate, ..self }
        } else {
            self
        }
    }

    /// Note events and rendering keep a well-formed voice well-formed.
    pub proof fn lemma_wf_preserved(self, key: Key, n: nat)
        requires
            self.wf(),
        ensures
            self.note_on(key).wf(),
            self.note_off().wf(),
            self.advance(n).wf(),
    {
        if self.pitch is Some {
            vstd::arithmetic::div_mod::lemma_mod_bound(
                (self.phase + n) as int,
                self.sample_rate as int,
            );
        }
    }

    /// The voice is a two-state machine. A note-on for a concrete key makes it
    /// sound, from silence or retuning a sounding voice with its phase kept; a
    /// note-off makes it silent, and is no change to a voice that was rewound
    /// and silent already.
    pub proof fn lemma_transitions(self, k: u16, key: Key)
        ensures
            self.note_on(Key::Specific(k)).is_active(),
            self.note_on(Key::Specific(k)).phase == self.phase,
            self.note_on(Key::Unspecified) == self,
            !self.note_off().is_active(),
            !self.is_active() && self.phase == 0 ==> self.note_off() == self,
            Voice::silent(self.sample_rate).note_on(key).note_off() == Voice::silent(
                self.sample_rate,
            ),
    {
    }

    /// A silent voice renders silence, however long the block, and rendering
    /// does not change it.
    pub proof fn lemma_silent_renders_silence(self, n: nat)
        requires
            !self.is_active(),
        ensures
            self.render(n).len() == n,
            forall|i: int| 0 <= i < n ==> self.render(n)[i] == Sample::Silence,
            self.advance(n) == self,
    {
    }

    /// A sounding voice renders its pitch at consecutive phases, starting at
    /// its own and wrapping at the sample rate.
    pub proof fn lemma_sounding_renders_tone(self, n: nat)
        requires
            self.wf(),
            self.is_active(),
        ensures
            self.render(n).len() == n,
            n > 0 ==> self.render(n)[0] == (Sample::Tone {
                pitch: self.pitch->0,
                phase: self.phase as u32,
            }),
            forall|i: int|
                0 <= i < n ==> self.render(n)[i] == (Sample::Tone {
                    pitch: self.pitch->0,
                    phase: ((self.phase + i) % (self.sample_rate as int)) as u32,
                }),
    {
        vstd::arithmetic::div_mod::lemma_small_mod(self.phase, self.sample_rate);
    }

    /// Rendering is continuous under splitting: `a` samples followed by `b`
    /// samples, with no note event in between, are the same samples and leave
    /// the same voice as `a + b` samples rendered at once.
    pub proof fn lemma_render_split(self, a: nat, b: nat)
        requires
            self.sample_rate > 0,
        ensures
            self.render(a + b) == self.render(a) + self.advance(a).render(b),
            self.advance(a + b) == self.advance(a).advance(b),
    {
        let m = self.sample_rate as int;
        let p = self.phase as int;
        assert forall|i: int| 0 <= i < b implies #[trigger] self.advance(a).sample_at(i as nat)
            == self.sample_at((a + i) as nat) by {
            vstd::arithmetic::div_mod::lemma_add_mod_noop_right(i, p + a, m);
        }
        assert((((p + a) % m) + b) % m == (p + a + b) % m) by {
            vstd::arithmetic::div_mod::lemma_add_mod_noop_right(b as int, p + a, m);
        }
        assert(self.render(a + b) =~= self.render(a) + self.advance(a).render(b));
    }
}

/// What the block scheduler asks of a voice. The sine voice below is the one
/// implementation; another waveform is another implementation of the same four
/// operations.
pub trait Oscillator: Send {
    /// The mathematical state of this voice.
    spec fn voice(&self) -> Voice;

    /// Takes a note-on. A concrete key retunes the voice and leaves the phase;
    /// the wildcard is ignored.
    fn handle_note_on(&mut self, key: Key)
        ensures
            final(self).voice() == old(self).voice().note_on(key),
            key matches Key::Specific(k) ==> final(self).voice() == (Voice {
                pitch: Some(Pitch::of_key(k)),
                ..old(self).voice()
            }),
            key is Unspecified ==> final(self).voice() == old(self).voice(),
    ;

    /// Takes a note-off. Whatever `key` says, the voice falls silent and its
    /// phase is rewound.
    fn handle_note_off(&mut self, key: Key)
        ensures
            final(self).voice() == old(self).voice().note_off(),
            final(self).voice().pitch is None,
            final(self).voice().phase == 0,
            final(self).voice().sample_rate == old(self).voice().sample_rate,
            !final(self).voice().is_active(),
    ;

    /// Fills both buffers, sample for sample alike, with what the voice
    /// renders next.
    fn process(&mut self, left: &mut [Sample], right: &mut [Sample])
        requires
            old(left)@.len() == old(right)@.len(),
        ensures
            final(left)@ == old(self).voice().render(old(left)@.len()),
            final(right)@ == final(left)@,
            final(self).voice() == old(self).voice().advance(old(left)@.len()),
    ;

    /// Whether a note is held, so that further rendering is needed.
    fn is_active(&self) -> (active: bool)
        ensures
            active == self.voice().is_active(),
    ;
}

/// A voice that renders a sine.
pub struct SineOscillator {
    sample_rate: u32,
    pitch: Option<Pitch>,
    phase: u32,
}

impl SineOscillator {
    #[verifier::type_invariant]
    spec fn inv(self) -> bool {
        &&& self.sample_rate > 0
        &&& self.phase < self.sample_rate
        &&& (self.pitch is None ==> self.phase == 0)
    }

    /// A silent voice for `sample_rate` samples per second.
    pub fn new(sample_rate: u32) -> (osc: Self)
        requires
            sample_rate > 0,
        ensures
            osc.voice() == Voice::silent(sample_rate as nat),
            osc.voice().wf(),
    {
        Self { sample_rate, pitch: None, phase: 0 }
    }

    /// Samples per second, as fixed at construction.
    pub fn sample_rate(&self) -> (rate: u32)
        ensures
            rate == self.voice().sample_rate,
            rate > 0,
    {
        proof {
            use_type_invariant(self);
        }
        self.sample_rate
    }

    /// The sounding pitch, or `None` while silent.
    pub fn pitch(&self) -> (pitch: Option<Pitch>)
        ensures
            pitch == self.voice().pitch,
    {
        self.pitch
    }

    /// The phase the next sample is rendered at.
    pub fn phase(&self) -> (phase: u32)
        ensures
            phase == self.voice().phase,
            self.voice().wf(),
    {
        proof {
            use_type_invariant(self);
        }
        self.phase
    }
}

impl Oscillator for SineOscillator {
    closed spec fn voice(&self) -> Voice {
        Voice {
            sample_rate: self.sample_rate as nat,
            pitch: self.pitch,
            phase: self.phase as nat,
        }
    }

    fn handle_note_on(&mut self, key: Key) {
        proof {
            use_type_invariant(&*self);
        }
        match key {
            Key::Specific(k) => {
                self.pitch = Some(Pitch::from_key(k));
            },
            Key::Unspecified => {},
        }
    }

    fn handle_note_off(&mut self, _key: Key) {
        proof {
            use_type_invariant(&*self);
        }
        self.phase = 0;
        self.pitch = None;
    }

    fn process(&mut self, left: &mut [Sample], right: &mut [Sample]) {
        proof {
            use_type_invariant(&*self);
        }
        let n = left.len();
        match self.pitch {
            None => {
                let mut i: usize = 0;
                while i < n
                    invariant
                        i <= n,
                        left@.len() == n,
                        right@.len() == n,
                        forall|j: int| 0 <= j < i ==> left@[j] == Sample::Silence,
                        forall|j: int| 0 <= j < i ==> right@[j] == Sample::Silence,
                    decreases n - i,
                {
                    left[i] = Sample::Silence;
                    right[i] = Sample::Silence;
                    i += 1;
                }
                assert(left@ =~= old(self).voice().render(n as nat));
                assert(right@ =~= left@);
            },
            Some(pitch) => {
                let mut i: usize = 0;
                proof {
                    vstd::arithmetic::div_mod::lemma_small_mod(
                        self.phase as nat,
                        self.sample_rate as nat,
                    );
                }
                while i < n
                    invariant
                        i <= n,
                        left@.len() == n,
                        right@.len() == n,
                        self.sample_rate == old(self).sample_rate,
                        self.sample_rate > 0,
                        self.pitch == Some(pitch),
                        old(self).pitch == Some(pitch),
                        self.phase == (old(self).phase + i) % (self.sample_rate as int),
                        forall|j: int|
                            0 <= j < i ==> left@[j] == old(self).voice().sample_at(j as nat),
                        forall|j: int| 0 <= j < i ==> right@[j] == left@[j],
                    decreases n - i,
                {
                    let sample = Sample::Tone { pitch, phase: self.phase };
                    left[i] = sample;
                    right[i] = sample;
                    proof {
                        vstd::arithmetic::div_mod::lemma_add_mod_noop_right(
                            1,
                            old(self).phase + i,
                            self.sample_rate as int,
                        );
                    }
                    self.phase = (self.phase + 1) % self.sample_rate;
                    i += 1;
                }
                assert(left@ =~= old(self).voice().render(n as nat));
                assert(right@ =~= left@);
            },
        }
    }

    fn is_active(&self) -> (active: bool) {
        self.pitch.is_some()
    }
}

} // verus!

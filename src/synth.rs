use vstd::prelude::*;
use vstd::string::StringExecFns;
use vstd::arithmetic::div_mod::{lemma_div_is_ordered, lemma_div_multiples_vanish};
use vstd::arithmetic::mul::lemma_mul_inequality;
use crate::catalog::ChooserTable;
use crate::event::NoteEvent;

verus! {

/// Full gain of an envelope or a voice.
pub const GAIN_FULL: u64 = 1000;

/// Longest attack, decay or release, in microseconds.
pub const MAX_SEGMENT_US: u64 = 60_000_000;

/// Number of MIDI pitches, and so of voice slots.
pub const PITCHES: usize = 128;

/// The sounds a voice can be played with.
#[derive(Clone, Copy, Debug, PartialEq, Eq, Structural)]
pub enum SynthSound {
    /// A triangle wave under an attack-decay-sustain-release envelope.
    AdsrTriangle,
}

/// The catalog of sounds, with the first selected.
pub fn make_synth_table() -> (r: ChooserTable<SynthSound>)
    ensures
        r.wf(),
        r.current_spec() == 0,
        r.choices_spec() == seq![SynthSound::AdsrTriangle],
        r.names_spec().len() == 1,
        r.names_spec()[0]@ == "ADSR Triangle"@,
{
    let names: Vec<String> = vec![String::from_str("ADSR Triangle")];
    let choices: Vec<SynthSound> = vec![SynthSound::AdsrTriangle];
    assert(choices@ =~= seq![SynthSound::AdsrTriangle]);
    ChooserTable::new(names, choices)
}

/// An attack-decay-sustain-release envelope. Times are microseconds since
/// the note began; gains run from 0 to `GAIN_FULL`.
#[derive(Clone, Copy, Debug, PartialEq, Eq, Structural)]
pub struct Adsr {
    pub attack: u64,
    pub decay: u64,
    pub sustain: u64,
    pub release: u64,
    /// When the note was released, if it was.
    pub released_at: Option<u64>,
}

pub proof fn lemma_scaled_le(a: nat, x: nat, d: nat)
    requires
        x <= d,
        0 < d,
    ensures
        a * x / d <= a,
{
    lemma_mul_inequality(x as int, d as int, a as int);
    assert(x * a == a * x) by (nonlinear_arith);
    assert(d * a == a * d) by (nonlinear_arith);
    lemma_div_is_ordered((a * x) as int, (a * d) as int, d as int);
    lemma_div_multiples_vanish(a as int, d as int);
}

impl Adsr {
    pub open spec fn wf(self) -> bool {
        &&& 0 < self.attack <= MAX_SEGMENT_US
        &&& 0 < self.decay <= MAX_SEGMENT_US
        &&& 0 < self.release <= MAX_SEGMENT_US
        &&& self.sustain <= GAIN_FULL
    }

    /// The gain while the note is held, `t` after it began.
    pub open spec fn held_level(self, t: nat) -> nat {
        if t < self.attack {
            ((GAIN_FULL * t) as nat) / (self.attack as nat)
        } else if t - self.attack < self.decay {
            (GAIN_FULL - ((GAIN_FULL - self.sustain) * (t - self.attack)) as nat / (self.decay as nat)) as nat
        } else {
            self.sustain as nat
        }
    }

    /// The gain at `t`, or `None` once the release has run out: the voice is
    /// then silent for good.
    pub open spec fn volume_spec(self, t: nat) -> Option<nat> {
        match self.released_at {
            Some(r) if t >= r => {
                let l = self.held_level(r as nat);
                let e = (t - r) as nat;
                if e >= self.release {
                    None
                } else {
                    Some((l - ((l * e) as nat) / (self.release as nat)) as nat)
                }
            },
            _ => Some(self.held_level(t)),
        }
    }

    /// The triangle voice's shape.
    pub fn triangle_shape() -> (r: Adsr)
        ensures
            r.wf(),
            r.released_at is None,
    {
        Adsr { attack: 20_000, decay: 80_000, sustain: 700, release: 250_000, released_at: None }
    }

    pub fn held(&self, t: u64) -> (r: u64)
        requires
            self.wf(),
        ensures
            r == self.held_level(t as nat),
            r <= GAIN_FULL,
    {
        if t < self.attack {
            proof {
                lemma_scaled_le(GAIN_FULL as nat, t as nat, self.attack as nat);
                assert(GAIN_FULL * t <= GAIN_FULL * MAX_SEGMENT_US) by (nonlinear_arith)
                    requires t <= MAX_SEGMENT_US;
            }
            GAIN_FULL * t / self.attack
        } else if t - self.attack < self.decay {
            let x = t - self.attack;
            let span = GAIN_FULL - self.sustain;
            proof {
                lemma_scaled_le(span as nat, x as nat, self.decay as nat);
                assert(span * x <= GAIN_FULL * MAX_SEGMENT_US) by (nonlinear_arith)
                    requires x <= MAX_SEGMENT_US, span <= GAIN_FULL;
            }
            GAIN_FULL - span * x / self.decay
        } else {
            self.sustain
        }
    }

    pub fn volume(&self, t: u64) -> (r: Option<u64>)
        requires
            self.wf(),
        ensures
            r matches Some(g) ==> self.volume_spec(t as nat) == Some(g as nat) && g <= GAIN_FULL,
            r is None <==> self.volume_spec(t as nat) is None,
    {
        match self.released_at {
            Some(rel) => {
                if t >= rel {
                    let l = self.held(rel);
                    let e = t - rel;
                    if e >= self.release {
                        None
                    } else {
                        proof {
                            lemma_scaled_le(l as nat, e as nat, self.release as nat);
                            assert(l * e <= GAIN_FULL * MAX_SEGMENT_US) by (nonlinear_arith)
                                requires e <= MAX_SEGMENT_US, l <= GAIN_FULL;
                        }
                        Some(l - l * e / self.release)
                    }
                } else {
                    Some(self.held(t))
                }
            },
            None => Some(self.held(t)),
        }
    }
}

/// An envelope falls silent only after a release, and exactly once its
/// release time has passed: a held note never leaves, and a released one
/// leaves at `released_at + release` and stays gone.
pub proof fn lemma_silent_iff_release_done(env: Adsr, t: nat)
    ensures
        env.volume_spec(t) is None <==> (env.released_at matches Some(r) && t >= r + env.release),
        env.released_at is None ==> env.volume_spec(t) is Some,
        env.volume_spec(t) is None ==> forall|u: nat| u >= t ==> #[trigger] env.volume_spec(u) is None,
{
}

/// One sounding note.
#[derive(Clone, Copy, Debug, PartialEq, Eq, Structural)]
pub struct Voice {
    /// Which note-on started this voice; no two note-ons share one.
    pub id: u64,
    /// Gain from the note's velocity, up to `GAIN_FULL`.
    pub amplitude: u64,
    /// When the note began, in microseconds on the engine's clock.
    pub onset: u64,
    pub envelope: Adsr,
}

pub open spec fn amplitude_of(velocity: u8) -> u64 {
    (if velocity >= 127 {
        GAIN_FULL as nat
    } else {
        ((velocity as nat * GAIN_FULL as nat) as nat) / 127
    }) as u64
}

pub fn velocity_to_amplitude(velocity: u8) -> (r: u64)
    ensures
        r == amplitude_of(velocity),
        r <= GAIN_FULL,
{
    if velocity >= 127 {
        GAIN_FULL
    } else {
        proof {
            lemma_scaled_le(GAIN_FULL as nat, velocity as nat, 127);
            assert(velocity as nat * GAIN_FULL as nat == GAIN_FULL as nat * velocity as nat)
                by (nonlinear_arith);
        }
        (velocity as u64) * GAIN_FULL / 127
    }
}

/// The slots after a note-on of `pitch` at `now` that is given `id`.
pub open spec fn after_note_on(
    voices: Seq<Option<Voice>>,
    pitch: u8,
    velocity: u8,
    now: u64,
    shape: Adsr,
    id: u64,
) -> Seq<Option<Voice>> {
    if pitch < PITCHES {
        voices.update(
            pitch as int,
            Some(
                Voice {
                    id,
                    amplitude: amplitude_of(velocity),
                    onset: now,
                    envelope: Adsr { released_at: None, ..shape },
                },
            ),
        )
    } else {
        voices
    }
}

/// The slots after a note-off of `pitch` at `now`: a held voice there is
/// marked released, at its age on the clock (0 if the clock is behind it).
pub open spec fn after_note_off(voices: Seq<Option<Voice>>, pitch: u8, now: u64) -> Seq<
    Option<Voice>,
> {
    if pitch < PITCHES && (voices[pitch as int] matches Some(v) && v.envelope.released_at is None) {
        let v = voices[pitch as int]->0;
        voices.update(
            pitch as int,
            Some(
                Voice {
                    envelope: Adsr {
                        released_at: Some(
                            (if now >= v.onset {
                                now - v.onset
                            } else {
                                0
                            }) as u64,
                        ),
                        ..v.envelope
                    },
                    ..v
                },
            ),
        )
    } else {
        voices
    }
}

/// A voice's way through the registry: a note-on puts a held voice in its
/// slot under an id that no earlier note-on was given, and a held voice
/// never falls silent, so polling keeps it; a note-off marks it released
/// without taking it out; afterwards only a poll under its own id that finds
/// its release run out removes it (see `level`). A generator of an earlier
/// note of the same pitch polls under an older id, so it neither reads nor
/// removes the new voice, and an empty slot stays empty under polling.
pub proof fn lemma_voice_lifecycle(
    voices: Seq<Option<Voice>>,
    pitch: u8,
    velocity: u8,
    now: u64,
    shape: Adsr,
    next_id: u64,
    earlier: u64,
    t: nat,
)
    requires
        pitch < PITCHES,
        voices.len() == PITCHES,
        earlier < next_id,
    ensures
        after_note_on(voices, pitch, velocity, now, shape, next_id)[pitch as int] is Some,
        after_note_on(voices, pitch, velocity, now, shape, next_id)[pitch as int]->0.id != earlier,
        after_note_on(voices, pitch, velocity, now, shape, next_id)[pitch as int]->0.envelope.volume_spec(
            t,
        ) is Some,
        after_note_off(voices, pitch, now)[pitch as int] is Some <==> voices[pitch as int] is Some,
        after_note_off(voices, pitch, now)[pitch as int] matches Some(v) ==> v.envelope.released_at
            is Some && v.id == voices[pitch as int]->0.id,
{
}

/// The voices that are sounding, one slot per pitch.
pub struct VoiceRegistry {
    slots: Vec<Option<Voice>>,
    next_id: u64,
}

impl VoiceRegistry {
    pub closed spec fn voices(&self) -> Seq<Option<Voice>> {
        self.slots@
    }

    /// The id the next note-on will be given.
    pub closed spec fn next_id_spec(&self) -> u64 {
        self.next_id
    }

    pub open spec fn wf(&self) -> bool {
        &&& self.voices().len() == PITCHES
        &&& forall|p: int|
            0 <= p < PITCHES ==> (#[trigger] self.voices()[p] matches Some(v) ==> v.envelope.wf()
                && v.amplitude <= GAIN_FULL && v.id < self.next_id_spec())
    }

    pub fn new() -> (r: VoiceRegistry)
        ensures
            r.wf(),
            r.next_id_spec() == 0,
            forall|p: int| 0 <= p < PITCHES ==> #[trigger] r.voices()[p] is None,
    {
        let mut slots: Vec<Option<Voice>> = Vec::new();
        let mut i: usize = 0;
        while i < PITCHES
            invariant
                i <= PITCHES,
                slots@.len() == i,
                forall|p: int| 0 <= p < i ==> #[trigger] slots@[p] is None,
            decreases PITCHES - i,
        {
            slots.push(None);
            i = i + 1;
        }
        VoiceRegistry { slots, next_id: 0 }
    }

    pub fn next_id(&self) -> (r: u64)
        ensures
            r == self.next_id_spec(),
    {
        self.next_id
    }

    pub fn contains(&self, pitch: u8) -> (r: bool)
        requires
            self.wf(),
        ensures
            r == (pitch < PITCHES && self.voices()[pitch as int] is Some),
    {
        (pitch as usize) < PITCHES && self.slots[pitch as usize].is_some()
    }

    /// Whether the voice that note-on `id` started still sounds at `pitch`.
    pub fn contains_voice(&self, pitch: u8, id: u64) -> (r: bool)
        requires
            self.wf(),
        ensures
            r == (pitch < PITCHES && (self.voices()[pitch as int] matches Some(v) && v.id == id)),
    {
        if (pitch as usize) < PITCHES {
            match self.slots[pitch as usize] {
                Some(v) => v.id == id,
                None => false,
            }
        } else {
            false
        }
    }

    /// Starts a voice for `pitch` under a fresh id, which is returned,
    /// replacing one that was sounding there. A pitch outside the MIDI range
    /// is ignored and gives `None`.
    pub fn note_on(&mut self, pitch: u8, velocity: u8, now: u64, shape: Adsr) -> (r: Option<u64>)
        requires
            old(self).wf(),
            old(self).next_id_spec() < u64::MAX,
            shape.wf(),
        ensures
            final(self).wf(),
            final(self).voices() == after_note_on(
                old(self).voices(),
                pitch,
                velocity,
                now,
                shape,
                old(self).next_id_spec(),
            ),
            pitch < PITCHES ==> r == Some(old(self).next_id_spec()) && final(self).next_id_spec()
                == old(self).next_id_spec() + 1,
            pitch >= PITCHES ==> r is None && final(self).next_id_spec() == old(self).next_id_spec(),
    {
        if (pitch as usize) < PITCHES {
            let id = self.next_id;
            let v = Voice {
                id,
                amplitude: velocity_to_amplitude(velocity),
                onset: now,
                envelope: Adsr { released_at: None, ..shape },
            };
            self.slots.set(pitch as usize, Some(v));
            self.next_id = id + 1;
            Some(id)
        } else {
            None
        }
    }

    /// Starts the release of the voice for `pitch`; the voice keeps sounding
    /// while it fades. A voice already released, or no voice, is left alone.
    pub fn note_off(&mut self, pitch: u8, now: u64)
        requires
            old(self).wf(),
        ensures
            final(self).wf(),
            final(self).next_id_spec() == old(self).next_id_spec(),
            final(self).voices() == after_note_off(old(self).voices(), pitch, now),
    {
        if (pitch as usize) < PITCHES {
            if let Some(v) = self.slots[pitch as usize] {
                if v.envelope.released_at.is_none() {
                    let at = now.saturating_sub(v.onset);
                    let nv = Voice { envelope: Adsr { released_at: Some(at), ..v.envelope }, ..v };
                    self.slots.set(pitch as usize, Some(nv));
                }
            }
        }
    }

    /// Routes a note event: a note-on starts a voice (one of velocity 0
    /// starts a silent one) and returns its id; a note-off releases one.
    pub fn handle(&mut self, e: NoteEvent, now: u64, shape: Adsr) -> (r: Option<u64>)
        requires
            old(self).wf(),
            old(self).next_id_spec() < u64::MAX,
            shape.wf(),
        ensures
            final(self).wf(),
            e is NoteOn ==> final(self).voices() == after_note_on(
                old(self).voices(),
                e.pitch_spec(),
                e.velocity_spec(),
                now,
                shape,
                old(self).next_id_spec(),
            ) && (e.pitch_spec() < PITCHES ==> r == Some(old(self).next_id_spec())
                && final(self).next_id_spec() == old(self).next_id_spec() + 1),
            e is NoteOff ==> final(self).voices() == after_note_off(
                old(self).voices(),
                e.pitch_spec(),
                now,
            ) && final(self).next_id_spec() == old(self).next_id_spec(),
            (e is NoteOff || e.pitch_spec() >= PITCHES) ==> r is None,
    {
        match e {
            NoteEvent::NoteOn { pitch, velocity } => self.note_on(pitch, velocity, now, shape),
            NoteEvent::NoteOff { pitch, .. } => {
                self.note_off(pitch, now);
                None
            },
        }
    }

    /// The gain at `now` of the voice that note-on `id` started for `pitch`,
    /// scaled by its amplitude. Once its envelope has gone silent the voice
    /// is removed and gives 0; so does a voice that is gone or was replaced
    /// by a later note-on, which is left alone.
    pub fn level(&mut self, pitch: u8, id: u64, now: u64) -> (r: u64)
        requires
            old(self).wf(),
        ensures
            final(self).wf(),
            final(self).next_id_spec() == old(self).next_id_spec(),
            r <= GAIN_FULL,
            !(pitch < PITCHES && (old(self).voices()[pitch as int] matches Some(v) && v.id == id))
                ==> r == 0 && final(self).voices() == old(self).voices(),
            pitch < PITCHES && (old(self).voices()[pitch as int] matches Some(v) && v.id == id)
                ==> {
                let v = old(self).voices()[pitch as int]->0;
                let t = (if now >= v.onset {
                    now - v.onset
                } else {
                    0
                }) as nat;
                match v.envelope.volume_spec(t) {
                    Some(g) => r == ((v.amplitude * g) as nat) / (GAIN_FULL as nat)
                        && final(self).voices() == old(self).voices(),
                    None => r == 0 && final(self).voices() == old(self).voices().update(
                        pitch as int,
                        None,
                    ),
                }
            },
    {
        if (pitch as usize) >= PITCHES {
            return 0;
        }
        match self.slots[pitch as usize] {
            None => 0,
            Some(v) => {
                if v.id != id {
                    return 0;
                }
                let t = now.saturating_sub(v.onset);
                match v.envelope.volume(t) {
                    Some(g) => {
                        proof {
                            lemma_scaled_le(v.amplitude as nat, g as nat, GAIN_FULL as nat);
                            assert(v.amplitude * g <= GAIN_FULL * GAIN_FULL) by (nonlinear_arith)
                                requires v.amplitude <= GAIN_FULL, g <= GAIN_FULL;
                        }
                        v.amplitude * g / GAIN_FULL
                    },
                    None => {
                        self.slots.set(pitch as usize, None);
                        0
                    },
                }
            },
        }
    }
}


/// Fills an interleaved buffer of `channels` channels from stereo frames:
/// even channels take the left sample, odd ones the right. A last frame may
/// be cut short by the end of the buffer.
pub fn write_data<T: Copy>(output: &mut Vec<T>, channels: usize, frames: &Vec<(T, T)>)
    requires
        channels > 0,
        old(output)@.len() <= frames@.len() * channels,
    ensures
        final(output)@.len() == old(output)@.len(),
        forall|i: int|
            0 <= i < old(output)@.len() ==> #[trigger] final(output)@[i] == if (i % channels as int)
                % 2 == 0 {
                frames@[i / channels as int].0
            } else {
                frames@[i / channels as int].1
            },
{
    let n = output.len();
    let mut i: usize = 0;
    while i < n
        invariant
            channels > 0,
            n == output@.len(),
            n <= frames@.len() * channels,
            i <= n,
            forall|k: int|
                0 <= k < i ==> #[trigger] output@[k] == if (k % channels as int) % 2 == 0 {
                    frames@[k / channels as int].0
                } else {
                    frames@[k / channels as int].1
                },
        decreases n - i,
    {
        let f = i / channels;
        proof {
            assert(f < frames@.len()) by (nonlinear_arith)
                requires f == i / channels, i < frames@.len() * channels, channels > 0;
        }
        let c = i % channels;
        let s = if c % 2 == 0 { frames[f].0 } else { frames[f].1 };
        output.set(i, s);
        i = i + 1;
    }
}

} // verus!

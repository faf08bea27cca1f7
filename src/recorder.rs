use vstd::prelude::*;
use crate::event::NoteEvent;
use crate::melody::{Melody, MelodyEvent, total_duration, merged_rests, lemma_total_duration_push};

verus! {

/// The event that is still open: a sounding note, or the silence that
/// followed a release. Times are milliseconds on the recorder's clock.
#[derive(Clone, Copy, Debug, PartialEq, Eq, Structural)]
pub struct PendingNote {
    pub pitch: u8,
    pub velocity: u8,
    pub start: u64,
    pub sounding: bool,
}

impl PendingNote {
    pub open spec fn of_event(e: NoteEvent, now: u64) -> PendingNote {
        PendingNote {
            pitch: e.pitch_spec(),
            velocity: e.velocity_spec(),
            start: now,
            sounding: e.starts_sound(),
        }
    }

    pub fn new(e: NoteEvent, now: u64) -> (r: PendingNote)
        ensures
            r == PendingNote::of_event(e, now),
    {
        PendingNote { pitch: e.pitch(), velocity: e.velocity(), start: now, sounding: e.is_sounding() }
    }

    pub open spec fn is_rest(self) -> bool {
        !self.sounding
    }

    /// The melody event this pending note becomes when closed at `now`.
    pub open spec fn closed_at(self, now: u64) -> MelodyEvent
        recommends
            self.start <= now,
    {
        if self.sounding {
            MelodyEvent::Note {
                pitch: self.pitch,
                velocity: self.velocity,
                duration: (now - self.start) as u64,
            }
        } else {
            MelodyEvent::Rest { duration: (now - self.start) as u64 }
        }
    }

    pub fn close(&self, now: u64) -> (r: MelodyEvent)
        requires
            self.start <= now,
        ensures
            r == self.closed_at(now),
            r.duration_spec() == now - self.start,
    {
        if self.sounding {
            MelodyEvent::Note { pitch: self.pitch, velocity: self.velocity, duration: now - self.start }
        } else {
            MelodyEvent::Rest { duration: now - self.start }
        }
    }
}

/// The events a recorder has closed after taking the timed events `evs` in
/// turn: each event stays open until the next one arrives.
pub open spec fn closed_events(evs: Seq<(NoteEvent, u64)>) -> Seq<MelodyEvent>
    decreases evs.len(),
{
    if evs.len() <= 1 {
        Seq::empty()
    } else {
        let prev = evs[evs.len() - 2];
        closed_events(evs.drop_last()).push(
            PendingNote::of_event(prev.0, prev.1).closed_at(evs.last().1),
        )
    }
}

pub open spec fn times_ordered(evs: Seq<(NoteEvent, u64)>) -> bool {
    forall|i: int, j: int| 0 <= i <= j < evs.len() ==> #[trigger] evs[i].1 <= #[trigger] evs[j].1
}

/// A phrase covers its time exactly: for timed events in order, followed by
/// the end of the phrase at `now`, the events closed along the way and the
/// last one, closed at `now`, last as long together as the time from the
/// first event to `now`.
pub proof fn lemma_phrase_spans_events(evs: Seq<(NoteEvent, u64)>, now: u64)
    requires
        evs.len() >= 1,
        times_ordered(evs),
        evs.last().1 <= now,
    ensures
        total_duration(
            closed_events(evs).push(
                PendingNote::of_event(evs.last().0, evs.last().1).closed_at(now),
            ),
        ) == now - evs[0].1,
    decreases evs.len(),
{
    let last = PendingNote::of_event(evs.last().0, evs.last().1).closed_at(now);
    lemma_total_duration_push(closed_events(evs), last);
    if evs.len() > 1 {
        let init = evs.drop_last();
        assert(times_ordered(init));
        assert(init.last() == evs[evs.len() - 2]);
        assert(evs[evs.len() - 2].1 <= evs.last().1);
        lemma_phrase_spans_events(init, evs.last().1);
    }
}

/// Turns a stream of timed note events into phrases. A phrase ends when a
/// silence has lasted longer than the threshold.
pub struct PhraseRecorder {
    waiting: Option<PendingNote>,
    melody: Melody,
    started_at: u64,
}

impl PhraseRecorder {
    /// The open event, if any.
    pub closed spec fn pending(&self) -> Option<PendingNote> {
        self.waiting
    }

    /// The events of the phrase closed so far.
    pub closed spec fn recorded(&self) -> Seq<MelodyEvent> {
        self.melody@
    }

    /// When the first event of the phrase arrived.
    pub closed spec fn phrase_start(&self) -> u64 {
        self.started_at
    }

    /// The closed events cover the time from the first event of the phrase
    /// to the start of the open one.
    pub open spec fn wf(&self) -> bool {
        match self.pending() {
            Some(p) => self.phrase_start() <= p.start && total_duration(self.recorded())
                == p.start - self.phrase_start(),
            None => self.recorded().len() == 0,
        }
    }

    pub fn new() -> (r: PhraseRecorder)
        ensures
            r.wf(),
            r.pending() is None,
            r.recorded().len() == 0,
    {
        PhraseRecorder { waiting: None, melody: Melody::new(), started_at: 0 }
    }

    pub fn pending_note(&self) -> (r: Option<PendingNote>)
        ensures
            r == self.pending(),
    {
        self.waiting
    }

    /// Closes the open event, if any, and opens one for `e`.
    pub fn handle_incoming(&mut self, e: NoteEvent, now: u64)
        requires
            old(self).wf(),
            old(self).pending() matches Some(p) ==> p.start <= now,
        ensures
            final(self).wf(),
            final(self).pending() == Some(PendingNote::of_event(e, now)),
            match old(self).pending() {
                Some(p) => final(self).recorded() == old(self).recorded().push(p.closed_at(now))
                    && final(self).phrase_start() == old(self).phrase_start(),
                None => final(self).recorded().len() == 0 && final(self).phrase_start() == now,
            },
    {
        match self.waiting {
            Some(p) => {
                let ev = p.close(now);
                proof {
                    lemma_total_duration_push(self.melody@, ev);
                }
                self.melody.add(ev);
            },
            None => {
                self.started_at = now;
            },
        }
        self.waiting = Some(PendingNote::new(e, now));
    }

    /// Ends the phrase when the open event is a silence that has lasted longer
    /// than `threshold`: the silence is closed as a trailing rest.
    pub fn check_if_finished(&mut self, now: u64, threshold: u64) -> (r: bool)
        requires
            old(self).wf(),
            old(self).pending() matches Some(p) ==> p.start <= now,
        ensures
            r == (old(self).pending() matches Some(p) && p.is_rest() && now - p.start
                > threshold),
            final(self).phrase_start() == old(self).phrase_start(),
            r ==> final(self).recorded() == old(self).recorded().push(
                MelodyEvent::Rest { duration: (now - old(self).pending()->0.start) as u64 },
            ) && final(self).pending() is None && total_duration(final(self).recorded()) == now
                - old(self).phrase_start(),
            !r ==> *final(self) == *old(self),
    {
        match self.waiting {
            Some(p) => {
                if !p.sounding && now - p.start > threshold {
                    let ev = p.close(now);
                    proof {
                        lemma_total_duration_push(self.melody@, ev);
                    }
                    self.melody.add(ev);
                    self.waiting = None;
                    true
                } else {
                    false
                }
            },
            None => false,
        }
    }

    /// Hands out the finished phrase, with adjacent rests folded, and starts
    /// a new one.
    pub fn take_phrase(&mut self) -> (r: Melody)
        ensures
            r@ == merged_rests(old(self).recorded()),
            total_duration(r@) == total_duration(old(self).recorded()),
            final(self).wf(),
            final(self).pending() is None,
            final(self).recorded().len() == 0,
    {
        let mut result = Melody::new();
        std::mem::swap(&mut result, &mut self.melody);
        self.waiting = None;
        result.synchronize_rests();
        result
    }

    /// One turn of the recording loop: takes the event that arrived, if any,
    /// then checks for the end of the phrase. Returns the phrase once it ends.
    pub fn poll(&mut self, incoming: Option<NoteEvent>, now: u64, threshold: u64) -> (r: Option<
        Melody,
    >)
        requires
            old(self).wf(),
            old(self).pending() matches Some(p) ==> p.start <= now,
        ensures
            final(self).wf(),
            r matches Some(m) ==> total_duration(m@) == now - (if old(self).pending() is None {
                now
            } else {
                old(self).phrase_start()
            }),
            r matches Some(m) ==> m@.len() > 0 && m@.last() is Rest,
            r is Some <==> (incoming is None && (old(self).pending() matches Some(p) && p.is_rest()
                && now - p.start > threshold)),
            r is Some ==> final(self).pending() is None && final(self).recorded().len() == 0,
            r matches Some(m) ==> m@ == merged_rests(
                old(self).recorded().push(
                    MelodyEvent::Rest { duration: (now - old(self).pending()->0.start) as u64 },
                ),
            ),
            r is None && incoming is Some ==> final(self).pending() == Some(
                PendingNote::of_event(incoming->0, now),
            ) && match old(self).pending() {
                Some(p) => final(self).recorded() == old(self).recorded().push(p.closed_at(now))
                    && final(self).phrase_start() == old(self).phrase_start(),
                None => final(self).recorded().len() == 0 && final(self).phrase_start() == now,
            },
            r is None && incoming is None ==> *final(self) == *old(self),
    {
        if let Some(e) = incoming {
            self.handle_incoming(e, now);
        }
        if self.check_if_finished(now, threshold) {
            Some(self.take_phrase())
        } else {
            None
        }
    }
}

} // verus!

use vstd::prelude::*;

verus! {

/// The highest MIDI pitch or velocity.
pub const MIDI_MAX: u8 = 127;

/// One timed event of a phrase; durations are in milliseconds.
#[derive(Clone, Copy, Debug, PartialEq, Eq, Structural)]
pub enum MelodyEvent {
    Note { pitch: u8, velocity: u8, duration: u64 },
    Rest { duration: u64 },
}

impl MelodyEvent {
    pub open spec fn duration_spec(self) -> nat {
        match self {
            MelodyEvent::Note { duration, .. } => duration as nat,
            MelodyEvent::Rest { duration } => duration as nat,
        }
    }

    pub fn duration(&self) -> (r: u64)
        ensures
            r == self.duration_spec(),
    {
        match self {
            MelodyEvent::Note { duration, .. } => *duration,
            MelodyEvent::Rest { duration } => *duration,
        }
    }

    pub fn is_rest(&self) -> (r: bool)
        ensures
            r == (*self is Rest),
    {
        matches!(self, MelodyEvent::Rest { .. })
    }
}

/// Sum of the durations of a sequence of events.
pub open spec fn total_duration(s: Seq<MelodyEvent>) -> nat
    decreases s.len(),
{
    if s.len() == 0 {
        0
    } else {
        total_duration(s.drop_last()) + s.last().duration_spec()
    }
}

/// Number of notes whose pitch differs from the pitch of the note sounded
/// before it (`prev`); rests do not interrupt the comparison.
pub open spec fn pitch_changes_from(s: Seq<MelodyEvent>, prev: Option<u8>) -> nat
    decreases s.len(),
{
    if s.len() == 0 {
        0
    } else {
        match s[0] {
            MelodyEvent::Note { pitch, .. } => (if prev == Some(pitch) {
                0nat
            } else {
                1nat
            }) + pitch_changes_from(s.drop_first(), Some(pitch)),
            MelodyEvent::Rest { .. } => pitch_changes_from(s.drop_first(), prev),
        }
    }
}

pub open spec fn pitch_changes(s: Seq<MelodyEvent>) -> nat {
    pitch_changes_from(s, None)
}

/// `s` with every run of adjacent rests folded into one rest, as long as the
/// folded duration still fits in a `u64`.
pub open spec fn merged_rests(s: Seq<MelodyEvent>) -> Seq<MelodyEvent>
    decreases s.len(),
{
    if s.len() == 0 {
        s
    } else {
        let p = merged_rests(s.drop_last());
        let e = s.last();
        if p.len() > 0 && p.last() is Rest && e is Rest && p.last().duration_spec()
            + e.duration_spec() <= u64::MAX {
            p.drop_last().push(
                MelodyEvent::Rest { duration: (p.last().duration_spec() + e.duration_spec()) as u64 },
            )
        } else {
            p.push(e)
        }
    }
}

pub proof fn lemma_total_duration_push(s: Seq<MelodyEvent>, e: MelodyEvent)
    ensures
        total_duration(s.push(e)) == total_duration(s) + e.duration_spec(),
{
    assert(s.push(e).drop_last() =~= s);
}

/// Folding adjacent rests keeps the total duration of a phrase.
pub proof fn lemma_merged_rests_total(s: Seq<MelodyEvent>)
    ensures
        total_duration(merged_rests(s)) == total_duration(s),
    decreases s.len(),
{
    if s.len() > 0 {
        let p = merged_rests(s.drop_last());
        let e = s.last();
        lemma_merged_rests_total(s.drop_last());
        if p.len() > 0 && p.last() is Rest && e is Rest && p.last().duration_spec()
            + e.duration_spec() <= u64::MAX {
            let r = MelodyEvent::Rest {
                duration: (p.last().duration_spec() + e.duration_spec()) as u64,
            };
            lemma_total_duration_push(p.drop_last(), r);
            assert(p.drop_last().push(p.last()) =~= p);
            lemma_total_duration_push(p.drop_last(), p.last());
        } else {
            lemma_total_duration_push(p, e);
        }
    }
}

/// An ordered phrase of notes and rests.
#[derive(Clone, Debug)]
pub struct Melody {
    events: Vec<MelodyEvent>,
}

impl View for Melody {
    type V = Seq<MelodyEvent>;

    closed spec fn view(&self) -> Seq<MelodyEvent> {
        self.events@
    }
}

impl Melody {
    pub fn new() -> (r: Melody)
        ensures
            r@ == Seq::<MelodyEvent>::empty(),
    {
        Melody { events: Vec::new() }
    }

    pub fn from_events(events: Vec<MelodyEvent>) -> (r: Melody)
        ensures
            r@ == events@,
    {
        Melody { events }
    }

    pub fn events(&self) -> (r: &Vec<MelodyEvent>)
        ensures
            r@ == self@,
    {
        &self.events
    }

    pub fn len(&self) -> (r: usize)
        ensures
            r == self@.len(),
    {
        self.events.len()
    }

    pub fn add(&mut self, e: MelodyEvent)
        ensures
            final(self)@ == old(self)@.push(e),
    {
        self.events.push(e);
    }

    /// Total duration in milliseconds, saturating at `u64::MAX`.
    pub fn duration(&self) -> (r: u64)
        ensures
            r == if total_duration(self@) <= u64::MAX {
                total_duration(self@)
            } else {
                u64::MAX as nat
            },
    {
        let mut sum: u64 = 0;
        let mut i: usize = 0;
        while i < self.events.len()
            invariant
                i <= self@.len(),
                sum == if total_duration(self@.subrange(0, i as int)) <= u64::MAX {
                    total_duration(self@.subrange(0, i as int))
                } else {
                    u64::MAX as nat
                },
            decreases self@.len() - i,
        {
            assert(self@.subrange(0, i + 1).drop_last() =~= self@.subrange(0, i as int));
            let d = self.events[i].duration();
            sum = sum.saturating_add(d);
            i = i + 1;
        }
        assert(self@.subrange(0, i as int) =~= self@);
        sum
    }

    /// Number of notes that change the sounding pitch.
    pub fn num_pitch_changes(&self) -> (r: usize)
        ensures
            r == pitch_changes(self@),
    {
        let n = self.events.len();
        let mut count: usize = 0;
        let mut prev: Option<u8> = None;
        let mut i: usize = 0;
        assert(self@.subrange(0, n as int) =~= self@);
        while i < n
            invariant
                n == self@.len(),
                i <= n,
                count <= i,
                count + pitch_changes_from(self@.subrange(i as int, n as int), prev)
                    == pitch_changes(self@),
            decreases n - i,
        {
            assert(self@.subrange(i as int, n as int).drop_first() =~= self@.subrange(i + 1, n as int));
            match self.events[i] {
                MelodyEvent::Note { pitch, .. } => {
                    if prev != Some(pitch) {
                        count = count + 1;
                    }
                    prev = Some(pitch);
                },
                MelodyEvent::Rest { .. } => {},
            }
            i = i + 1;
        }
        assert(self@.subrange(0, n as int) =~= self@);
        count
    }

    /// Folds each run of adjacent rests into a single rest.
    pub fn synchronize_rests(&mut self)
        ensures
            final(self)@ == merged_rests(old(self)@),
            total_duration(final(self)@) == total_duration(old(self)@),
    {
        let ghost src = self@;
        let mut out: Vec<MelodyEvent> = Vec::new();
        let mut i: usize = 0;
        while i < self.events.len()
            invariant
                src == self@,
                i <= src.len(),
                out@ == merged_rests(src.subrange(0, i as int)),
            decreases src.len() - i,
        {
            let ghost pre = src.subrange(0, i + 1);
            assert(pre.drop_last() =~= src.subrange(0, i as int));
            let e = self.events[i];
            let n = out.len();
            if n > 0 && out[n - 1].is_rest() && e.is_rest()
                && out[n - 1].duration() <= u64::MAX - e.duration() {
                let d = out[n - 1].duration() + e.duration();
                out.set(n - 1, MelodyEvent::Rest { duration: d });
                assert(out@ =~= merged_rests(pre));
            } else {
                out.push(e);
            }
            i = i + 1;
        }
        assert(src.subrange(0, i as int) =~= src);
        proof {
            lemma_merged_rests_total(src);
        }
        self.events = out;
    }
}

} // verus!

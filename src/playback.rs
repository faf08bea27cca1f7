use vstd::prelude::*;
use crate::event::NoteEvent;
use crate::melody::{Melody, MelodyEvent};

verus! {

/// One step of playing a phrase: send the event, if any, then wait.
#[derive(Clone, Copy, Debug, PartialEq, Eq, Structural)]
pub struct PlaybackStep {
    pub event: Option<NoteEvent>,
    pub wait_ms: u64,
}

/// A note sounds for its duration and is then released; a rest is a wait.
pub open spec fn steps_of(e: MelodyEvent) -> Seq<PlaybackStep> {
    match e {
        MelodyEvent::Note { pitch, velocity, duration } => seq![
            PlaybackStep { event: Some(NoteEvent::NoteOn { pitch, velocity }), wait_ms: duration },
            PlaybackStep { event: Some(NoteEvent::NoteOff { pitch, velocity }), wait_ms: 0 },
        ],
        MelodyEvent::Rest { duration } => seq![PlaybackStep { event: None, wait_ms: duration }],
    }
}

pub open spec fn playback_of(s: Seq<MelodyEvent>) -> Seq<PlaybackStep>
    decreases s.len(),
{
    if s.len() == 0 {
        Seq::empty()
    } else {
        playback_of(s.drop_last()) + steps_of(s.last())
    }
}

/// The steps that play `m` in time.
pub fn playback_steps(m: &Melody) -> (r: Vec<PlaybackStep>)
    ensures
        r@ == playback_of(m@),
{
    let src = m.events();
    let n = src.len();
    let mut out: Vec<PlaybackStep> = Vec::new();
    let mut i: usize = 0;
    while i < n
        invariant
            n == src@.len(),
            src@ == m@,
            i <= n,
            out@ == playback_of(src@.subrange(0, i as int)),
        decreases n - i,
    {
        assert(src@.subrange(0, i + 1).drop_last() =~= src@.subrange(0, i as int));
        match src[i] {
            MelodyEvent::Note { pitch, velocity, duration } => {
                let on = PlaybackStep { event: Some(NoteEvent::NoteOn { pitch, velocity }), wait_ms: duration };
                let off = PlaybackStep { event: Some(NoteEvent::NoteOff { pitch, velocity }), wait_ms: 0 };
                assert(out@.push(on).push(off) =~= out@ + steps_of(src@[i as int]));
                out.push(on);
                out.push(off);
            },
            MelodyEvent::Rest { duration } => {
                let rest = PlaybackStep { event: None, wait_ms: duration };
                assert(out@.push(rest) =~= out@ + steps_of(src@[i as int]));
                out.push(rest);
            },
        }
        i = i + 1;
    }
    assert(src@.subrange(0, n as int) =~= src@);
    out
}

} // verus!

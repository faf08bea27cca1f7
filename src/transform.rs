use vstd::prelude::*;
use crate::melody::{Melody, MelodyEvent, pitch_changes, total_duration};

verus! {

/// Length of an inserted ornament note, in milliseconds.
pub const GRACE_MS: u64 = 60;

/// The interchangeable strategies that map a phrase to its variation.
#[derive(Clone, Copy, Debug, PartialEq, Eq, Structural)]
pub enum Transformation {
    /// Silences the generated voice: the variation is always empty.
    Bypass,
    /// Keeps the rhythm and the emphasized notes; any other note whose roll
    /// comes in under the randomization probability takes the pitch of the
    /// latest emphasized note before it.
    EmphasisAnchored,
    /// Replaces every melodic figure by its mirror image: each interval from
    /// the first note is turned upside down, so equal figures always get the
    /// same replacement.
    FigureReplacement,
    /// Moves each note a whole step when its roll comes in under the
    /// randomization probability.
    Whimsical,
}

/// A whole step up, or down where up would leave the MIDI range.
pub open spec fn step_spec(pitch: u8) -> u8 {
    if pitch <= 125 {
        (pitch + 2) as u8
    } else {
        (pitch - 2) as u8
    }
}

/// The neighbour note used as an ornament.
pub open spec fn grace_pitch_spec(pitch: u8) -> u8 {
    if pitch < 127 {
        (pitch + 1) as u8
    } else {
        (pitch - 1) as u8
    }
}

pub open spec fn whimsical_event(e: MelodyEvent, roll: u64, p: u64) -> MelodyEvent {
    match e {
        MelodyEvent::Note { pitch, velocity, duration } => if roll < p {
            MelodyEvent::Note { pitch: step_spec(pitch), velocity, duration }
        } else {
            e
        },
        MelodyEvent::Rest { .. } => e,
    }
}

/// Notes at least this loud are the anchors of a phrase.
pub const EMPHASIS_VELOCITY: u8 = 90;

/// Emphasis-anchored choice over `s`, with `anchor` the pitch of the latest
/// emphasized note seen before it.
pub open spec fn anchored_from(s: Seq<MelodyEvent>, rolls: Seq<u64>, p: u64, anchor: Option<u8>) -> Seq<
    MelodyEvent,
>
    decreases s.len(),
{
    if s.len() == 0 {
        Seq::empty()
    } else {
        match s[0] {
            MelodyEvent::Note { pitch, velocity, duration } => if velocity >= EMPHASIS_VELOCITY {
                seq![s[0]].add(anchored_from(s.drop_first(), rolls.drop_first(), p, Some(pitch)))
            } else {
                let chosen = if rolls[0] < p && anchor is Some {
                    anchor->0
                } else {
                    pitch
                };
                seq![MelodyEvent::Note { pitch: chosen, velocity, duration }].add(
                    anchored_from(s.drop_first(), rolls.drop_first(), p, anchor),
                )
            },
            MelodyEvent::Rest { .. } => seq![s[0]].add(
                anchored_from(s.drop_first(), rolls.drop_first(), p, anchor),
            ),
        }
    }
}

/// The pitch of the first note of `s`, if it has one.
pub open spec fn first_pitch(s: Seq<MelodyEvent>) -> Option<u8>
    decreases s.len(),
{
    if s.len() == 0 {
        None
    } else {
        match s[0] {
            MelodyEvent::Note { pitch, .. } => Some(pitch),
            MelodyEvent::Rest { .. } => first_pitch(s.drop_first()),
        }
    }
}

/// `pitch` mirrored about `axis`, or left as it is where the mirror image
/// falls outside the MIDI range.
pub open spec fn mirrored_spec(pitch: u8, axis: u8) -> u8 {
    if 2 * axis >= pitch && 2 * axis - pitch <= 127 {
        (2 * axis - pitch) as u8
    } else {
        pitch
    }
}

pub open spec fn figure_event(e: MelodyEvent, axis: u8) -> MelodyEvent {
    match e {
        MelodyEvent::Note { pitch, velocity, duration } => MelodyEvent::Note {
            pitch: mirrored_spec(pitch, axis),
            velocity,
            duration,
        },
        MelodyEvent::Rest { .. } => e,
    }
}

pub open spec fn figures_replaced(s: Seq<MelodyEvent>) -> Seq<MelodyEvent> {
    match first_pitch(s) {
        Some(axis) => Seq::new(s.len(), |k: int| figure_event(s[k], axis)),
        None => s,
    }
}

/// What strategy `t` makes of `s`, with randomization probability `p` and
/// one roll per event.
pub open spec fn transformed(t: Transformation, s: Seq<MelodyEvent>, p: u64, rolls: Seq<u64>) -> Seq<
    MelodyEvent,
> {
    match t {
        Transformation::Bypass => Seq::empty(),
        Transformation::EmphasisAnchored => anchored_from(s, rolls, p, None),
        Transformation::FigureReplacement => figures_replaced(s),
        Transformation::Whimsical => Seq::new(
            s.len(),
            |k: int| whimsical_event(s[k], rolls[k], p),
        ),
    }
}

pub open spec fn min_nat(a: nat, b: nat) -> nat {
    if a <= b {
        a
    } else {
        b
    }
}

/// Whether the note `e` gets an ornament, `since` milliseconds after the
/// last ornament began.
pub open spec fn ornaments(e: MelodyEvent, roll: u64, since: nat, gap: nat, p: u64) -> bool {
    e is Note && since >= gap && e.duration_spec() >= 2 * GRACE_MS && roll < p
}

/// Ornamentation: before a note that is long enough, whose roll comes in
/// under `p`, and that begins at least `gap` after the last ornament began,
/// a neighbour note of `GRACE_MS` is inserted and taken from the note's
/// length. `since` is capped at `gap`, which is all that the rule reads.
pub open spec fn ornamented_from(
    s: Seq<MelodyEvent>,
    rolls: Seq<u64>,
    since: nat,
    gap: nat,
    p: u64,
) -> Seq<MelodyEvent>
    decreases s.len(),
{
    if s.len() == 0 {
        Seq::empty()
    } else {
        let e = s[0];
        let d = e.duration_spec();
        if ornaments(e, rolls[0], since, gap, p) {
            let grace = MelodyEvent::Note {
                pitch: grace_pitch_spec(e->Note_pitch),
                velocity: e->Note_velocity,
                duration: GRACE_MS,
            };
            let main = MelodyEvent::Note {
                pitch: e->Note_pitch,
                velocity: e->Note_velocity,
                duration: (d - GRACE_MS) as u64,
            };
            seq![grace, main].add(
                ornamented_from(s.drop_first(), rolls.drop_first(), min_nat(d, gap), gap, p),
            )
        } else {
            seq![e].add(
                ornamented_from(s.drop_first(), rolls.drop_first(), min_nat(since + d, gap), gap, p),
            )
        }
    }
}

pub open spec fn ornamented(s: Seq<MelodyEvent>, rolls: Seq<u64>, gap: u64, p: u64) -> Seq<
    MelodyEvent,
> {
    ornamented_from(s, rolls, gap as nat, gap as nat, p)
}

pub fn step(pitch: u8) -> (r: u8)
    ensures
        r == step_spec(pitch),
{
    if pitch <= 125 {
        pitch + 2
    } else {
        pitch - 2
    }
}

pub fn grace_pitch(pitch: u8) -> (r: u8)
    ensures
        r == grace_pitch_spec(pitch),
{
    if pitch < 127 {
        pitch + 1
    } else {
        pitch - 1
    }
}

pub fn mirrored(pitch: u8, axis: u8) -> (r: u8)
    ensures
        r == mirrored_spec(pitch, axis),
{
    let twice: u16 = 2 * (axis as u16);
    if twice >= pitch as u16 && twice - (pitch as u16) <= 127 {
        (twice - pitch as u16) as u8
    } else {
        pitch
    }
}

/// The emphasis-anchored choice over `m`; `rolls` holds one roll per event.
pub fn emphasis_anchored(m: &Melody, p_random: u64, rolls: &Vec<u64>) -> (r: Melody)
    requires
        rolls@.len() == m@.len(),
    ensures
        r@ == anchored_from(m@, rolls@, p_random, None),
{
    let src = m.events();
    let n = src.len();
    let mut out: Vec<MelodyEvent> = Vec::new();
    let mut anchor: Option<u8> = None;
    let mut i: usize = 0;
    assert(src@.subrange(0, n as int) =~= src@);
    assert(rolls@.subrange(0, n as int) =~= rolls@);
    assert(out@.add(anchored_from(m@, rolls@, p_random, None)) =~= anchored_from(m@, rolls@, p_random, None));
    while i < n
        invariant
            n == src@.len(),
            src@ == m@,
            n == rolls@.len(),
            i <= n,
            out@.add(
                anchored_from(
                    src@.subrange(i as int, n as int),
                    rolls@.subrange(i as int, n as int),
                    p_random,
                    anchor,
                ),
            ) == anchored_from(m@, rolls@, p_random, None),
        decreases n - i,
    {
        let ghost s = src@.subrange(i as int, n as int);
        let ghost rs = rolls@.subrange(i as int, n as int);
        assert(s.drop_first() =~= src@.subrange(i + 1, n as int));
        assert(rs.drop_first() =~= rolls@.subrange(i + 1, n as int));
        let e = src[i];
        let x = match e {
            MelodyEvent::Note { pitch, velocity, duration } => {
                if velocity >= EMPHASIS_VELOCITY {
                    e
                } else {
                    let chosen = match anchor {
                        Some(a) => if rolls[i] < p_random { a } else { pitch },
                        None => pitch,
                    };
                    MelodyEvent::Note { pitch: chosen, velocity, duration }
                }
            },
            MelodyEvent::Rest { .. } => e,
        };
        let next_anchor = match e {
            MelodyEvent::Note { pitch, velocity, .. } => if velocity >= EMPHASIS_VELOCITY {
                Some(pitch)
            } else {
                anchor
            },
            MelodyEvent::Rest { .. } => anchor,
        };
        let ghost tail = anchored_from(s.drop_first(), rs.drop_first(), p_random, next_anchor);
        assert(out@.add(seq![x].add(tail)) =~= out@.push(x).add(tail));
        out.push(x);
        anchor = next_anchor;
        i = i + 1;
    }
    assert(out@.add(anchored_from(src@.subrange(n as int, n as int), rolls@.subrange(n as int, n as int), p_random, anchor)) =~= out@);
    Melody::from_events(out)
}

fn first_pitch_of(events: &Vec<MelodyEvent>) -> (r: Option<u8>)
    ensures
        r == first_pitch(events@),
{
    let n = events.len();
    let mut i: usize = 0;
    assert(events@.subrange(0, n as int) =~= events@);
    while i < n
        invariant
            n == events@.len(),
            i <= n,
            first_pitch(events@.subrange(i as int, n as int)) == first_pitch(events@),
        decreases n - i,
    {
        assert(events@.subrange(i as int, n as int).drop_first() =~= events@.subrange(i + 1, n as int));
        match events[i] {
            MelodyEvent::Note { pitch, .. } => {
                return Some(pitch);
            },
            MelodyEvent::Rest { .. } => {},
        }
        i = i + 1;
    }
    None
}

/// The consistent figure replacement of `m`.
pub fn figure_replaced(m: &Melody) -> (r: Melody)
    ensures
        r@ == figures_replaced(m@),
{
    let src = m.events();
    let n = src.len();
    match first_pitch_of(src) {
        None => {
            let mut out: Vec<MelodyEvent> = Vec::new();
            let mut i: usize = 0;
            while i < n
                invariant
                    n == src@.len(),
                    i <= n,
                    out@ =~= src@.subrange(0, i as int),
                decreases n - i,
            {
                out.push(src[i]);
                i = i + 1;
            }
            assert(out@ =~= m@);
            Melody::from_events(out)
        },
        Some(axis) => {
            let mut out: Vec<MelodyEvent> = Vec::new();
            let mut i: usize = 0;
            while i < n
                invariant
                    n == src@.len(),
                    i <= n,
                    out@ =~= Seq::new(i as nat, |k: int| figure_event(src@[k], axis)),
                decreases n - i,
            {
                let e = src[i];
                let x = match e {
                    MelodyEvent::Note { pitch, velocity, duration } => MelodyEvent::Note {
                        pitch: mirrored(pitch, axis),
                        velocity,
                        duration,
                    },
                    MelodyEvent::Rest { .. } => e,
                };
                out.push(x);
                i = i + 1;
            }
            Melody::from_events(out)
        },
    }
}

/// Applies strategy `t` to `m`; `rolls` holds one roll per event of `m`.
pub fn transform(t: Transformation, m: &Melody, p_random: u64, rolls: &Vec<u64>) -> (r: Melody)
    requires
        rolls@.len() == m@.len(),
    ensures
        r@ == transformed(t, m@, p_random, rolls@),
{
    let src = m.events();
    let n = src.len();
    let mut out: Vec<MelodyEvent> = Vec::new();
    match t {
        Transformation::Bypass => {},
        Transformation::EmphasisAnchored => {
            return emphasis_anchored(m, p_random, rolls);
        },
        Transformation::FigureReplacement => {
            return figure_replaced(m);
        },
        Transformation::Whimsical => {
            let mut i: usize = 0;
            while i < n
                invariant
                    n == src@.len(),
                    n == rolls@.len(),
                    i <= n,
                    out@ =~= Seq::new(i as nat, |k: int| whimsical_event(src@[k], rolls@[k], p_random)),
                decreases n - i,
            {
                let e = src[i];
                let x = match e {
                    MelodyEvent::Note { pitch, velocity, duration } => if rolls[i] < p_random {
                        MelodyEvent::Note { pitch: step(pitch), velocity, duration }
                    } else {
                        e
                    },
                    MelodyEvent::Rest { .. } => e,
                };
                out.push(x);
                i = i + 1;
            }
        },
    }
    Melody::from_events(out)
}

/// Inserts ornaments into `m` as `ornamented` describes; `rolls` holds one
/// roll per event of `m`.
pub fn ornament(m: &Melody, p_ornament: u64, gap: u64, rolls: &Vec<u64>) -> (r: Melody)
    requires
        rolls@.len() == m@.len(),
    ensures
        r@ == ornamented(m@, rolls@, gap, p_ornament),
{
    let src = m.events();
    let n = src.len();
    let mut out: Vec<MelodyEvent> = Vec::new();
    let mut since: u64 = gap;
    let mut i: usize = 0;
    assert(src@.subrange(0, n as int) =~= src@);
    assert(rolls@.subrange(0, n as int) =~= rolls@);
    assert(out@.add(ornamented(m@, rolls@, gap, p_ornament)) =~= ornamented(m@, rolls@, gap, p_ornament));
    while i < n
        invariant
            n == src@.len(),
            n == rolls@.len(),
            i <= n,
            since <= gap,
            out@.add(
                ornamented_from(
                    src@.subrange(i as int, n as int),
                    rolls@.subrange(i as int, n as int),
                    since as nat,
                    gap as nat,
                    p_ornament,
                ),
            ) == ornamented(m@, rolls@, gap, p_ornament),
        decreases n - i,
    {
        let ghost s = src@.subrange(i as int, n as int);
        let ghost rs = rolls@.subrange(i as int, n as int);
        assert(s.drop_first() =~= src@.subrange(i + 1, n as int));
        assert(rs.drop_first() =~= rolls@.subrange(i + 1, n as int));
        let e = src[i];
        let d = e.duration();
        let ghost tail = ornamented_from(
            s.drop_first(),
            rs.drop_first(),
            if ornaments(e, rolls@[i as int], since as nat, gap as nat, p_ornament) {
                min_nat(d as nat, gap as nat)
            } else {
                min_nat((since + d) as nat, gap as nat)
            },
            gap as nat,
            p_ornament,
        );
        match e {
            MelodyEvent::Note { pitch, velocity, duration } => {
                if since >= gap && duration >= 2 * GRACE_MS && rolls[i] < p_ornament {
                    let grace = MelodyEvent::Note {
                        pitch: grace_pitch(pitch),
                        velocity,
                        duration: GRACE_MS,
                    };
                    let main = MelodyEvent::Note { pitch, velocity, duration: duration - GRACE_MS };
                    assert(out@.add(seq![grace, main].add(tail)) =~= out@.push(grace).push(
                        main,
                    ).add(tail));
                    out.push(grace);
                    out.push(main);
                    since = if duration < gap { duration } else { gap };
                    i = i + 1;
                    continue;
                }
            },
            MelodyEvent::Rest { .. } => {},
        }
        assert(out@.add(seq![e].add(tail)) =~= out@.push(e).add(tail));
        out.push(e);
        since = if d < gap - since { since + d } else { gap };
        i = i + 1;
    }
    assert(out@.add(ornamented_from(src@.subrange(n as int, n as int), rolls@.subrange(n as int, n as int), since as nat, gap as nat, p_ornament)) =~= out@);
    Melody::from_events(out)
}

/// Whether a variation is worth playing: it changes pitch at least
/// `min_changes` times and lasts longer than `threshold` milliseconds (its
/// length saturating at `u64::MAX`).
pub fn accepts_variation(v: &Melody, min_changes: usize, threshold: u64) -> (r: bool)
    ensures
        r == (pitch_changes(v@) >= min_changes && min_nat(total_duration(v@), u64::MAX as nat)
            > threshold),
{
    v.num_pitch_changes() >= min_changes && v.duration() > threshold
}

} // verus!

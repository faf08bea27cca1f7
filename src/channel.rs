use vstd::prelude::*;
use crossbeam_queue::SegQueue;
use crate::event::NoteEvent;

verus! {

#[verifier::external_type_specification]
#[verifier::external_body]
#[verifier::reject_recursive_types(T)]
pub struct ExSegQueue<T>(SegQueue<T>);

/// The events waiting in a queue, oldest first.
pub uninterp spec fn queued_events(q: SegQueue<NoteEvent>) -> Seq<NoteEvent>;

/// Relies on `SegQueue::new`: a new queue is empty.
#[verifier::external_body]
fn queue_new() -> (r: SegQueue<NoteEvent>)
    ensures
        queued_events(r) == Seq::<NoteEvent>::empty(),
{
    SegQueue::new()
}

/// Relies on `SegQueue::push_mut`: with exclusive access, the value is
/// added at the tail.
#[verifier::external_body]
fn queue_push_mut(q: &mut SegQueue<NoteEvent>, e: NoteEvent)
    ensures
        queued_events(*final(q)) == queued_events(*old(q)).push(e),
{
    q.push_mut(e)
}

/// Relies on `SegQueue::pop_mut`: with exclusive access, the head is
/// removed and returned, or `None` comes back from an empty queue.
#[verifier::external_body]
fn queue_pop_mut(q: &mut SegQueue<NoteEvent>) -> (r: Option<NoteEvent>)
    ensures
        queued_events(*old(q)).len() == 0 ==> r is None && queued_events(*final(q))
            == queued_events(*old(q)),
        queued_events(*old(q)).len() > 0 ==> r == Some(queued_events(*old(q))[0])
            && queued_events(*final(q)) == queued_events(*old(q)).drop_first(),
{
    q.pop_mut()
}

/// Relies on `SegQueue::new`: a queue for sharing. It changes behind shared
/// references, so it carries no name for its contents.
#[verifier::external_body]
fn shared_new<T>() -> (r: SegQueue<T>) {
    SegQueue::new()
}

/// Relies on `SegQueue::push`: adds the value at the tail without blocking.
/// The queue changes behind a shared reference, so it carries no name for
/// its contents and nothing is stated.
#[verifier::external_body]
fn shared_push<T>(q: &SegQueue<T>, e: T) {
    q.push(e)
}

/// Relies on `SegQueue::pop`: takes the head if there is one, without
/// blocking. Other threads may use the queue meanwhile, so nothing is
/// stated of what comes back.
#[verifier::external_body]
fn shared_pop<T>(q: &SegQueue<T>) -> (r: Option<T>) {
    q.pop()
}

/// An unbounded first-in first-out queue shared between the threads of two
/// stages. Any thread may send or receive at any time without blocking;
/// since the others may too, nothing is stated of what it holds.
#[verifier::reject_recursive_types(T)]
pub struct SharedChannel<T> {
    queue: SegQueue<T>,
}

impl<T> SharedChannel<T> {
    pub fn new() -> (r: SharedChannel<T>) {
        SharedChannel { queue: shared_new() }
    }

    /// Pushes at the tail; never blocks.
    pub fn send(&self, e: T) {
        shared_push(&self.queue, e);
    }

    /// Pops the head; `None` when the queue is empty at that moment.
    pub fn receive(&self) -> Option<T> {
        shared_pop(&self.queue)
    }
}

/// An unbounded first-in first-out queue of note events, owned by one stage
/// at a time: every change goes through `&mut`, so what it holds is stated.
pub struct InterStageChannel {
    queue: SegQueue<NoteEvent>,
}

impl InterStageChannel {
    pub closed spec fn contents(&self) -> Seq<NoteEvent> {
        queued_events(self.queue)
    }

    pub fn new() -> (r: InterStageChannel)
        ensures
            r.contents() == Seq::<NoteEvent>::empty(),
    {
        InterStageChannel { queue: queue_new() }
    }

    pub fn push(&mut self, e: NoteEvent)
        ensures
            final(self).contents() == old(self).contents().push(e),
    {
        queue_push_mut(&mut self.queue, e);
    }

    pub fn pop(&mut self) -> (r: Option<NoteEvent>)
        ensures
            old(self).contents().len() == 0 ==> r is None && final(self).contents()
                == old(self).contents(),
            old(self).contents().len() > 0 ==> r == Some(old(self).contents()[0])
                && final(self).contents() == old(self).contents().drop_first(),
    {
        queue_pop_mut(&mut self.queue)
    }

    /// Pushes every event of `events`, in order.
    pub fn push_all(&mut self, events: &Vec<NoteEvent>)
        ensures
            final(self).contents() == old(self).contents() + events@,
    {
        let mut i: usize = 0;
        while i < events.len()
            invariant
                i <= events@.len(),
                self.contents() == old(self).contents() + events@.subrange(0, i as int),
            decreases events@.len() - i,
        {
            self.push(events[i]);
            assert(events@.subrange(0, i + 1) =~= events@.subrange(0, i as int).push(events@[i as int]));
            assert(old(self).contents() + events@.subrange(0, i + 1) =~= (old(self).contents()
                + events@.subrange(0, i as int)).push(events@[i as int]));
            i = i + 1;
        }
        assert(events@.subrange(0, i as int) =~= events@);
    }

    /// Pops up to `n` events, oldest first, stopping early when the queue is
    /// empty.
    pub fn pop_up_to(&mut self, n: usize) -> (r: Vec<NoteEvent>)
        ensures
            r@.len() == if n <= old(self).contents().len() {
                n as nat
            } else {
                old(self).contents().len()
            },
            r@ == old(self).contents().subrange(0, r@.len() as int),
            final(self).contents() == old(self).contents().subrange(
                r@.len() as int,
                old(self).contents().len() as int,
            ),
    {
        let ghost start = self.contents();
        let mut out: Vec<NoteEvent> = Vec::new();
        let mut i: usize = 0;
        while i < n
            invariant
                i <= n,
                start == old(self).contents(),
                out@.len() == i,
                i <= start.len(),
                out@ == start.subrange(0, i as int),
                self.contents() == start.subrange(i as int, start.len() as int),
            decreases n - i,
        {
            match self.pop() {
                Some(e) => {
                    out.push(e);
                    assert(out@ =~= start.subrange(0, i + 1));
                    assert(self.contents() =~= start.subrange(i + 1, start.len() as int));
                    i = i + 1;
                },
                None => {
                    assert(start.subrange(i as int, start.len() as int).len() == 0);
                    assert(i == start.len());
                    return out;
                },
            }
        }
        out
    }
}

/// First in, first out: events pushed behind those already waiting come
/// out after them, in the order in which they were pushed, none lost and
/// none twice, once as many have been popped as were there.
pub proof fn lemma_channel_round_trip(before: Seq<NoteEvent>, pushed: Seq<NoteEvent>, popped: Seq<
    NoteEvent,
>, after: Seq<NoteEvent>)
    requires
        popped.len() == before.len() + pushed.len(),
        popped == (before + pushed).subrange(0, popped.len() as int),
        after == (before + pushed).subrange(popped.len() as int, (before + pushed).len() as int),
    ensures
        popped == before + pushed,
        popped.subrange(before.len() as int, popped.len() as int) == pushed,
        after.len() == 0,
{
    assert((before + pushed).subrange(0, popped.len() as int) =~= before + pushed);
    assert(popped.subrange(before.len() as int, popped.len() as int) =~= pushed);
}

/// What the round trip gives on a channel: the events come back in the
/// order in which they were pushed, none lost and none twice.
pub fn round_trip(events: &Vec<NoteEvent>) -> (r: Vec<NoteEvent>)
    ensures
        r@ == events@,
{
    let mut ch = InterStageChannel::new();
    ch.push_all(events);
    let r = ch.pop_up_to(events.len());
    proof {
        assert(Seq::<NoteEvent>::empty() + events@ =~= events@);
        lemma_channel_round_trip(Seq::empty(), events@, r@, ch.contents());
    }
    r
}

} // verus!

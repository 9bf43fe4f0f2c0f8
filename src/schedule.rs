use vstd::prelude::*;

verus! {

/// What the next frame sends from `backlog`: the front entry, or nothing once
/// the backlog has run out.
pub open spec fn front<T>(backlog: Seq<Option<T>>) -> Option<T> {
    if backlog.len() > 0 {
        backlog[0]
    } else {
        None
    }
}

/// What is left of `backlog` after one frame has drained it: the front entry
/// is gone, and an empty backlog stays empty.
pub open spec fn advanced<T>(backlog: Seq<Option<T>>) -> Seq<Option<T>> {
    if backlog.len() == 0 {
        backlog
    } else {
        backlog.drop_first()
    }
}

/// What `frames` consecutive frames send, one optional event per frame,
/// starting from `backlog`.
pub open spec fn delivered<T>(backlog: Seq<Option<T>>, frames: nat) -> Seq<Option<T>>
    decreases frames,
{
    if frames == 0 {
        seq![]
    } else {
        seq![front(backlog)] + delivered(advanced(backlog), (frames - 1) as nat)
    }
}

/// What is left of `backlog` after `frames` frames.
pub open spec fn after_frames<T>(backlog: Seq<Option<T>>, frames: nat) -> Seq<Option<T>>
    decreases frames,
{
    if frames == 0 {
        backlog
    } else {
        after_frames(advanced(backlog), (frames - 1) as nat)
    }
}

/// The real events among `slots`, in order, with the gaps left out.
pub open spec fn without_gaps<T>(slots: Seq<Option<T>>) -> Seq<T>
    decreases slots.len(),
{
    if slots.len() == 0 {
        seq![]
    } else {
        let rest = without_gaps(slots.drop_first());
        match slots[0] {
            Some(event) => seq![event] + rest,
            None => rest,
        }
    }
}

/// `count` frames that send nothing.
pub open spec fn gaps<T>(count: nat) -> Seq<Option<T>> {
    Seq::new(count, |i: int| None)
}

/// Once a backlog is empty, every further frame sends nothing and leaves it
/// empty.
pub proof fn lemma_empty_backlog_is_inert<T>(backlog: Seq<Option<T>>, frames: nat)
    requires
        backlog.len() == 0,
    ensures
        delivered(backlog, frames) == gaps::<T>(frames),
        after_frames(backlog, frames).len() == 0,
    decreases frames,
{
    if frames > 0 {
        lemma_empty_backlog_is_inert(advanced(backlog), (frames - 1) as nat);
        assert(delivered(backlog, frames) =~= gaps::<T>(frames));
    }
}

/// Draining a backlog of `n` entries for `n` frames sends exactly its entries,
/// one per frame, in the order given, and leaves it empty; so the real events
/// sent are the backlog's own with the gaps removed.
pub proof fn lemma_backlog_delivered_in_order<T>(backlog: Seq<Option<T>>)
    ensures
        delivered(backlog, backlog.len()) == backlog,
        without_gaps(delivered(backlog, backlog.len())) == without_gaps(backlog),
        after_frames(backlog, backlog.len()).len() == 0,
    decreases backlog.len(),
{
    if backlog.len() > 0 {
        lemma_backlog_delivered_in_order(backlog.drop_first());
        assert(delivered(backlog, backlog.len()) =~= backlog);
    }
}

/// After a backlog of `n` entries has had its `n` frames, every further frame
/// sends nothing, however many follow.
pub proof fn lemma_exhaustion_is_permanent<T>(backlog: Seq<Option<T>>, extra: nat)
    ensures
        delivered(backlog, backlog.len() + extra) == backlog + gaps::<T>(extra),
        after_frames(backlog, backlog.len() + extra).len() == 0,
    decreases backlog.len(),
{
    if backlog.len() == 0 {
        lemma_empty_backlog_is_inert(backlog, extra);
        assert(backlog + gaps::<T>(extra) =~= gaps::<T>(extra));
    } else {
        let rest = backlog.drop_first();
        lemma_exhaustion_is_permanent(rest, extra);
        assert((backlog.len() + extra - 1) as nat == rest.len() + extra);
        assert(delivered(backlog, backlog.len() + extra) =~= backlog + gaps::<T>(extra));
    }
}

/// A single scheduled event goes out on the first frame and never again.
pub proof fn lemma_single_event_sent_once<T>(event: T, extra: nat)
    ensures
        delivered(seq![Some(event)], 1 + extra) == seq![Some(event)] + gaps::<T>(extra),
        without_gaps(delivered(seq![Some(event)], 1 + extra)) == seq![event],
{
    let backlog = seq![Some(event)];
    lemma_exhaustion_is_permanent(backlog, extra);
    lemma_without_gaps_append(backlog, gaps::<T>(extra));
    lemma_without_gaps_of_gaps::<T>(extra);
    reveal_with_fuel(without_gaps, 2);
    assert(without_gaps(backlog) =~= seq![event]);
    assert(seq![event] + Seq::<T>::empty() =~= seq![event]);
}

/// Removing gaps from two runs of slots one after the other removes them
/// from each run.
proof fn lemma_without_gaps_append<T>(first: Seq<Option<T>>, second: Seq<Option<T>>)
    ensures
        without_gaps(first + second) == without_gaps(first) + without_gaps(second),
    decreases first.len(),
{
    if first.len() == 0 {
        assert(first + second =~= second);
        assert(without_gaps(first) + without_gaps(second) =~= without_gaps(second));
    } else {
        lemma_without_gaps_append(first.drop_first(), second);
        assert((first + second).drop_first() =~= first.drop_first() + second);
        match first[0] {
            Some(event) => {
                assert(seq![event] + (without_gaps(first.drop_first()) + without_gaps(second))
                    =~= (seq![event] + without_gaps(first.drop_first())) + without_gaps(second));
            },
            None => {},
        }
    }
}

/// Frames that send nothing hold no real event.
proof fn lemma_without_gaps_of_gaps<T>(count: nat)
    ensures
        without_gaps(gaps::<T>(count)) == Seq::<T>::empty(),
    decreases count,
{
    if count > 0 {
        lemma_without_gaps_of_gaps::<T>((count - 1) as nat);
        assert(gaps::<T>(count).drop_first() =~= gaps::<T>((count - 1) as nat));
    }
}

/// Events waiting to be sent, at most one per frame, in the order given.
///
/// A `None` entry is a gap: it uses up one frame and sends nothing.
pub struct EventsToSend<T> {
    /// The backlog back to front, so that the next entry is the last one.
    reversed: Vec<Option<T>>,
}

impl<T> View for EventsToSend<T> {
    type V = Seq<Option<T>>;

    /// The backlog front to back: entry `0` goes out on the next frame.
    closed spec fn view(&self) -> Seq<Option<T>> {
        Seq::new(self.reversed@.len(), |i: int| self.reversed@[self.reversed@.len() - 1 - i])
    }
}

impl<T> EventsToSend<T> {
    /// A backlog that delivers `events` one per frame, first entry first.
    pub fn new(events: Vec<Option<T>>) -> (r: Self)
        ensures
            r@ == events@,
    {
        let ghost given = events@;
        let mut events = events;
        let mut reversed: Vec<Option<T>> = Vec::new();
        while events.len() > 0
            invariant
                events@ == given.subrange(0, events@.len() as int),
                reversed@.len() + events@.len() == given.len(),
                forall|j: int|
                    0 <= j < reversed@.len() ==> #[trigger] reversed@[j] == given[given.len() - 1
                        - j],
            decreases events.len(),
        {
            let entry = events.pop().unwrap();
            reversed.push(entry);
        }
        let r = EventsToSend { reversed };
        assert(r@ =~= given);
        r
    }

    /// A backlog that delivers `event` on the next frame and nothing after.
    pub fn single(event: T) -> (r: Self)
        ensures
            r@ == seq![Some(event)],
    {
        let mut reversed: Vec<Option<T>> = Vec::new();
        reversed.push(Some(event));
        let r = EventsToSend { reversed };
        assert(r@ =~= seq![Some(event)]);
        r
    }

    /// One frame's drain step: removes the front entry, if any is left, and
    /// returns the event that this frame sends.
    pub fn next_event(&mut self) -> (r: Option<T>)
        ensures
            r == front(old(self)@),
            final(self)@ == advanced(old(self)@),
    {
        match self.reversed.pop() {
            Some(entry) => {
                assert(final(self)@ =~= advanced(old(self)@));
                entry
            },
            None => None,
        }
    }

    /// How many frames the backlog still has entries for.
    pub fn remaining(&self) -> (r: usize)
        ensures
            r == self@.len(),
    {
        self.reversed.len()
    }

    /// Whether every entry has been drained, so that no later frame sends.
    pub fn is_exhausted(&self) -> (r: bool)
        ensures
            r == (self@.len() == 0),
    {
        self.reversed.len() == 0
    }
}

} // verus!

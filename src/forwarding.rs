use vstd::prelude::*;

verus! {

/// What a forwarding loop is woken by: an item read from its source (with
/// whether it can be delivered now), a failed read, or a close signal.
pub enum LoopEvent<T> {
    Received(T, bool),
    ReadFailed,
    Closed,
}

/// What a forwarding loop does with an event.
pub enum LoopAction<T> {
    /// Write the item, unchanged, to the destination.
    Forward(T),
    /// Drop the item and keep going.
    Skip,
    /// Leave the loop.
    Stop,
}

/// The items a loop forwards over a run of events, and whether it has
/// stopped. Once stopped it forwards nothing more.
pub open spec fn run_loop<T>(events: Seq<LoopEvent<T>>) -> (Seq<T>, bool)
    decreases events.len(),
{
    if events.len() == 0 {
        (seq![], false)
    } else {
        let (sent, stopped) = run_loop(events.drop_last());
        if stopped {
            (sent, true)
        } else {
            match events.last() {
                LoopEvent::Received(item, true) => (sent.push(item), false),
                LoopEvent::Received(_, false) => (sent, false),
                LoopEvent::ReadFailed => (sent, true),
                LoopEvent::Closed => (sent, true),
            }
        }
    }
}

/// The items read, in the order they were read.
pub open spec fn items_read<T>(events: Seq<LoopEvent<T>>) -> Seq<T>
    decreases events.len(),
{
    if events.len() == 0 {
        seq![]
    } else {
        match events.last() {
            LoopEvent::Received(item, _) => items_read(events.drop_last()).push(item),
            _ => items_read(events.drop_last()),
        }
    }
}

/// `idx` picks, in increasing positions of `b`, the items of `a`.
pub open spec fn picks<T>(a: Seq<T>, b: Seq<T>, idx: Seq<int>) -> bool {
    &&& idx.len() == a.len()
    &&& forall|i: int| 0 <= i < idx.len() ==> 0 <= #[trigger] idx[i] < b.len() && b[idx[i]] == a[i]
    &&& forall|i: int, j: int| 0 <= i < j < idx.len() ==> idx[i] < idx[j]
}

/// `a` is `b` with some items left out, the rest in their order.
pub open spec fn is_subsequence<T>(a: Seq<T>, b: Seq<T>) -> bool {
    exists|idx: Seq<int>| picks(a, b, idx)
}

/// The state of one forwarding loop: the RTP ingress of a publisher, or the
/// message loop of a data subscriber. It keeps, as ghost state, the events it
/// has stepped through, and what it has done always equals `run_loop` of them.
pub struct ForwardLoop<T> {
    stopped: bool,
    history: Ghost<Seq<LoopEvent<T>>>,
}

impl<T> View for ForwardLoop<T> {
    type V = bool;

    closed spec fn view(&self) -> bool {
        self.stopped
    }
}

impl<T> ForwardLoop<T> {
    /// The events stepped through so far.
    pub closed spec fn history(&self) -> Seq<LoopEvent<T>> {
        self.history@
    }

    #[verifier::type_invariant]
    spec fn inv(&self) -> bool {
        self.stopped == run_loop(self.history@).1
    }

    /// A loop that has seen nothing and not stopped.
    pub fn new() -> (r: ForwardLoop<T>)
        ensures
            !r@,
            r.history() == Seq::<LoopEvent<T>>::empty(),
    {
        ForwardLoop { stopped: false, history: Ghost(Seq::empty()) }
    }

    /// Whether the loop has stopped.
    pub fn is_stopped(&self) -> (r: bool)
        ensures
            r == self@,
            r == run_loop(self.history()).1,
    {
        proof {
            use_type_invariant(self);
        }
        self.stopped
    }

    /// Decides what to do with one event. A received item is forwarded
    /// unchanged when it can be delivered and skipped otherwise; a failed read
    /// or a close signal stops the loop, and a stopped loop forwards nothing.
    /// The items forwarded over the loop's life are `run_loop(history).0`.
    pub fn step(&mut self, event: LoopEvent<T>) -> (r: LoopAction<T>)
        ensures
            final(self).history() == old(self).history().push(event),
            final(self)@ == run_loop(final(self).history()).1,
            old(self)@ == run_loop(old(self).history()).1,
            match r {
                LoopAction::Forward(item) => run_loop(final(self).history()).0 == run_loop(
                    old(self).history(),
                ).0.push(item),
                _ => run_loop(final(self).history()).0 == run_loop(old(self).history()).0,
            },
            old(self)@ ==> r is Stop && final(self)@,
            !old(self)@ ==> match event {
                LoopEvent::Received(item, true) => r == LoopAction::Forward(item) && !final(self)@,
                LoopEvent::Received(_, false) => r is Skip && !final(self)@,
                LoopEvent::ReadFailed => r is Stop && final(self)@,
                LoopEvent::Closed => r is Stop && final(self)@,
            },
    {
        proof {
            use_type_invariant(&*self);
        }
        let ghost h = self.history@.push(event);
        assert(h.drop_last() =~= self.history@);
        if self.stopped {
            *self = ForwardLoop { stopped: true, history: Ghost(h) };
            return LoopAction::Stop;
        }
        match event {
            LoopEvent::Received(item, deliverable) => {
                *self = ForwardLoop { stopped: false, history: Ghost(h) };
                if deliverable {
                    LoopAction::Forward(item)
                } else {
                    LoopAction::Skip
                }
            },
            LoopEvent::ReadFailed => {
                *self = ForwardLoop { stopped: true, history: Ghost(h) };
                LoopAction::Stop
            },
            LoopEvent::Closed => {
                *self = ForwardLoop { stopped: true, history: Ghost(h) };
                LoopAction::Stop
            },
        }
    }
}

/// Order is kept: what a loop forwards is what it read, with some items left
/// out and the rest in the order they were read.
pub proof fn lemma_forwarded_in_order<T>(events: Seq<LoopEvent<T>>)
    ensures
        is_subsequence(run_loop(events).0, items_read(events)),
    decreases events.len(),
{
    let sent = run_loop(events).0;
    let read = items_read(events);
    if events.len() == 0 {
        let idx: Seq<int> = seq![];
        assert(picks(sent, read, idx));
    } else {
        let prev = events.drop_last();
        lemma_forwarded_in_order(prev);
        let (psent, pstopped) = run_loop(prev);
        let pread = items_read(prev);
        let pidx = choose|idx: Seq<int>| picks(psent, pread, idx);
        match events.last() {
            LoopEvent::Received(item, d) => {
                assert(read == pread.push(item));
                if !pstopped && d {
                    let idx = pidx.push(pread.len() as int);
                    assert(sent == psent.push(item));
                    assert forall|i: int| 0 <= i < idx.len() implies 0 <= #[trigger] idx[i]
                        < read.len() && read[idx[i]] == sent[i] by {
                        if i < pidx.len() {
                            assert(idx[i] == pidx[i]);
                        }
                    }
                    assert forall|i: int, j: int| 0 <= i < j < idx.len() implies idx[i]
                        < idx[j] by {
                        if j < pidx.len() {
                            assert(idx[i] == pidx[i]);
                            assert(idx[j] == pidx[j]);
                        } else {
                            assert(idx[i] == pidx[i]);
                        }
                    }
                    assert(picks(sent, read, idx));
                } else {
                    assert(sent == psent);
                    assert forall|i: int| 0 <= i < pidx.len() implies 0 <= #[trigger] pidx[i]
                        < read.len() && read[pidx[i]] == sent[i] by {
                        assert(read[pidx[i]] == pread[pidx[i]]);
                    }
                    assert(picks(sent, read, pidx));
                }
            },
            _ => {
                assert(read == pread);
                assert(sent == psent);
                assert(picks(sent, read, pidx));
            },
        }
    }
}

/// A close stops a loop for good: nothing read after it is forwarded.
pub proof fn lemma_nothing_after_close<T>(events: Seq<LoopEvent<T>>, later: Seq<LoopEvent<T>>)
    ensures
        run_loop(events.push(LoopEvent::Closed) + later).0 == run_loop(events).0,
        run_loop(events.push(LoopEvent::Closed) + later).1,
    decreases later.len(),
{
    let closed = events.push(LoopEvent::Closed);
    assert(closed.drop_last() =~= events);
    if later.len() == 0 {
        assert(closed + later =~= closed);
    } else {
        lemma_nothing_after_close(events, later.drop_last());
        assert((closed + later).drop_last() =~= closed + later.drop_last());
    }
}

} // verus!

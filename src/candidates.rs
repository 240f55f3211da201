use vstd::prelude::*;

verus! {

/// ICE candidates that arrived before the remote description: they are
/// parked here and handed back, in arrival order, once it is set.
pub struct PendingCandidates<C> {
    parked: Vec<C>,
}

impl<C> View for PendingCandidates<C> {
    type V = Seq<C>;

    closed spec fn view(&self) -> Seq<C> {
        self.parked@
    }
}

impl<C> PendingCandidates<C> {
    /// Nothing parked.
    pub fn new() -> (r: PendingCandidates<C>)
        ensures
            r@ == Seq::<C>::empty(),
    {
        PendingCandidates { parked: Vec::new() }
    }

    /// A candidate arrives. With a remote description in place it is handed
    /// back, to be added to the peer connection now; without one it is parked.
    pub fn add(&mut self, candidate: C, has_remote_description: bool) -> (r: Option<C>)
        ensures
            has_remote_description ==> r == Some(candidate) && final(self)@ == old(self)@,
            !has_remote_description ==> r is None && final(self)@ == old(self)@.push(candidate),
    {
        if has_remote_description {
            Some(candidate)
        } else {
            self.parked.push(candidate);
            None
        }
    }

    /// The remote description has been set: every parked candidate, in the
    /// order it arrived, and nothing stays parked.
    pub fn flush(&mut self) -> (r: Vec<C>)
        ensures
            r@ == old(self)@,
            final(self)@ == Seq::<C>::empty(),
    {
        let mut out: Vec<C> = Vec::new();
        std::mem::swap(&mut out, &mut self.parked);
        out
    }

    /// How many candidates are parked.
    pub fn len(&self) -> (r: usize)
        ensures
            r == self@.len(),
    {
        self.parked.len()
    }
}

} // verus!

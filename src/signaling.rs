use vstd::prelude::*;

verus! {

/// The offer/answer state of a subscribing peer connection.
///
/// `in_flight`: an offer has been made and its answer has not been applied.
/// `waiting`: a renegotiation was asked for while an offer was in flight.
/// `offers` and `answers` count the offers made and the answers applied.
pub struct SignalingModel {
    pub in_flight: bool,
    pub waiting: bool,
    pub offers: nat,
    pub answers: nat,
}

/// At most one offer is ever waiting for its answer, and a renegotiation only
/// waits behind an offer in flight.
pub open spec fn single_flight(s: SignalingModel) -> bool {
    &&& s.offers == s.answers + if s.in_flight { 1nat } else { 0nat }
    &&& s.waiting ==> s.in_flight
}

pub open spec fn initial_signaling() -> SignalingModel {
    SignalingModel { in_flight: false, waiting: false, offers: 0, answers: 0 }
}

/// A subscribe asks to make an offer: it may when none is in flight.
pub open spec fn claim_step(s: SignalingModel) -> (SignalingModel, bool) {
    if s.in_flight {
        (s, false)
    } else {
        (SignalingModel { in_flight: true, offers: s.offers + 1, ..s }, true)
    }
}

/// The peer connection needs a renegotiation: the offer is made now when none
/// is in flight, else the renegotiation waits for the answer.
pub open spec fn negotiation_step(s: SignalingModel) -> (SignalingModel, bool) {
    if s.in_flight {
        (SignalingModel { waiting: true, ..s }, false)
    } else {
        (SignalingModel { in_flight: true, offers: s.offers + 1, ..s }, true)
    }
}

/// An answer is applied. It closes the offer in flight; a waiting
/// renegotiation then makes its offer at once (the result says so).
pub open spec fn answer_step(s: SignalingModel) -> (SignalingModel, bool) {
    if !s.in_flight {
        (s, false)
    } else if s.waiting {
        (
            SignalingModel {
                in_flight: true,
                waiting: false,
                offers: s.offers + 1,
                answers: s.answers + 1,
            },
            true,
        )
    } else {
        (SignalingModel { in_flight: false, answers: s.answers + 1, ..s }, false)
    }
}

/// Whatever happens, only one offer/answer cycle is in flight at a time: every
/// step keeps the count of offers at most one above the count of answers.
pub proof fn lemma_single_flight_kept(s: SignalingModel)
    requires
        single_flight(s),
    ensures
        single_flight(claim_step(s).0),
        single_flight(negotiation_step(s).0),
        single_flight(answer_step(s).0),
{
}

/// The state a new transport starts in is single-flight.
pub proof fn lemma_single_flight_initial()
    ensures
        single_flight(initial_signaling()),
{
}

/// A subscribe that claimed the offer, followed by the answer to it, leaves
/// no offer in flight.
pub proof fn lemma_subscribe_then_answer(s: SignalingModel)
    requires
        single_flight(s),
        claim_step(s).1,
    ensures
        !answer_step(claim_step(s).0).0.in_flight,
        !answer_step(claim_step(s).0).1,
{
}

/// A renegotiation asked for while a subscription's offer is in flight waits
/// for that offer's answer, then makes exactly one more offer.
pub proof fn lemma_renegotiation_waits_for_answer(s: SignalingModel)
    requires
        single_flight(s),
        !s.in_flight,
    ensures
        ({
            let (s1, claimed) = claim_step(s);
            let (s2, now) = negotiation_step(s1);
            let (s3, started) = answer_step(s2);
            let (s4, again) = answer_step(s3);
            &&& claimed
            &&& !now
            &&& !claim_step(s2).1
            &&& started
            &&& s3.in_flight
            &&& s3.offers == s.offers + 2
            &&& !again
            &&& !s4.in_flight
            &&& s4.offers == s.offers + 2
        }),
{
}

/// Serialises the offer/answer cycles of one subscribing peer connection.
pub struct Signaling {
    in_flight: bool,
    waiting: bool,
    offers: Ghost<nat>,
    answers: Ghost<nat>,
}

impl View for Signaling {
    type V = SignalingModel;

    closed spec fn view(&self) -> SignalingModel {
        SignalingModel {
            in_flight: self.in_flight,
            waiting: self.waiting,
            offers: self.offers@,
            answers: self.answers@,
        }
    }
}

impl Signaling {
    /// Every state a transport can reach is single-flight.
    #[verifier::type_invariant]
    spec fn inv(&self) -> bool {
        single_flight(self@)
    }

    /// No offer in flight, none waiting.
    pub fn new() -> (r: Signaling)
        ensures
            r@ == initial_signaling(),
    {
        Signaling { in_flight: false, waiting: false, offers: Ghost(0), answers: Ghost(0) }
    }

    /// Whether an offer is waiting for its answer.
    pub fn is_pending(&self) -> (r: bool)
        ensures
            r == self@.in_flight,
            single_flight(self@),
    {
        proof {
            use_type_invariant(self);
        }
        self.in_flight
    }

    /// Claims the right to make an offer for a subscription. Returns false,
    /// changing nothing, while another offer is in flight: the caller tries
    /// again later.
    pub fn try_claim(&mut self) -> (r: bool)
        ensures
            (final(self)@, r) == claim_step(old(self)@),
            single_flight(old(self)@),
            single_flight(final(self)@),
    {
        proof {
            use_type_invariant(&*self);
        }
        if self.in_flight {
            false
        } else {
            *self = Signaling {
                in_flight: true,
                waiting: self.waiting,
                offers: Ghost(self.offers@ + 1),
                answers: Ghost(self.answers@),
            };
            true
        }
    }

    /// The peer connection asks for a renegotiation. Returns whether its offer
    /// is to be made now; if not, it is made when the answer in flight comes.
    pub fn negotiation_needed(&mut self) -> (r: bool)
        ensures
            (final(self)@, r) == negotiation_step(old(self)@),
            single_flight(old(self)@),
            single_flight(final(self)@),
    {
        proof {
            use_type_invariant(&*self);
        }
        if self.in_flight {
            *self = Signaling {
                in_flight: true,
                waiting: true,
                offers: Ghost(self.offers@),
                answers: Ghost(self.answers@),
            };
            false
        } else {
            *self = Signaling {
                in_flight: true,
                waiting: self.waiting,
                offers: Ghost(self.offers@ + 1),
                answers: Ghost(self.answers@),
            };
            true
        }
    }

    /// The answer to the offer in flight has been applied. Returns whether a
    /// waiting renegotiation is to make its offer now.
    pub fn answer_applied(&mut self) -> (r: bool)
        ensures
            (final(self)@, r) == answer_step(old(self)@),
            single_flight(old(self)@),
            single_flight(final(self)@),
    {
        proof {
            use_type_invariant(&*self);
        }
        if !self.in_flight {
            false
        } else if self.waiting {
            *self = Signaling {
                in_flight: true,
                waiting: false,
                offers: Ghost(self.offers@ + 1),
                answers: Ghost(self.answers@ + 1),
            };
            true
        } else {
            *self = Signaling {
                in_flight: false,
                waiting: false,
                offers: Ghost(self.offers@),
                answers: Ghost(self.answers@ + 1),
            };
            false
        }
    }
}

} // verus!

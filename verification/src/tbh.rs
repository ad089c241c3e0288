//! Sign-crossing bookkeeping of the take-back-half temperature regulator:
//! it remembers the output at the last change of sign of the control error,
//! and hands it back at the next change, so that the regulator can continue
//! from the mean of the two.
use vstd::prelude::*;

verus! {

/// Memory of the take-back-half regulator.
pub struct SignCrossing<V> {
    /// Sign of the control error at the last feed (`true` for positive).
    pub last_positive: bool,
    /// Output at the last sign change; `None` before the first feed.
    pub value_at_last_crossing: Option<V>,
}

/// State after a feed, and what the feed hands back.
pub open spec fn crossing_step<V>(s: SignCrossing<V>, positive: bool, value: V) -> (SignCrossing<V>, Option<V>) {
    match s.value_at_last_crossing {
        None => (SignCrossing { last_positive: positive, value_at_last_crossing: Some(value) }, None),
        Some(v) => if positive != s.last_positive {
            (SignCrossing { last_positive: positive, value_at_last_crossing: Some(value) }, Some(v))
        } else {
            (s, None)
        },
    }
}

impl<V> SignCrossing<V> {
    /// Memory before the first feed.
    pub fn new() -> (r: Self)
        ensures
            !r.last_positive,
            r.value_at_last_crossing is None,
    {
        SignCrossing { last_positive: false, value_at_last_crossing: None }
    }

    /// Feeds the sign of the current control error and the output computed
    /// for it. The first feed records the output. At a later feed whose sign
    /// differs from the previous one, the output is recorded and the output
    /// recorded before is handed back; otherwise nothing changes.
    pub fn observe(&mut self, positive: bool, value: V) -> (r: Option<V>)
        ensures
            (*final(self), r) == crossing_step(*old(self), positive, value),
    {
        if self.value_at_last_crossing.is_none() {
            self.value_at_last_crossing = Some(value);
            self.last_positive = positive;
            None
        } else if positive != self.last_positive {
            let previous = self.value_at_last_crossing.take();
            self.value_at_last_crossing = Some(value);
            self.last_positive = positive;
            previous
        } else {
            None
        }
    }
}

/// After any feed, the memory holds an output and the sign of that feed; a
/// feed hands back an output exactly when memory held one and the sign
/// changed, and that output is the one recorded at the previous change.
pub proof fn lemma_crossing_feed<V>(s: SignCrossing<V>, positive: bool, value: V)
    ensures
        ({
            let (t, r) = crossing_step(s, positive, value);
            &&& t.last_positive == positive
            &&& t.value_at_last_crossing is Some
            &&& (r is Some <==> (s.value_at_last_crossing is Some && positive != s.last_positive))
            &&& (r is Some ==> r == s.value_at_last_crossing && t.value_at_last_crossing == Some(value))
            &&& (r is None && s.value_at_last_crossing is Some ==> t == s)
        }),
{
}

} // verus!

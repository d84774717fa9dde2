//! Packet sequence numbers: nonzero 32-bit counters.
use vstd::prelude::*;

verus! {

/// A packet sequence number; it is never zero.
#[derive(Clone, Copy, Debug, PartialEq, Eq, Hash, PartialOrd, Ord)]
pub struct Sequence(u32);

impl View for Sequence {
    type V = u32;

    closed spec fn view(&self) -> u32 {
        self.0
    }
}

/// Two sequence numbers are equal exactly when their values are.
pub broadcast proof fn lemma_sequence_view_injective(a: Sequence, b: Sequence)
    ensures
        #[trigger] (a@) == #[trigger] (b@) <==> a == b,
{
}

/// The sequence number whose value is `n`.
pub closed spec fn sequence_of(n: u32) -> Sequence {
    Sequence(n)
}

/// The sequence number made from a value has that value.
pub broadcast proof fn lemma_sequence_of_view(n: u32)
    ensures
        #[trigger] sequence_of(n)@ == n,
{
}

/// A sequence number is the one made from its value.
pub broadcast proof fn lemma_sequence_of_value(s: Sequence)
    ensures
        #[trigger] sequence_of(s@) == s,
{
}

impl Sequence {
    #[verifier::type_invariant]
    closed spec fn inv(self) -> bool {
        self.0 != 0
    }

    /// The sequence number 1.
    pub fn one() -> (r: Self)
        ensures
            r@ == 1,
    {
        Sequence(1)
    }

    /// The sequence number `non_zero_value`, or `None` when it is zero.
    pub fn new(non_zero_value: u32) -> (r: Option<Self>)
        ensures
            non_zero_value == 0 <==> r is None,
            r matches Some(s) ==> s@ == non_zero_value,
    {
        if non_zero_value == 0 {
            None
        } else {
            Some(Sequence(non_zero_value))
        }
    }

    /// The sequence number `non_zero_value`, which the caller knows to be nonzero.
    pub fn new_unchecked(non_zero_value: u32) -> (r: Self)
        requires
            non_zero_value != 0,
        ensures
            r@ == non_zero_value,
    {
        Sequence(non_zero_value)
    }

    /// The value of the sequence number.
    pub fn get(&self) -> (r: u32)
        ensures
            r == self@,
            r != 0,
    {
        proof {
            use_type_invariant(self);
        }
        self.0
    }

    /// The next sequence number; `self` must not be the largest one.
    pub fn next(&self) -> (r: Self)
        requires
            self@ < u32::MAX,
        ensures
            r@ == self@ + 1,
    {
        Sequence(self.0 + 1)
    }

    /// Whether two sequence numbers are the same.
    pub fn same(&self, other: &Self) -> (r: bool)
        ensures
            r == (*self == *other),
    {
        self.0 == other.0
    }
}

impl Default for Sequence {
    fn default() -> (r: Self)
        ensures
            r@ == 1,
    {
        Sequence(1)
    }
}

} // verus!

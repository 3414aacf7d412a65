use vstd::prelude::*;

verus! {

/// Arithmetic capability for the scalar values a network computes with.
///
/// The trainer never fixes a concrete number representation: every scalar
/// operation it performs goes through this trait, so a caller may bind the
/// network to floating point, fixed point, or any other numeric carrier.
///
/// Each operation is *named* at the specification level by a bodiless spec
/// function, and each executable method promises to return exactly that named
/// value of its arguments. The names are uninterpreted — nothing here says
/// what `add_spec` computes — but they let every contract downstream pin the
/// exact dataflow: which operations are applied, to which operands, in which
/// association. An implementation verified by Verus is held to these
/// contracts; an implementation outside verified code (a floating point
/// one, say) is trusted to meet them, which amounts to one assumption: each
/// operation is a pure function of its arguments — equal arguments give the
/// equal result, with no hidden state.
pub trait Num: Sized + Copy {
    /// The value [`Num::zero`] returns.
    spec fn zero_spec() -> Self;

    /// The value [`Num::one`] returns.
    spec fn one_spec() -> Self;

    /// The value [`Num::from_usize`] returns.
    spec fn from_usize_spec(n: usize) -> Self;

    /// The sum of `self` and `other`.
    spec fn add_spec(self, other: Self) -> Self;

    /// The difference of `self` and `other`.
    spec fn sub_spec(self, other: Self) -> Self;

    /// The product of `self` and `other`.
    spec fn mul_spec(self, other: Self) -> Self;

    /// The quotient of `self` and `other`.
    spec fn div_spec(self, other: Self) -> Self;

    /// The additive inverse of `self`.
    spec fn neg_spec(self) -> Self;

    /// The exponential of `self`.
    spec fn exp_spec(self) -> Self;

    /// The square root of `self`.
    spec fn sqrt_spec(self) -> Self;

    /// Whether `self` comes strictly before `other` in the representation's
    /// order.
    spec fn lt_spec(self, other: Self) -> bool;

    /// The additive identity of the representation.
    fn zero() -> (r: Self)
        ensures
            r == Self::zero_spec(),
    ;

    /// The multiplicative identity of the representation.
    fn one() -> (r: Self)
        ensures
            r == Self::one_spec(),
    ;

    /// The representation of a machine-sized count (used for width-scaled
    /// initialization).
    fn from_usize(n: usize) -> (r: Self)
        ensures
            r == Self::from_usize_spec(n),
    ;

    /// Addition.
    fn plus(&self, other: &Self) -> (r: Self)
        ensures
            r == self.add_spec(*other),
    ;

    /// Subtraction.
    fn minus(&self, other: &Self) -> (r: Self)
        ensures
            r == self.sub_spec(*other),
    ;

    /// Multiplication.
    fn times(&self, other: &Self) -> (r: Self)
        ensures
            r == self.mul_spec(*other),
    ;

    /// Division.
    fn div_by(&self, other: &Self) -> (r: Self)
        ensures
            r == self.div_spec(*other),
    ;

    /// Additive inverse.
    fn negate(&self) -> (r: Self)
        ensures
            r == self.neg_spec(),
    ;

    /// The exponential function.
    fn exp(&self) -> (r: Self)
        ensures
            r == self.exp_spec(),
    ;

    /// The square root.
    fn sqrt(&self) -> (r: Self)
        ensures
            r == self.sqrt_spec(),
    ;

    /// Strict order test: `self < other` in the representation's order.
    fn less_than(&self, other: &Self) -> (r: bool)
        ensures
            r == self.lt_spec(*other),
    ;
}

/// A source of scalar samples, injected wherever a network draws default
/// weights or biases.
///
/// Keeping the source explicit (rather than reaching for process-global
/// randomness) makes construction reproducible: two builds fed the same
/// source state see the same samples.
///
/// The source is modelled as a state machine: each draw is named by a spec
/// function giving the sample and the successor state as a pure function of
/// the state it was drawn from, and each executable method promises exactly
/// that pair. Which value a state yields stays uninterpreted. As with
/// [`Num`], an implementation outside verified code is trusted to behave as
/// a deterministic state machine; an implementation wrapping an opaque
/// process-global generator satisfies the letter of this only as far as its
/// handle stands for the hidden state.
pub trait Sampler<T>: Sized {
    /// The sample [`Sampler::gen_range`] draws from this state, and the
    /// state it leaves behind.
    spec fn gen_range_spec(self, low: T, high: T) -> (T, Self);

    /// The sample [`Sampler::gen`] draws from this state, and the state it
    /// leaves behind.
    spec fn gen_spec(self) -> (T, Self);

    /// Draws one sample intended to lie in `[low, high)`.
    fn gen_range(&mut self, low: T, high: T) -> (r: T)
        ensures
            (r, *final(self)) == old(self).gen_range_spec(low, high),
    ;

    /// Draws one sample intended to lie in `[0, 1)`.
    fn gen(&mut self) -> (r: T)
        ensures
            (r, *final(self)) == old(self).gen_spec(),
    ;
}

} // verus!

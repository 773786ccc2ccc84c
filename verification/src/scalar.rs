use vstd::prelude::*;

verus! {

/// Selects the scalar nonlinearity a network applies to each accumulated
/// node sum. The network is agnostic to which variant is chosen: it never
/// branches on the activation's identity, it only applies it elementwise.
#[derive(Clone, Copy, Debug, PartialEq, Eq, Structural)]
pub enum Activation {
    /// Passes the accumulated sum through unchanged.
    Identity,
    /// One for strictly positive sums, zero otherwise.
    Step,
    /// The logistic curve.
    Sigmoid,
    /// The logistic curve rounded to the nearest whole value, halves away
    /// from zero.
    SigmoidStep,
    /// The hyperbolic tangent.
    HyperbolicTangent,
}

/// The numeric domain a network computes over.
///
/// The forward pass needs exactly five capabilities of its scalars: addition
/// and multiplication for the weighted sums, application of an [`Activation`],
/// and — for classification — a comparability test and a strict order on the
/// comparable values. Each executable method is pinned to a specification
/// function, so everything the layers and networks prove holds for any
/// implementation whose methods meet these contracts.
///
/// The crate ships two implementations: [`i64`], whose arithmetic wraps, and
/// [`Option<i64>`], which propagates an absent value through the arithmetic
/// the way a non-comparable number would. An embedder may supply further
/// domains (an IEEE double, say) from outside the verified core.
pub trait Scalar: Sized + Copy {
    /// What addition means on this domain.
    spec fn spec_plus(self, other: Self) -> Self;

    /// What multiplication means on this domain.
    spec fn spec_times(self, other: Self) -> Self;

    /// What applying the activation `f` means on this domain.
    spec fn spec_activate(self, f: Activation) -> Self;

    /// Whether this value takes part in the strict order; classification
    /// rejects vectors holding a value for which this is false.
    spec fn spec_comparable(self) -> bool;

    /// The strict order used to pick the largest output.
    spec fn spec_less_than(self, other: Self) -> bool;

    fn plus(self, other: Self) -> (r: Self)
        ensures
            r == self.spec_plus(other),
    ;

    fn times(self, other: Self) -> (r: Self)
        ensures
            r == self.spec_times(other),
    ;

    fn activate(self, f: Activation) -> (r: Self)
        ensures
            r == self.spec_activate(f),
    ;

    fn is_comparable(&self) -> (r: bool)
        ensures
            r == self.spec_comparable(),
    ;

    fn less_than(&self, other: &Self) -> (r: bool)
        ensures
            r == self.spec_less_than(*other),
    ;
}

/// The whole-number domain. Addition and multiplication wrap on overflow,
/// every value is comparable, and the order is the usual one. The smooth
/// activations collapse to their rounded forms, since a whole-number domain
/// can only hold the rounded value: the logistic curve rounds to one at and
/// above zero (halves away from zero) and to zero below, and the hyperbolic
/// tangent rounds to the sign of its argument.
impl Scalar for i64 {
    open spec fn spec_plus(self, other: i64) -> i64 {
        vstd::wrapping::i64_specs::wrapping_add(self, other)
    }

    open spec fn spec_times(self, other: i64) -> i64 {
        vstd::wrapping::i64_specs::wrapping_mul(self, other)
    }

    open spec fn spec_activate(self, f: Activation) -> i64 {
        match f {
            Activation::Identity => self,
            Activation::Step => if self > 0 { 1 } else { 0 },
            Activation::Sigmoid => if self >= 0 { 1 } else { 0 },
            Activation::SigmoidStep => if self >= 0 { 1 } else { 0 },
            Activation::HyperbolicTangent => if self > 0 {
                1
            } else if self < 0 {
                -1i64
            } else {
                0
            },
        }
    }

    open spec fn spec_comparable(self) -> bool {
        true
    }

    open spec fn spec_less_than(self, other: i64) -> bool {
        self < other
    }

    fn plus(self, other: i64) -> (r: i64)
        ensures
            r == self.spec_plus(other),
    {
        self.wrapping_add(other)
    }

    fn times(self, other: i64) -> (r: i64)
        ensures
            r == self.spec_times(other),
    {
        self.wrapping_mul(other)
    }

    fn activate(self, f: Activation) -> (r: i64)
        ensures
            r == self.spec_activate(f),
    {
        match f {
            Activation::Identity => self,
            Activation::Step => if self > 0 { 1 } else { 0 },
            Activation::Sigmoid => if self >= 0 { 1 } else { 0 },
            Activation::SigmoidStep => if self >= 0 { 1 } else { 0 },
            Activation::HyperbolicTangent => if self > 0 {
                1
            } else if self < 0 {
                -1
            } else {
                0
            },
        }
    }

    fn is_comparable(&self) -> (r: bool)
        ensures
            r == self.spec_comparable(),
    {
        true
    }

    fn less_than(&self, other: &i64) -> (r: bool)
        ensures
            r == self.spec_less_than(*other),
    {
        *self < *other
    }
}

/// The whole-number domain extended with an absent value. `None` behaves the
/// way a non-comparable number does in partial orders: it propagates through
/// addition, multiplication and activation, it is not comparable, and it is
/// never less than anything. Classification over this domain therefore
/// rejects, rather than silently ranks, a vector that holds `None`.
impl Scalar for Option<i64> {
    open spec fn spec_plus(self, other: Option<i64>) -> Option<i64> {
        match (self, other) {
            (Some(a), Some(b)) => Some(a.spec_plus(b)),
            _ => None,
        }
    }

    open spec fn spec_times(self, other: Option<i64>) -> Option<i64> {
        match (self, other) {
            (Some(a), Some(b)) => Some(a.spec_times(b)),
            _ => None,
        }
    }

    open spec fn spec_activate(self, f: Activation) -> Option<i64> {
        match self {
            Some(a) => Some(a.spec_activate(f)),
            None => None,
        }
    }

    open spec fn spec_comparable(self) -> bool {
        self is Some
    }

    open spec fn spec_less_than(self, other: Option<i64>) -> bool {
        match (self, other) {
            (Some(a), Some(b)) => a < b,
            _ => false,
        }
    }

    fn plus(self, other: Option<i64>) -> (r: Option<i64>)
        ensures
            r == self.spec_plus(other),
    {
        match (self, other) {
            (Some(a), Some(b)) => Some(a.plus(b)),
            _ => None,
        }
    }

    fn times(self, other: Option<i64>) -> (r: Option<i64>)
        ensures
            r == self.spec_times(other),
    {
        match (self, other) {
            (Some(a), Some(b)) => Some(a.times(b)),
            _ => None,
        }
    }

    fn activate(self, f: Activation) -> (r: Option<i64>)
        ensures
            r == self.spec_activate(f),
    {
        match self {
            Some(a) => Some(a.activate(f)),
            None => None,
        }
    }

    fn is_comparable(&self) -> (r: bool)
        ensures
            r == self.spec_comparable(),
    {
        self.is_some()
    }

    fn less_than(&self, other: &Option<i64>) -> (r: bool)
        ensures
            r == self.spec_less_than(*other),
    {
        match (self, other) {
            (Some(a), Some(b)) => *a < *b,
            _ => false,
        }
    }
}

} // verus!

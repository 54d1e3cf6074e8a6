//! Easing curve selectors.
//!
//! An easing curve is chosen by a pair of selectors: the [`EasingFunction`]
//! picks the curve family and the [`EasingType`] picks its direction.  The
//! numeric formulas themselves operate on floating-point values and live with
//! the host; this module owns the closed set of selectors and their integer
//! encoding, which external track descriptions use.

use vstd::prelude::*;

verus! {

/// The closed set of curve families.
///
/// The integer encoding used by external descriptions maps `0` to `Linear`
/// through `10` to `Elastic`, in declaration order; see
/// [`EasingFunction::from_index`].
#[derive(Debug, Copy, Clone, PartialEq, Eq, Hash, Structural)]
pub enum EasingFunction {
    Linear,
    Sine,
    Circular,
    Quadratic,
    Cubic,
    Quartic,
    Quintic,
    Exponential,
    Back,
    Bounce,
    Elastic,
}

/// The closed set of curve directions: accelerate in, decelerate out, or both.
#[derive(Debug, Copy, Clone, PartialEq, Eq, Hash, Structural)]
pub enum EasingType {
    In,
    Out,
    InOut,
}

impl Default for EasingFunction {
    /// The default curve family is `Linear`.
    fn default() -> (f: EasingFunction)
        ensures
            f == EasingFunction::Linear,
    {
        EasingFunction::Linear
    }
}

impl Default for EasingType {
    /// The default curve direction is `In`.
    fn default() -> (t: EasingType)
        ensures
            t == EasingType::In,
    {
        EasingType::In
    }
}

/// The curve family encoded by `index`, if `index` is in range.
pub open spec fn function_of_index(index: u8) -> Option<EasingFunction> {
    if index == 0 {
        Some(EasingFunction::Linear)
    } else if index == 1 {
        Some(EasingFunction::Sine)
    } else if index == 2 {
        Some(EasingFunction::Circular)
    } else if index == 3 {
        Some(EasingFunction::Quadratic)
    } else if index == 4 {
        Some(EasingFunction::Cubic)
    } else if index == 5 {
        Some(EasingFunction::Quartic)
    } else if index == 6 {
        Some(EasingFunction::Quintic)
    } else if index == 7 {
        Some(EasingFunction::Exponential)
    } else if index == 8 {
        Some(EasingFunction::Back)
    } else if index == 9 {
        Some(EasingFunction::Bounce)
    } else if index == 10 {
        Some(EasingFunction::Elastic)
    } else {
        None
    }
}

/// The curve direction encoded by `index`, if `index` is in range.
pub open spec fn type_of_index(index: u8) -> Option<EasingType> {
    if index == 0 {
        Some(EasingType::In)
    } else if index == 1 {
        Some(EasingType::Out)
    } else if index == 2 {
        Some(EasingType::InOut)
    } else {
        None
    }
}

impl EasingFunction {
    /// Decodes the selector `index` used by external track descriptions:
    /// `0` is `Linear`, `1` `Sine`, `2` `Circular`, `3` `Quadratic`,
    /// `4` `Cubic`, `5` `Quartic`, `6` `Quintic`, `7` `Exponential`,
    /// `8` `Back`, `9` `Bounce`, `10` `Elastic`; anything larger is
    /// out of range.
    pub fn from_index(index: u8) -> (f: Option<EasingFunction>)
        ensures
            f == function_of_index(index),
    {
        match index {
            0 => Some(EasingFunction::Linear),
            1 => Some(EasingFunction::Sine),
            2 => Some(EasingFunction::Circular),
            3 => Some(EasingFunction::Quadratic),
            4 => Some(EasingFunction::Cubic),
            5 => Some(EasingFunction::Quartic),
            6 => Some(EasingFunction::Quintic),
            7 => Some(EasingFunction::Exponential),
            8 => Some(EasingFunction::Back),
            9 => Some(EasingFunction::Bounce),
            10 => Some(EasingFunction::Elastic),
            _ => None,
        }
    }

    /// The selector index that encodes `self`; the inverse of `from_index`.
    pub fn as_index(&self) -> (index: u8)
        ensures
            function_of_index(index) == Some(*self),
            index <= 10,
    {
        match self {
            EasingFunction::Linear => 0,
            EasingFunction::Sine => 1,
            EasingFunction::Circular => 2,
            EasingFunction::Quadratic => 3,
            EasingFunction::Cubic => 4,
            EasingFunction::Quartic => 5,
            EasingFunction::Quintic => 6,
            EasingFunction::Exponential => 7,
            EasingFunction::Back => 8,
            EasingFunction::Bounce => 9,
            EasingFunction::Elastic => 10,
        }
    }
}

impl EasingType {
    /// Decodes the selector `index` used by external track descriptions:
    /// `0` is `In`, `1` `Out`, `2` `InOut`; anything larger is out of range.
    pub fn from_index(index: u8) -> (t: Option<EasingType>)
        ensures
            t == type_of_index(index),
    {
        match index {
            0 => Some(EasingType::In),
            1 => Some(EasingType::Out),
            2 => Some(EasingType::InOut),
            _ => None,
        }
    }

    /// The selector index that encodes `self`; the inverse of `from_index`.
    pub fn as_index(&self) -> (index: u8)
        ensures
            type_of_index(index) == Some(*self),
            index <= 2,
    {
        match self {
            EasingType::In => 0,
            EasingType::Out => 1,
            EasingType::InOut => 2,
        }
    }
}

/// Marker for the proportional blend family: the value moves linearly from
/// start to end, at the same rate in every direction.
pub struct EasingLinear;

/// Marker for the quarter-period trigonometric family, built on the sine and
/// cosine of the normalized time.
pub struct EasingSine;

/// Marker for the quarter-circle family: the value follows circular arcs,
/// split at the midpoint for the two-sided direction.
pub struct EasingCircular;

/// Marker for the power curve of degree two.
pub struct EasingQuadratic;

/// Marker for the power curve of degree three.
pub struct EasingCubic;

/// Marker for the power curve of degree four.
pub struct EasingQuartic;

/// Marker for the power curve of degree five.
pub struct EasingQuintic;

/// Marker for the base-two exponential family, anchored exactly at the two
/// segment boundaries.
pub struct EasingExponential;

/// Marker for the overshoot family: the value leaves the start-to-end range
/// near the boundaries before settling.
pub struct EasingBack;

/// Marker for the bouncing family: four piecewise parabolic segments, with the
/// inward direction defined as the time reversal of the outward one.
pub struct EasingBounce;

/// Marker for the exponentially decaying sine family, anchored exactly at the
/// two segment boundaries.
pub struct EasingElastic;

} // verus!

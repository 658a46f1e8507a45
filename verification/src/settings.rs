//! The choices of a run: which parameter varies, how much is drawn, and
//! the names of the options that are real numbers.

use vstd::prelude::*;
use vstd::string::*;
use crate::decimal::{is_digit, is_mantissa, is_real_literal};

verus! {

/// The parameter that differs from one pendulum to the next.
#[derive(Clone, Copy, Debug, PartialEq, Eq, Structural)]
pub enum VaryingType {
    Angle,
    Length1,
    Length2,
    Mass1,
    Mass2,
}

/// How much is drawn of each pendulum.
#[derive(Clone, Copy, Debug, PartialEq, Eq, Structural)]
pub enum Quality {
    High,
    Medium,
    Low,
}

/// The options whose values are real numbers.
#[derive(Clone, Copy, Debug, PartialEq, Eq, Structural)]
pub enum RealOption {
    Separation,
    Mass1,
    Mass2,
    Radius1,
    Radius2,
    Magnification,
    Gravity,
    Transparency,
    Width,
    Speed,
}

impl Quality {
    /// The number of the tier: 1 for low, 2 for medium, 3 for high.
    pub open spec fn level_of(self) -> int {
        match self {
            Quality::Low => 1,
            Quality::Medium => 2,
            Quality::High => 3,
        }
    }

    /// The tier with the given number; any number but 2 and 3 is the low
    /// tier.
    pub open spec fn of_level(level: int) -> Quality {
        if level == 2 {
            Quality::Medium
        } else if level == 3 {
            Quality::High
        } else {
            Quality::Low
        }
    }

    /// The number of the tier: 1 for low, 2 for medium, 3 for high.
    pub fn level(self) -> (l: i32)
        ensures
            l == self.level_of(),
    {
        match self {
            Quality::Low => 1,
            Quality::Medium => 2,
            Quality::High => 3,
        }
    }

    /// The tier with the given number; any number but 2 and 3 is the low
    /// tier.
    pub fn from_level(level: i32) -> (q: Quality)
        ensures
            q == Quality::of_level(level as int),
    {
        if level == 2 {
            Quality::Medium
        } else if level == 3 {
            Quality::High
        } else {
            Quality::Low
        }
    }
}

/// The number of a tier names that tier again.
pub proof fn lemma_level_names_quality(q: Quality)
    ensures
        Quality::of_level(q.level_of()) == q,
{
}

impl RealOption {
    /// The text of the value that the option has where the command line
    /// does not set it.
    pub open spec fn default_of(self) -> Seq<char> {
        match self {
            RealOption::Separation => "0.1"@,
            RealOption::Mass1 => "10"@,
            RealOption::Mass2 => "10"@,
            RealOption::Radius1 => "125"@,
            RealOption::Radius2 => "125"@,
            RealOption::Magnification => "2"@,
            RealOption::Gravity => "0.1"@,
            RealOption::Transparency => "0.05"@,
            RealOption::Width => "1.5"@,
            RealOption::Speed => "1"@,
        }
    }

    /// The text of the value that the option has where the command line
    /// does not set it.
    pub fn default_text(self) -> (text: &'static str)
        ensures
            text@ == self.default_of(),
    {
        match self {
            RealOption::Separation => "0.1",
            RealOption::Mass1 => "10",
            RealOption::Mass2 => "10",
            RealOption::Radius1 => "125",
            RealOption::Radius2 => "125",
            RealOption::Magnification => "2",
            RealOption::Gravity => "0.1",
            RealOption::Transparency => "0.05",
            RealOption::Width => "1.5",
            RealOption::Speed => "1",
        }
    }
}

impl VaryingType {
    /// The option whose value is spread over the pendulums when this
    /// parameter varies: pendulum `i` of `n` is `i` times the `n`-th part
    /// of it away from the first. The angle is spread by the separation,
    /// and a length, like a mass, by the mass of its own bob.
    pub open spec fn span_of(self) -> RealOption {
        match self {
            VaryingType::Angle => RealOption::Separation,
            VaryingType::Length1 => RealOption::Mass1,
            VaryingType::Length2 => RealOption::Mass2,
            VaryingType::Mass1 => RealOption::Mass1,
            VaryingType::Mass2 => RealOption::Mass2,
        }
    }

    /// The option whose value is spread over the pendulums when this
    /// parameter varies.
    pub fn span(self) -> (option: RealOption)
        ensures
            option == self.span_of(),
    {
        match self {
            VaryingType::Angle => RealOption::Separation,
            VaryingType::Length1 => RealOption::Mass1,
            VaryingType::Length2 => RealOption::Mass2,
            VaryingType::Mass1 => RealOption::Mass1,
            VaryingType::Mass2 => RealOption::Mass2,
        }
    }
}

/// Every default is the text of a real number, as the values that the
/// command line gives are.
pub proof fn lemma_defaults_are_real(option: RealOption)
    ensures
        is_real_literal(option.default_of()),
{
    reveal_strlit("0.1");
    reveal_strlit("10");
    reveal_strlit("125");
    reveal_strlit("2");
    reveal_strlit("0.05");
    reveal_strlit("1.5");
    reveal_strlit("1");
    let s = option.default_of();
    assert(is_digit(s[0]));
}

} // verus!

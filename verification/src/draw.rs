//! What is drawn of one pendulum.
//!
//! A pendulum has three joints: the pivot it hangs from, the bob at the end
//! of the first rod, and the bob at the end of the second. The plan of a
//! quality tier lists the shapes to draw, in drawing order; where the
//! joints are on the screen is for the caller to work out.

use vstd::prelude::*;
use crate::settings::Quality;

verus! {

/// One of the three joints of a pendulum.
#[derive(Clone, Copy, Debug, PartialEq, Eq, Structural)]
pub enum Joint {
    Pivot,
    FirstBob,
    SecondBob,
}

/// One shape of the picture of a pendulum.
#[derive(Clone, Copy, Debug, PartialEq, Eq, Structural)]
pub enum Shape {
    /// A line from one joint to another, in the pendulum's colour.
    Rod { from: Joint, to: Joint },
    /// A filled circle at a bob, in the pendulum's colour, as large as the
    /// bob's mass.
    Disc { at: Joint },
    /// The black outline of a circle at a bob, as large as the bob's mass.
    Ring { at: Joint },
}

/// The two rods, which every tier draws.
pub open spec fn rods() -> Seq<Shape> {
    seq![
        Shape::Rod { from: Joint::Pivot, to: Joint::FirstBob },
        Shape::Rod { from: Joint::FirstBob, to: Joint::SecondBob },
    ]
}

/// The discs at the two bobs.
pub open spec fn discs() -> Seq<Shape> {
    seq![Shape::Disc { at: Joint::FirstBob }, Shape::Disc { at: Joint::SecondBob }]
}

/// The outlines at the two bobs.
pub open spec fn rings() -> Seq<Shape> {
    seq![Shape::Ring { at: Joint::FirstBob }, Shape::Ring { at: Joint::SecondBob }]
}

/// The shapes that a tier draws, in drawing order: the rods; from the
/// medium tier on, the discs after them; in the high tier, the outlines
/// after those.
pub open spec fn plan_of(quality: Quality) -> Seq<Shape> {
    match quality {
        Quality::Low => rods(),
        Quality::Medium => rods() + discs(),
        Quality::High => rods() + discs() + rings(),
    }
}

/// Lists the shapes to draw of a pendulum at the given tier, in drawing
/// order.
pub fn draw_plan(quality: Quality) -> (plan: Vec<Shape>)
    ensures
        plan@ == plan_of(quality),
{
    let mut plan: Vec<Shape> = Vec::new();
    plan.push(Shape::Rod { from: Joint::Pivot, to: Joint::FirstBob });
    plan.push(Shape::Rod { from: Joint::FirstBob, to: Joint::SecondBob });
    if quality.level() >= 2 {
        plan.push(Shape::Disc { at: Joint::FirstBob });
        plan.push(Shape::Disc { at: Joint::SecondBob });
    }
    if quality.level() >= 3 {
        plan.push(Shape::Ring { at: Joint::FirstBob });
        plan.push(Shape::Ring { at: Joint::SecondBob });
    }
    plan
}

/// A higher tier draws what a lower tier draws, in the same order, and
/// then more: two shapes for each step up, starting from the two rods.
pub proof fn lemma_plan_grows_with_quality(lower: Quality, higher: Quality)
    requires
        lower.level_of() <= higher.level_of(),
    ensures
        plan_of(lower).len() == 2 * lower.level_of(),
        plan_of(lower).is_prefix_of(plan_of(higher)),
        rods().is_prefix_of(plan_of(lower)),
{
}

} // verus!

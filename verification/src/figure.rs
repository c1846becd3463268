//! The hanged figure accretes one body part per wrong guess, in a fixed
//! order. Each part's geometry is derived from an earlier part (its anchor),
//! so the order is an invariant: a part may only be drawn once its anchor
//! has been. The renderer draws the parts this module hands out, in the order
//! it hands them out.

use vstd::prelude::*;

verus! {

/// One drawable part of the hanged figure.
#[derive(Clone, Copy, Debug, PartialEq, Eq, Structural)]
pub enum BodyPart {
    Head,
    Body,
    LeftArm,
    RightArm,
    LeftLeg,
    RightLeg,
    LeftEye,
    RightEye,
    Mouth,
}

/// The fixed order in which the figure accretes, one part per wrong guess.
pub open spec fn draw_order() -> Seq<BodyPart> {
    seq![
        BodyPart::Head,
        BodyPart::Body,
        BodyPart::LeftArm,
        BodyPart::RightArm,
        BodyPart::LeftLeg,
        BodyPart::RightLeg,
        BodyPart::LeftEye,
        BodyPart::RightEye,
        BodyPart::Mouth,
    ]
}

/// The part a part's geometry is derived from; the head hangs off the
/// gallows itself.
pub open spec fn anchor_of(p: BodyPart) -> Option<BodyPart> {
    match p {
        BodyPart::Head => None,
        BodyPart::Body => Some(BodyPart::Head),
        BodyPart::LeftArm => Some(BodyPart::Body),
        BodyPart::RightArm => Some(BodyPart::Body),
        BodyPart::LeftLeg => Some(BodyPart::Body),
        BodyPart::RightLeg => Some(BodyPart::Body),
        BodyPart::LeftEye => Some(BodyPart::Head),
        BodyPart::RightEye => Some(BodyPart::Head),
        BodyPart::Mouth => Some(BodyPart::Head),
    }
}

/// Every anchored part comes strictly after its anchor in the drawing order,
/// so drawing any prefix of the order always finds each part's anchor
/// already drawn.
pub proof fn lemma_draw_order_anchored()
    ensures
        forall|i: int|
            0 <= i < draw_order().len() && anchor_of(#[trigger] draw_order()[i]) is Some
                ==> exists|j: int|
                0 <= j < i && draw_order()[j] == anchor_of(draw_order()[i])->Some_0,
{
    assert forall|i: int|
        0 <= i < draw_order().len() && anchor_of(#[trigger] draw_order()[i]) is Some implies exists|
        j: int,
    | 0 <= j < i && draw_order()[j] == anchor_of(draw_order()[i])->Some_0 by {
        if 2 <= i <= 5 {
            assert(draw_order()[1] == anchor_of(draw_order()[i])->Some_0);
        } else {
            assert(draw_order()[0] == anchor_of(draw_order()[i])->Some_0);
        }
    }
}

/// The parts to draw after `num_wrong` wrong guesses: the first `num_wrong`
/// steps of the drawing order (all of them once the count passes the order's
/// length), each preceded by its anchor.
pub fn figure_steps(num_wrong: usize) -> (r: Vec<BodyPart>)
    ensures
        r@ == draw_order().take(if num_wrong < 9 {
            num_wrong as int
        } else {
            9
        }),
        forall|i: int|
            0 <= i < r@.len() && anchor_of(#[trigger] r@[i]) is Some ==> exists|j: int|
                0 <= j < i && r@[j] == anchor_of(r@[i])->Some_0,
{
    let mut all: Vec<BodyPart> = Vec::new();
    all.push(BodyPart::Head);
    all.push(BodyPart::Body);
    all.push(BodyPart::LeftArm);
    all.push(BodyPart::RightArm);
    all.push(BodyPart::LeftLeg);
    all.push(BodyPart::RightLeg);
    all.push(BodyPart::LeftEye);
    all.push(BodyPart::RightEye);
    all.push(BodyPart::Mouth);
    proof {
        assert(all@ =~= draw_order());
    }
    let n = if num_wrong < all.len() {
        num_wrong
    } else {
        all.len()
    };
    all.truncate(n);
    proof {
        lemma_draw_order_anchored();
        assert forall|i: int|
            0 <= i < all@.len() && anchor_of(#[trigger] all@[i]) is Some implies exists|j: int|
            0 <= j < i && all@[j] == anchor_of(all@[i])->Some_0 by {
            assert(all@[i] == draw_order()[i]);
            let j = choose|j: int|
                0 <= j < i && draw_order()[j] == anchor_of(draw_order()[i])->Some_0;
            assert(all@[j] == anchor_of(all@[i])->Some_0);
        }
    }
    all
}

} // verus!

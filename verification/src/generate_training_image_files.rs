//! Where the images of a task pair are placed when training images are
//! generated: each mutation of a task encodes four placements.

use vstd::prelude::*;

verus! {

/// Where an image is placed along one axis of its canvas.
#[derive(Clone, Copy, Debug, PartialEq, Eq, Structural)]
pub enum OverlayPositionId {
    Zero,
    OneThird,
    Half,
    TwoThird,
    One,
}

/// The placement that a base-five digit stands for.
pub open spec fn position_of_digit(digit: u64) -> OverlayPositionId {
    if digit == 0 {
        OverlayPositionId::Zero
    } else if digit == 1 {
        OverlayPositionId::OneThird
    } else if digit == 2 {
        OverlayPositionId::Half
    } else if digit == 3 {
        OverlayPositionId::TwoThird
    } else {
        OverlayPositionId::One
    }
}

/// The placements of one mutation: of the input image along x and y, then of
/// the output image along x and y.
#[derive(Clone, Copy, Debug, PartialEq, Eq, Structural)]
pub struct PairPlacement {
    pub in_x: OverlayPositionId,
    pub in_y: OverlayPositionId,
    pub out_x: OverlayPositionId,
    pub out_y: OverlayPositionId,
}

/// The placements that a mutation index encodes: its four lowest base-five
/// digits, lowest first.
pub open spec fn placement_of(mutation_index: u64) -> PairPlacement {
    PairPlacement {
        in_x: position_of_digit(mutation_index % 5),
        in_y: position_of_digit((mutation_index / 5) % 5),
        out_x: position_of_digit((mutation_index / 25) % 5),
        out_y: position_of_digit((mutation_index / 125) % 5),
    }
}

/// Generates the training images of a task.
pub struct GenerateTrainingImageFiles {}

impl GenerateTrainingImageFiles {
    /// Takes the lowest base-five digit off `index` and gives its placement.
    pub fn take_position_id(index: &mut u64) -> (r: OverlayPositionId)
        ensures
            r == position_of_digit(*old(index) % 5),
            *final(index) == *old(index) / 5,
    {
        let variant: u64 = *index % 5;
        *index = *index / 5;
        match variant {
            0 => OverlayPositionId::Zero,
            1 => OverlayPositionId::OneThird,
            2 => OverlayPositionId::Half,
            3 => OverlayPositionId::TwoThird,
            _ => OverlayPositionId::One,
        }
    }

    /// The placements that a mutation index encodes.
    pub fn placement(mutation_index: u64) -> (r: PairPlacement)
        ensures
            r == placement_of(mutation_index),
    {
        let mut current_mutation: u64 = mutation_index;
        let in_x = Self::take_position_id(&mut current_mutation);
        let in_y = Self::take_position_id(&mut current_mutation);
        let out_x = Self::take_position_id(&mut current_mutation);
        let out_y = Self::take_position_id(&mut current_mutation);
        assert(mutation_index / 5 / 5 == mutation_index / 25);
        assert(mutation_index / 5 / 5 / 5 == mutation_index / 125);
        PairPlacement { in_x, in_y, out_x, out_y }
    }

    /// The mutations that a task is exported with.
    pub fn mutation_indexes() -> (r: Vec<u64>)
        ensures
            r@ == seq![0u64, 4u64, 312u64, 624u64],
    {
        let mut r: Vec<u64> = Vec::new();
        r.push(0);
        r.push(4);
        r.push(312);
        r.push(624);
        assert(r@ =~= seq![0u64, 4u64, 312u64, 624u64]);
        r
    }
}

} // verus!

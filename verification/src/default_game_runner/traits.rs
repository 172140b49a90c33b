use vstd::prelude::*;

verus! {

/// Marks a type as an event that the game loop can post to itself.
pub trait UserEvent: PartialEq + Clone + Copy {

}

} // verus!

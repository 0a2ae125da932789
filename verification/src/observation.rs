//! What is known of a chassis from frame to frame.
use vstd::prelude::*;

verus! {

/// The velocity of the frame before, if there was one. Velocities are of a type that the caller
/// chooses.
#[derive(Debug)]
pub struct PreviousKinematicState<V> {
    pub velocity: Option<V>,
}

/// What a frame shows of a chassis.
#[derive(Debug)]
pub enum Observation<V> {
    /// There is no chassis.
    Lost,
    /// There is one, but nothing to compare it with: its acceleration counts as none.
    Steady,
    /// Its velocity changed from that of the frame before.
    Changed { before: V },
}

impl<V: Copy> PreviousKinematicState<V> {
    pub fn new() -> (r: Self)
        ensures
            r.velocity is None,
    {
        PreviousKinematicState { velocity: None }
    }

    /// Takes in the velocity of a frame. A frame without a chassis clears the history, and one in
    /// which no time has passed is not compared with the one before.
    pub fn observe(&mut self, velocity: Option<V>, time_passed: bool) -> (r: Observation<V>)
        ensures
            final(self).velocity == velocity,
            r == (match velocity {
                None => Observation::Lost,
                Some(_) => match old(self).velocity {
                    Some(before) if time_passed => Observation::Changed { before },
                    _ => Observation::Steady,
                },
            }),
    {
        let previous: Option<V> = self.velocity;
        self.velocity = velocity;
        if velocity.is_none() {
            return Observation::Lost;
        }
        match previous {
            Some(before) => {
                if time_passed {
                    Observation::Changed { before }
                } else {
                    Observation::Steady
                }
            },
            None => Observation::Steady,
        }
    }
}

} // verus!

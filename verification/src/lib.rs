//! Verified core of a Lorenz-attractor visualiser.
//!
//! The crate holds the parts of the visualiser whose behaviour is a matter of
//! discrete state: the bounded, chronologically ordered trail of visited
//! points, the simulator that advances it frame by frame, the projection of
//! the trail onto line segments, and the drag gestures that steer an orbit
//! camera. Coordinates and coefficients are type parameters: the library
//! moves such values around and never computes with them, so every contract
//! holds whatever numeric types a front end picks.
pub mod gesture;
pub mod simulator;
pub mod trail;

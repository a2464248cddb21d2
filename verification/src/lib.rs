//! A verified Galton board core: a triangular field of pins through which
//! particles fall, each making one fair left/right choice per row, together
//! with the accumulated statistics, the update scheduler that decouples
//! simulation cadence from the render cadence, and the derived display data.

pub mod pin_field;
pub mod scheduler;
pub mod simulation;
pub mod simulator;
pub mod stats;

//! A deterministic 2D n-body simulation engine.
//!
//! Bodies ("suns") move under mutual gravity and a weak centering pull,
//! and collide elastically. All physics is computed in fixed-point
//! arithmetic (see [`fx`]) so that every step is exactly specified and
//! reproducible: the same seed and the same tick count give bit-identical
//! states on every machine.

pub mod fx;
pub mod galaxy;
pub mod laws;
pub mod rng;
pub mod vec2;

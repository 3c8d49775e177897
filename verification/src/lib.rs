//! A lint core that detects filesystem paths built by interpolating a format
//! template into a path-buffer constructor, and synthesizes an equivalent
//! `Path::new(..).join(..)` expression when that rewrite is safe.
//!
//! The host compiler hands the library the decomposed format expansion as
//! plain values (literal fragments, argument spellings, interpolation
//! positions). The library classifies every seam around an interpolation
//! site, refuses to propose a replacement when any seam fuses an argument
//! into a literal path component, and otherwise renders the join expression.

pub mod analysis;
pub mod components;
pub mod laws;
pub mod seam;
pub mod suggestion;
pub mod template;

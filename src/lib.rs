//! Core of an epicycle visualiser: the decomposition of a sampled closed path
//! into rotating vectors, the chain of their partial sums, the bounded trail of
//! traced tips, the text format of input paths and the animation's decisions.
//!
//! Numeric work on complex values (trigonometry, quadrature, projection to
//! pixels) lives with the embedding program; the items here are generic over
//! the coefficient and point types and are proved for every choice of them.

pub mod animator;
pub mod epicycle;
pub mod file_loader;
pub mod trail;

pub use animator::{Animator, InputEvent, Phase};
pub use epicycle::{compute_epicycles, partial_sums, Epicycle};
pub use trail::Trail;
pub use file_loader::{extract_lines, extract_words, split_samples, LoadError, SampleText};

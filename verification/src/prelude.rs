//! The sanctioned import surface for consumers: the matcher protocol, the
//! capability marker, the provided matcher factories, and the check entry
//! point behind the public assertion macro.

pub use crate::assertions::check;
pub use crate::matcher::{Matcher, MatcherBase, MatcherResult};
pub use crate::matchers::eq_matcher::{eq, EqMatcher};

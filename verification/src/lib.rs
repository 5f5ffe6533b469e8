//! A structured-assertion library: an actual value is checked against a
//! composable matcher, and a failed check is reported through a multi-line,
//! indentation-aware explanation.

pub mod assertions;
pub mod description;
pub mod internal;
pub mod matcher;
pub mod matcher_support;
pub mod matchers;
pub mod prelude;

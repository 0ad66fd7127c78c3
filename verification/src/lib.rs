//! A composable value-matching and diagnostic-rendering library.
//!
//! A matcher decides whether an actual value meets a declarative
//! expectation and, on failure, explains why.  Combinators wrap inner
//! matchers without re-implementing their logic; diagnostic text is
//! accumulated in an indentable [`description::Description`] tree.

pub mod container_matcher;
pub mod count_elements;
pub mod decimal;
pub mod description;
pub mod edit_distance;
pub mod eq_matcher;
pub mod float_repr;
pub mod is_infinite_matcher;
pub mod match_matrix;
pub mod matcher;
pub mod ok_matcher;
pub mod points_to_matcher;
pub mod summarize_diff;
pub mod zipped_iterator;

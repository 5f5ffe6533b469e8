pub mod edit_distance;
pub mod summarize_diff;

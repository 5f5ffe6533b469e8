pub mod description_renderer;
pub mod test_outcome;

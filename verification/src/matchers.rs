pub mod eq_matcher;

//! Qualifies unresolved references: for a path or method call that does not
//! resolve, offers one fix per qualified path that would make it resolve,
//! each a single-range text substitution, all grouped under one label.

pub mod log_line;
pub mod mod_path;
pub mod qualify;
pub mod syntax_tree;
pub mod text_range;

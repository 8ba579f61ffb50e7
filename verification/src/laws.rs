//! What holds of every compilation that follows the lowering rules.

pub mod arguments;
pub mod data;
pub mod growth;
pub mod inline;
pub mod labels;
pub mod scopes;
pub mod slots;
pub mod stack;

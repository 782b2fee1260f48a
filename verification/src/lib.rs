pub mod definitions;
pub mod diagnostics;
pub mod nodes;
pub mod rules;
pub mod session;
pub mod tree;

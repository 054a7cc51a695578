//! A verified core for a terminal viewer of build diagnostics: grouping of
//! free-text build output, a diagnostic collection built from a structured
//! message stream, and the focus/expansion view state with its frame
//! computation.
pub mod diagnostics;
pub mod group;
pub mod renderer;
pub mod text;

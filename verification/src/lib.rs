//! The goto picker of a terminal workspace manager: it lists every
//! workspace, tab and agent pane, narrows the list by category and by a
//! fuzzy filter, moves a cursor over it and jumps to the chosen row.
pub mod goto;
pub mod keys;
pub mod laws;
pub mod model;
pub mod overlay;
pub mod picker_laws;
pub mod text;

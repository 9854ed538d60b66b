//! An outliner's editing core: a modal command grammar, cursor motions and
//! text objects over a rope buffer, and the outline tree they edit.

pub mod buffer;
pub mod chars;
pub mod scan;
pub mod text_object;
pub mod motion;
pub mod command;
pub mod model;
pub mod place;
pub mod presenter;
pub mod modes;
pub mod view_state;
pub mod laws;
pub mod editor;

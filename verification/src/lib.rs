//! A modal to-do list: an ordered list of items, a selection cursor, and two
//! interaction modes (browsing the list, or entering the text of a new item).
//! Every state transition is a pure function of the current state and one key
//! event, so the whole interaction model is verified here; the terminal loop
//! that feeds it events lives outside the library.

pub mod dispatch;
pub mod ordinal;
pub mod state;

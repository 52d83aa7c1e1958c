//! What the user sees, and what the keys do.

pub mod layout;
pub mod run;
pub mod screen;
pub mod state;
pub mod subscriber;
pub mod textbox;
pub mod timestamp;

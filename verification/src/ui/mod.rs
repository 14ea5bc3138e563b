//! User interface state: widgets' state and the screen layout.

pub mod layout;
pub mod widgets;

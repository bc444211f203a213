//! The decisions behind a taskbar for the Niri compositor: which windows a bar
//! shows and in what order, which buttons come and go with each snapshot, and
//! which windows a notification marks as urgent.
//!
//! Nothing here touches a widget, a socket or a process table. Functions take
//! what was observed as plain values and return what is to be done.

pub mod config;
pub mod instance;
pub mod layout;
pub mod notify;
pub mod output;
pub mod text;
pub mod window;

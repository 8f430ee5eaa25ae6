//! Debugging: the session with the debug adapter, and what the toolbar,
//! the console, the watch panel and the breakpoint gutter show of it.

pub mod breakpoint_gutter;
pub mod debug_console;
pub mod debug_toolbar;
pub mod session;
pub mod variables_panel;
pub mod watch_panel;

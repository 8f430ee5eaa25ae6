//! Pieces shared across the editor: input validation, the platform, input
//! events and shortcuts, dialogs, context menus, storage and the desktop
//! bridge's data.

pub mod context_menu;
pub mod dialogs;
pub mod event_handler;
pub mod events;
pub mod keyboard;
pub mod platform;
pub mod storage;
pub mod tauri_bridge;
pub mod validation;

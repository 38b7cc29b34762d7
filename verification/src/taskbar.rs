//! The taskbar: bar and menu geometry, the window list, the notification area
//! and the decisions of the bar window.
pub mod actions;
pub mod apps;
pub mod bar;
pub mod clock;
pub mod content;
pub mod follow;
pub mod iconload;
pub mod layout;
pub mod menu;
pub mod render;
pub mod startmenu;
pub mod tasks;
pub mod tray;
pub mod tray_host;
pub mod winlist;

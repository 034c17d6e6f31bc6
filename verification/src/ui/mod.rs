pub mod app;
pub mod colors;
pub mod keybindings;
pub mod theme;
pub mod views;

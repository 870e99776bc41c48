pub mod colors;
pub mod property_window;

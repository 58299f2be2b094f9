//! The logic of the Zervo chrome that needs no window: text trimming and
//! address handling, the navigation bar's items, and the wallpaper's sources,
//! credits and fetch schedule.

pub mod chars;
pub mod chrome;
pub mod sources;
pub mod text;
pub mod wallpaper;

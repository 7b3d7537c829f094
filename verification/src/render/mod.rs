pub mod theme;
pub mod overlay;

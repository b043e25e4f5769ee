//! Builds a desktop wallpaper from full-disk satellite imagery.

pub mod compose;
pub mod config;
pub mod disk;
pub mod mosaic;
pub mod poll;
pub mod raster;
pub mod resample;
pub mod slider;
pub mod wallpaper;

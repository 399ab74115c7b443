//! Fills the date and signature blanks of a PDF form.
pub mod text;
pub mod blank;
pub mod escape;
pub mod label;
pub mod ink;
pub mod date;
pub mod settings;
pub mod scan;
pub mod signature;
pub mod pages;
pub mod raster;
pub mod files;

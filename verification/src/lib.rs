//! Block-averaging ASCII rendering of grayscale images.
//!
//! A grayscale image is cut into blocks of a fixed width and height, the
//! samples of each block are averaged, and each average is drawn as one of ten
//! characters ordered by visual density.

pub mod luma;
pub mod density;
pub mod raster;
pub mod text;
pub mod laws;

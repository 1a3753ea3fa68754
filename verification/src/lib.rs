//! A perceptron that learns to tell two kinds of drawn shapes apart.
//!
//! Shapes are placed by a seeded stream of draws and rasterized onto a
//! grid of zeros and ones; a weight grid of the same size is corrected
//! sample by sample; the weights can be laid out as an image.

pub mod canvas;
pub mod cells;
pub mod classifier;
pub mod grid;
pub mod rasterizer;
pub mod shapes;
pub mod stream;
pub mod training;
pub mod visual;

//! Structural core of a small spiral-dataset classifier.
//!
//! The numeric pipeline (matrix arithmetic, softmax, gradients) works on
//! floating-point values and lives with the host around this crate; what is
//! verified here is everything the pipeline decides with integers: the shape
//! of a training session, the contiguous class partition of the dataset
//! labels, the discrete halves of the loss and of the gradient (which matrix
//! cell each reads or marks), the argmax rule that turns per-class scores
//! into predicted labels, the byte layout of the rendered prediction canvas,
//! and the owned byte buffer handed across the rendering boundary.

pub mod buffer;
pub mod canvas;
pub mod config;
pub mod dataset;
pub mod predict;

//! Fixed-step integration of a first-order ODE by Euler's method and the
//! explicit midpoint method, with the pieces of the chart presenter that
//! decide what is drawn and shown: the axis bounds, the pixel buffer handed to
//! the window, and the display loop's exit rule.
pub mod bounds;
pub mod frame;
pub mod integrate;
pub mod viewer;

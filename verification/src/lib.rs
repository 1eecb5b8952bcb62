//! The structure of an RGB-to-spectrum coefficient table: its layout and its
//! scale axis, the order in which its cells are fitted, the iteration and the
//! pivoting of the solver that fits them, and the search and the blend that
//! read the table back. The arithmetic on colours and spectra is the
//! caller's: it is handed in as functions.
pub mod fit;
pub mod gamut;
pub mod generator;
pub mod interval;
pub mod layout;
pub mod lookup;
pub mod math;
pub mod pivot;
pub mod quadrature;
pub mod scale;
pub mod scene;
pub mod shader;
pub mod sweep;

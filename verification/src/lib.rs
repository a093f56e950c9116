//! A parser for plain-text SLAM logs: camera poses with their labels and
//! pixels, free-standing points and one intrinsic matrix, told apart line by
//! line by a state machine.

pub mod classify;
pub mod classify_proofs;
pub mod data;
pub mod error;
pub mod laws;
pub mod machine;
pub mod number;
pub mod parser;
pub mod scan;
pub mod scan_proofs;

pub use classify::LineReading;
pub use data::{CameraWithPoints, SlamData};
pub use error::ParserError;
pub use parser::{Parser, ParserState};

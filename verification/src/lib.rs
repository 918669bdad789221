//! A single-pass floor planner: it places the regions and lookup tables of
//! an arithmetic circuit into rows of the circuit's columns, in program
//! order, and forwards every elementary operation to a constraint-system
//! sink.

pub mod batch;
pub mod cell;
pub mod column;
pub mod constants;
pub mod error;
pub mod placement;
pub mod recorder;
pub mod region;
pub mod shape;
pub mod single_pass;
pub mod sink;
pub mod table;

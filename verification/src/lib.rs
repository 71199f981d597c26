//! Disk-usage scanning, cache detection and safe cleaning: the decision
//! logic, stated and proved.

use vstd::prelude::*;

pub mod cleaner;
pub mod cli;
pub mod detectors;
pub mod gradle_order;
pub mod input_laws;
pub mod laws;
pub mod model;
pub mod paths;
pub mod scanner;
pub mod text;

verus! {

} // verus!

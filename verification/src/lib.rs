//! Demand curves over time: fitting a series of demand readings into a time
//! window, turning readings into the corners of a step line, and the rules by
//! which the demand-curve page resolves its data source and reports what it did.

pub mod timestamp;
pub mod fit;
pub mod series;
pub mod text;
pub mod page;

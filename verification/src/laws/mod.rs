//! What holds of the library as a whole: statements about all inputs, each
//! proved from the contracts of the functions it speaks of.

pub mod codec;
pub mod parsing;
pub mod scheduling;
pub mod serving;

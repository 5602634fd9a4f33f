//! Storage of the precompiles: slots and mappings, packing of values into slots, and the
//! layouts of byte strings, fixed-size and dynamic arrays, and enumerable sets.

pub mod array;
pub mod bytes_like;
pub mod elements;
pub mod evm;
pub mod mapping;
pub mod packing;
pub mod set;
pub mod slots;
pub mod vec;

pub mod interface;
pub mod laws;
pub mod object;
pub mod vtable;

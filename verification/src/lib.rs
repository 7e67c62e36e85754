pub mod terms;
pub mod partial;
pub mod isa_check;

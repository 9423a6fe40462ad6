pub mod opcode;
pub mod display;
pub mod cpu;
pub mod model;
pub mod laws;

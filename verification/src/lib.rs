pub mod bus;
pub mod cpu;
pub mod gpu;
pub mod machine;
pub mod memory;
pub mod ram;
pub mod rom;
pub mod wordcpu;

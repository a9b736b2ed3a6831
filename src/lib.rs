pub mod cpu;
pub mod display;
pub mod keypad;
pub mod mmu;
pub mod timing;

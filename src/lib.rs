//! A small bytecode interpreter in the style of CHIP-8, and a compositor that
//! flattens a grid of sprite tiles into one raster-ordered framebuffer.

pub mod error;
pub mod cpu;
pub mod graphics;

pub use error::EmuError;
pub use cpu::{
    decode, CpuModel, Flow, Instruction, Outcome, CPU, FLAG_REGISTER, MEMORY_SIZE, REGISTER_COUNT,
    STACK_SIZE,
};
pub use graphics::{
    Config, GameBoy, Pixel, Sprite, CHANNELS, MAP_HEIGHT, MAP_WIDTH, SCREEN_HEIGHT, SCREEN_WIDTH,
    SPRITE_HEIGHT, SPRITE_WIDTH,
};

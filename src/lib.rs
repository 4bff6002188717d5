pub mod clock;
pub mod encoder;
pub mod framebuffer;
pub mod menu;
pub mod screens;
pub mod text;

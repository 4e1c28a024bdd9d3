pub mod framebuffer;
pub mod render;
pub mod text;
pub mod game;
pub mod screens;
pub mod screen;
pub mod maze;
pub mod input;
pub mod textures;
pub mod audio;

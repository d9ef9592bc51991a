pub mod binpack;
pub mod messages;
pub mod mapfile;
pub mod weapons;
pub mod anims;
pub mod control;
pub mod physics;
pub mod networking;
pub mod server;
pub mod debug;
pub mod render;
pub mod game;
pub mod world;
pub mod spritesheet;
pub mod animfile;
pub mod parts;

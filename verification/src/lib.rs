pub mod assets;
pub mod collections;
pub mod game;
pub mod io;
pub mod text;
pub mod utils;

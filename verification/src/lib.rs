pub mod game;
pub mod letter_pool;
pub mod text;
